use agentcoderepo::format::{ContentNeg, Format, TextFormat};
use agentcoderepo::issues::{
    check_issue_update, create_changeset_comment, create_commit_comment, create_issue,
    create_issue_comment, default_status_filter, list_issues, update_issue, CommentList,
    CommentResponse, CommentTarget, CreateComment, CreateIssue, IssueList, IssuePath, IssueRow,
    ListIssuesParams, RepoPath, UpdateIssue,
};
use agentcoderepo::index::hex_sha256;
use agentcoderepo::requests::{
    create_request, list_requests, request_embedding, search_requests, update_request,
    update_request_target, CreateRequest, ListRequestsParams, RequestList, RequestResponse,
    RequestRow, SearchRequest, SearchResultItem, SearchResults, UpdateRequest,
};
use agentcoderepo::search::{
    search_by_type, search_semantic, type_search_response, FoundFunction, SearchResponse,
    SearchResult, TypeSearchRequest,
};
use agentcoderepo::status::Status;

fn s(x: &str) -> String {
    x.to_string()
}

fn repo_path() -> RepoPath {
    RepoPath { owner: s("alice"), repo: s("lib") }
}

fn issue(title: &str) -> CreateIssue {
    CreateIssue { title: s(title), body: s("it breaks") }
}

#[test]
fn issue_is_opened() {
    let open = |title: &str, repo: Option<&str>| {
        create_issue(repo_path(), issue(title), repo.map(s), s("i1"), s("b"), s("bob"))
    };
    let (row, response) = open("bug", Some("r1")).unwrap();
    assert_eq!((row.repo_id.as_str(), row.author_id.as_str()), ("r1", "b"));
    assert_eq!(response.status, default_status_filter());
    assert_eq!(response.to_text(), "[open] alice/lib #i1\n  bug\n  by bob | 0 comments\n");
    assert_eq!(open("", Some("r1")).err(), Some(Status::BadRequest));
    assert_eq!(open("bug", None).err(), Some(Status::NotFound));
    assert_eq!(IssueList(vec![]).to_text(), "(no issues)\n");
}

fn issue_row() -> Option<IssueRow> {
    Some(IssueRow {
        id: s("i1"),
        author_id: s("b"),
        author_name: s("bob"),
        title: s("bug"),
        body: s("it breaks"),
        created_at: s("today"),
        comment_count: 1,
    })
}

#[test]
fn author_closes_an_issue() {
    let path = || IssuePath { owner: s("alice"), repo: s("lib"), issue_id: s("i1") };
    let to = |x: &str| UpdateIssue { status: s(x) };
    let response = update_issue(path(), to("closed"), issue_row(), "b").unwrap();
    assert_eq!(response.to_text(), "[closed] alice/lib #i1\n  bug\n  by bob | 1 comment\n");
    assert_eq!(update_issue(path(), to("closed"), issue_row(), "x").err(), Some(Status::Forbidden));
    assert_eq!(update_issue(path(), to("closed"), None, "b").err(), Some(Status::NotFound));
    assert_eq!(update_issue(path(), to("gone"), issue_row(), "b").err(), Some(Status::BadRequest));
    assert!(check_issue_update(&to("open")).is_ok());
    assert_eq!(check_issue_update(&to("all")).err(), Some(Status::BadRequest));
    let by = |x: &str| list_issues(&ListIssuesParams { status: s(x) });
    assert_eq!(by("open").unwrap().as_deref(), Some("open"));
    assert_eq!(by("all").unwrap(), None);
    assert_eq!(by("gone").err(), Some(Status::BadRequest));
}

#[test]
fn comments_know_their_target() {
    let body = |x: &str| CreateComment { body: s(x) };
    let (row, response) =
        create_issue_comment(body("yes"), Some(s("i1")), s("c1"), s("b"), s("bob")).unwrap();
    assert!(matches!(row.target, CommentTarget::Issue(id) if id == "i1"));
    assert_eq!(response.body, "yes");
    let (row, _) =
        create_commit_comment(body("yes"), Some(s("r1")), s("sha"), s("c1"), s("b"), s("bob"))
            .unwrap();
    assert!(matches!(row.target, CommentTarget::Commit { repo_id, sha }
        if repo_id == "r1" && sha == "sha"));
    let (row, _) =
        create_changeset_comment(body("yes"), Some(s("x1")), s("c1"), s("b"), s("bob")).unwrap();
    assert!(matches!(row.target, CommentTarget::Changeset(id) if id == "x1"));
    assert_eq!(
        create_issue_comment(body(""), Some(s("i1")), s("c1"), s("b"), s("bob")).err(),
        Some(Status::BadRequest)
    );
    assert_eq!(
        create_commit_comment(body("yes"), None, s("sha"), s("c1"), s("b"), s("bob")).err(),
        Some(Status::NotFound)
    );
    assert_eq!(CommentList(vec![]).to_text(), "(no comments)\n");
    let list = CommentList(vec![CommentResponse {
        id: s("c1"),
        author_name: s("bob"),
        body: s("yes"),
        created_at: s("today"),
    }]);
    assert_eq!(list.to_text(), "bob (today): yes\n");
}

#[test]
fn request_is_made() {
    let body = |t: &str| CreateRequest { title: s(t), body: s("please") };
    let (row, response) = create_request(body("sort"), s("q1"), s("b"), s("bob")).unwrap();
    assert_eq!(row.author_id, "b");
    assert_eq!(response.to_text(), "[open] sort\n  please\n  by bob\n");
    assert_eq!(create_request(body(""), s("q1"), s("b"), s("bob")).err(), Some(Status::BadRequest));
    let (text, hash) = request_embedding(&body("sort"));
    assert_eq!(text, "Request: sort\n\nplease");
    assert_eq!(hash, hex_sha256("Request: sort\n\nplease"));
    assert_eq!(RequestList(vec![]).to_text(), "(no requests)\n");
    let by = |x: &str| list_requests(&ListRequestsParams { status: s(x) });
    assert_eq!(by("fulfilled").unwrap().as_deref(), Some("fulfilled"));
    assert_eq!(by("all").unwrap(), None);
    assert_eq!(by("lost").err(), Some(Status::BadRequest));
}

fn request_row() -> RequestRow {
    RequestRow {
        id: s("q1"),
        author_id: s("b"),
        author_name: s("bob"),
        title: s("sort"),
        body: s("please"),
        created_at: s("today"),
    }
}

#[test]
fn request_is_fulfilled_by_a_repo() {
    let update = |status: &str, by: Option<&str>| UpdateRequest {
        status: s(status),
        fulfilled_by: by.map(s),
    };
    let target = |u: &UpdateRequest, agent: &str| {
        update_request_target(u, &Some(request_row()), agent)
    };
    assert_eq!(
        target(&update("fulfilled", Some("alice/lib/x")), "b").unwrap(),
        Some((s("alice"), s("lib/x")))
    );
    assert_eq!(target(&update("fulfilled", None), "b").unwrap(), None);
    assert_eq!(target(&update("closed", Some("junk")), "b").unwrap(), None);
    assert_eq!(target(&update("fulfilled", Some("lib")), "b").err(), Some(Status::BadRequest));
    assert_eq!(target(&update("done", None), "b").err(), Some(Status::BadRequest));
    assert_eq!(target(&update("closed", None), "x").err(), Some(Status::Forbidden));
    assert_eq!(
        update_request_target(&update("closed", None), &None, "b").err(),
        Some(Status::NotFound)
    );
    let (stored, response) = update_request(
        update("fulfilled", Some("alice/lib")),
        request_row(),
        true,
        Some(s("r1")),
    )
    .unwrap();
    assert_eq!(stored.as_deref(), Some("r1"));
    assert_eq!(response.to_text(), "[fulfilled] sort -> alice/lib\n  please\n  by bob\n");
    assert_eq!(
        update_request(update("fulfilled", Some("alice/no")), request_row(), true, None).err(),
        Some(Status::NotFound)
    );
    let (stored, _) = update_request(update("closed", None), request_row(), false, None).unwrap();
    assert_eq!(stored, None);
}

#[test]
fn type_search_goes_by_canonical_form() {
    let key = |q: &str| {
        search_by_type(
            &TypeSearchRequest { query: s(q), limit: 20 },
            Some(s("forall t0. Ord t0 => List t0 -> List t0")),
        )
    };
    assert_eq!(
        key("forall a. Ord a => List a -> List a"),
        key("forall x. Ord x => List x -> List x")
    );
    let found = |name: &str, language: &str| FoundFunction {
        repo_id: s("r1"),
        owner_name: s("alice"),
        repo_name: s("lib"),
        file_path: s("sort"),
        language: s(language),
        function_name: s(name),
        type_signature: s("forall a. Ord a => List a -> List a"),
        description: s("Sorts"),
    };
    let response = type_search_response(vec![found("sort", "rust"), found("sorted", "python")]);
    let names: Vec<&str> = response.results.iter().map(|r| r.function_name.as_str()).collect();
    assert_eq!(names, vec!["sort", "sorted"]);
    assert!(response.results.iter().all(|r| r.distance.is_none()));
    assert_eq!(response.results[1].language, "python");
    assert_eq!(response.results[1].description, "Sorts");
    assert!(type_search_response(vec![]).results.is_empty());
}

#[test]
fn search_results_are_shown() {
    let query = |q: &str| SearchRequest { query: s(q), limit: 5 };
    assert!(search_requests(&query("sort")).is_ok());
    assert_eq!(search_requests(&query("")).err(), Some(Status::BadRequest));
    let item = |distance: Option<&str>| SearchResultItem {
        request: RequestResponse {
            id: s("q1"),
            author_name: s("bob"),
            title: s("sort"),
            body: s("please"),
            status: s("open"),
            fulfilled_by: None,
            created_at: s("today"),
        },
        distance: distance.map(s),
    };
    assert_eq!(SearchResults(vec![]).to_text(), "(no results)\n");
    assert_eq!(
        SearchResults(vec![item(Some("0.1200")), item(None)]).to_text(),
        "[open] sort\n  please\n  by bob (distance: 0.1200)\n[open] sort\n  please\n  by bob\n"
    );
    let result = |language: &str, distance: Option<&str>, description: &str| SearchResult {
        repo_id: s("r1"),
        owner_name: s("alice"),
        repo_name: s("lib"),
        file_path: s("a.rs"),
        language: s(language),
        function_name: s("sort"),
        type_signature: s("Int -> Int"),
        description: s(description),
        distance: distance.map(s),
    };
    assert_eq!(SearchResponse { results: vec![] }.to_text(), "(no results)\n");
    assert_eq!(
        SearchResponse { results: vec![result("rust", Some("0.5000"), "Sorts"), result("", None, "")] }
            .to_text(),
        "sort  alice/lib:a.rs  [rust]  dist=0.5000\n  Int -> Int\n  Sorts\n\nsort  alice/lib:a.rs\n  Int -> Int\n"
    );
    let typed = TypeSearchRequest { query: s("x -> x"), limit: 5 };
    assert_eq!(search_by_type(&typed, Some(s("a -> a"))), "a -> a");
    assert_eq!(search_by_type(&typed, None), "x -> x");
    assert_eq!(search_semantic(Some(1)), Ok(0));
    assert_eq!(search_semantic(Some(0)), Err(Status::InternalServerError));
    assert_eq!(search_semantic(None), Err(Status::InternalServerError));
}

#[test]
fn accept_header_picks_the_format() {
    assert_eq!(ContentNeg::from_accept(Some("text/plain, */*")).0, Format::Text);
    assert_eq!(ContentNeg::from_accept(Some("application/json")).0, Format::Json);
    assert_eq!(ContentNeg::from_accept(None).0, Format::Json);
    let answer = ContentNeg(Format::Text).created(IssueList(vec![]));
    assert_eq!(answer.status, Status::Created);
    assert_eq!(answer.text_body().as_deref(), Some("(no issues)\n"));
    let answer = ContentNeg(Format::Json).ok(IssueList(vec![]));
    assert_eq!(answer.status.code(), 200);
    assert_eq!(answer.text_body(), None);
}
