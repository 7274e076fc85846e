//! Issues and comments.

use vstd::prelude::*;
use vstd::string::*;
use crate::format::{all_render, list_text, render_list, TextFormat};
use crate::status::{filter_of, filter_view, found, given, status_filter, Status};
use crate::text::{
    dec_int, i64_text, lemma_ended_line, same_text, split, texts,
};

verus! {

// ---------------------------------------------------------------------------
// Types
// ---------------------------------------------------------------------------

#[derive(Debug)]
pub struct IssuePath {
    pub owner: String,
    pub repo: String,
    pub issue_id: String,
}

#[derive(Debug)]
pub struct CommitPath {
    pub owner: String,
    pub repo: String,
    pub sha: String,
}

#[derive(Debug)]
pub struct RepoPath {
    pub owner: String,
    pub repo: String,
}

#[derive(Debug)]
pub struct ChangesetCommentPath {
    pub owner: String,
    pub repo: String,
    pub changeset_id: String,
}

#[derive(Debug)]
pub struct CreateIssue {
    pub title: String,
    pub body: String,
}

#[derive(Debug)]
pub struct UpdateIssue {
    pub status: String,
}

#[derive(Debug)]
pub struct ListIssuesParams {
    pub status: String,
}

pub fn default_status_filter() -> (r: String)
    ensures
        r@ == "open"@,
{
    String::from_str("open")
}

pub struct IssueResponse {
    pub id: String,
    pub repo_owner: String,
    pub repo_name: String,
    pub author_name: String,
    pub title: String,
    pub body: String,
    pub status: String,
    pub comment_count: i64,
    pub created_at: String,
    pub updated_at: String,
}

/// What an answer about an issue says.
#[verifier::ext_equal]
pub struct IssueResponseView {
    pub id: Seq<char>,
    pub repo_owner: Seq<char>,
    pub repo_name: Seq<char>,
    pub author_name: Seq<char>,
    pub title: Seq<char>,
    pub body: Seq<char>,
    pub status: Seq<char>,
    pub created_at: Seq<char>,
    pub updated_at: Seq<char>,
    pub comment_count: int,
}

impl View for IssueResponse {
    type V = IssueResponseView;

    open spec fn view(&self) -> IssueResponseView {
        IssueResponseView {
            id: self.id@,
            repo_owner: self.repo_owner@,
            repo_name: self.repo_name@,
            author_name: self.author_name@,
            title: self.title@,
            body: self.body@,
            status: self.status@,
            created_at: self.created_at@,
            updated_at: self.updated_at@,
            comment_count: self.comment_count as int,
        }
    }
}

impl TextFormat for IssueResponse {
    open spec fn text(&self) -> Seq<char> {
        "["@ + self.status@ + "] "@ + self.repo_owner@ + "/"@ + self.repo_name@ + " #"@ + self.id@ + "\n  "@ + self.title@ + "\n  by "@ + self.author_name@ + " | "@ + dec_int(self.comment_count as int) + " comment"@ + (if self.comment_count == 1 {
            ""@
        } else {
            "s"@
        }) + "\n"@
    }

    open spec fn renders(&self) -> bool {
        true
    }

    fn to_text(&self) -> (r: String) {
        let mut s = String::from_str("[");
        s.append(self.status.as_str());
        s.append("] ");
        s.append(self.repo_owner.as_str());
        s.append("/");
        s.append(self.repo_name.as_str());
        s.append(" #");
        s.append(self.id.as_str());
        s.append("\n  ");
        s.append(self.title.as_str());
        s.append("\n  by ");
        s.append(self.author_name.as_str());
        s.append(" | ");
        s.append(i64_text(self.comment_count).as_str());
        s.append(" comment");
        s.append(if self.comment_count == 1 {
                ""
            } else {
                "s"
            });
        s.append("\n");
        s
    }
}

pub struct IssueList(pub Vec<IssueResponse>);

impl TextFormat for IssueList {
    open spec fn text(&self) -> Seq<char> {
        list_text(self.0@, "(no issues)\n"@)
    }

    open spec fn renders(&self) -> bool {
        all_render(self.0@)
    }

    fn to_text(&self) -> (r: String) {
        render_list(&self.0, "(no issues)\n")
    }
}

#[derive(Debug)]
pub struct CreateComment {
    pub body: String,
}

pub struct CommentResponse {
    pub id: String,
    pub author_name: String,
    pub body: String,
    pub created_at: String,
}

impl TextFormat for CommentResponse {
    open spec fn text(&self) -> Seq<char> {
        self.author_name@ + " ("@ + self.created_at@ + "): "@ + self.body@ + "\n"@
    }

    open spec fn renders(&self) -> bool {
        true
    }

    fn to_text(&self) -> (r: String) {
        let mut s = String::from_str(self.author_name.as_str());
        s.append(" (");
        s.append(self.created_at.as_str());
        s.append("): ");
        s.append(self.body.as_str());
        s.append("\n");
        s
    }
}

pub struct CommentList(pub Vec<CommentResponse>);

impl TextFormat for CommentList {
    open spec fn text(&self) -> Seq<char> {
        list_text(self.0@, "(no comments)\n"@)
    }

    open spec fn renders(&self) -> bool {
        all_render(self.0@)
    }

    fn to_text(&self) -> (r: String) {
        render_list(&self.0, "(no comments)\n")
    }
}

// ---------------------------------------------------------------------------
// Issues
// ---------------------------------------------------------------------------

/// An issue as it is stored when it is opened.
#[derive(Debug)]
pub struct NewIssue {
    pub id: String,
    pub repo_id: String,
    pub author_id: String,
    pub title: String,
    pub body: String,
}

/// Open an issue. It has to have a title, and the repository has to exist.
pub fn create_issue(
    path: RepoPath,
    body: CreateIssue,
    repo_id: Option<String>,
    id: String,
    author_id: String,
    author_name: String,
) -> (r: Result<(NewIssue, IssueResponse), Status>)
    ensures
        if body.title@.len() == 0 {
            r matches Err(e) && e == Status::BadRequest
        } else {
            match repo_id {
                None => r matches Err(e) && e == Status::NotFound,
                Some(repo) => r matches Ok(p) && {
                    &&& p.0 == (NewIssue {
                        id,
                        repo_id: repo,
                        author_id,
                        title: body.title,
                        body: body.body,
                    })
                    &&& p.1@ == (IssueResponseView {
                        id: id@,
                        repo_owner: path.owner@,
                        repo_name: path.repo@,
                        author_name: author_name@,
                        title: body.title@,
                        body: body.body@,
                        status: "open"@,
                        comment_count: 0,
                        created_at: seq![],
                        updated_at: seq![],
                    })
                },
            }
        },
{
    match given(body.title.as_str()) {
        Ok(_) => {},
        Err(e) => {
            return Err(e);
        },
    }
    match found(repo_id) {
        Err(e) => Err(e),
        Ok(repo_id) => {
            let row = NewIssue {
                id: id.clone(),
                repo_id,
                author_id,
                title: body.title.clone(),
                body: body.body.clone(),
            };
            let response = IssueResponse {
                id,
                repo_owner: path.owner,
                repo_name: path.repo,
                author_name,
                title: body.title,
                body: body.body,
                status: String::from_str("open"),
                comment_count: 0,
                created_at: String::new(),
                updated_at: String::new(),
            };
            Ok((row, response))
        },
    }
}

/// The statuses of an issue.
pub open spec fn issue_statuses() -> Seq<Seq<char>> {
    seq!["open"@, "closed"@]
}

/// The status by which a list of issues is filtered.
pub fn list_issues(params: &ListIssuesParams) -> (r: Result<Option<String>, Status>)
    ensures
        filter_view(r) == filter_of(params.status@, issue_statuses()),
{
    let mut statuses: Vec<String> = Vec::new();
    statuses.push(String::from_str("open"));
    statuses.push(String::from_str("closed"));
    proof {
        assert(texts(statuses@) =~= issue_statuses());
    }
    status_filter(params.status.as_str(), &statuses)
}

/// An issue as it is stored.
#[derive(Debug)]
pub struct IssueRow {
    pub id: String,
    pub author_id: String,
    pub author_name: String,
    pub title: String,
    pub body: String,
    pub created_at: String,
    pub comment_count: i64,
}

/// A new status of an issue, which has to be one that exists.
pub fn check_issue_update(body: &UpdateIssue) -> (r: Result<(), Status>)
    ensures
        match r {
            Ok(_) => issue_statuses().contains(body.status@),
            Err(e) => !issue_statuses().contains(body.status@) && e == Status::BadRequest,
        },
{
    proof {
        assert(issue_statuses()[0] == "open"@ && issue_statuses()[1] == "closed"@);
    }
    if !same_text(body.status.as_str(), "open") && !same_text(body.status.as_str(), "closed") {
        Err(Status::BadRequest)
    } else {
        Ok(())
    }
}

/// Open or close an issue, which has to exist. Only its author may.
pub fn update_issue(path: IssuePath, body: UpdateIssue, row: Option<IssueRow>, agent_id: &str) -> (r:
    Result<IssueResponse, Status>)
    ensures
        if !issue_statuses().contains(body.status@) {
            r matches Err(e) && e == Status::BadRequest
        } else {
            match row {
                None => r matches Err(e) && e == Status::NotFound,
                Some(i) => if i.author_id@ != agent_id@ {
                    r matches Err(e) && e == Status::Forbidden
                } else {
                    r matches Ok(a) && a@ == (IssueResponseView {
                        id: i.id@,
                        repo_owner: path.owner@,
                        repo_name: path.repo@,
                        author_name: i.author_name@,
                        title: i.title@,
                        body: i.body@,
                        status: body.status@,
                        comment_count: i.comment_count as int,
                        created_at: i.created_at@,
                        updated_at: seq![],
                    })
                },
            }
        },
{
    match check_issue_update(&body) {
        Ok(_) => {},
        Err(e) => {
            return Err(e);
        },
    }
    match row {
        None => Err(Status::NotFound),
        Some(i) => {
            if !same_text(i.author_id.as_str(), agent_id) {
                return Err(Status::Forbidden);
            }
            Ok(
                IssueResponse {
                    id: i.id,
                    repo_owner: path.owner,
                    repo_name: path.repo,
                    author_name: i.author_name,
                    title: i.title,
                    body: i.body,
                    status: body.status,
                    comment_count: i.comment_count,
                    created_at: i.created_at,
                    updated_at: String::new(),
                },
            )
        },
    }
}

// ---------------------------------------------------------------------------
// Comments
// ---------------------------------------------------------------------------

/// What a comment is on.
#[derive(Debug)]
pub enum CommentTarget {
    Issue(String),
    Commit { repo_id: String, sha: String },
    Changeset(String),
}

/// What a target says.
pub enum TargetView {
    Issue(Seq<char>),
    Commit { repo_id: Seq<char>, sha: Seq<char> },
    Changeset(Seq<char>),
}

impl View for CommentTarget {
    type V = TargetView;

    open spec fn view(&self) -> TargetView {
        match self {
            CommentTarget::Issue(id) => TargetView::Issue(id@),
            CommentTarget::Commit { repo_id, sha } => TargetView::Commit {
                repo_id: repo_id@,
                sha: sha@,
            },
            CommentTarget::Changeset(id) => TargetView::Changeset(id@),
        }
    }
}

/// A comment as it is stored when it is made.
#[derive(Debug)]
pub struct NewComment {
    pub id: String,
    pub author_id: String,
    pub body: String,
    pub target: CommentTarget,
}

/// What a stored comment says.
#[verifier::ext_equal]
pub struct CommentRecord {
    pub id: Seq<char>,
    pub author_id: Seq<char>,
    pub body: Seq<char>,
    pub target: TargetView,
}

impl View for NewComment {
    type V = CommentRecord;

    open spec fn view(&self) -> CommentRecord {
        CommentRecord {
            id: self.id@,
            author_id: self.author_id@,
            body: self.body@,
            target: self.target@,
        }
    }
}

/// Whether a comment is made, or why it is not: it has to have a body, and its target has to exist.
pub open spec fn comment_made(
    r: Result<(NewComment, CommentResponse), Status>,
    body: Seq<char>,
    target: Option<TargetView>,
    id: Seq<char>,
    author_id: Seq<char>,
    author_name: Seq<char>,
) -> bool {
    if body.len() == 0 {
        r matches Err(e) && e == Status::BadRequest
    } else {
        match target {
            None => r matches Err(e) && e == Status::NotFound,
            Some(t) => r matches Ok(p) && {
                &&& p.0@ == (CommentRecord { id, author_id, body, target: t })
                &&& p.1.id@ == id
                &&& p.1.author_name@ == author_name
                &&& p.1.body@ == body
                &&& p.1.created_at@ == Seq::<char>::empty()
            },
        }
    }
}

pub open spec fn target_view(t: Option<CommentTarget>) -> Option<TargetView> {
    match t {
        Some(c) => Some(c@),
        None => None,
    }
}

fn create_comment(
    body: CreateComment,
    target: Option<CommentTarget>,
    id: String,
    author_id: String,
    author_name: String,
) -> (r: Result<(NewComment, CommentResponse), Status>)
    ensures
        comment_made(r, body.body@, target_view(target), id@, author_id@, author_name@),
{
    match given(body.body.as_str()) {
        Ok(_) => {},
        Err(e) => {
            return Err(e);
        },
    }
    match found(target) {
        Err(e) => Err(e),
        Ok(target) => {
            let row = NewComment { id: id.clone(), author_id, body: body.body.clone(), target };
            let response = CommentResponse {
                id,
                author_name,
                body: body.body,
                created_at: String::new(),
            };
            Ok((row, response))
        },
    }
}

/// Comment on an issue.
pub fn create_issue_comment(
    body: CreateComment,
    issue_id: Option<String>,
    id: String,
    author_id: String,
    author_name: String,
) -> (r: Result<(NewComment, CommentResponse), Status>)
    ensures
        comment_made(
            r,
            body.body@,
            match issue_id {
                Some(i) => Some(TargetView::Issue(i@)),
                None => None,
            },
            id@,
            author_id@,
            author_name@,
        ),
{
    let target = match issue_id {
        Some(i) => Some(CommentTarget::Issue(i)),
        None => None,
    };
    create_comment(body, target, id, author_id, author_name)
}

/// Comment on a commit, which need not exist; its repository has to.
pub fn create_commit_comment(
    body: CreateComment,
    repo_id: Option<String>,
    sha: String,
    id: String,
    author_id: String,
    author_name: String,
) -> (r: Result<(NewComment, CommentResponse), Status>)
    ensures
        comment_made(
            r,
            body.body@,
            match repo_id {
                Some(i) => Some(TargetView::Commit { repo_id: i@, sha: sha@ }),
                None => None,
            },
            id@,
            author_id@,
            author_name@,
        ),
{
    let target = match repo_id {
        Some(i) => Some(CommentTarget::Commit { repo_id: i, sha }),
        None => None,
    };
    create_comment(body, target, id, author_id, author_name)
}

/// Comment on a changeset.
pub fn create_changeset_comment(
    body: CreateComment,
    changeset_id: Option<String>,
    id: String,
    author_id: String,
    author_name: String,
) -> (r: Result<(NewComment, CommentResponse), Status>)
    ensures
        comment_made(
            r,
            body.body@,
            match changeset_id {
                Some(i) => Some(TargetView::Changeset(i@)),
                None => None,
            },
            id@,
            author_id@,
            author_name@,
        ),
{
    let target = match changeset_id {
        Some(i) => Some(CommentTarget::Changeset(i)),
        None => None,
    };
    create_comment(body, target, id, author_id, author_name)
}

/// The comments on a target, in the order in which they were made.
pub open spec fn comments_on(cs: Seq<CommentRecord>, target: TargetView) -> Seq<CommentRecord>
    decreases cs.len(),
{
    if cs.len() == 0 {
        seq![]
    } else if cs.last().target == target {
        comments_on(cs.drop_last(), target).push(cs.last())
    } else {
        comments_on(cs.drop_last(), target)
    }
}

/// A comment is shown last among those of its own target, and nowhere else: comments on different
/// issues, commits and changesets are kept apart.
pub proof fn law_comments_are_kept_apart(
    cs: Seq<CommentRecord>,
    c: CommentRecord,
    other: TargetView,
)
    requires
        other != c.target,
    ensures
        comments_on(cs.push(c), c.target) == comments_on(cs, c.target).push(c),
        comments_on(cs.push(c), other) == comments_on(cs, other),
{
    assert(cs.push(c).drop_last() =~= cs);
}

/// A comment that was made says what was sent: it is stored under its identifier with its author, its
/// body and what it is about, and answered with the same. One that says nothing, or is about nothing,
/// is not made, and nothing but that stops it.
pub proof fn law_comment_says_what_was_sent(
    r: Result<(NewComment, CommentResponse), Status>,
    body: Seq<char>,
    target: Option<TargetView>,
    id: Seq<char>,
    author_id: Seq<char>,
    author_name: Seq<char>,
)
    requires
        comment_made(r, body, target, id, author_id, author_name),
    ensures
        r is Ok <==> body.len() > 0 && target is Some,
        r matches Ok(p) ==> {
            &&& p.0@.id == id && p.1.id@ == id
            &&& p.0@.author_id == author_id && p.1.author_name@ == author_name
            &&& p.0@.body == body && p.1.body@ == body
            &&& Some(p.0@.target) == target
        },
        r matches Err(e) ==> e == (if body.len() == 0 {
            Status::BadRequest
        } else {
            Status::NotFound
        }),
{
}

/// An issue is open or closed, and nothing else.
pub proof fn law_issues_are_open_or_closed(status: Seq<char>)
    ensures
        issue_statuses().contains(status) <==> status == "open"@ || status == "closed"@,
{
    assert(issue_statuses()[0] == "open"@ && issue_statuses()[1] == "closed"@);
}

proof fn lemma_comments_on(a: Seq<CommentRecord>, b: Seq<CommentRecord>, target: TargetView)
    ensures
        comments_on(a + b, target) == comments_on(a, target) + comments_on(b, target),
    decreases b.len(),
{
    if b.len() == 0 {
        assert(a + b =~= a);
        assert(comments_on(a, target) + comments_on(b, target) =~= comments_on(a, target));
    } else {
        lemma_comments_on(a, b.drop_last(), target);
        assert((a + b).drop_last() =~= a + b.drop_last());
        assert(comments_on(a + b, target) =~= comments_on(a, target) + comments_on(b, target));
    }
}

/// All comments on a thing are found, in the order in which they were made.
pub proof fn law_all_comments_are_found(
    a: Seq<CommentRecord>,
    b: Seq<CommentRecord>,
    target: TargetView,
)
    ensures
        comments_on(a + b, target) == comments_on(a, target) + comments_on(b, target),
{
    lemma_comments_on(a, b, target);
}

/// What a value says in contracts is what its fields say, each in its own place.
pub proof fn law_views_show_every_field(
    issue_response: IssueResponse,
    comment_target: CommentTarget,
    new_comment: NewComment,
)
    ensures
        issue_response@.id == issue_response.id@,
        issue_response@.repo_owner == issue_response.repo_owner@,
        issue_response@.repo_name == issue_response.repo_name@,
        issue_response@.author_name == issue_response.author_name@,
        issue_response@.title == issue_response.title@,
        issue_response@.body == issue_response.body@,
        issue_response@.status == issue_response.status@,
        issue_response@.created_at == issue_response.created_at@,
        issue_response@.updated_at == issue_response.updated_at@,
        issue_response@.comment_count == issue_response.comment_count as int,
        comment_target@ == (match comment_target {
            CommentTarget::Issue(id) => TargetView::Issue(id@),
            CommentTarget::Commit { repo_id, sha } => TargetView::Commit {
                repo_id: repo_id@,
                sha: sha@,
            },
            CommentTarget::Changeset(id) => TargetView::Changeset(id@),
        }),
        new_comment@.id == new_comment.id@,
        new_comment@.author_id == new_comment.author_id@,
        new_comment@.body == new_comment.body@,
        new_comment@.target == new_comment.target@,
{
}

/// An issue is shown in three lines: its status, its repository and its identifier; its title; and who
/// wrote it, with how many comments there are.
pub proof fn law_issue_is_shown_in_three_lines(i: IssueResponse)
    ensures
        split(i.text(), '\n') == split("["@ + i.status@ + "] "@ + i.repo_owner@ + "/"@ + i.repo_name@ + " #"@ + i.id@, '\n')
            + split("  "@ + i.title@, '\n')
            + split("  by "@ + i.author_name@ + " | "@ + dec_int(i.comment_count as int) + (if i.comment_count == 1 { " comment"@ } else { " comments"@ }), '\n')
            + seq![Seq::<char>::empty()],
{
    reveal_strlit("\n  ");
    reveal_strlit("  ");
    reveal_strlit("\n  by ");
    reveal_strlit("  by ");
    reveal_strlit(" comment");
    reveal_strlit("s");
    reveal_strlit("");
    reveal_strlit(" comments");
    reveal_strlit("\n");
    let line0 = "["@ + i.status@ + "] "@ + i.repo_owner@ + "/"@ + i.repo_name@ + " #"@ + i.id@;
    let line1 = "  "@ + i.title@;
    let line2 = "  by "@ + i.author_name@ + " | "@ + dec_int(i.comment_count as int) + (if i.comment_count == 1 { " comment"@ } else { " comments"@ });
    let end = Seq::<char>::empty();
    let rest2 = line2 + seq!['\n'] + end;
    let rest1 = line1 + seq!['\n'] + rest2;
    assert(i.text() =~= line0 + seq!['\n'] + rest1);
    lemma_ended_line(line2, end);
    lemma_ended_line(line1, rest2);
    lemma_ended_line(line0, rest1);
}

/// A comment is shown in a line: who wrote it, when, and what it says.
pub proof fn law_comment_is_shown_in_a_line(c: CommentResponse)
    ensures
        split(c.text(), '\n') == split(c.author_name@ + " ("@ + c.created_at@ + "): "@ + c.body@, '\n')
            + seq![Seq::<char>::empty()],
{
    reveal_strlit("\n");
    let line0 = c.author_name@ + " ("@ + c.created_at@ + "): "@ + c.body@;
    let end = Seq::<char>::empty();
    assert(c.text() =~= line0 + seq!['\n'] + end);
    lemma_ended_line(line0, end);
}

/// A list of issues shows all of them in their order, and says so where there are none.
pub proof fn law_all_issues_are_listed(a: IssueList, b: IssueList, both: IssueList)
    requires
        both.0@ == a.0@ + b.0@,
    ensures
        a.0@.len() > 0 && b.0@.len() > 0 ==> both.text() == a.text() + b.text(),
        a.0@.len() == 1 ==> a.text() == a.0@[0].text(),
        a.0@.len() == 0 ==> a.text() == "(no issues)\n"@,
{
    crate::format::law_lists_show_every_item(a.0@, b.0@, a.0@[0], "(no issues)\n"@);
    assert(a.0@.len() == 1 ==> a.0@ =~= seq![a.0@[0]]);
}

/// A list of comments shows all of them in their order, and says so where there are none.
pub proof fn law_all_comments_are_listed(a: CommentList, b: CommentList, both: CommentList)
    requires
        both.0@ == a.0@ + b.0@,
    ensures
        a.0@.len() > 0 && b.0@.len() > 0 ==> both.text() == a.text() + b.text(),
        a.0@.len() == 1 ==> a.text() == a.0@[0].text(),
        a.0@.len() == 0 ==> a.text() == "(no comments)\n"@,
{
    crate::format::law_lists_show_every_item(a.0@, b.0@, a.0@[0], "(no comments)\n"@);
    assert(a.0@.len() == 1 ==> a.0@ =~= seq![a.0@[0]]);
}

/// A value that may be missing says in contracts what it says where it is there.
pub proof fn law_missing_values_stay_missing(x: CommentTarget)
    ensures
        target_view(Some(x)) == Some(x@),
        target_view(None) is None,
{
}

/// There is a text for every answer; a list has one where each of its items has.
pub proof fn law_answers_can_be_shown(
    issue_response: IssueResponse,
    issue_list: IssueList,
    comment_response: CommentResponse,
    comment_list: CommentList,
)
    ensures
        issue_response.renders(),
        (forall|i: int|
            0 <= i < issue_list.0@.len() ==> (#[trigger] issue_list.0@[i]).renders()) ==> issue_list.renders(),
        comment_response.renders(),
        (forall|i: int|
            0 <= i < comment_list.0@.len() ==> (#[trigger] comment_list.0@[i]).renders()) ==> comment_list.renders(),
{
}

} // verus!
