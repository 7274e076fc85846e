//! Requests for code that does not exist yet.

use vstd::prelude::*;
use vstd::string::*;
use vstd::utf8::encode_utf8;
use crate::format::{all_render, list_text, render_list, TextFormat};
use crate::index::{hex_sha256, sha256};
use crate::status::{filter_of, filter_view, given, status_filter, Status};
use crate::text::{
    chars_of, head, hex, lemma_ended_line, opt_text, same_text, split, splitn, splitn_chars,
    string_of, texts, trim_end,
};

verus! {

// ---------------------------------------------------------------------------
// Types
// ---------------------------------------------------------------------------

#[derive(Debug)]
pub struct CreateRequest {
    pub title: String,
    pub body: String,
}

#[derive(Debug)]
pub struct UpdateRequest {
    pub status: String,
    /// The repository that fulfills the request, as "owner/repo".
    pub fulfilled_by: Option<String>,
}

#[derive(Debug)]
pub struct ListRequestsParams {
    pub status: String,
}

pub fn default_status() -> (r: String)
    ensures
        r@ == "open"@,
{
    String::from_str("open")
}

#[derive(Debug)]
pub struct SearchRequest {
    pub query: String,
    pub limit: usize,
}

pub fn default_limit() -> (r: usize)
    ensures
        r == 20,
{
    20
}

pub struct RequestResponse {
    pub id: String,
    pub author_name: String,
    pub title: String,
    pub body: String,
    pub status: String,
    pub fulfilled_by: Option<String>,
    pub created_at: String,
}

/// What an answer about a request says.
#[verifier::ext_equal]
pub struct RequestResponseView {
    pub id: Seq<char>,
    pub author_name: Seq<char>,
    pub title: Seq<char>,
    pub body: Seq<char>,
    pub status: Seq<char>,
    pub created_at: Seq<char>,
    pub fulfilled_by: Option<Seq<char>>,
}

impl View for RequestResponse {
    type V = RequestResponseView;

    open spec fn view(&self) -> RequestResponseView {
        RequestResponseView {
            id: self.id@,
            author_name: self.author_name@,
            title: self.title@,
            body: self.body@,
            status: self.status@,
            created_at: self.created_at@,
            fulfilled_by: opt_text(self.fulfilled_by),
        }
    }
}

/// What fulfilled a request.
pub open spec fn fulfilled_text(fulfilled_by: Option<Seq<char>>) -> Seq<char> {
    match fulfilled_by {
        Some(r) => " -> "@ + r,
        None => seq![],
    }
}

impl RequestResponse {
    fn fulfilled(&self) -> (r: String)
        ensures
            r@ == fulfilled_text(opt_text(self.fulfilled_by)),
    {
        match &self.fulfilled_by {
            Some(t) => {
                let mut s = String::from_str(" -> ");
                s.append(t.as_str());
                s
            },
            None => String::new(),
        }
    }
}

impl TextFormat for RequestResponse {
    open spec fn text(&self) -> Seq<char> {
        "["@ + self.status@ + "] "@ + self.title@ + fulfilled_text(opt_text(self.fulfilled_by)) + "\n  "@ + self.body@ + "\n  by "@ + self.author_name@ + "\n"@
    }

    open spec fn renders(&self) -> bool {
        true
    }

    fn to_text(&self) -> (r: String) {
        let mut s = String::from_str("[");
        s.append(self.status.as_str());
        s.append("] ");
        s.append(self.title.as_str());
        s.append(self.fulfilled().as_str());
        s.append("\n  ");
        s.append(self.body.as_str());
        s.append("\n  by ");
        s.append(self.author_name.as_str());
        s.append("\n");
        s
    }
}

pub struct RequestList(pub Vec<RequestResponse>);

impl TextFormat for RequestList {
    open spec fn text(&self) -> Seq<char> {
        list_text(self.0@, "(no requests)\n"@)
    }

    open spec fn renders(&self) -> bool {
        all_render(self.0@)
    }

    fn to_text(&self) -> (r: String) {
        render_list(&self.0, "(no requests)\n")
    }
}

/// A request that was found, with its distance from the query as it is shown.
pub struct SearchResultItem {
    pub request: RequestResponse,
    pub distance: Option<String>,
}

/// How a distance is shown.
pub open spec fn distance_text(distance: Option<Seq<char>>) -> Seq<char> {
    match distance {
        Some(d) => " (distance: "@ + d + ")"@,
        None => seq![],
    }
}

fn trimmed_end(s: &str) -> (r: String)
    ensures
        r@ == trim_end(s@),
{
    let chars = chars_of(s);
    let mut k: usize = chars.len();
    proof {
        assert(s@.take(k as int) =~= s@);
    }
    while k > 0 && crate::text::char_is_space(chars[k - 1])
        invariant
            k <= chars@.len(),
            chars@ == s@,
            trim_end(s@) == trim_end(s@.take(k as int)),
        decreases k,
    {
        proof {
            assert(s@.take(k as int).drop_last() =~= s@.take(k - 1));
        }
        k -= 1;
    }
    string_of(head(chars.as_slice(), k))
}

impl TextFormat for SearchResultItem {
    open spec fn text(&self) -> Seq<char> {
        trim_end(self.request.text()) + distance_text(opt_text(self.distance))
    }

    open spec fn renders(&self) -> bool {
        true
    }

    fn to_text(&self) -> (r: String) {
        let mut s = trimmed_end(self.request.to_text().as_str());
        match &self.distance {
            Some(d) => {
                let mut t = String::from_str(" (distance: ");
                t.append(d.as_str());
                t.append(")");
                s.append(t.as_str());
            },
            None => {
                proof {
                    assert(s@ + Seq::<char>::empty() =~= s@);
                }
            },
        }
        s
    }
}

pub struct SearchResults(pub Vec<SearchResultItem>);

/// The texts of the requests that were found, each on a line of its own.
pub open spec fn result_lines(v: Seq<SearchResultItem>) -> Seq<char>
    decreases v.len(),
{
    if v.len() == 0 {
        seq![]
    } else {
        result_lines(v.drop_last()) + v.last().text() + "\n"@
    }
}

impl TextFormat for SearchResults {
    open spec fn text(&self) -> Seq<char> {
        if self.0@.len() == 0 {
            "(no results)\n"@
        } else {
            result_lines(self.0@)
        }
    }

    open spec fn renders(&self) -> bool {
        true
    }

    fn to_text(&self) -> (r: String) {
        if self.0.len() == 0 {
            return String::from_str("(no results)\n");
        }
        let v = &self.0;
        let mut s = String::new();
        let mut i: usize = 0;
        proof {
            assert(v@.take(0) =~= seq![]);
        }
        while i < v.len()
            invariant
                i <= v@.len(),
                s@ == result_lines(v@.take(i as int)),
            decreases v@.len() - i,
        {
            proof {
                assert(v@.take(i as int + 1).drop_last() =~= v@.take(i as int));
            }
            s.append(v[i].to_text().as_str());
            s.append("\n");
            i += 1;
        }
        proof {
            assert(v@.take(i as int) =~= v@);
        }
        s
    }
}

// ---------------------------------------------------------------------------
// Making and listing
// ---------------------------------------------------------------------------

/// A request as it is stored when it is made.
#[derive(Debug)]
pub struct NewRequest {
    pub id: String,
    pub author_id: String,
    pub title: String,
    pub body: String,
}

/// The text whose embedding stands for a request.
pub open spec fn request_input(title: Seq<char>, body: Seq<char>) -> Seq<char> {
    "Request: "@ + title + "\n\n"@ + body
}

/// The text to embed for a request, and its hash.
pub fn request_embedding(body: &CreateRequest) -> (r: (String, String))
    ensures
        r.0@ == request_input(body.title@, body.body@),
        r.1@ == hex(sha256(encode_utf8(request_input(body.title@, body.body@)))),
{
    let mut s = String::from_str("Request: ");
    s.append(body.title.as_str());
    s.append("\n\n");
    s.append(body.body.as_str());
    let hash = hex_sha256(s.as_str());
    (s, hash)
}

/// Make a request, which has to have a title.
pub fn create_request(body: CreateRequest, id: String, author_id: String, author_name: String) -> (r:
    Result<(NewRequest, RequestResponse), Status>)
    ensures
        if body.title@.len() == 0 {
            r matches Err(e) && e == Status::BadRequest
        } else {
            r matches Ok(p) && {
                &&& p.0 == (NewRequest { id, author_id, title: body.title, body: body.body })
                &&& p.1@ == (RequestResponseView {
                    id: id@,
                    author_name: author_name@,
                    title: body.title@,
                    body: body.body@,
                    status: "open"@,
                    fulfilled_by: None,
                    created_at: seq![],
                })
            }
        },
{
    match given(body.title.as_str()) {
        Ok(_) => {},
        Err(e) => {
            return Err(e);
        },
    }
    let row = NewRequest {
        id: id.clone(),
        author_id,
        title: body.title.clone(),
        body: body.body.clone(),
    };
    let response = RequestResponse {
        id,
        author_name,
        title: body.title,
        body: body.body,
        status: String::from_str("open"),
        fulfilled_by: None,
        created_at: String::new(),
    };
    Ok((row, response))
}

/// The statuses of a request.
pub open spec fn request_statuses() -> Seq<Seq<char>> {
    seq!["open"@, "fulfilled"@, "closed"@]
}

fn statuses() -> (r: Vec<String>)
    ensures
        texts(r@) == request_statuses(),
{
    let mut v: Vec<String> = Vec::new();
    v.push(String::from_str("open"));
    v.push(String::from_str("fulfilled"));
    v.push(String::from_str("closed"));
    proof {
        assert(texts(v@) =~= request_statuses());
    }
    v
}

/// The status by which a list of requests is filtered.
pub fn list_requests(params: &ListRequestsParams) -> (r: Result<Option<String>, Status>)
    ensures
        filter_view(r) == filter_of(params.status@, request_statuses()),
{
    let all = statuses();
    status_filter(params.status.as_str(), &all)
}

/// A search has to ask for something.
pub fn search_requests(body: &SearchRequest) -> (r: Result<(), Status>)
    ensures
        match r {
            Ok(_) => body.query@.len() > 0,
            Err(e) => body.query@.len() == 0 && e == Status::BadRequest,
        },
{
    given(body.query.as_str())
}

// ---------------------------------------------------------------------------
// Closing and fulfilling
// ---------------------------------------------------------------------------

/// A request as it is stored.
#[derive(Debug)]
pub struct RequestRow {
    pub id: String,
    pub author_id: String,
    pub author_name: String,
    pub title: String,
    pub body: String,
    pub created_at: String,
}

/// Whether an update changes the status to one that exists.
pub fn check_request_update(body: &UpdateRequest) -> (r: Result<(), Status>)
    ensures
        match r {
            Ok(_) => request_statuses().contains(body.status@),
            Err(e) => !request_statuses().contains(body.status@) && e == Status::BadRequest,
        },
{
    proof {
        assert(request_statuses()[0] == "open"@);
        assert(request_statuses()[1] == "fulfilled"@);
        assert(request_statuses()[2] == "closed"@);
    }
    let s = body.status.as_str();
    if same_text(s, "open") || same_text(s, "fulfilled") || same_text(s, "closed") {
        Ok(())
    } else {
        Err(Status::BadRequest)
    }
}

/// The repository that an update names as fulfilling the request: it is looked at only where the
/// request is fulfilled.
pub open spec fn fulfilling_repo(status: Seq<char>, fulfilled_by: Option<Seq<char>>) -> Option<
    Seq<Seq<char>>,
> {
    match fulfilled_by {
        Some(r) => if status == "fulfilled"@ {
            Some(splitn(r, 2, '/'))
        } else {
            None
        },
        None => None,
    }
}

/// Whether a request may be updated, and which repository is to be looked up for it. The request has
/// to exist, only its author may update it, and a repository is named by its owner and its name.
pub fn update_request_target(body: &UpdateRequest, row: &Option<RequestRow>, agent_id: &str) -> (r:
    Result<Option<(String, String)>, Status>)
    ensures
        if !request_statuses().contains(body.status@) {
            r matches Err(e) && e == Status::BadRequest
        } else {
            match *row {
                None => r matches Err(e) && e == Status::NotFound,
                Some(q) => if q.author_id@ != agent_id@ {
                    r matches Err(e) && e == Status::Forbidden
                } else {
                    match fulfilling_repo(body.status@, opt_text(body.fulfilled_by)) {
                        None => r matches Ok(t) && t is None,
                        Some(parts) => if parts.len() != 2 {
                            r matches Err(e) && e == Status::BadRequest
                        } else {
                            r matches Ok(t) && t matches Some(p) && p.0@ == parts[0] && p.1@
                                == parts[1]
                        },
                    }
                },
            }
        },
{
    match check_request_update(body) {
        Ok(_) => {},
        Err(e) => {
            return Err(e);
        },
    }
    match row {
        None => {
            return Err(Status::NotFound);
        },
        Some(q) => {
            if !same_text(q.author_id.as_str(), agent_id) {
                return Err(Status::Forbidden);
            }
        },
    }
    if !same_text(body.status.as_str(), "fulfilled") {
        return Ok(None);
    }
    match &body.fulfilled_by {
        None => Ok(None),
        Some(name) => {
            let chars = chars_of(name.as_str());
            let mut parts = splitn_chars(chars.as_slice(), 2, '/');
            let ghost p = texts(parts@);
            if parts.len() != 2 {
                return Err(Status::BadRequest);
            }
            proof {
                assert(p[0] == parts@[0]@ && p[1] == parts@[1]@);
            }
            let repo = parts.pop().unwrap();
            let owner = parts.pop().unwrap();
            Ok(Some((owner, repo)))
        },
    }
}

/// The repository that is stored as fulfilling a request, and the answer. Where a repository was
/// looked up it has to exist; the answer shows it as it was named.
pub fn update_request(
    body: UpdateRequest,
    row: RequestRow,
    looked_up: bool,
    repo_id: Option<String>,
) -> (r: Result<(Option<String>, RequestResponse), Status>)
    ensures
        if looked_up && repo_id is None {
            r matches Err(e) && e == Status::NotFound
        } else {
            r matches Ok(p) && {
                &&& p.0 == (if looked_up {
                    repo_id
                } else {
                    None
                })
                &&& p.1@ == (RequestResponseView {
                    id: row.id@,
                    author_name: row.author_name@,
                    title: row.title@,
                    body: row.body@,
                    status: body.status@,
                    fulfilled_by: opt_text(body.fulfilled_by),
                    created_at: row.created_at@,
                })
            }
        },
{
    if looked_up && repo_id.is_none() {
        return Err(Status::NotFound);
    }
    let stored = if looked_up {
        repo_id
    } else {
        None
    };
    Ok(
        (
            stored,
            RequestResponse {
                id: row.id,
                author_name: row.author_name,
                title: row.title,
                body: row.body,
                status: body.status,
                fulfilled_by: body.fulfilled_by,
                created_at: row.created_at,
            },
        ),
    )
}

/// A request that is not fulfilled is never stored with a repository, whatever the update names.
pub proof fn law_only_fulfilled_requests_name_a_repo(
    status: Seq<char>,
    fulfilled_by: Option<Seq<char>>,
)
    ensures
        fulfilling_repo(status, fulfilled_by) is Some ==> status == "fulfilled"@,
{
}

/// What is embedded for a request is its title and its body.
pub proof fn law_request_is_embedded_whole(title: Seq<char>, body: Seq<char>)
    ensures
        crate::text::has_prefix(request_input(title, body), "Request: "@ + title),
        crate::text::has_suffix(request_input(title, body), body),
        request_input(title, body).len() == "Request: "@.len() + title.len() + "\n\n"@.len()
            + body.len(),
{
    let t = request_input(title, body);
    let start = "Request: "@ + title;
    assert(t.take(start.len() as int) =~= start);
    assert(t.skip(t.len() - body.len()) =~= body);
}

/// Every result is shown, on a line of its own and in the order of the results.
pub proof fn law_all_results_are_shown(
    a: Seq<SearchResultItem>,
    b: Seq<SearchResultItem>,
    one: SearchResultItem,
)
    ensures
        result_lines(a + b) == result_lines(a) + result_lines(b),
        result_lines(seq![one]) == one.text() + "\n"@,
    decreases b.len(),
{
    assert(seq![one].drop_last() =~= seq![]);
    reveal_with_fuel(result_lines, 2);
    assert(result_lines(seq![one]) =~= one.text() + "\n"@);
    if b.len() == 0 {
        assert(a + b =~= a);
        assert(result_lines(a) + result_lines(b) =~= result_lines(a));
    } else {
        law_all_results_are_shown(a, b.drop_last(), one);
        assert((a + b).drop_last() =~= a + b.drop_last());
        assert(result_lines(a + b) =~= result_lines(a) + result_lines(b));
    }
}

/// A request that is fulfilled by a repository names its owner and its name; one that is not
/// fulfilled, or says by nothing, names none.
pub proof fn law_fulfilled_requests_name_owner_and_repo(
    owner: Seq<char>,
    name: Seq<char>,
    status: Seq<char>,
)
    requires
        !owner.contains('/'),
    ensures
        fulfilling_repo("fulfilled"@, Some(owner + seq!['/'] + name)) == Some(seq![owner, name]),
        status != "fulfilled"@ ==> fulfilling_repo(status, Some(owner)) is None,
        fulfilling_repo(status, None) is None,
{
    let r = owner + seq!['/'] + name;
    let i = owner.len() as int;
    assert forall|j: int| 0 <= j < i implies r[j] != '/' by {
        assert(r[j] == owner[j]);
        assert(owner.contains(owner[j]));
    }
    assert(r[i] == '/');
    crate::text::lemma_first_index(r, '/', i);
    assert(r.take(i) =~= owner);
    assert(r.skip(i + 1) =~= name);
    reveal_with_fuel(splitn, 3);
    assert(splitn(r, 2, '/') =~= seq![owner, name]);
}

/// A request is open, fulfilled or closed, and nothing else.
pub proof fn law_requests_have_three_statuses(status: Seq<char>)
    ensures
        request_statuses().contains(status) <==> status == "open"@ || status == "fulfilled"@
            || status == "closed"@,
{
    assert(request_statuses()[0] == "open"@ && request_statuses()[1] == "fulfilled"@
        && request_statuses()[2] == "closed"@);
}

/// What a value says in contracts is what its fields say, each in its own place.
pub proof fn law_views_show_every_field(request_response: RequestResponse)
    ensures
        request_response@.id == request_response.id@,
        request_response@.author_name == request_response.author_name@,
        request_response@.title == request_response.title@,
        request_response@.body == request_response.body@,
        request_response@.status == request_response.status@,
        request_response@.created_at == request_response.created_at@,
        request_response@.fulfilled_by == opt_text(request_response.fulfilled_by),
{
}

/// A request is shown in three lines: its status, its title and what fulfilled it; its body; and who
/// wrote it.
pub proof fn law_request_is_shown_in_three_lines(r: RequestResponse)
    ensures
        split(r.text(), '\n') == split("["@ + r.status@ + "] "@ + r.title@ + (match r.fulfilled_by { Some(f) => " -> "@ + f@, None => seq![], }), '\n')
            + split("  "@ + r.body@, '\n')
            + split("  by "@ + r.author_name@, '\n')
            + seq![Seq::<char>::empty()],
{
    reveal_strlit("\n  ");
    reveal_strlit("  ");
    reveal_strlit("\n  by ");
    reveal_strlit("  by ");
    reveal_strlit("\n");
    let line0 = "["@ + r.status@ + "] "@ + r.title@ + (match r.fulfilled_by { Some(f) => " -> "@ + f@, None => seq![], });
    let line1 = "  "@ + r.body@;
    let line2 = "  by "@ + r.author_name@;
    let end = Seq::<char>::empty();
    let rest2 = line2 + seq!['\n'] + end;
    let rest1 = line1 + seq!['\n'] + rest2;
    assert(r.text() =~= line0 + seq!['\n'] + rest1);
    lemma_ended_line(line2, end);
    lemma_ended_line(line1, rest2);
    lemma_ended_line(line0, rest1);
}

/// A list of requests shows all of them in their order, and says so where there are none.
pub proof fn law_all_requests_are_listed(a: RequestList, b: RequestList, both: RequestList)
    requires
        both.0@ == a.0@ + b.0@,
    ensures
        a.0@.len() > 0 && b.0@.len() > 0 ==> both.text() == a.text() + b.text(),
        a.0@.len() == 1 ==> a.text() == a.0@[0].text(),
        a.0@.len() == 0 ==> a.text() == "(no requests)\n"@,
{
    crate::format::law_lists_show_every_item(a.0@, b.0@, a.0@[0], "(no requests)\n"@);
    assert(a.0@.len() == 1 ==> a.0@ =~= seq![a.0@[0]]);
}

/// A request that was found is shown as in a list, without the line feed at its end, and with its
/// distance where that is known; an answer shows all that was found, and says so where that is nothing.
pub proof fn law_found_request_is_shown_with_its_distance(
    item: SearchResultItem,
    found: SearchResults,
)
    ensures
        item.distance is Some ==> item.text() == trim_end(item.request.text()) + " (distance: "@
            + item.distance.unwrap()@ + ")"@,
        item.distance is None ==> item.text() == trim_end(item.request.text()),
        found.0@.len() > 0 ==> found.text() == result_lines(found.0@),
        found.0@.len() == 0 ==> found.text() == "(no results)\n"@,
{
}

/// There is a text for every answer; a list has one where each of its items has.
pub proof fn law_answers_can_be_shown(
    request_response: RequestResponse,
    request_list: RequestList,
    search_result_item: SearchResultItem,
    search_results: SearchResults,
)
    ensures
        request_response.renders(),
        (forall|i: int|
            0 <= i < request_list.0@.len() ==> (#[trigger] request_list.0@[i]).renders()) ==> request_list.renders(),
        search_result_item.renders(),
        search_results.renders(),
{
}

} // verus!
