//! The history of a repository.

use vstd::prelude::*;
use vstd::string::*;
use crate::format::{
    all_render, can_shorten, list_text, render_list, shorten, shortened, TextFormat,
};
use crate::status::Status;
use crate::text::{
    chars_of, dec, lemma_ended_line, lines, lines_of, split, split_chars, splitn, splitn_chars,
    texts, usize_text,
};

verus! {

pub const MAX_LIMIT: usize = 500;

pub const DEFAULT_LIMIT: usize = 50;

#[derive(Debug)]
pub struct LogParams {
    pub limit: usize,
    /// Git ref to start from (default: HEAD).
    pub git_ref: String,
}

pub fn default_limit() -> (r: usize)
    ensures
        r == DEFAULT_LIMIT,
        r == 50,
{
    DEFAULT_LIMIT
}

pub fn default_ref() -> (r: String)
    ensures
        r@ == "HEAD"@,
{
    String::from_str("HEAD")
}

pub struct LogEntry {
    pub commit_id: String,
    pub parents: Vec<String>,
    pub author: String,
    pub date: String,
    pub message: String,
}

impl TextFormat for LogEntry {
    open spec fn text(&self) -> Seq<char> {
        shortened(self.commit_id@) + " "@ + self.author@ + " "@ + self.date@ + "\n  "@ + self.message@ + "\n"@
    }

    open spec fn renders(&self) -> bool {
        can_shorten(self.commit_id@)
    }

    fn to_text(&self) -> (r: String) {
        let mut s = String::from_str(shorten(self.commit_id.as_str()));
        s.append(" ");
        s.append(self.author.as_str());
        s.append(" ");
        s.append(self.date.as_str());
        s.append("\n  ");
        s.append(self.message.as_str());
        s.append("\n");
        s
    }
}

pub struct LogResponse(pub Vec<LogEntry>);

impl TextFormat for LogResponse {
    open spec fn text(&self) -> Seq<char> {
        list_text(self.0@, "(no commits)\n"@)
    }

    open spec fn renders(&self) -> bool {
        all_render(self.0@)
    }

    fn to_text(&self) -> (r: String) {
        render_list(&self.0, "(no commits)\n")
    }
}

/// A character that may stand in the name of a ref.
pub open spec fn is_ref_char(c: char) -> bool {
    '0' <= c <= '9' || 'a' <= c <= 'z' || 'A' <= c <= 'Z' || c == '/' || c == '-' || c == '_' || c
        == '.'
}

pub open spec fn is_ref_name(s: Seq<char>) -> bool {
    forall|i: int| 0 <= i < s.len() ==> is_ref_char(#[trigger] s[i])
}

/// Whether a ref name holds only alphanumeric characters, /, -, _ and .
pub fn valid_ref_name(s: &str) -> (r: bool)
    ensures
        r == is_ref_name(s@),
{
    let chars = chars_of(s);
    let mut i: usize = 0;
    while i < chars.len()
        invariant
            i <= chars@.len(),
            chars@ == s@,
            forall|j: int| 0 <= j < i ==> is_ref_char(#[trigger] s@[j]),
        decreases chars@.len() - i,
    {
        let c = chars[i];
        if !((c >= '0' && c <= '9') || (c >= 'a' && c <= 'z') || (c >= 'A' && c <= 'Z') || c == '/' || c
            == '-' || c == '_' || c == '.') {
            proof {
                assert(!is_ref_char(s@[i as int]));
            }
            return false;
        }
        i += 1;
    }
    true
}

/// The arguments with which git shows the history: the fields of each commit are separated by NUL
/// characters, to avoid escaping issues.
pub open spec fn log_args(limit: nat, git_ref: Seq<char>) -> Seq<Seq<char>> {
    seq![
        "log"@,
        "--format=%H%x00%P%x00%an%x00%aI%x00%s"@,
        "--max-count="@ + dec(limit),
        git_ref,
    ]
}

/// The arguments with which git shows the history. The repository has to exist, and the ref has to
/// be a name; no more commits are shown than the limit allows.
pub fn get_log(repo_exists: bool, params: &LogParams) -> (r: Result<Vec<String>, Status>)
    ensures
        if !repo_exists {
            r matches Err(e) && e == Status::NotFound
        } else if !is_ref_name(params.git_ref@) {
            r matches Err(e) && e == Status::BadRequest
        } else {
            r matches Ok(args) && texts(args@) == log_args(
                if params.limit < MAX_LIMIT {
                    params.limit as nat
                } else {
                    MAX_LIMIT as nat
                },
                params.git_ref@,
            ) && texts(args@)[2] == "--max-count="@ + dec(
                if params.limit < 500 {
                    params.limit as nat
                } else {
                    500
                },
            ) && texts(args@)[3] == params.git_ref@
        },
{
    let limit: usize = if params.limit < MAX_LIMIT {
        params.limit
    } else {
        MAX_LIMIT
    };
    if !repo_exists {
        return Err(Status::NotFound);
    }
    if !valid_ref_name(params.git_ref.as_str()) {
        return Err(Status::BadRequest);
    }
    let mut count = String::from_str("--max-count=");
    count.append(usize_text(limit).as_str());
    let mut args: Vec<String> = Vec::new();
    args.push(String::from_str("log"));
    args.push(String::from_str("--format=%H%x00%P%x00%an%x00%aI%x00%s"));
    args.push(count);
    args.push(params.git_ref.clone());
    proof {
        assert(texts(args@) =~= log_args(limit as nat, params.git_ref@));
    }
    Ok(args)
}

/// What an entry of the history says.
#[verifier::ext_equal]
pub struct LogEntryView {
    pub commit_id: Seq<char>,
    pub parents: Seq<Seq<char>>,
    pub author: Seq<char>,
    pub date: Seq<char>,
    pub message: Seq<char>,
}

impl View for LogEntry {
    type V = LogEntryView;

    open spec fn view(&self) -> LogEntryView {
        LogEntryView {
            commit_id: self.commit_id@,
            parents: texts(self.parents@),
            author: self.author@,
            date: self.date@,
            message: self.message@,
        }
    }
}

pub open spec fn entry_views(v: Seq<LogEntry>) -> Seq<LogEntryView> {
    v.map_values(|e: LogEntry| e@)
}

/// The commit that a line describes, in five fields of which the last may hold anything. A line with
/// fewer fields describes none.
pub open spec fn line_entry(line: Seq<char>) -> Option<LogEntryView> {
    let fields = splitn(line, 5, '\0');
    if line.len() == 0 || fields.len() < 5 {
        None
    } else {
        Some(
            LogEntryView {
                commit_id: fields[0],
                parents: if fields[1].len() == 0 {
                    seq![]
                } else {
                    split(fields[1], ' ')
                },
                author: fields[2],
                date: fields[3],
                message: fields[4],
            },
        )
    }
}

/// The commits that the lines describe, in order.
pub open spec fn line_entries(ls: Seq<Seq<char>>) -> Seq<LogEntryView>
    decreases ls.len(),
{
    if ls.len() == 0 {
        seq![]
    } else {
        match line_entry(ls.last()) {
            Some(e) => line_entries(ls.drop_last()).push(e),
            None => line_entries(ls.drop_last()),
        }
    }
}

fn parse_line(line: &str) -> (r: Option<LogEntry>)
    ensures
        match r {
            Some(e) => line_entry(line@) == Some(e@),
            None => line_entry(line@) is None,
        },
{
    let chars = chars_of(line);
    if chars.len() == 0 {
        return None;
    }
    let mut fields = splitn_chars(chars.as_slice(), 5, '\0');
    let ghost p = texts(fields@);
    if fields.len() < 5 {
        return None;
    }
    proof {
        assert(p[0] == fields@[0]@ && p[1] == fields@[1]@ && p[2] == fields@[2]@ && p[3]
            == fields@[3]@ && p[4] == fields@[4]@);
    }
    let message = fields.pop().unwrap();
    let date = fields.pop().unwrap();
    let author = fields.pop().unwrap();
    let names = fields.pop().unwrap();
    let commit_id = fields.pop().unwrap();
    let parents: Vec<String> = if names.as_str().is_empty() {
        Vec::new()
    } else {
        let c = chars_of(names.as_str());
        split_chars(c.as_slice(), ' ')
    };
    let e = LogEntry { commit_id, parents, author, date, message };
    proof {
        if names@.len() == 0 {
            assert(texts(e.parents@) =~= seq![]);
        }
    }
    Some(e)
}

/// The commits that git printed. Where git failed, as it does where the ref does not exist (empty
/// repo), there are none.
pub fn git_log(success: bool, stdout: &str) -> (r: Vec<LogEntry>)
    ensures
        entry_views(r@) == (if success {
            line_entries(lines(stdout@))
        } else {
            seq![]
        }),
{
    let mut entries: Vec<LogEntry> = Vec::new();
    proof {
        assert(entry_views(entries@) =~= seq![]);
    }
    if !success {
        return entries;
    }
    let chars = chars_of(stdout);
    let ls = lines_of(chars.as_slice());
    let ghost all = texts(ls@);
    let mut i: usize = 0;
    proof {
        assert(all.take(0) =~= seq![]);
    }
    while i < ls.len()
        invariant
            i <= ls@.len(),
            all == texts(ls@),
            entry_views(entries@) == line_entries(all.take(i as int)),
        decreases ls@.len() - i,
    {
        let ghost before = entries@;
        proof {
            assert(all.take(i as int + 1).drop_last() =~= all.take(i as int));
            assert(all.take(i as int + 1).last() == ls@[i as int]@);
        }
        match parse_line(ls[i].as_str()) {
            Some(e) => {
                entries.push(e);
                proof {
                    assert(entry_views(entries@) =~= entry_views(before).push(e@));
                }
            },
            None => {},
        }
        i += 1;
    }
    proof {
        assert(all.take(i as int) =~= all);
    }
    entries
}

proof fn lemma_field_split(field: Seq<char>, rest: Seq<char>, n: nat)
    requires
        !field.contains('\0'),
        n > 1,
    ensures
        splitn(field + seq!['\0'] + rest, n, '\0') == seq![field] + splitn(
            rest,
            (n - 1) as nat,
            '\0',
        ),
{
    let s = field + seq!['\0'] + rest;
    let i = field.len() as int;
    assert forall|j: int| 0 <= j < i implies s[j] != '\0' by {
        assert(s[j] == field[j]);
        assert(field.contains(field[j]));
    }
    assert(s[i] == '\0');
    crate::text::lemma_first_index(s, '\0', i);
    assert(s.take(i) =~= field);
    assert(s.skip(i + 1) =~= rest);
}

/// A line of git's log is read field by field: the commit, its parents, its author, its date, and the
/// message, which is all the rest. Parents stand apart by blanks, and a commit without any has none.
pub proof fn law_log_line_is_read_back(
    commit: Seq<char>,
    parents: Seq<char>,
    author: Seq<char>,
    date: Seq<char>,
    message: Seq<char>,
)
    requires
        !commit.contains('\0'),
        !parents.contains('\0'),
        !author.contains('\0'),
        !date.contains('\0'),
    ensures
        ({
            let line = commit + seq!['\0'] + (parents + seq!['\0'] + (author + seq!['\0'] + (date
                + seq!['\0'] + message)));
            &&& line_entry(line) matches Some(e)
            &&& e.commit_id == commit
            &&& e.author == author
            &&& e.date == date
            &&& e.message == message
            &&& e.parents == (if parents.len() == 0 {
                Seq::<Seq<char>>::empty()
            } else {
                split(parents, ' ')
            })
        }),
        line_entry(commit) is None,
{
    let four = date + seq!['\0'] + message;
    let three = author + seq!['\0'] + four;
    let two = parents + seq!['\0'] + three;
    let line = commit + seq!['\0'] + two;
    lemma_field_split(commit, two, 5);
    lemma_field_split(parents, three, 4);
    lemma_field_split(author, four, 3);
    lemma_field_split(date, message, 2);
    assert(splitn(message, 1, '\0') =~= seq![message]);
    assert(splitn(line, 5, '\0') =~= seq![commit, parents, author, date, message]);
    assert forall|j: int| 0 <= j < commit.len() implies commit[j] != '\0' by {
        assert(commit.contains(commit[j]));
    }
    crate::text::lemma_first_index(commit, '\0', commit.len() as int);
    assert(splitn(commit, 5, '\0') =~= seq![commit]);
}

/// Every line of git's log that is an entry is one of the history, in the order of the lines.
pub proof fn law_all_lines_of_a_log_count(a: Seq<Seq<char>>, b: Seq<Seq<char>>, one: Seq<char>)
    ensures
        line_entries(a + b) == line_entries(a) + line_entries(b),
        line_entry(one) matches Some(e) ==> line_entries(seq![one]) == seq![e],
        line_entry(one) is None ==> line_entries(seq![one]).len() == 0,
    decreases b.len(),
{
    assert(seq![one].drop_last() =~= seq![]);
    reveal_with_fuel(line_entries, 2);
    match line_entry(one) {
        Some(e) => {
            assert(line_entries(seq![one]) =~= seq![e]);
        },
        None => {},
    }
    if b.len() == 0 {
        assert(a + b =~= a);
        assert(line_entries(a) + line_entries(b) =~= line_entries(a));
    } else {
        law_all_lines_of_a_log_count(a, b.drop_last(), one);
        assert((a + b).drop_last() =~= a + b.drop_last());
        assert(line_entries(a + b) =~= line_entries(a) + line_entries(b));
    }
}

/// Git is asked for the history of the ref, for as many commits as the limit says, in the form in
/// which it is read.
pub proof fn law_log_asks_for_the_ref(limit: nat, git_ref: Seq<char>)
    ensures
        log_args(limit, git_ref).len() == 4,
        log_args(limit, git_ref).first() == "log"@,
        log_args(limit, git_ref).last() == git_ref,
        log_args(limit, git_ref).contains("--max-count="@ + dec(limit)),
        log_args(limit, git_ref).contains("--format=%H%x00%P%x00%an%x00%aI%x00%s"@),
{
    assert(log_args(limit, git_ref)[1] == "--format=%H%x00%P%x00%an%x00%aI%x00%s"@);
    assert(log_args(limit, git_ref)[2] == "--max-count="@ + dec(limit));
}

/// A ref is named by letters, digits, slashes, hyphens, underscores and dots; anything else makes it
/// no name, wherever it stands.
pub proof fn law_ref_names_are_plain(a: Seq<char>, c: char, b: Seq<char>)
    ensures
        is_ref_name(a + seq![c] + b) <==> is_ref_name(a) && is_ref_name(b) && ('0' <= c <= '9' || 'a'
            <= c <= 'z' || 'A' <= c <= 'Z' || c == '/' || c == '-' || c == '_' || c == '.'),
{
    let s = a + seq![c] + b;
    if is_ref_name(s) {
        assert(is_ref_char(s[a.len() as int]));
        assert forall|i: int| 0 <= i < a.len() implies is_ref_char(#[trigger] a[i]) by {
            assert(s[i] == a[i]);
        }
        assert forall|i: int| 0 <= i < b.len() implies is_ref_char(#[trigger] b[i]) by {
            assert(s[a.len() + 1 + i] == b[i]);
        }
    }
    if is_ref_name(a) && is_ref_name(b) && is_ref_char(c) {
        assert forall|i: int| 0 <= i < s.len() implies is_ref_char(#[trigger] s[i]) by {
            if i < a.len() {
                assert(s[i] == a[i]);
            } else if i > a.len() {
                assert(s[i] == b[i - a.len() - 1]);
            }
        }
    }
}

/// What a value says in contracts is what its fields say, each in its own place.
pub proof fn law_views_show_every_field(log_entry: LogEntry)
    ensures
        log_entry@.commit_id == log_entry.commit_id@,
        log_entry@.parents == texts(log_entry.parents@),
        log_entry@.author == log_entry.author@,
        log_entry@.date == log_entry.date@,
        log_entry@.message == log_entry.message@,
{
}

/// A commit of the history is shown in two lines: its shortened name, its author and its date; and its
/// message.
pub proof fn law_commit_is_shown_in_two_lines(e: LogEntry)
    ensures
        split(e.text(), '\n') == split(shortened(e.commit_id@) + " "@ + e.author@ + " "@ + e.date@, '\n')
            + split("  "@ + e.message@, '\n')
            + seq![Seq::<char>::empty()],
{
    reveal_strlit("\n  ");
    reveal_strlit("  ");
    reveal_strlit("\n");
    let line0 = shortened(e.commit_id@) + " "@ + e.author@ + " "@ + e.date@;
    let line1 = "  "@ + e.message@;
    let end = Seq::<char>::empty();
    let rest1 = line1 + seq!['\n'] + end;
    assert(e.text() =~= line0 + seq!['\n'] + rest1);
    lemma_ended_line(line1, end);
    lemma_ended_line(line0, rest1);
}

/// A list of commits shows all of them in their order, and says so where there are none.
pub proof fn law_all_commits_are_listed(a: LogResponse, b: LogResponse, both: LogResponse)
    requires
        both.0@ == a.0@ + b.0@,
    ensures
        a.0@.len() > 0 && b.0@.len() > 0 ==> both.text() == a.text() + b.text(),
        a.0@.len() == 1 ==> a.text() == a.0@[0].text(),
        a.0@.len() == 0 ==> a.text() == "(no commits)\n"@,
{
    crate::format::law_lists_show_every_item(a.0@, b.0@, a.0@[0], "(no commits)\n"@);
    assert(a.0@.len() == 1 ==> a.0@ =~= seq![a.0@[0]]);
}

/// A list says in contracts what its items say, one for one and in their order.
pub proof fn law_items_are_read_one_for_one(v: Seq<LogEntry>)
    ensures
        entry_views(v).len() == v.len(),
        forall|i: int| 0 <= i < v.len() ==> #[trigger] entry_views(v)[i] == v[i]@,
{
}

/// There is a text for every answer; a list has one where each of its items has.
pub proof fn law_answers_can_be_shown(log_response: LogResponse)
    ensures
        (forall|i: int|
            0 <= i < log_response.0@.len() ==> (#[trigger] log_response.0@[i]).renders()) ==> log_response.renders(),
{
}

} // verus!
