//! Pushing over smart HTTP: what a push asks for, and how it is answered.

use vstd::prelude::*;
use vstd::slice::slice_subrange;
use vstd::string::*;
use vstd::utf8::*;
use crate::pktline::{
    advertisement, flush, law_flush_ends_packets, law_packet_is_read_back, packet, packet_len, packet_len_at,
    wrap_advertisement,
};
use crate::status::Status;
use crate::text::{
    chars_of, find_char, first_index, head, lemma_first_index, opt_text, same_text, splitn, splitn_chars,
    string_of, texts, trim_end_char,
    trim, trim_chars, trim_end_of, utf8_text,
};

verus! {

/// A ref update parsed from the git receive-pack protocol.
#[derive(Debug, Clone)]
pub struct RefUpdate {
    pub old_sha: String,
    pub new_sha: String,
    pub ref_name: String,
}

/// What a ref update says.
#[verifier::ext_equal]
pub struct RefUpdateView {
    pub old_sha: Seq<char>,
    pub new_sha: Seq<char>,
    pub ref_name: Seq<char>,
}

impl View for RefUpdate {
    type V = RefUpdateView;

    open spec fn view(&self) -> RefUpdateView {
        RefUpdateView {
            old_sha: self.old_sha@,
            new_sha: self.new_sha@,
            ref_name: self.ref_name@,
        }
    }
}

/// Extension type to pass agent identity from auth middleware to git handlers.
#[derive(Clone, Debug)]
pub struct AgentIdExt(pub String);

/// The command in a packet: the line up to a NUL and without the line feeds at its end, in three
/// parts between single spaces, of which the first two take forty bytes each.
pub open spec fn ref_command(data: Seq<u8>) -> Option<RefUpdateView> {
    if !valid_utf8(data) {
        None
    } else {
        let line = trim_end_of(decode_utf8(data), '\n');
        let command = line.take(first_index(line, '\0'));
        let parts = splitn(command, 3, ' ');
        if parts.len() == 3 && encode_utf8(parts[0]).len() == 40 && encode_utf8(parts[1]).len()
            == 40 {
            Some(RefUpdateView { old_sha: parts[0], new_sha: parts[1], ref_name: parts[2] })
        } else {
            None
        }
    }
}

/// The commands in the packets at the start of `body`, in order. Packets without a command are
/// passed over.
pub open spec fn ref_updates(body: Seq<u8>) -> Seq<RefUpdateView>
    decreases body.len(),
{
    match packet_len(body) {
        Some(n) => if 4 <= n <= body.len() {
            let rest = ref_updates(body.skip(n as int));
            match ref_command(body.subrange(4, n as int)) {
                Some(u) => seq![u] + rest,
                None => rest,
            }
        } else {
            seq![]
        },
        None => seq![],
    }
}

pub open spec fn update_views(v: Seq<RefUpdate>) -> Seq<RefUpdateView> {
    v.map_values(|u: RefUpdate| u@)
}

fn parse_ref_command(data: &[u8]) -> (r: Option<RefUpdate>)
    ensures
        match r {
            Some(u) => ref_command(data@) == Some(u@),
            None => ref_command(data@) is None,
        },
{
    let text = match utf8_text(data) {
        Some(s) => s,
        None => {
            return None;
        },
    };
    let chars = chars_of(text.as_str());
    let line = trim_end_char(chars.as_slice(), '\n');
    let command = head(line, find_char(line, '\0'));
    let mut parts = splitn_chars(command, 3, ' ');
    let ghost p = texts(parts@);
    if parts.len() != 3 {
        return None;
    }
    if parts[0].as_str().as_bytes().len() != 40 || parts[1].as_str().as_bytes().len() != 40 {
        return None;
    }
    proof {
        assert(p[0] == parts@[0]@ && p[1] == parts@[1]@ && p[2] == parts@[2]@);
    }
    let ref_name = parts.pop().unwrap();
    let new_sha = parts.pop().unwrap();
    let old_sha = parts.pop().unwrap();
    Some(RefUpdate { old_sha, new_sha, ref_name })
}

/// Parse ref update commands from the git receive-pack request body.
///
/// The format is pkt-line encoded:
///   <4-hex-len><old-sha> <new-sha> <refname>\0<capabilities>\n  (first line)
///   <4-hex-len><old-sha> <new-sha> <refname>\n                 (subsequent)
///   0000                                                       (flush)
pub fn parse_ref_updates(body: &[u8]) -> (r: Vec<RefUpdate>)
    ensures
        update_views(r@) == ref_updates(body@),
{
    let mut updates: Vec<RefUpdate> = Vec::new();
    let mut pos: usize = 0;
    let total: usize = body.len();
    proof {
        assert(body@.skip(0) =~= body@);
        assert(update_views(updates@) + ref_updates(body@) =~= ref_updates(body@));
    }
    loop
        invariant
            total == body@.len(),
            pos <= total,
            update_views(updates@) + ref_updates(body@.skip(pos as int)) == ref_updates(body@),
        decreases body@.len() - pos,
    {
        let ghost before = updates@;
        let ghost rest = body@.skip(pos as int);
        match packet_len_at(body, pos) {
            Some(n) => {
                let data = slice_subrange(body, pos + 4, pos + n);
                proof {
                    assert(data@ =~= rest.subrange(4, n as int));
                    assert(rest.skip(n as int) =~= body@.skip(pos + n));
                }
                match parse_ref_command(data) {
                    Some(u) => {
                        updates.push(u);
                        proof {
                            assert(update_views(updates@) =~= update_views(before).push(u@));
                            assert(update_views(updates@) + ref_updates(body@.skip(pos + n))
                                =~= update_views(before) + ref_updates(rest));
                        }
                    },
                    None => {},
                }
                pos += n;
            },
            None => {
                proof {
                    assert(update_views(updates@) =~= ref_updates(body@));
                }
                return updates;
            },
        }
    }
}

// ---------------------------------------------------------------------------
// What is written is read back
// ---------------------------------------------------------------------------

/// An update that a command line can carry: two names of forty bytes without spaces, and a
/// reference name that does not end in a line feed; none of them holds a NUL.
pub open spec fn sendable(u: RefUpdateView) -> bool {
    &&& encode_utf8(u.old_sha).len() == 40
    &&& encode_utf8(u.new_sha).len() == 40
    &&& !u.old_sha.contains(' ')
    &&& !u.new_sha.contains(' ')
    &&& !u.old_sha.contains('\0')
    &&& !u.new_sha.contains('\0')
    &&& !u.ref_name.contains('\0')
    &&& u.ref_name.len() > 0 ==> u.ref_name.last() != '\n'
}

/// The command that asks for an update.
pub open spec fn command(u: RefUpdateView) -> Seq<char> {
    u.old_sha + seq![' '] + u.new_sha + seq![' '] + u.ref_name
}

/// What may follow a command: nothing, or a NUL and the client's capabilities.
pub open spec fn is_suffix(caps: Seq<char>) -> bool {
    caps.len() > 0 ==> caps[0] == '\0'
}

/// A line that asks for an update: the command, what follows it, and any number of line feeds.
#[verifier::ext_equal]
pub struct UpdateLine {
    pub update: RefUpdateView,
    pub caps: Seq<char>,
    pub feeds: nat,
}

pub open spec fn line_feeds(n: nat) -> Seq<char> {
    Seq::new(n, |i: int| '\n')
}

pub open spec fn line_text(l: UpdateLine) -> Seq<char> {
    command(l.update) + l.caps + line_feeds(l.feeds)
}

/// Whether a line can be sent: the update is one that a command can carry, and the line fits into a
/// packet.
pub open spec fn fits(l: UpdateLine) -> bool {
    sendable(l.update) && is_suffix(l.caps) && encode_utf8(line_text(l)).len() + 4 < 65536
}

/// The packet that asks for an update.
pub open spec fn update_packet(l: UpdateLine) -> Seq<u8> {
    packet(encode_utf8(line_text(l)))
}

proof fn lemma_trim_end_of(s: Seq<char>, c: char)
    ensures
        trim_end_of(s, c).len() <= s.len(),
        trim_end_of(s, c) == s.take(trim_end_of(s, c).len() as int),
        forall|i: int| trim_end_of(s, c).len() <= i < s.len() ==> s[i] == c,
        trim_end_of(s, c).len() > 0 ==> trim_end_of(s, c).last() != c,
    decreases s.len(),
{
    if s.len() > 0 && s.last() == c {
        lemma_trim_end_of(s.drop_last(), c);
        let t = trim_end_of(s, c);
        assert(s.drop_last().take(t.len() as int) =~= s.take(t.len() as int));
        assert forall|i: int| t.len() <= i < s.len() implies s[i] == c by {
            if i < s.len() - 1 {
                assert(s.drop_last()[i] == c);
            }
        }
    } else {
        assert(s.take(s.len() as int) =~= s);
    }
}

proof fn lemma_command_of_line(l: UpdateLine)
    requires
        sendable(l.update),
        is_suffix(l.caps),
    ensures
        ({
            let line = trim_end_of(line_text(l), '\n');
            line.take(first_index(line, '\0')) == command(l.update)
        }),
{
    let u = l.update;
    let caps = l.caps;
    let c = command(u);
    let s = line_text(l);
    let line = trim_end_of(s, '\n');
    lemma_trim_end_of(s, '\n');
    assert(c.last() != '\n') by {
        if u.ref_name.len() > 0 {
            assert(c.last() == u.ref_name.last());
        } else {
            assert(c.last() == ' ');
        }
    }
    assert(s[c.len() - 1] == c.last());
    assert(line.len() >= c.len());
    assert forall|j: int| 0 <= j < c.len() implies line[j] != '\0' by {
        assert(line[j] == s[j] && s[j] == c[j]);
        let a = u.old_sha.len() as int;
        let b = u.new_sha.len() as int;
        if j < a {
            assert(c[j] == u.old_sha[j]);
        } else if j == a {
        } else if j < a + 1 + b {
            assert(c[j] == u.new_sha[j - a - 1]);
        } else if j == a + 1 + b {
        } else {
            assert(c[j] == u.ref_name[j - a - b - 2]);
        }
    }
    if caps.len() > 0 {
        assert(s[c.len() as int] == caps[0]);
        assert(line.len() > c.len());
        assert(line[c.len() as int] == '\0');
        lemma_first_index(line, '\0', c.len() as int);
    } else {
        assert(line.len() == c.len()) by {
            if line.len() > c.len() {
                assert(line.last() == s[line.len() - 1]);
                assert(s[line.len() - 1] == line_feeds(l.feeds)[line.len() - 1 - c.len()]);
            }
        }
        lemma_first_index(line, '\0', c.len() as int);
    }
    assert(line.take(c.len() as int) =~= c);
}

proof fn lemma_parts_of_command(u: RefUpdateView)
    requires
        sendable(u),
    ensures
        splitn(command(u), 3, ' ') == seq![u.old_sha, u.new_sha, u.ref_name],
{
    let c = command(u);
    let a = u.old_sha.len() as int;
    let b = u.new_sha.len() as int;
    assert forall|j: int| 0 <= j < a implies c[j] != ' ' by {
        assert(c[j] == u.old_sha[j]);
    }
    lemma_first_index(c, ' ', a);
    let rest = c.skip(a + 1);
    assert forall|j: int| 0 <= j < b implies rest[j] != ' ' by {
        assert(rest[j] == u.new_sha[j]);
    }
    assert(rest[b] == ' ');
    lemma_first_index(rest, ' ', b);
    assert(c.take(a) =~= u.old_sha);
    assert(rest.take(b) =~= u.new_sha);
    assert(rest.skip(b + 1) =~= u.ref_name);
    reveal_with_fuel(splitn, 4);
    assert(splitn(c, 3, ' ') =~= seq![u.old_sha, u.new_sha, u.ref_name]);
}

/// A packet that asks for an update is read as that update, with or without capabilities and line
/// feeds behind it, and what follows the packet is read as if it stood alone.
pub proof fn law_update_is_read_back(l: UpdateLine, rest: Seq<u8>)
    requires
        fits(l),
    ensures
        ref_updates(update_packet(l) + rest) == seq![l.update] + ref_updates(rest),
{
    let text = line_text(l);
    let data = encode_utf8(text);
    encode_utf8_valid_utf8(text);
    encode_utf8_decode_utf8(text);
    law_packet_is_read_back(data, rest);
    lemma_command_of_line(l);
    lemma_parts_of_command(l.update);
    assert(ref_command(data) == Some(l.update));
}

/// The packets of a whole push.
pub open spec fn push_packets(lines: Seq<UpdateLine>) -> Seq<u8>
    decreases lines.len(),
{
    if lines.len() == 0 {
        flush()
    } else {
        update_packet(lines[0]) + push_packets(lines.skip(1))
    }
}

/// The updates that lines ask for.
pub open spec fn asked(lines: Seq<UpdateLine>) -> Seq<RefUpdateView> {
    lines.map_values(|l: UpdateLine| l.update)
}

/// The updates of a push are read back, all of them and in order, whichever of the lines name the
/// client's capabilities or end in a line feed, and the pack that follows the flush packet is not
/// taken for an update.
pub proof fn law_push_is_read_back(lines: Seq<UpdateLine>, pack: Seq<u8>)
    requires
        forall|i: int| 0 <= i < lines.len() ==> fits(#[trigger] lines[i]),
    ensures
        ref_updates(push_packets(lines) + pack) == asked(lines),
    decreases lines.len(),
{
    if lines.len() == 0 {
        law_flush_ends_packets(pack);
        assert(asked(lines) =~= seq![]);
    } else {
        let tail = push_packets(lines.skip(1));
        assert(fits(lines[0]));
        assert forall|i: int| 0 <= i < lines.skip(1).len() implies fits(
            #[trigger] lines.skip(1)[i],
        ) by {
            assert(lines.skip(1)[i] == lines[i + 1]);
        }
        law_push_is_read_back(lines.skip(1), pack);
        law_update_is_read_back(lines[0], tail + pack);
        assert(push_packets(lines) + pack =~= update_packet(lines[0]) + (tail + pack));
        assert(seq![lines[0].update] + asked(lines.skip(1)) =~= asked(lines));
    }
}

// ---------------------------------------------------------------------------
// Answering
// ---------------------------------------------------------------------------

/// An answer to a git client.
#[derive(Debug)]
pub struct GitReply {
    pub status: Status,
    pub content_type: Option<String>,
    pub no_cache: bool,
    pub body: Vec<u8>,
}

/// What a `GitReply` says.
#[verifier::ext_equal]
pub struct GitReplyView {
    pub status: Status,
    pub content_type: Option<Seq<char>>,
    pub no_cache: bool,
    pub body: Seq<u8>,
}

impl View for GitReply {
    type V = GitReplyView;

    open spec fn view(&self) -> GitReplyView {
        GitReplyView {
            status: self.status,
            content_type: match self.content_type {
                Some(t) => Some(t@),
                None => None,
            },
            no_cache: self.no_cache,
            body: self.body@,
        }
    }
}

/// An answer that is a status and nothing else.
pub open spec fn bare(status: Status) -> GitReplyView {
    GitReplyView { status, content_type: None, no_cache: false, body: seq![] }
}

/// The answer to a push that was refused.
pub open spec fn rejected(msg: Seq<char>) -> GitReplyView {
    GitReplyView {
        status: Status::Forbidden,
        content_type: Some("text/plain"@),
        no_cache: false,
        body: encode_utf8("push rejected: "@ + msg + "\n"@),
    }
}

/// The answer that hands git's own output on.
pub open spec fn delivered(content_type: Seq<char>, output: Seq<u8>) -> GitReplyView {
    GitReplyView {
        status: Status::Success,
        content_type: Some(content_type),
        no_cache: true,
        body: output,
    }
}

fn bare_reply(status: Status) -> (r: GitReply)
    ensures
        r@ == bare(status),
{
    GitReply { status, content_type: None, no_cache: false, body: Vec::new() }
}

fn rejection(msg: &str) -> (r: GitReply)
    ensures
        r@ == rejected(msg@),
{
    let mut text = String::from_str("push rejected: ");
    text.append(msg);
    text.append("\n");
    GitReply {
        status: Status::Forbidden,
        content_type: Some(String::from_str("text/plain")),
        no_cache: false,
        body: text.as_str().as_bytes_vec(),
    }
}

fn delivery(content_type: &str, output: Vec<u8>) -> (r: GitReply)
    ensures
        r@ == delivered(content_type@, output@),
{
    GitReply {
        status: Status::Success,
        content_type: Some(String::from_str(content_type)),
        no_cache: true,
        body: output,
    }
}

/// The git command behind a service name.
pub open spec fn service_command(service: Seq<char>) -> Option<Seq<char>> {
    if service == "git-upload-pack"@ {
        Some("upload-pack"@)
    } else if service == "git-receive-pack"@ {
        Some("receive-pack"@)
    } else {
        None
    }
}

/// The git command to run for a reference advertisement; any service but the two of the protocol
/// is a bad request.
pub fn info_refs_command(service: &str) -> (r: Result<String, Status>)
    ensures
        match r {
            Ok(c) => service_command(service@) == Some(c@),
            Err(e) => service_command(service@) is None && e == Status::BadRequest,
        },
{
    if same_text(service, "git-upload-pack") {
        Ok(String::from_str("upload-pack"))
    } else if same_text(service, "git-receive-pack") {
        Ok(String::from_str("receive-pack"))
    } else {
        Err(Status::BadRequest)
    }
}

/// The answer to a request for references, from git's output where it ran.
pub fn info_refs(service: &str, output: Option<Vec<u8>>) -> (r: GitReply)
    ensures
        r@ == match output {
            None => bare(Status::InternalServerError),
            Some(o) => delivered(
                "application/x-"@ + service@ + "-advertisement"@,
                advertisement(service@, o@),
            ),
        },
{
    match output {
        None => bare_reply(Status::InternalServerError),
        Some(o) => {
            let mut content_type = String::from_str("application/x-");
            content_type.append(service);
            content_type.append("-advertisement");
            delivery(content_type.as_str(), wrap_advertisement(service, o.as_slice()))
        },
    }
}

/// Forty zeros, git's name for no commit.
pub open spec fn zero_sha() -> Seq<char> {
    Seq::new(40, |i: int| '0')
}

pub fn zero_sha_text() -> (r: String)
    ensures
        r@ == zero_sha(),
{
    let s = String::from_str("0000000000000000000000000000000000000000");
    proof {
        reveal_strlit("0000000000000000000000000000000000000000");
        assert(s@ =~= zero_sha());
    }
    s
}

pub open spec fn is_hex_char(c: char) -> bool {
    '0' <= c <= '9' || 'a' <= c <= 'f' || 'A' <= c <= 'F'
}

/// Whether `s` is the name of a commit: forty hexadecimal digits.
pub open spec fn is_sha(s: Seq<char>) -> bool {
    s.len() == 40 && forall|i: int| 0 <= i < s.len() ==> is_hex_char(#[trigger] s[i])
}

/// The commit that `git rev-parse` printed, or zeros where it failed or printed something else
/// (as it does in a repository without commits).
pub open spec fn head_commit(success: bool, stdout: Seq<char>) -> Seq<char> {
    if success && is_sha(trim(stdout)) {
        trim(stdout)
    } else {
        zero_sha()
    }
}

/// The current HEAD SHA, or a string of zeros if the repo has no commits.
pub fn current_head(success: bool, stdout: &str) -> (r: String)
    ensures
        r@ == head_commit(success, stdout@),
{
    if !success {
        return zero_sha_text();
    }
    let chars = chars_of(stdout);
    let sha = trim_chars(chars.as_slice());
    if sha.len() != 40 {
        return zero_sha_text();
    }
    let mut i: usize = 0;
    while i < sha.len()
        invariant
            i <= sha@.len(),
            sha@ == trim(stdout@),
            sha@.len() == 40,
            forall|j: int| 0 <= j < i ==> is_hex_char(#[trigger] sha@[j]),
        decreases sha@.len() - i,
    {
        let c = sha[i];
        if !((c >= '0' && c <= '9') || (c >= 'a' && c <= 'f') || (c >= 'A' && c <= 'F')) {
            proof {
                assert(!is_hex_char(sha@[i as int]));
            }
            return zero_sha_text();
        }
        i += 1;
    }
    string_of(sha)
}

/// What to do next with a push whose body was read.
pub enum PushStep {
    /// Ask whether the agent may update these refs.
    CheckRefs(Vec<RefUpdate>),
    /// Hand the body to git.
    RunGit,
    Respond(GitReply),
}

/// The first step of a push. The body is read in full before git sees any of it, so that the refs
/// it updates can be checked. A body that could not be read is a bad request.
pub fn receive_pack(checks_refs: bool, body: Option<&[u8]>) -> (r: PushStep)
    ensures
        match body {
            None => r matches PushStep::Respond(reply) && reply@ == bare(Status::BadRequest),
            Some(b) => if checks_refs && ref_updates(b@).len() > 0 {
                r matches PushStep::CheckRefs(us) && update_views(us@) == ref_updates(b@)
            } else {
                r is RunGit
            },
        },
{
    match body {
        None => PushStep::Respond(bare_reply(Status::BadRequest)),
        Some(b) => {
            if !checks_refs {
                return PushStep::RunGit;
            }
            let updates = parse_ref_updates(b);
            proof {
                assert(updates@.len() == update_views(updates@).len());
            }
            if updates.len() > 0 {
                PushStep::CheckRefs(updates)
            } else {
                PushStep::RunGit
            }
        },
    }
}

/// The step after the refs were checked: a push that was refused is answered with the reason and
/// goes no further.
pub fn receive_pack_checked(verdict: Result<(), String>) -> (r: PushStep)
    ensures
        match verdict {
            Ok(_) => r is RunGit,
            Err(msg) => r matches PushStep::Respond(reply) && reply@ == rejected(msg@),
        },
{
    match verdict {
        Ok(_) => PushStep::RunGit,
        Err(msg) => PushStep::Respond(rejection(msg.as_str())),
    }
}

/// The commits between which a push moved HEAD, where it moved it.
pub open spec fn head_moved(
    old_head: Option<Seq<char>>,
    new_head: Option<Seq<char>>,
) -> Option<(Seq<char>, Seq<char>)> {
    let old_sha = match old_head {
        Some(s) => s,
        None => zero_sha(),
    };
    match new_head {
        Some(new_sha) => if new_sha.len() > 0 && new_sha != old_sha {
            Some((old_sha, new_sha))
        } else {
            None
        },
        None => None,
    }
}

/// Whether the push is to be indexed, and between which commits. A head that could not be read
/// counts as no commit before the push, and as nothing to index after it.
pub fn receive_pack_moved(
    indexes: bool,
    old_head: Option<String>,
    new_head: Option<String>,
) -> (r: Option<(String, String)>)
    ensures
        match r {
            Some(p) => indexes && head_moved(opt_text(old_head), opt_text(new_head)) == Some(
                (p.0@, p.1@),
            ),
            None => !indexes || head_moved(opt_text(old_head), opt_text(new_head)) is None,
        },
{
    if !indexes {
        return None;
    }
    let old_sha = match old_head {
        Some(s) => s,
        None => zero_sha_text(),
    };
    match new_head {
        Some(new_sha) => {
            if !new_sha.as_str().is_empty() && !same_text(new_sha.as_str(), old_sha.as_str()) {
                Some((old_sha, new_sha))
            } else {
                None
            }
        },
        None => None,
    }
}

/// The answer to a push that reached git. A push that indexing refused is answered with the
/// reason, even though git has taken it.
pub fn receive_pack_reply(output: Option<Vec<u8>>, verdict: Result<(), String>) -> (r: GitReply)
    ensures
        r@ == match (output, verdict) {
            (None, _) => bare(Status::InternalServerError),
            (Some(_), Err(msg)) => rejected(msg@),
            (Some(o), Ok(_)) => delivered("application/x-git-receive-pack-result"@, o@),
        },
{
    match output {
        None => bare_reply(Status::InternalServerError),
        Some(o) => match verdict {
            Err(msg) => rejection(msg.as_str()),
            Ok(_) => delivery("application/x-git-receive-pack-result", o),
        },
    }
}

/// A push that leaves HEAD where it was is not indexed, and neither is one into a repository that
/// still has no commit.
pub proof fn law_still_head_is_not_indexed(head: Option<Seq<char>>)
    ensures
        head_moved(head, head) is None,
        head_moved(None, Some(zero_sha())) is None,
{
}

/// A head that moved is handed on with the commit it stood at before, or with zeros where there was
/// none, and the commit it stands at now.
pub proof fn law_moved_head_is_handed_on(old_sha: Seq<char>, new_sha: Seq<char>)
    ensures
        new_sha.len() > 0 && new_sha != old_sha ==> head_moved(Some(old_sha), Some(new_sha)) == Some(
            (old_sha, new_sha),
        ),
        new_sha.len() > 0 && new_sha != zero_sha() ==> head_moved(None, Some(new_sha)) == Some(
            (zero_sha(), new_sha),
        ),
        head_moved(Some(old_sha), None) is None,
        zero_sha().len() == 40,
        forall|i: int| 0 <= i < 40 ==> #[trigger] zero_sha()[i] == '0',
{
}

/// The head is what git printed, without the line feed behind it, where that is the name of a commit;
/// where git failed or printed something else there is no commit, which zeros stand for.
pub proof fn law_head_is_what_git_printed(sha: Seq<char>, other: Seq<char>)
    requires
        sha.len() == 40,
        forall|i: int|
            0 <= i < 40 ==> {
                let c = #[trigger] sha[i];
                '0' <= c <= '9' || 'a' <= c <= 'f' || 'A' <= c <= 'F'
            },
        trim(other).len() != 40,
    ensures
        head_commit(true, sha + seq!['\n']) == sha,
        head_commit(true, sha) == sha,
        head_commit(false, sha) == zero_sha(),
        head_commit(true, other) == zero_sha(),
{
    let line = sha + seq!['\n'];
    assert forall|i: int| 0 <= i < 40 implies !crate::text::is_space(#[trigger] sha[i]) && is_hex_char(
        sha[i],
    ) by {}
    assert(line[0] == sha[0]);
    assert(crate::text::trim_start(line) == line);
    assert(line.last() == '\n');
    assert(line.drop_last() =~= sha);
    assert(sha.last() == sha[39]);
    assert(crate::text::trim_end(sha) == sha);
    assert(crate::text::trim_end(line) == sha);
    assert(crate::text::trim_start(sha) == sha);
}

/// There are two services, each with a command of git's own.
pub proof fn law_services_have_commands(service: Seq<char>)
    ensures
        service_command(service) matches Some(c) ==> service == "git-"@ + c,
        service_command("git-upload-pack"@) is Some && service_command("git-receive-pack"@) is Some,
        service_command(service) is Some ==> service == "git-upload-pack"@ || service
            == "git-receive-pack"@,
{
    reveal_strlit("git-");
    reveal_strlit("git-upload-pack");
    reveal_strlit("git-receive-pack");
    reveal_strlit("upload-pack");
    reveal_strlit("receive-pack");
    lemma_git_upload_pack();
    lemma_git_receive_pack();
}

proof fn lemma_git_upload_pack()
    ensures
        "git-upload-pack"@ == "git-"@ + "upload-pack"@,
{
    reveal_strlit("git-");
    reveal_strlit("git-upload-pack");
    reveal_strlit("upload-pack");
    assert("git-upload-pack"@ =~= "git-"@ + "upload-pack"@);
}

proof fn lemma_git_receive_pack()
    ensures
        "git-receive-pack"@ == "git-"@ + "receive-pack"@,
{
    reveal_strlit("git-");
    reveal_strlit("git-receive-pack");
    reveal_strlit("receive-pack");
    assert("git-receive-pack"@ =~= "git-"@ + "receive-pack"@);
}

/// A refused push is answered with the reason, and git's own output is handed on as it is; a bare
/// answer says nothing but its status.
pub proof fn law_answers_carry_their_content(msg: Seq<char>, kind: Seq<char>, output: Seq<u8>)
    ensures
        rejected(msg).status == Status::Forbidden,
        decode_utf8(rejected(msg).body) == "push rejected: "@ + msg + "\n"@,
        delivered(kind, output).status == Status::Success,
        delivered(kind, output).body == output,
        delivered(kind, output).content_type == Some(kind),
        delivered(kind, output).no_cache,
        forall|s: Status| (#[trigger] bare(s)).status == s && bare(s).body.len() == 0,
{
    encode_utf8_decode_utf8("push rejected: "@ + msg + "\n"@);
}

/// A command names two commits of forty bytes each and a ref; a line that does not is no command.
pub proof fn law_commands_name_commits(data: Seq<u8>)
    ensures
        ref_command(data) matches Some(u) ==> encode_utf8(u.old_sha).len() == 40 && encode_utf8(
            u.new_sha,
        ).len() == 40,
        !valid_utf8(data) ==> ref_command(data) is None,
{
}

/// Packets that hold no command are passed over, and what follows them is read all the same.
pub proof fn law_other_packets_are_passed_over(data: Seq<u8>, rest: Seq<u8>)
    requires
        data.len() + 4 < 65536,
        ref_command(data) is None,
    ensures
        ref_updates(packet(data) + rest) == ref_updates(rest),
{
    law_packet_is_read_back(data, rest);
}

/// What a value says in contracts is what its fields say, each in its own place.
pub proof fn law_views_show_every_field(ref_update: RefUpdate, git_reply: GitReply)
    ensures
        ref_update@.old_sha == ref_update.old_sha@,
        ref_update@.new_sha == ref_update.new_sha@,
        ref_update@.ref_name == ref_update.ref_name@,
        git_reply@.status == git_reply.status,
        git_reply@.content_type == (match git_reply.content_type { Some(t) => Some(t@), None => None, }),
        git_reply@.no_cache == git_reply.no_cache,
        git_reply@.body == git_reply.body@,
{
}

/// A list says in contracts what its items say, one for one and in their order.
pub proof fn law_items_are_read_one_for_one(v: Seq<RefUpdate>)
    ensures
        update_views(v).len() == v.len(),
        forall|i: int| 0 <= i < v.len() ==> #[trigger] update_views(v)[i] == v[i]@,
{
}

/// A head without a name did not move, and a refused push is answered in plain text that may be kept.
pub proof fn law_nameless_head_did_not_move(old_head: Option<Seq<char>>, msg: Seq<char>)
    ensures
        head_moved(old_head, Some(seq![])) is None,
        head_moved(old_head, None) is None,
        rejected(msg).content_type == Some("text/plain"@),
        !rejected(msg).no_cache,
{
}

/// An answer that is only a status says nothing of a content and does not keep it from being kept.
pub proof fn law_bare_answer_is_only_a_status(s: Status)
    ensures
        bare(s).content_type is None,
        !bare(s).no_cache,
{
}

} // verus!
