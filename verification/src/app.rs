//! Sponsors, agents, repositories and stars, and who may push what.

use vstd::prelude::*;
use vstd::string::*;
use crate::auth::AuthAgent;
use crate::format::TextFormat;
use crate::git::RefUpdate;
use crate::keys::{base64_bytes, base64_decode, opt_vec};
use crate::oauth::SessionSponsor;
use crate::repo::is_safe_name;
use crate::status::{found, Status};
use crate::table::Table;
use crate::text::{
    char_is_space, chars_of, dec_int, first_index, has_prefix, i64_text, is_space,
    lemma_ended_line, lemma_first_index_props, same_text, split, string_of, strip_prefix,
    text_starts_with, texts, trim, trim_chars,
};

verus! {

/// What the server answers when it is asked whether it is well.
pub fn health() -> (r: &'static str)
    ensures
        r@ == "ok"@,
{
    "ok"
}

// ---------------------------------------------------------------------------
// Sponsors & Agents
// ---------------------------------------------------------------------------

#[derive(Debug)]
pub struct CreateSponsor {
    pub name: String,
}

pub struct SponsorResponse {
    pub id: String,
    pub name: String,
}

impl TextFormat for SponsorResponse {
    open spec fn text(&self) -> Seq<char> {
        "id: "@ + self.id@ + "\nname: "@ + self.name@ + "\n"@
    }

    open spec fn renders(&self) -> bool {
        true
    }

    fn to_text(&self) -> (r: String) {
        let mut s = String::from_str("id: ");
        s.append(self.id.as_str());
        s.append("\nname: ");
        s.append(self.name.as_str());
        s.append("\n");
        s
    }
}

/// Create a sponsor by name alone, which only a server under test does. `inserted` says whether the
/// name was free.
pub fn create_sponsor(testing: bool, body: CreateSponsor, id: String, inserted: bool) -> (r: Result<
    SponsorResponse,
    Status,
>)
    ensures
        if !testing {
            r matches Err(e) && e == Status::NotFound
        } else if !inserted {
            r matches Err(e) && e == Status::Conflict
        } else {
            r matches Ok(s) && s == (SponsorResponse { id, name: body.name })
        },
{
    if !testing {
        return Err(Status::NotFound);
    }
    if !inserted {
        return Err(Status::Conflict);
    }
    Ok(SponsorResponse { id, name: body.name })
}

#[derive(Debug)]
pub struct CreateAgent {
    pub name: String,
    pub public_key_base64: String,
}

pub struct AgentResponse {
    pub id: String,
    pub name: String,
    pub sponsor_id: String,
}

impl TextFormat for AgentResponse {
    open spec fn text(&self) -> Seq<char> {
        "id: "@ + self.id@ + "\nname: "@ + self.name@ + "\nsponsor: "@ + self.sponsor_id@ + "\n"@
    }

    open spec fn renders(&self) -> bool {
        true
    }

    fn to_text(&self) -> (r: String) {
        let mut s = String::from_str("id: ");
        s.append(self.id.as_str());
        s.append("\nname: ");
        s.append(self.name.as_str());
        s.append("\nsponsor: ");
        s.append(self.sponsor_id.as_str());
        s.append("\n");
        s
    }
}

pub open spec fn is_name_char(c: char) -> bool {
    ||| 'a' <= c <= 'z'
    ||| '0' <= c <= '9'
    ||| c == '-'
    ||| c == '_'
}

/// Names of agents and repositories: 1-64 characters, lowercase alphanumeric, hyphens and
/// underscores only, not starting or ending with a hyphen.
pub open spec fn valid_name(name: Seq<char>) -> bool {
    &&& 1 <= name.len() <= 64
    &&& name[0] != '-'
    &&& name.last() != '-'
    &&& forall|i: int| 0 <= i < name.len() ==> is_name_char(#[trigger] name[i])
}

/// Validate a name used in URL paths (agent names, repo names).
pub fn is_valid_name(name: &str) -> (r: bool)
    ensures
        r == valid_name(name@),
{
    let chars = chars_of(name);
    let total: usize = chars.len();
    if total == 0 || total > 64 || chars[0] == '-' || chars[total - 1] == '-' {
        return false;
    }
    let mut i: usize = 0;
    while i < total
        invariant
            i <= total,
            total == chars@.len(),
            chars@ == name@,
            forall|j: int| 0 <= j < i ==> is_name_char(#[trigger] name@[j]),
        decreases total - i,
    {
        let c = chars[i];
        if !(('a' <= c && c <= 'z') || ('0' <= c && c <= '9') || c == '-' || c == '_') {
            proof {
                assert(!is_name_char(name@[i as int]));
            }
            return false;
        }
        i += 1;
    }
    true
}

/// A valid name is one under which a repository can be kept on disk.
pub proof fn law_valid_name_is_safe(name: Seq<char>)
    requires
        valid_name(name),
    ensures
        is_safe_name(name),
{
    assert(is_name_char(name[0]));
    lemma_first_index_props(name, '/');
    let i = first_index(name, '/');
    if 0 <= i < name.len() {
        assert(is_name_char(name[i]));
    }
    assert(split(name, '/') =~= seq![name]);
    if split(name, '/').contains(seq!['.', '.']) {
        assert(name == seq!['.', '.']);
        assert(name[0] == '.');
    }
}

/// The encoded part of a public key: of an SSH public key the word behind its type, and of anything
/// else all of it.
#[derive(Debug)]
pub enum KeyText {
    Ssh(String),
    Raw(String),
    /// An SSH public key without a second word.
    Missing,
}

pub enum KeyTextView {
    Ssh(Seq<char>),
    Raw(Seq<char>),
    Missing,
}

impl View for KeyText {
    type V = KeyTextView;

    open spec fn view(&self) -> KeyTextView {
        match self {
            KeyText::Ssh(s) => KeyTextView::Ssh(s@),
            KeyText::Raw(s) => KeyTextView::Raw(s@),
            KeyText::Missing => KeyTextView::Missing,
        }
    }
}

/// The first characters of a text that are not white space.
pub open spec fn word(s: Seq<char>) -> Seq<char>
    decreases s.len(),
{
    if s.len() == 0 || is_space(s[0]) {
        seq![]
    } else {
        seq![s[0]] + word(s.skip(1))
    }
}

/// The first word of a text.
pub open spec fn first_word(s: Seq<char>) -> Seq<char> {
    word(crate::text::trim_start(s))
}

fn take_first_word(s: &[char]) -> (r: String)
    ensures
        r@ == first_word(s@),
{
    let total: usize = s.len();
    let mut i: usize = 0;
    proof {
        assert(s@.skip(0) =~= s@);
    }
    while i < total && char_is_space(s[i])
        invariant
            i <= total,
            total == s@.len(),
            crate::text::trim_start(s@) == crate::text::trim_start(s@.skip(i as int)),
        decreases total - i,
    {
        proof {
            assert(s@.skip(i as int).skip(1) =~= s@.skip(i as int + 1));
        }
        i += 1;
    }
    let start: usize = i;
    let mut out = String::new();
    proof {
        assert(crate::text::trim_start(s@) == s@.skip(start as int));
        assert(out@ + word(s@.skip(i as int)) =~= word(s@.skip(i as int)));
    }
    while i < total && !char_is_space(s[i])
        invariant
            start <= i <= total,
            total == s@.len(),
            out@ + word(s@.skip(i as int)) == word(s@.skip(start as int)),
        decreases total - i,
    {
        proof {
            assert(s@.skip(i as int).skip(1) =~= s@.skip(i as int + 1));
            assert(out@ + (seq![s@[i as int]] + word(s@.skip(i as int + 1))) =~= out@.push(
                s@[i as int],
            ) + word(s@.skip(i as int + 1)));
        }
        out.push(s[i]);
        i += 1;
    }
    proof {
        assert(word(s@.skip(i as int)) =~= seq![]);
        assert(out@ + Seq::<char>::empty() =~= out@);
    }
    out
}

/// What of a public key is to be decoded.
pub open spec fn key_text(input: Seq<char>) -> KeyTextView {
    let key = trim(input);
    if has_prefix(key, "ssh-ed25519 "@) {
        let w = first_word(key.skip("ssh-ed25519 "@.len() as int));
        if w.len() == 0 {
            KeyTextView::Missing
        } else {
            KeyTextView::Ssh(w)
        }
    } else {
        KeyTextView::Raw(key)
    }
}

/// Find what of a public key is to be decoded.
pub fn read_key_text(input: &str) -> (r: KeyText)
    ensures
        r@ == key_text(input@),
{
    let chars = chars_of(input);
    let key = trim_chars(chars.as_slice());
    match strip_prefix(key, "ssh-ed25519 ") {
        Some(rest) => {
            let w = take_first_word(rest);
            if w.as_str().is_empty() {
                KeyText::Missing
            } else {
                KeyText::Ssh(w)
            }
        },
        None => KeyText::Raw(string_of(key)),
    }
}

/// The key in what was decoded. An SSH public key holds it behind its type: u32 length, the 11 bytes
/// "ssh-ed25519", u32 length, and then the 32 bytes of the key.
pub open spec fn key_in(text: KeyTextView, decoded: Option<Seq<u8>>) -> Option<Seq<u8>> {
    match decoded {
        None => None,
        Some(b) => match text {
            KeyTextView::Ssh(_) => if b.len() < 51 {
                None
            } else {
                Some(b.subrange(19, 51))
            },
            KeyTextView::Raw(_) => if b.len() == 32 {
                Some(b)
            } else {
                None
            },
            KeyTextView::Missing => None,
        },
    }
}

/// The key in what was decoded.
pub fn decoded_key(text: &KeyText, decoded: Option<Vec<u8>>) -> (r: Option<Vec<u8>>)
    ensures
        opt_vec(r) == key_in(text@, opt_vec(decoded)),
{
    match decoded {
        None => None,
        Some(b) => {
            match text {
                KeyText::Ssh(_) => {
                    if b.len() < 51 {
                        return None;
                    }
                    let mut key: Vec<u8> = Vec::new();
                    let mut i: usize = 19;
                    while i < 51
                        invariant
                            19 <= i <= 51,
                            b@.len() >= 51,
                            key@ == b@.subrange(19, i as int),
                        decreases 51 - i,
                    {
                        key.push(b[i]);
                        proof {
                            assert(b@.subrange(19, i as int + 1) =~= b@.subrange(
                                19,
                                i as int,
                            ).push(b@[i as int]));
                        }
                        i += 1;
                    }
                    Some(key)
                },
                KeyText::Raw(_) => {
                    if b.len() == 32 {
                        Some(b)
                    } else {
                        None
                    }
                },
                KeyText::Missing => None,
            }
        },
    }
}

/// The key that a text stands for.
pub open spec fn public_key_in(input: Seq<char>) -> Option<Seq<u8>> {
    match key_text(input) {
        KeyTextView::Ssh(s) => key_in(key_text(input), base64_bytes(s)),
        KeyTextView::Raw(s) => key_in(key_text(input), base64_bytes(s)),
        KeyTextView::Missing => None,
    }
}

/// Parse an Ed25519 public key from various formats:
/// - Raw 32-byte base64 (e.g. "abc123...==")
/// - SSH public key (e.g. "ssh-ed25519 AAAAC3NzaC1lZDI1NTE5AAAA... comment")
///
/// Returns the 32-byte key, or None if parsing fails.
pub fn parse_ed25519_public_key(input: &str) -> (r: Option<Vec<u8>>)
    ensures
        opt_vec(r) == public_key_in(input@),
        r matches Some(k) ==> k@.len() == 32,
{
    let text = read_key_text(input);
    let decoded = match &text {
        KeyText::Ssh(s) => base64_decode(s.as_str()),
        KeyText::Raw(s) => base64_decode(s.as_str()),
        KeyText::Missing => None,
    };
    decoded_key(&text, decoded)
}

/// An agent as it is stored when it is registered, with its first key.
#[derive(Debug)]
pub struct NewAgent {
    pub id: String,
    pub name: String,
    pub sponsor_id: String,
    pub key: Vec<u8>,
}

/// Register an agent. The sponsor has to be logged in and to register it for themselves; the name and
/// the key have to be valid.
pub fn create_agent(
    session: &Option<SessionSponsor>,
    sponsor_id: String,
    body: CreateAgent,
    id: String,
) -> (r: Result<NewAgent, Status>)
    ensures
        match *session {
            None => r matches Err(e) && e == Status::Unauthorized,
            Some(s) => if s.id@ != sponsor_id@ {
                r matches Err(e) && e == Status::Forbidden
            } else if !valid_name(body.name@) {
                r matches Err(e) && e == Status::BadRequest
            } else {
                match public_key_in(body.public_key_base64@) {
                    None => r matches Err(e) && e == Status::BadRequest,
                    Some(k) => r matches Ok(a) && {
                        &&& a.id == id
                        &&& a.name == body.name
                        &&& a.sponsor_id == sponsor_id
                        &&& a.key@ == k
                    },
                }
            },
        },
{
    match session {
        None => {
            return Err(Status::Unauthorized);
        },
        Some(s) => {
            if !same_text(s.id.as_str(), sponsor_id.as_str()) {
                return Err(Status::Forbidden);
            }
        },
    }
    if !is_valid_name(body.name.as_str()) {
        return Err(Status::BadRequest);
    }
    match parse_ed25519_public_key(body.public_key_base64.as_str()) {
        None => Err(Status::BadRequest),
        Some(key) => Ok(NewAgent { id, name: body.name, sponsor_id, key }),
    }
}

/// The answer, once the agent and its key were stored. A name that is taken is a conflict.
pub fn agent_created(agent: NewAgent, inserted: bool, key_inserted: bool) -> (r: Result<
    AgentResponse,
    Status,
>)
    ensures
        if !inserted {
            r matches Err(e) && e == Status::Conflict
        } else if !key_inserted {
            r matches Err(e) && e == Status::InternalServerError
        } else {
            r matches Ok(a) && a == (AgentResponse {
                id: agent.id,
                name: agent.name,
                sponsor_id: agent.sponsor_id,
            })
        },
{
    if !inserted {
        return Err(Status::Conflict);
    }
    if !key_inserted {
        return Err(Status::InternalServerError);
    }
    Ok(AgentResponse { id: agent.id, name: agent.name, sponsor_id: agent.sponsor_id })
}

pub struct MeResponse {
    pub agent_id: String,
    pub agent_name: String,
    pub sponsor_name: String,
}

impl TextFormat for MeResponse {
    open spec fn text(&self) -> Seq<char> {
        "agent: "@ + self.agent_id@ + "\nname: "@ + self.agent_name@ + "\nsponsor: "@ + self.sponsor_name@ + "\n"@
    }

    open spec fn renders(&self) -> bool {
        true
    }

    fn to_text(&self) -> (r: String) {
        let mut s = String::from_str("agent: ");
        s.append(self.agent_id.as_str());
        s.append("\nname: ");
        s.append(self.agent_name.as_str());
        s.append("\nsponsor: ");
        s.append(self.sponsor_name.as_str());
        s.append("\n");
        s
    }
}

/// Who an agent is.
pub fn me(agent: AuthAgent) -> (r: MeResponse)
    ensures
        r == (MeResponse {
            agent_id: agent.agent_id,
            agent_name: agent.agent_name,
            sponsor_name: agent.sponsor_name,
        }),
{
    MeResponse {
        agent_id: agent.agent_id,
        agent_name: agent.agent_name,
        sponsor_name: agent.sponsor_name,
    }
}

pub struct AgentList(pub Vec<AgentResponse>);

/// The line that shows an agent in a list.
pub open spec fn agent_line(a: AgentResponse) -> Seq<char> {
    a.id@ + "\t"@ + a.name@ + "\n"@
}

pub open spec fn agent_lines(v: Seq<AgentResponse>) -> Seq<char>
    decreases v.len(),
{
    if v.len() == 0 {
        seq![]
    } else {
        agent_lines(v.drop_last()) + agent_line(v.last())
    }
}

impl TextFormat for AgentList {
    open spec fn text(&self) -> Seq<char> {
        if self.0@.len() == 0 {
            "(no agents)\n"@
        } else {
            agent_lines(self.0@)
        }
    }

    open spec fn renders(&self) -> bool {
        true
    }

    fn to_text(&self) -> (r: String) {
        let v = &self.0;
        if v.len() == 0 {
            return String::from_str("(no agents)\n");
        }
        let mut s = String::new();
        let mut i: usize = 0;
        proof {
            assert(v@.take(0) =~= seq![]);
        }
        while i < v.len()
            invariant
                i <= v@.len(),
                s@ == agent_lines(v@.take(i as int)),
            decreases v@.len() - i,
        {
            let ghost before = s@;
            s.append(v[i].id.as_str());
            s.append("\t");
            s.append(v[i].name.as_str());
            s.append("\n");
            proof {
                assert(v@.take(i as int + 1).drop_last() =~= v@.take(i as int));
                assert(s@ =~= before + agent_line(v@[i as int]));
            }
            i += 1;
        }
        proof {
            assert(v@.take(i as int) =~= v@);
        }
        s
    }
}

// ---------------------------------------------------------------------------
// Key management (session-authed, for sponsors)
// ---------------------------------------------------------------------------

#[derive(Debug)]
pub struct AddKey {
    pub public_key_base64: String,
}

/// Why a sponsor cannot change the keys of an agent: they have to be logged in, the key has to be
/// valid, and the agent has to be theirs.
pub open spec fn key_fault(logged_in: bool, input: Seq<char>, agent_known: bool) -> Option<Status> {
    if !logged_in {
        Some(Status::Unauthorized)
    } else if public_key_in(input) is None {
        Some(Status::BadRequest)
    } else if !agent_known {
        Some(Status::NotFound)
    } else {
        None
    }
}

/// The key that is meant, before the agent is looked up.
pub fn key_to_change(logged_in: bool, body: &AddKey) -> (r: Result<Vec<u8>, Status>)
    ensures
        match key_fault(logged_in, body.public_key_base64@, true) {
            Some(e) => r matches Err(f) && f == e,
            None => r matches Ok(k) && Some(k@) == public_key_in(body.public_key_base64@),
        },
{
    if !logged_in {
        return Err(Status::Unauthorized);
    }
    match parse_ed25519_public_key(body.public_key_base64.as_str()) {
        None => Err(Status::BadRequest),
        Some(key) => Ok(key),
    }
}

/// Add a new public key to an existing agent (for key rotation): the agent's ID and the key that are
/// stored.
pub fn add_agent_key(logged_in: bool, body: &AddKey, agent_id: Option<String>) -> (r: Result<
    (String, Vec<u8>),
    Status,
>)
    ensures
        match key_fault(logged_in, body.public_key_base64@, agent_id is Some) {
            Some(e) => r matches Err(f) && f == e,
            None => r matches Ok(p) && Some(p.0) == agent_id && Some(p.1@) == public_key_in(
                body.public_key_base64@,
            ),
        },
{
    match key_to_change(logged_in, body) {
        Err(e) => Err(e),
        Ok(key) => match found(agent_id) {
            Err(e) => Err(e),
            Ok(id) => Ok((id, key)),
        },
    }
}

/// Whether the key was added. A key that is in use is a conflict.
pub fn key_added(inserted: bool) -> (r: Status)
    ensures
        r == (if inserted {
            Status::Created
        } else {
            Status::Conflict
        }),
{
    if inserted {
        Status::Created
    } else {
        Status::Conflict
    }
}

pub open spec fn key_views(keys: Seq<Vec<u8>>) -> Seq<Seq<u8>> {
    keys.map_values(|k: Vec<u8>| k@)
}

fn same_bytes(a: &Vec<u8>, b: &Vec<u8>) -> (r: bool)
    ensures
        r == (a@ == b@),
{
    if a.len() != b.len() {
        return false;
    }
    let mut i: usize = 0;
    while i < a.len()
        invariant
            i <= a@.len(),
            a@.len() == b@.len(),
            forall|j: int| 0 <= j < i ==> a@[j] == b@[j],
        decreases a@.len() - i,
    {
        if a[i] != b[i] {
            return false;
        }
        i += 1;
    }
    proof {
        assert(a@ =~= b@);
    }
    true
}

/// Whether a key may be revoked: it has to be one of the keys, and not the last one.
pub open spec fn may_revoke(keys: Seq<Seq<u8>>, key: Seq<u8>) -> bool {
    keys.contains(key) && keys.len() != 1
}

/// Revoke a key of an agent: the agent's ID and the key that are taken out. The key has to be one of
/// the agent's, and the last key cannot be revoked.
pub fn revoke_agent_key(
    logged_in: bool,
    body: &AddKey,
    agent_id: Option<String>,
    keys: &Vec<Vec<u8>>,
) -> (r: Result<(String, Vec<u8>), Status>)
    ensures
        match key_fault(logged_in, body.public_key_base64@, agent_id is Some) {
            Some(e) => r matches Err(f) && f == e,
            None => {
                let key = public_key_in(body.public_key_base64@).unwrap();
                if may_revoke(key_views(keys@), key) {
                    r matches Ok(p) && Some(p.0) == agent_id && p.1@ == key
                } else if key_views(keys@).contains(key) {
                    r matches Err(f) && f == Status::Conflict
                } else {
                    r matches Err(f) && f == Status::NotFound
                }
            },
        },
{
    match add_agent_key(logged_in, body, agent_id) {
        Err(e) => Err(e),
        Ok((id, key)) => {
            let mut known = false;
            let mut i: usize = 0;
            while i < keys.len()
                invariant
                    i <= keys@.len(),
                    known == (exists|j: int| 0 <= j < i && (#[trigger] keys@[j])@ == key@),
                decreases keys@.len() - i,
            {
                if same_bytes(&keys[i], &key) {
                    known = true;
                }
                i += 1;
            }
            proof {
                if known {
                    let j = choose|j: int| 0 <= j < i && (#[trigger] keys@[j])@ == key@;
                    assert(key_views(keys@)[j] == key@);
                } else if key_views(keys@).contains(key@) {
                    let j = choose|j: int|
                        0 <= j < key_views(keys@).len() && key_views(keys@)[j] == key@;
                    assert(keys@[j]@ == key@);
                }
            }
            if !known {
                return Err(Status::NotFound);
            }
            if keys.len() == 1 {
                return Err(Status::Conflict);
            }
            Ok((id, key))
        },
    }
}

/// The keys without one of them.
pub open spec fn without_key(keys: Seq<Seq<u8>>, key: Seq<u8>) -> Seq<Seq<u8>>
    decreases keys.len(),
{
    if keys.len() == 0 {
        seq![]
    } else if keys.last() == key {
        without_key(keys.drop_last(), key)
    } else {
        without_key(keys.drop_last(), key).push(keys.last())
    }
}

proof fn lemma_without_key(keys: Seq<Seq<u8>>, key: Seq<u8>)
    requires
        keys.no_duplicates(),
    ensures
        forall|k: Seq<u8>|
            #[trigger] without_key(keys, key).contains(k) == (keys.contains(k) && k != key),
        without_key(keys, key).len() + (if keys.contains(key) {
            1int
        } else {
            0int
        }) == keys.len(),
    decreases keys.len(),
{
    if keys.len() > 0 {
        let front = keys.drop_last();
        let last = keys.last();
        lemma_without_key(front, key);
        assert(keys =~= front.push(last));
        assert forall|k: Seq<u8>| keys.contains(k) == (front.contains(k) || k == last) by {
            if front.contains(k) {
                let i = choose|i: int| 0 <= i < front.len() && front[i] == k;
                assert(keys[i] == k);
            }
            if k == last {
                assert(keys[keys.len() - 1] == k);
            }
            if keys.contains(k) && k != last {
                let i = choose|i: int| 0 <= i < keys.len() && keys[i] == k;
                assert(front[i] == k);
            }
        }
        if front.contains(last) {
            let i = choose|i: int| 0 <= i < front.len() && front[i] == last;
            assert(keys[i] == keys[keys.len() - 1]);
        }
        let rest = without_key(front, key);
        if last != key {
            let r = rest.push(last);
            assert forall|k: Seq<u8>| #[trigger] r.contains(k) == (rest.contains(k) || k == last) by {
                if rest.contains(k) {
                    let i = choose|i: int| 0 <= i < rest.len() && rest[i] == k;
                    assert(r[i] == k);
                }
                if k == last {
                    assert(r[r.len() - 1] == k);
                }
            }
        }
    }
}

/// Revoking takes out the key and no other, and never leaves an agent without one.
pub proof fn law_an_agent_keeps_a_key(keys: Seq<Seq<u8>>, key: Seq<u8>, other: Seq<u8>)
    requires
        keys.no_duplicates(),
        may_revoke(keys, key),
        other != key,
    ensures
        !without_key(keys, key).contains(key),
        without_key(keys, key).contains(other) == keys.contains(other),
        without_key(keys, key).len() == keys.len() - 1,
        without_key(keys, key).len() >= 1,
{
    lemma_without_key(keys, key);
    let i = choose|i: int| 0 <= i < keys.len() && keys[i] == key;
    assert(0 <= i < keys.len());
}

// ---------------------------------------------------------------------------
// Repo CRUD
// ---------------------------------------------------------------------------

#[derive(Debug)]
pub struct CreateRepo {
    pub name: String,
    pub description: String,
}

#[derive(Debug)]
pub struct RepoResponse {
    pub id: String,
    pub owner_name: String,
    pub name: String,
    pub description: String,
    pub stars: i64,
    pub created_at: String,
}

/// What an answer about a repository says.
#[verifier::ext_equal]
pub struct RepoResponseView {
    pub id: Seq<char>,
    pub owner_name: Seq<char>,
    pub name: Seq<char>,
    pub description: Seq<char>,
    pub created_at: Seq<char>,
    pub stars: int,
}

impl View for RepoResponse {
    type V = RepoResponseView;

    open spec fn view(&self) -> RepoResponseView {
        RepoResponseView {
            id: self.id@,
            owner_name: self.owner_name@,
            name: self.name@,
            description: self.description@,
            created_at: self.created_at@,
            stars: self.stars as int,
        }
    }
}

/// A line with a text, or none where the text is empty.
pub open spec fn optional_line(start: Seq<char>, s: Seq<char>) -> Seq<char> {
    if s.len() == 0 {
        seq![]
    } else {
        start + s + "\n"@
    }
}

fn show_optional_line(start: &str, s: &str) -> (r: String)
    ensures
        r@ == optional_line(start@, s@),
{
    if s.is_empty() {
        String::new()
    } else {
        let mut t = String::from_str(start);
        t.append(s);
        t.append("\n");
        t
    }
}

impl TextFormat for RepoResponse {
    open spec fn text(&self) -> Seq<char> {
        self.owner_name@ + "/"@ + self.name@ + "  "@ + dec_int(self.stars as int) + " star"@ + (if self.stars == 1 {
            ""@
        } else {
            "s"@
        }) + "\n"@ + optional_line("  "@, self.description@) + optional_line("  created: "@, self.created_at@)
    }

    open spec fn renders(&self) -> bool {
        true
    }

    fn to_text(&self) -> (r: String) {
        let mut s = String::from_str(self.owner_name.as_str());
        s.append("/");
        s.append(self.name.as_str());
        s.append("  ");
        s.append(i64_text(self.stars).as_str());
        s.append(" star");
        s.append(if self.stars == 1 {
                ""
            } else {
                "s"
            });
        s.append("\n");
        s.append(show_optional_line("  ", self.description.as_str()).as_str());
        s.append(show_optional_line("  created: ", self.created_at.as_str()).as_str());
        s
    }
}

/// A list of repositories, which renders as a text table.
pub struct RepoList(pub Vec<RepoResponse>);

/// The line that shows a repository in a list.
pub open spec fn repo_line(repo: RepoResponse) -> Seq<char> {
    repo.owner_name@ + "/"@ + repo.name@ + "  "@ + repo.description@ + "  ("@ + dec_int(
        repo.stars as int,
    ) + " star"@ + (if repo.stars == 1 {
        ""@
    } else {
        "s"@
    }) + ")\n"@
}

pub open spec fn repo_lines(v: Seq<RepoResponse>) -> Seq<char>
    decreases v.len(),
{
    if v.len() == 0 {
        seq![]
    } else {
        repo_lines(v.drop_last()) + repo_line(v.last())
    }
}

impl TextFormat for RepoList {
    open spec fn text(&self) -> Seq<char> {
        if self.0@.len() == 0 {
            "(no repos)\n"@
        } else {
            repo_lines(self.0@)
        }
    }

    open spec fn renders(&self) -> bool {
        true
    }

    fn to_text(&self) -> (r: String) {
        let v = &self.0;
        if v.len() == 0 {
            return String::from_str("(no repos)\n");
        }
        let mut s = String::new();
        let mut i: usize = 0;
        proof {
            assert(v@.take(0) =~= seq![]);
        }
        while i < v.len()
            invariant
                i <= v@.len(),
                s@ == repo_lines(v@.take(i as int)),
            decreases v@.len() - i,
        {
            let ghost before = s@;
            let repo = &v[i];
            s.append(repo.owner_name.as_str());
            s.append("/");
            s.append(repo.name.as_str());
            s.append("  ");
            s.append(repo.description.as_str());
            s.append("  (");
            s.append(i64_text(repo.stars).as_str());
            s.append(" star");
            s.append(
                if repo.stars == 1 {
                    ""
                } else {
                    "s"
                },
            );
            s.append(")\n");
            proof {
                assert(v@.take(i as int + 1).drop_last() =~= v@.take(i as int));
                assert(s@ =~= before + repo_line(v@[i as int]));
            }
            i += 1;
        }
        proof {
            assert(v@.take(i as int) =~= v@);
        }
        s
    }
}

/// A repository as it is stored when it is created.
#[derive(Debug)]
pub struct NewRepo {
    pub id: String,
    pub owner_id: String,
    pub name: String,
    pub description: String,
}

/// Create a repository of the agent, under a valid name.
pub fn create_repo(agent: AuthAgent, body: CreateRepo, id: String) -> (r: Result<
    (NewRepo, RepoResponse),
    Status,
>)
    ensures
        if !valid_name(body.name@) {
            r matches Err(e) && e == Status::BadRequest
        } else {
            r matches Ok(p) && {
                &&& p.0 == (NewRepo {
                    id,
                    owner_id: agent.agent_id,
                    name: body.name,
                    description: body.description,
                })
                &&& p.1@ == (RepoResponseView {
                    id: id@,
                    owner_name: agent.agent_name@,
                    name: body.name@,
                    description: body.description@,
                    stars: 0,
                    created_at: seq![],
                })
            }
        },
{
    if !is_valid_name(body.name.as_str()) {
        return Err(Status::BadRequest);
    }
    let row = NewRepo {
        id: id.clone(),
        owner_id: agent.agent_id,
        name: body.name.clone(),
        description: body.description.clone(),
    };
    let response = RepoResponse {
        id,
        owner_name: agent.agent_name,
        name: body.name,
        description: body.description,
        stars: 0,
        created_at: String::new(),
    };
    Ok((row, response))
}

/// What came of creating a repository: whether its row is to be taken out again, and the answer. A
/// name that is taken is a conflict; a repository that could not be made on disk is not kept.
pub fn repo_created(inserted: bool, initialized: bool, response: RepoResponse) -> (r: (
    bool,
    Result<RepoResponse, Status>,
))
    ensures
        r.0 == (inserted && !initialized),
        if !inserted {
            r.1 matches Err(e) && e == Status::Conflict
        } else if !initialized {
            r.1 matches Err(e) && e == Status::InternalServerError
        } else {
            r.1 matches Ok(a) && a == response
        },
{
    if !inserted {
        (false, Err(Status::Conflict))
    } else if !initialized {
        (true, Err(Status::InternalServerError))
    } else {
        (false, Ok(response))
    }
}

#[derive(Debug)]
pub struct UpdateRepo {
    pub description: Option<String>,
}

/// Change the description of a repository, where one is given. The repository has to exist, and to be
/// the agent's. The change to store, by the repository's ID, and the answer.
pub fn update_repo(row: Option<RepoResponse>, agent_name: &str, body: UpdateRepo) -> (r: Result<
    (Option<(String, String)>, RepoResponse),
    Status,
>)
    ensures
        match row {
            None => r matches Err(e) && e == Status::NotFound,
            Some(repo) => if repo.owner_name@ != agent_name@ {
                r matches Err(e) && e == Status::Forbidden
            } else {
                r matches Ok(p) && match body.description {
                    None => p.0 is None && p.1 == repo,
                    Some(d) => {
                        &&& p.0 matches Some(w) && w.0@ == repo.id@ && w.1@ == d@
                        &&& p.1@ == (RepoResponseView { description: d@, ..repo@ })
                    },
                }
            },
        },
{
    match row {
        None => Err(Status::NotFound),
        Some(repo) => {
            if !same_text(repo.owner_name.as_str(), agent_name) {
                return Err(Status::Forbidden);
            }
            match body.description {
                None => Ok((None, repo)),
                Some(d) => {
                    let write = Some((repo.id.clone(), d.clone()));
                    Ok(
                        (
                            write,
                            RepoResponse {
                                id: repo.id,
                                owner_name: repo.owner_name,
                                name: repo.name,
                                description: d,
                                stars: repo.stars,
                                created_at: repo.created_at,
                            },
                        ),
                    )
                },
            }
        },
    }
}

/// Delete a repository, which has to exist and to be the agent's: the ID of the row to take out.
pub fn delete_repo(row: Option<(String, String)>, agent_name: &str) -> (r: Result<String, Status>)
    ensures
        match row {
            None => r matches Err(e) && e == Status::NotFound,
            Some(p) => if p.1@ != agent_name@ {
                r matches Err(e) && e == Status::Forbidden
            } else {
                r matches Ok(id) && id == p.0
            },
        },
{
    match row {
        None => Err(Status::NotFound),
        Some((id, owner_name)) => {
            if !same_text(owner_name.as_str(), agent_name) {
                return Err(Status::Forbidden);
            }
            Ok(id)
        },
    }
}

/// The part of a list that stands on a page.
pub open spec fn page<T>(all: Seq<T>, offset: nat, limit: nat) -> Seq<T> {
    if offset >= all.len() {
        seq![]
    } else if offset + limit >= all.len() {
        all.skip(offset as int)
    } else {
        all.subrange(offset as int, (offset + limit) as int)
    }
}

/// A page of all repositories.
pub fn explore_repos(all: Vec<RepoResponse>, offset: usize, limit: usize) -> (r: RepoList)
    ensures
        r.0@ == page(all@, offset as nat, limit as nat),
        r.0@.len() <= limit,
        forall|i: int| 0 <= i < r.0@.len() ==> #[trigger] r.0@[i] == all@[offset + i],
{
    let mut all = all;
    let ghost given = all@;
    if offset >= all.len() {
        return RepoList(Vec::new());
    }
    let mut rest = all.split_off(offset);
    if limit < rest.len() {
        let _ = rest.split_off(limit);
    }
    proof {
        assert(rest@ =~= page(given, offset as nat, limit as nat));
    }
    RepoList(rest)
}

/// Pages that follow each other hold what one longer page holds, in the same order.
pub proof fn law_pages_follow_each_other<T>(all: Seq<T>, offset: nat, first: nat, second: nat)
    ensures
        page(all, offset, first) + page(all, offset + first, second) == page(
            all,
            offset,
            first + second,
        ),
{
    assert(page(all, offset, first) + page(all, offset + first, second) =~= page(
        all,
        offset,
        first + second,
    ));
}

/// What anyone can see of an agent.
#[derive(Debug)]
pub struct AgentProfile {
    pub name: String,
    pub repo_count: i64,
}

/// The profile of an agent, who has to exist.
pub fn agent_profile(row: Option<(String, i64)>) -> (r: Result<AgentProfile, Status>)
    ensures
        match row {
            None => r matches Err(e) && e == Status::NotFound,
            Some(p) => r matches Ok(a) && a == (AgentProfile { name: p.0, repo_count: p.1 }),
        },
{
    match found(row) {
        Err(e) => Err(e),
        Ok((name, repo_count)) => Ok(AgentProfile { name, repo_count }),
    }
}

// ---------------------------------------------------------------------------
// Stars
// ---------------------------------------------------------------------------

pub struct StarResponse {
    pub starred: bool,
}

impl TextFormat for StarResponse {
    open spec fn text(&self) -> Seq<char> {
        if self.starred {
            "starred\n"@
        } else {
            "not starred\n"@
        }
    }

    open spec fn renders(&self) -> bool {
        true
    }

    fn to_text(&self) -> (r: String) {
        if self.starred {
            String::from_str("starred\n")
        } else {
            String::from_str("not starred\n")
        }
    }
}

/// A star that is given or taken back: the agent's and the repository's ID.
#[derive(Debug)]
pub enum StarWrite {
    Give { agent_id: String, repo_id: String },
    TakeBack { agent_id: String, repo_id: String },
}

pub enum StarWriteView {
    Give { agent_id: Seq<char>, repo_id: Seq<char> },
    TakeBack { agent_id: Seq<char>, repo_id: Seq<char> },
}

impl View for StarWrite {
    type V = StarWriteView;

    open spec fn view(&self) -> StarWriteView {
        match self {
            StarWrite::Give { agent_id, repo_id } => StarWriteView::Give {
                agent_id: agent_id@,
                repo_id: repo_id@,
            },
            StarWrite::TakeBack { agent_id, repo_id } => StarWriteView::TakeBack {
                agent_id: agent_id@,
                repo_id: repo_id@,
            },
        }
    }
}

/// The stars after a write. Stars are pairs of an agent and a repository.
pub open spec fn apply_star(stars: Set<(Seq<char>, Seq<char>)>, w: StarWriteView) -> Set<
    (Seq<char>, Seq<char>),
> {
    match w {
        StarWriteView::Give { agent_id, repo_id } => stars.insert((agent_id, repo_id)),
        StarWriteView::TakeBack { agent_id, repo_id } => stars.remove((agent_id, repo_id)),
    }
}

/// The stars of a repository.
pub open spec fn stars_of(stars: Set<(Seq<char>, Seq<char>)>, repo_id: Seq<char>) -> Set<
    (Seq<char>, Seq<char>),
> {
    stars.filter(|s: (Seq<char>, Seq<char>)| s.1 == repo_id)
}

/// Star a repo, which has to exist.
pub fn star_repo(repo_id: Option<String>, agent_id: String) -> (r: Result<
    (StarWrite, StarResponse),
    Status,
>)
    ensures
        match repo_id {
            None => r matches Err(e) && e == Status::NotFound,
            Some(id) => r matches Ok(p) && p.0@ == (StarWriteView::Give {
                agent_id: agent_id@,
                repo_id: id@,
            }) && p.1.starred,
        },
{
    match repo_id {
        None => Err(Status::NotFound),
        Some(id) => Ok(
            (StarWrite::Give { agent_id, repo_id: id }, StarResponse { starred: true }),
        ),
    }
}

/// Unstar a repo, which has to exist.
pub fn unstar_repo(repo_id: Option<String>, agent_id: String) -> (r: Result<StarWrite, Status>)
    ensures
        match repo_id {
            None => r matches Err(e) && e == Status::NotFound,
            Some(id) => r matches Ok(w) && w@ == (StarWriteView::TakeBack {
                agent_id: agent_id@,
                repo_id: id@,
            }),
        },
{
    match repo_id {
        None => Err(Status::NotFound),
        Some(id) => Ok(StarWrite::TakeBack { agent_id, repo_id: id }),
    }
}

/// Check if the agent has starred a repo, which has to exist.
pub fn check_star(repo_id: Option<String>, starred: bool) -> (r: Result<StarResponse, Status>)
    ensures
        match repo_id {
            None => r matches Err(e) && e == Status::NotFound,
            Some(_) => r matches Ok(s) && s.starred == starred,
        },
{
    match found(repo_id) {
        Err(e) => Err(e),
        Ok(_) => Ok(StarResponse { starred }),
    }
}

/// Starring twice is starring once: a repository has one star of each agent that gave one.
pub proof fn law_starring_is_idempotent(
    stars: Set<(Seq<char>, Seq<char>)>,
    agent_id: Seq<char>,
    repo_id: Seq<char>,
)
    requires
        stars.finite(),
    ensures
        ({
            let give = StarWriteView::Give { agent_id, repo_id };
            let once = apply_star(stars, give);
            &&& apply_star(once, give) == once
            &&& once.contains((agent_id, repo_id))
            &&& stars_of(once, repo_id).len() == stars_of(stars, repo_id).len() + (
            if stars.contains((agent_id, repo_id)) {
                0int
            } else {
                1int
            })
        }),
{
    let give = StarWriteView::Give { agent_id, repo_id };
    let once = apply_star(stars, give);
    assert(apply_star(once, give) =~= once);
    let of = stars_of(stars, repo_id);
    assert(stars_of(once, repo_id) =~= of.insert((agent_id, repo_id)));
}

/// Taking a star back undoes giving it, and leaves the stars of others and of other repositories.
pub proof fn law_unstarring_undoes_starring(
    stars: Set<(Seq<char>, Seq<char>)>,
    agent_id: Seq<char>,
    repo_id: Seq<char>,
    other: (Seq<char>, Seq<char>),
)
    requires
        !stars.contains((agent_id, repo_id)),
        other != (agent_id, repo_id),
    ensures
        ({
            let given = apply_star(stars, StarWriteView::Give { agent_id, repo_id });
            let back = apply_star(given, StarWriteView::TakeBack { agent_id, repo_id });
            back == stars && given.contains(other) == stars.contains(other)
        }),
{
    let given = apply_star(stars, StarWriteView::Give { agent_id, repo_id });
    assert(apply_star(given, StarWriteView::TakeBack { agent_id, repo_id }) =~= stars);
}

// ---------------------------------------------------------------------------
// Ref-level access control for git pushes
// ---------------------------------------------------------------------------

/// The changeset that a ref belongs to.
pub open spec fn changeset_of_ref(name: Seq<char>) -> Option<Seq<char>> {
    if has_prefix(name, "refs/changesets/"@) {
        Some(name.skip("refs/changesets/"@.len() as int))
    } else {
        None
    }
}

/// Why an agent may not push to a ref. Branches are the owner's, and the ref of a changeset that is
/// proposed is its author's; there are no other refs to push to.
pub open spec fn ref_fault(
    is_owner: bool,
    agent_id: Seq<char>,
    name: Seq<char>,
    authors: Map<Seq<char>, String>,
) -> Option<Seq<char>> {
    if has_prefix(name, "refs/heads/"@) {
        if is_owner {
            None
        } else {
            Some("only the repo owner can push to "@ + name)
        }
    } else {
        match changeset_of_ref(name) {
            Some(id) => if !authors.dom().contains(id) {
                Some("changeset "@ + id + " not found or not in proposed state"@)
            } else if authors[id]@ != agent_id {
                Some("you don't own changeset "@ + id)
            } else {
                None
            },
            None => Some(
                "cannot push to ref "@ + name
                    + "; use refs/heads/* (owner) or refs/changesets/* (changeset author)"@,
            ),
        }
    }
}

/// Whether an agent may push to a ref, or the reason why not.
pub fn check_ref(is_owner: bool, agent_id: &str, name: &str, authors: &Table<String>) -> (r: Result<
    (),
    String,
>)
    ensures
        match ref_fault(is_owner, agent_id@, name@, authors@) {
            None => r is Ok,
            Some(m) => r matches Err(e) && e@ == m,
        },
{
    if text_starts_with(name, "refs/heads/") {
        if is_owner {
            return Ok(());
        }
        let mut m = String::from_str("only the repo owner can push to ");
        m.append(name);
        return Err(m);
    }
    let chars = chars_of(name);
    match strip_prefix(chars.as_slice(), "refs/changesets/") {
        Some(rest) => {
            let id = string_of(rest);
            match authors.get(id.as_str()) {
                None => {
                    let mut m = String::from_str("changeset ");
                    m.append(id.as_str());
                    m.append(" not found or not in proposed state");
                    Err(m)
                },
                Some(author) => {
                    if same_text(author.as_str(), agent_id) {
                        Ok(())
                    } else {
                        let mut m = String::from_str("you don't own changeset ");
                        m.append(id.as_str());
                        Err(m)
                    }
                },
            }
        },
        None => {
            let mut m = String::from_str("cannot push to ref ");
            m.append(name);
            m.append("; use refs/heads/* (owner) or refs/changesets/* (changeset author)");
            Err(m)
        },
    }
}

/// The changesets that a push speaks of.
pub open spec fn changesets_pushed(updates: Seq<RefUpdate>) -> Seq<Seq<char>>
    decreases updates.len(),
{
    if updates.len() == 0 {
        seq![]
    } else {
        let above = changesets_pushed(updates.drop_last());
        match changeset_of_ref(updates.last().ref_name@) {
            Some(id) => above.push(id),
            None => above,
        }
    }
}

/// The changesets that a push speaks of, whose authors are to be looked up.
pub fn changesets_of(updates: &Vec<RefUpdate>) -> (r: Vec<String>)
    ensures
        texts(r@) == changesets_pushed(updates@),
{
    let mut out: Vec<String> = Vec::new();
    let mut i: usize = 0;
    proof {
        assert(updates@.take(0) =~= seq![]);
        assert(texts(out@) =~= changesets_pushed(updates@.take(0)));
    }
    while i < updates.len()
        invariant
            i <= updates@.len(),
            texts(out@) == changesets_pushed(updates@.take(i as int)),
        decreases updates@.len() - i,
    {
        let ghost before = texts(out@);
        proof {
            assert(updates@.take(i as int + 1).drop_last() =~= updates@.take(i as int));
            assert(updates@.take(i as int + 1).last() == updates@[i as int]);
        }
        let chars = chars_of(updates[i].ref_name.as_str());
        match strip_prefix(chars.as_slice(), "refs/changesets/") {
            Some(rest) => {
                out.push(string_of(rest));
                proof {
                    assert(texts(out@) =~= before.push(rest@));
                }
            },
            None => {},
        }
        i += 1;
    }
    proof {
        assert(updates@.take(i as int) =~= updates@);
    }
    out
}

/// The first ref of a push that may not be pushed to.
pub open spec fn first_refused(
    is_owner: bool,
    agent_id: Seq<char>,
    updates: Seq<RefUpdate>,
    authors: Map<Seq<char>, String>,
) -> Option<Seq<char>>
    decreases updates.len(),
{
    if updates.len() == 0 {
        None
    } else {
        match ref_fault(is_owner, agent_id, updates[0].ref_name@, authors) {
            Some(m) => Some(m),
            None => first_refused(is_owner, agent_id, updates.drop_first(), authors),
        }
    }
}

/// Whether a push moves nothing but branches.
pub open spec fn only_branches(updates: Seq<RefUpdate>) -> bool {
    forall|i: int|
        0 <= i < updates.len() ==> has_prefix((#[trigger] updates[i]).ref_name@, "refs/heads/"@)
}

fn moves_only_branches(updates: &Vec<RefUpdate>) -> (r: bool)
    ensures
        r == only_branches(updates@),
{
    let mut i: usize = 0;
    while i < updates.len()
        invariant
            i <= updates@.len(),
            forall|j: int|
                0 <= j < i ==> has_prefix((#[trigger] updates@[j]).ref_name@, "refs/heads/"@),
        decreases updates@.len() - i,
    {
        if !text_starts_with(updates[i].ref_name.as_str(), "refs/heads/") {
            proof {
                assert(!has_prefix(updates@[i as int].ref_name@, "refs/heads/"@));
            }
            return false;
        }
        i += 1;
    }
    true
}

/// Whether an agent may make a push, or the reason why not. A repository that has no record yet
/// takes branches from the agent under whose name it stands, and nothing else. `authors` holds the
/// authors of the changesets that are proposed, as far as the push speaks of them.
pub fn ref_check(
    owner: &str,
    repo_name: &str,
    owner_agent_id: Option<&str>,
    agent_id: &str,
    agent_name: &str,
    updates: &Vec<RefUpdate>,
    authors: &Table<String>,
) -> (r: Result<(), String>)
    ensures
        match owner_agent_id {
            None => if owner@ == agent_name@ && only_branches(updates@) {
                r is Ok
            } else {
                r matches Err(e) && e@ == "repo "@ + owner@ + "/"@ + repo_name@ + " not found"@
            },
            Some(o) => match first_refused(o@ == agent_id@, agent_id@, updates@, authors@) {
                None => r is Ok,
                Some(m) => r matches Err(e) && e@ == m,
            },
        },
{
    let is_owner = match owner_agent_id {
        None => {
            if same_text(owner, agent_name) && moves_only_branches(updates) {
                return Ok(());
            }
            let mut m = String::from_str("repo ");
            m.append(owner);
            m.append("/");
            m.append(repo_name);
            m.append(" not found");
            return Err(m);
        },
        Some(o) => same_text(o, agent_id),
    };
    let mut i: usize = 0;
    proof {
        assert(updates@.skip(0) =~= updates@);
    }
    while i < updates.len()
        invariant
            i <= updates@.len(),
            owner_agent_id matches Some(o) && is_owner == (o@ == agent_id@),
            first_refused(is_owner, agent_id@, updates@.skip(i as int), authors@)
                == first_refused(is_owner, agent_id@, updates@, authors@),
        decreases updates@.len() - i,
    {
        proof {
            assert(updates@.skip(i as int)[0] == updates@[i as int]);
            assert(updates@.skip(i as int).drop_first() =~= updates@.skip(i as int + 1));
        }
        match check_ref(is_owner, agent_id, updates[i].ref_name.as_str(), authors) {
            Ok(_) => {},
            Err(m) => {
                return Err(m);
            },
        }
        i += 1;
    }
    Ok(())
}

/// A push that is let through moves branches only where the agent owns the repository, moves refs of
/// changesets only where they are proposed and the agent is their author, and moves nothing else.
pub proof fn law_push_is_within_rights(
    is_owner: bool,
    agent_id: Seq<char>,
    updates: Seq<RefUpdate>,
    authors: Map<Seq<char>, String>,
    i: int,
)
    requires
        first_refused(is_owner, agent_id, updates, authors) is None,
        0 <= i < updates.len(),
    ensures
        has_prefix(updates[i].ref_name@, "refs/heads/"@) ==> is_owner,
        !has_prefix(updates[i].ref_name@, "refs/heads/"@) ==> {
            &&& changeset_of_ref(updates[i].ref_name@) matches Some(id)
            &&& authors.dom().contains(id)
            &&& authors[id]@ == agent_id
        },
    decreases updates.len(),
{
    if i > 0 {
        assert(updates.drop_first()[i - 1] == updates[i]);
        law_push_is_within_rights(is_owner, agent_id, updates.drop_first(), authors, i - 1);
    }
}

/// An owner may push to any branches of their repository.
pub proof fn law_owner_may_push_branches(
    agent_id: Seq<char>,
    updates: Seq<RefUpdate>,
    authors: Map<Seq<char>, String>,
)
    requires
        only_branches(updates),
    ensures
        first_refused(true, agent_id, updates, authors) is None,
    decreases updates.len(),
{
    if updates.len() > 0 {
        let rest = updates.drop_first();
        assert(has_prefix(updates[0].ref_name@, "refs/heads/"@));
        assert forall|i: int| 0 <= i < rest.len() implies has_prefix(
            (#[trigger] rest[i]).ref_name@,
            "refs/heads/"@,
        ) by {
            assert(rest[i] == updates[i + 1]);
        }
        law_owner_may_push_branches(agent_id, rest, authors);
    }
}

// ---------------------------------------------------------------------------
// What the answers hold
// ---------------------------------------------------------------------------

/// A name is valid where it has 1 to 64 characters, each of them a lower-case letter, a digit, an
/// underscore, or a hyphen that stands between two others. So a capital letter, a dot, a slash or a
/// blank makes a name invalid wherever it stands.
pub proof fn law_valid_names_hold_plain_characters(name: Seq<char>)
    ensures
        valid_name(name) <==> {
            &&& 0 < name.len() < 65
            &&& forall|i: int|
                0 <= i < name.len() ==> {
                    let c = #[trigger] name[i];
                    ||| 'a' <= c <= 'z'
                    ||| '0' <= c <= '9'
                    ||| c == '_'
                    ||| c == '-' && 0 < i < name.len() - 1
                }
        },
{
    if valid_name(name) {
        assert forall|i: int| 0 <= i < name.len() implies {
            let c = #[trigger] name[i];
            ||| 'a' <= c <= 'z'
            ||| '0' <= c <= '9'
            ||| c == '_'
            ||| c == '-' && 0 < i < name.len() - 1
        } by {
            assert(is_name_char(name[i]));
        }
    }
    if 0 < name.len() < 65 && (forall|i: int|
        0 <= i < name.len() ==> {
            let c = #[trigger] name[i];
            ||| 'a' <= c <= 'z'
            ||| '0' <= c <= '9'
            ||| c == '_'
            ||| c == '-' && 0 < i < name.len() - 1
        }) {
        let first = name[0];
        let last = name[name.len() - 1];
        assert(first != '-' && last != '-');
        assert forall|i: int| 0 <= i < name.len() implies is_name_char(#[trigger] name[i]) by {
            let c = name[i];
        }
    }
}

proof fn lemma_word_of(w: Seq<char>, rest: Seq<char>)
    requires
        forall|i: int| 0 <= i < w.len() ==> !is_space(#[trigger] w[i]),
        rest.len() > 0 ==> is_space(rest[0]),
    ensures
        word(w + rest) == w,
    decreases w.len(),
{
    let s = w + rest;
    if w.len() == 0 {
        assert(s =~= rest);
        assert(word(s) =~= w);
    } else {
        assert(s[0] == w[0]);
        assert(s.skip(1) =~= w.skip(1) + rest);
        assert forall|i: int| 0 <= i < w.skip(1).len() implies !is_space(#[trigger] w.skip(1)[i]) by {
            assert(w.skip(1)[i] == w[i + 1]);
        }
        lemma_word_of(w.skip(1), rest);
        assert(seq![w[0]] + w.skip(1) =~= w);
    }
}

/// Of a line as in an SSH key file the second word is read, whatever comment follows it, and a text
/// that begins otherwise is read as a whole.
pub proof fn law_key_is_the_second_word(blob: Seq<char>, comment: Seq<char>, other: Seq<char>)
    requires
        blob.len() > 0,
        forall|i: int| 0 <= i < blob.len() ==> !is_space(#[trigger] blob[i]),
        comment.len() > 0 ==> is_space(comment[0]) && !is_space(comment.last()),
        trim(other) == other,
        !has_prefix(other, "ssh-ed25519 "@),
    ensures
        key_text("ssh-ed25519 "@ + blob + comment) == KeyTextView::Ssh(blob),
        key_text(other) == KeyTextView::Raw(other),
{
    reveal_strlit("ssh-ed25519 ");
    let start = "ssh-ed25519 "@;
    let line = start + blob + comment;
    assert(line[0] == 's');
    assert(!is_space(line[0]));
    assert(crate::text::trim_start(line) == line);
    assert(!is_space(line.last())) by {
        if comment.len() > 0 {
            assert(line.last() == comment.last());
        } else {
            assert(line.last() == blob[blob.len() - 1]);
        }
    }
    assert(crate::text::trim_end(line) == line);
    assert(line.take(12) =~= start);
    let rest = line.skip(12);
    assert(rest =~= blob + comment);
    assert(rest[0] == blob[0]);
    assert(crate::text::trim_start(rest) == rest);
    lemma_word_of(blob, comment);
}

/// White space around a key makes no difference: the key is read with it taken away.
pub proof fn law_key_is_trimmed(input: Seq<char>)
    ensures
        key_text(input) matches KeyTextView::Raw(key) ==> key == trim(input),
        key_text(input) is Missing || key_text(input) is Ssh ==> has_prefix(
            trim(input),
            "ssh-ed25519 "@,
        ),
{
}

/// The key in an SSH blob is the 32 bytes behind the 19 bytes of its header, whatever follows them,
/// and a shorter blob has none. A key that stands alone has to have 32 bytes.
pub proof fn law_key_stands_behind_its_header(
    text: Seq<char>,
    header: Seq<u8>,
    key: Seq<u8>,
    rest: Seq<u8>,
)
    requires
        header.len() == 19,
    ensures
        key.len() == 32 ==> key_in(KeyTextView::Ssh(text), Some(header + key + rest)) == Some(key),
        key.len() < 32 ==> key_in(KeyTextView::Ssh(text), Some(header + key)) is None,
        key.len() == 32 ==> key_in(KeyTextView::Raw(text), Some(key)) == Some(key),
        key.len() != 32 ==> key_in(KeyTextView::Raw(text), Some(key)) is None,
        key_in(KeyTextView::Ssh(text), None) is None,
        key_in(KeyTextView::Raw(text), None) is None,
        key_in(KeyTextView::Missing, Some(key)) is None,
{
    if key.len() == 32 {
        assert((header + key + rest).subrange(19, 51) =~= key);
    }
}

/// A list is shown as its parts are, one behind the other, and an agent or a repository by a line of
/// its own.
pub proof fn law_lists_are_shown_line_by_line(
    agents: (Seq<AgentResponse>, Seq<AgentResponse>),
    agent: AgentResponse,
    repos: (Seq<RepoResponse>, Seq<RepoResponse>),
    repo: RepoResponse,
)
    ensures
        agent_lines(agents.0 + agents.1) == agent_lines(agents.0) + agent_lines(agents.1),
        agent_lines(seq![agent]) == agent.id@ + "\t"@ + agent.name@ + "\n"@,
        repo_lines(repos.0 + repos.1) == repo_lines(repos.0) + repo_lines(repos.1),
        has_prefix(repo_lines(seq![repo]), repo.owner_name@ + "/"@ + repo.name@ + "  "@),
{
    lemma_agent_lines(agents.0, agents.1);
    lemma_repo_lines(repos.0, repos.1);
    reveal_with_fuel(agent_lines, 2);
    reveal_with_fuel(repo_lines, 2);
    assert(seq![agent].drop_last() =~= seq![]);
    assert(agent_lines(seq![agent]) =~= agent.id@ + "\t"@ + agent.name@ + "\n"@);
    assert(seq![repo].drop_last() =~= seq![]);
    let start = repo.owner_name@ + "/"@ + repo.name@ + "  "@;
    assert(repo_lines(seq![repo]).take(start.len() as int) =~= start);
}

proof fn lemma_agent_lines(a: Seq<AgentResponse>, b: Seq<AgentResponse>)
    ensures
        agent_lines(a + b) == agent_lines(a) + agent_lines(b),
    decreases b.len(),
{
    if b.len() == 0 {
        assert(a + b =~= a);
        assert(agent_lines(a) + agent_lines(b) =~= agent_lines(a));
    } else {
        lemma_agent_lines(a, b.drop_last());
        assert((a + b).drop_last() =~= a + b.drop_last());
        assert(agent_lines(a + b) =~= agent_lines(a) + agent_lines(b));
    }
}

proof fn lemma_repo_lines(a: Seq<RepoResponse>, b: Seq<RepoResponse>)
    ensures
        repo_lines(a + b) == repo_lines(a) + repo_lines(b),
    decreases b.len(),
{
    if b.len() == 0 {
        assert(a + b =~= a);
        assert(repo_lines(a) + repo_lines(b) =~= repo_lines(a));
    } else {
        lemma_repo_lines(a, b.drop_last());
        assert((a + b).drop_last() =~= a + b.drop_last());
        assert(repo_lines(a + b) =~= repo_lines(a) + repo_lines(b));
    }
}

/// A key is changed exactly where the sponsor is logged in, the key can be read and the agent is the
/// sponsor's; who is not logged in learns nothing else, and of two other faults that of the key is
/// told.
pub proof fn law_key_faults_have_an_order(logged_in: bool, input: Seq<char>, agent_known: bool)
    ensures
        key_fault(logged_in, input, agent_known) is None <==> logged_in && agent_known
            && public_key_in(input) is Some,
        key_fault(logged_in, input, agent_known) == Some(Status::Unauthorized) <==> !logged_in,
        key_fault(logged_in, input, agent_known) == Some(Status::BadRequest) <==> logged_in
            && public_key_in(input) is None,
        key_fault(logged_in, input, agent_known) == Some(Status::NotFound) <==> logged_in
            && public_key_in(input) is Some && !agent_known,
{
}

/// An agent's key can be revoked where the agent has another one, and not where it is the only one
/// or is not the agent's.
pub proof fn law_only_spare_keys_are_revoked(keys: Seq<Seq<u8>>, key: Seq<u8>, other: Seq<u8>)
    ensures
        keys.contains(key) && keys.contains(other) && key != other ==> may_revoke(keys, key),
        !may_revoke(seq![key], key),
        !keys.contains(key) ==> !may_revoke(keys, key),
{
    if keys.contains(key) && keys.contains(other) && key != other {
        let i = choose|i: int| 0 <= i < keys.len() && keys[i] == key;
        let j = choose|j: int| 0 <= j < keys.len() && keys[j] == other;
        assert(i != j);
    }
}

/// A page holds the items from its offset on, in their order, as many as the limit allows and there
/// are; so a page that is large enough holds them all.
pub proof fn law_page_holds_what_stands_there<T>(all: Seq<T>, offset: nat, limit: nat)
    ensures
        offset <= all.len() && limit <= all.len() - offset ==> page(all, offset, limit).len()
            == limit,
        offset <= all.len() && limit > all.len() - offset ==> page(all, offset, limit).len()
            == all.len() - offset,
        offset > all.len() ==> page(all, offset, limit).len() == 0,
        forall|i: int|
            0 <= i < page(all, offset, limit).len() ==> #[trigger] page(all, offset, limit)[i]
                == all[offset + i],
        page(all, 0, all.len()) == all,
{
    assert(page(all, 0, all.len()) =~= all);
}

/// A ref names a changeset exactly where it is `refs/changesets/` and the changeset's name.
pub proof fn law_changeset_refs_name_changesets(name: Seq<char>, id: Seq<char>)
    ensures
        changeset_of_ref("refs/changesets/"@ + id) == Some(id),
        changeset_of_ref(name) == Some(id) ==> name == "refs/changesets/"@ + id,
{
    let start = "refs/changesets/"@;
    assert((start + id).take(start.len() as int) =~= start);
    assert((start + id).skip(start.len() as int) =~= id);
    if changeset_of_ref(name) == Some(id) {
        assert(name =~= name.take(start.len() as int) + name.skip(start.len() as int));
    }
}

/// The changesets that a push speaks of are those of all its refs, in order, and no others.
pub proof fn law_all_pushed_changesets_are_found(updates: Seq<RefUpdate>, more: Seq<RefUpdate>)
    ensures
        changesets_pushed(updates + more) == changesets_pushed(updates) + changesets_pushed(more),
        forall|i: int, id: Seq<char>|
            0 <= i < updates.len() && (#[trigger] updates[i]).ref_name@ == #[trigger] (
            "refs/changesets/"@ + id) ==> changesets_pushed(updates).contains(id),
    decreases updates.len() + more.len(),
{
    lemma_changesets_pushed(updates, more);
    assert forall|i: int, id: Seq<char>|
        0 <= i < updates.len() && (#[trigger] updates[i]).ref_name@ == #[trigger] (
        "refs/changesets/"@ + id) implies changesets_pushed(updates).contains(id) by {
        law_changeset_refs_name_changesets(updates[i].ref_name@, id);
        let before = updates.take(i);
        let after = updates.skip(i + 1);
        assert(updates =~= before + seq![updates[i]] + after);
        lemma_changesets_pushed(before + seq![updates[i]], after);
        lemma_changesets_pushed(before, seq![updates[i]]);
        assert(seq![updates[i]].drop_last() =~= seq![]);
        reveal_with_fuel(changesets_pushed, 2);
        assert(changesets_pushed(seq![updates[i]]) =~= seq![id]);
        let k = changesets_pushed(before).len() as int;
        assert(changesets_pushed(updates)[k] == id);
    }
}

proof fn lemma_changesets_pushed(a: Seq<RefUpdate>, b: Seq<RefUpdate>)
    ensures
        changesets_pushed(a + b) == changesets_pushed(a) + changesets_pushed(b),
    decreases b.len(),
{
    if b.len() == 0 {
        assert(a + b =~= a);
        assert(changesets_pushed(a) + changesets_pushed(b) =~= changesets_pushed(a));
    } else {
        lemma_changesets_pushed(a, b.drop_last());
        assert((a + b).drop_last() =~= a + b.drop_last());
        assert(changesets_pushed(a + b) =~= changesets_pushed(a) + changesets_pushed(b));
    }
}

/// An agent may push to the refs of its own proposed changesets, owner or not.
pub proof fn law_authors_may_push_their_changesets(
    is_owner: bool,
    agent_id: Seq<char>,
    id: Seq<char>,
    authors: Map<Seq<char>, String>,
)
    ensures
        ref_fault(is_owner, agent_id, "refs/changesets/"@ + id, authors) is None <==> authors.dom().contains(
            id,
        ) && authors[id]@ == agent_id,
{
    law_changeset_refs_name_changesets("refs/changesets/"@ + id, id);
    reveal_strlit("refs/heads/");
    reveal_strlit("refs/changesets/");
    let name = "refs/changesets/"@ + id;
    assert(name[5] == 'c');
    if has_prefix(name, "refs/heads/"@) {
        assert(name.take(11)[5] == "refs/heads/"@[5]);
    }
}

/// A push is refused for the first of its refs that may not be pushed to, and for no other reason.
pub proof fn law_first_refused_ref_is_told(
    is_owner: bool,
    agent_id: Seq<char>,
    allowed: Seq<RefUpdate>,
    refused: RefUpdate,
    rest: Seq<RefUpdate>,
    authors: Map<Seq<char>, String>,
)
    requires
        forall|i: int|
            0 <= i < allowed.len() ==> ref_fault(
                is_owner,
                agent_id,
                (#[trigger] allowed[i]).ref_name@,
                authors,
            ) is None,
        ref_fault(is_owner, agent_id, refused.ref_name@, authors) is Some,
    ensures
        first_refused(is_owner, agent_id, allowed, authors) is None,
        first_refused(is_owner, agent_id, allowed + seq![refused] + rest, authors) == ref_fault(
            is_owner,
            agent_id,
            refused.ref_name@,
            authors,
        ),
    decreases allowed.len(),
{
    let all = allowed + seq![refused] + rest;
    if allowed.len() == 0 {
        assert(all[0] == refused);
    } else {
        let tail = allowed.drop_first();
        assert(ref_fault(is_owner, agent_id, allowed[0].ref_name@, authors) is None);
        assert forall|i: int| 0 <= i < tail.len() implies ref_fault(
            is_owner,
            agent_id,
            (#[trigger] tail[i]).ref_name@,
            authors,
        ) is None by {
            assert(tail[i] == allowed[i + 1]);
        }
        law_first_refused_ref_is_told(is_owner, agent_id, tail, refused, rest, authors);
        assert(all[0] == allowed[0]);
        assert(all.drop_first() =~= tail + seq![refused] + rest);
    }
}

/// What a value says in contracts is what its fields say, each in its own place.
pub proof fn law_views_show_every_field(
    key_text: KeyText,
    repo_response: RepoResponse,
    star_write: StarWrite,
)
    ensures
        key_text@ == (match key_text {
            KeyText::Ssh(s) => KeyTextView::Ssh(s@),
            KeyText::Raw(s) => KeyTextView::Raw(s@),
            KeyText::Missing => KeyTextView::Missing,
        }),
        repo_response@.id == repo_response.id@,
        repo_response@.owner_name == repo_response.owner_name@,
        repo_response@.name == repo_response.name@,
        repo_response@.description == repo_response.description@,
        repo_response@.created_at == repo_response.created_at@,
        repo_response@.stars == repo_response.stars as int,
        star_write@ == (match star_write {
            StarWrite::Give { agent_id, repo_id } => StarWriteView::Give {
                agent_id: agent_id@,
                repo_id: repo_id@,
            },
            StarWrite::TakeBack { agent_id, repo_id } => StarWriteView::TakeBack {
                agent_id: agent_id@,
                repo_id: repo_id@,
            },
        }),
{
}

/// A sponsor is shown in two lines: its identifier, and its name.
pub proof fn law_sponsor_is_shown_in_two_lines(s: SponsorResponse)
    ensures
        split(s.text(), '\n') == split("id: "@ + s.id@, '\n')
            + split("name: "@ + s.name@, '\n')
            + seq![Seq::<char>::empty()],
{
    reveal_strlit("\nname: ");
    reveal_strlit("name: ");
    reveal_strlit("\n");
    let line0 = "id: "@ + s.id@;
    let line1 = "name: "@ + s.name@;
    let end = Seq::<char>::empty();
    let rest1 = line1 + seq!['\n'] + end;
    assert(s.text() =~= line0 + seq!['\n'] + rest1);
    lemma_ended_line(line1, end);
    lemma_ended_line(line0, rest1);
}

/// An agent is shown in three lines: its identifier, its name, and its sponsor.
pub proof fn law_agent_is_shown_in_three_lines(a: AgentResponse)
    ensures
        split(a.text(), '\n') == split("id: "@ + a.id@, '\n')
            + split("name: "@ + a.name@, '\n')
            + split("sponsor: "@ + a.sponsor_id@, '\n')
            + seq![Seq::<char>::empty()],
{
    reveal_strlit("\nname: ");
    reveal_strlit("name: ");
    reveal_strlit("\nsponsor: ");
    reveal_strlit("sponsor: ");
    reveal_strlit("\n");
    let line0 = "id: "@ + a.id@;
    let line1 = "name: "@ + a.name@;
    let line2 = "sponsor: "@ + a.sponsor_id@;
    let end = Seq::<char>::empty();
    let rest2 = line2 + seq!['\n'] + end;
    let rest1 = line1 + seq!['\n'] + rest2;
    assert(a.text() =~= line0 + seq!['\n'] + rest1);
    lemma_ended_line(line2, end);
    lemma_ended_line(line1, rest2);
    lemma_ended_line(line0, rest1);
}

/// Who asks who it is is shown in three lines: which agent it is, its name, and the name of its
/// sponsor.
pub proof fn law_caller_is_shown_in_three_lines(m: MeResponse)
    ensures
        split(m.text(), '\n') == split("agent: "@ + m.agent_id@, '\n')
            + split("name: "@ + m.agent_name@, '\n')
            + split("sponsor: "@ + m.sponsor_name@, '\n')
            + seq![Seq::<char>::empty()],
{
    reveal_strlit("\nname: ");
    reveal_strlit("name: ");
    reveal_strlit("\nsponsor: ");
    reveal_strlit("sponsor: ");
    reveal_strlit("\n");
    let line0 = "agent: "@ + m.agent_id@;
    let line1 = "name: "@ + m.agent_name@;
    let line2 = "sponsor: "@ + m.sponsor_name@;
    let end = Seq::<char>::empty();
    let rest2 = line2 + seq!['\n'] + end;
    let rest1 = line1 + seq!['\n'] + rest2;
    assert(m.text() =~= line0 + seq!['\n'] + rest1);
    lemma_ended_line(line2, end);
    lemma_ended_line(line1, rest2);
    lemma_ended_line(line0, rest1);
}

/// A repository is shown with its owner, its name and its stars in a line, and what it is for and when
/// it was made in lines of their own, where that is known.
pub proof fn law_repo_is_shown_in_lines(r: RepoResponse)
    ensures
        split(r.text(), '\n') == split(
            r.owner_name@ + "/"@ + r.name@ + "  "@ + dec_int(r.stars as int) + (if r.stars == 1 {
                " star"@
            } else {
                " stars"@
            }),
            '\n',
        ) + (if r.description@.len() == 0 {
            seq![]
        } else {
            split("  "@ + r.description@, '\n')
        }) + (if r.created_at@.len() == 0 {
            seq![]
        } else {
            split("  created: "@ + r.created_at@, '\n')
        }) + seq![Seq::<char>::empty()],
{
    reveal_strlit("\n");
    reveal_strlit("");
    reveal_strlit("s");
    reveal_strlit(" star");
    reveal_strlit(" stars");
    let line = r.owner_name@ + "/"@ + r.name@ + "  "@ + dec_int(r.stars as int) + (if r.stars == 1 {
        " star"@
    } else {
        " stars"@
    });
    let end = Seq::<char>::empty();
    let created = "  created: "@ + r.created_at@;
    let after = if r.created_at@.len() == 0 {
        end
    } else {
        created + seq!['\n'] + end
    };
    let description = "  "@ + r.description@;
    let rest = if r.description@.len() == 0 {
        after
    } else {
        description + seq!['\n'] + after
    };
    assert(optional_line("  created: "@, r.created_at@) =~= after);
    assert(optional_line("  "@, r.description@) + after =~= rest);
    assert(r.text() =~= line + seq!['\n'] + rest);
    lemma_ended_line(line, rest);
    lemma_ended_line(description, after);
    lemma_ended_line(created, end);
}

/// A repository in a list is shown in a line: its owner and its name, what it is for, and its stars.
pub proof fn law_listed_repo_is_shown_in_a_line(r: RepoResponse)
    ensures
        split(repo_lines(seq![r]), '\n') == split(
            r.owner_name@ + "/"@ + r.name@ + "  "@ + r.description@ + "  ("@ + dec_int(r.stars as int)
                + (if r.stars == 1 {
                " star)"@
            } else {
                " stars)"@
            }),
            '\n',
        ) + seq![Seq::<char>::empty()],
{
    reveal_strlit(")\n");
    reveal_strlit("");
    reveal_strlit("s");
    reveal_strlit(" star");
    reveal_strlit(" star)");
    reveal_strlit(" stars)");
    reveal_with_fuel(repo_lines, 2);
    let line = r.owner_name@ + "/"@ + r.name@ + "  "@ + r.description@ + "  ("@ + dec_int(
        r.stars as int,
    ) + (if r.stars == 1 {
        " star)"@
    } else {
        " stars)"@
    });
    assert(seq![r].drop_last() =~= seq![]);
    assert(repo_lines(seq![r]) =~= line + seq!['\n'] + Seq::<char>::empty());
    lemma_ended_line(line, Seq::<char>::empty());
}

/// Lists of agents and of repositories show all of them in their order, and say so where there are
/// none; a star that stands is told from one that does not.
pub proof fn law_lists_show_what_they_hold(agents: AgentList, repos: RepoList, star: StarResponse)
    ensures
        agents.0@.len() > 0 ==> agents.text() == agent_lines(agents.0@),
        agents.0@.len() == 0 ==> agents.text() == "(no agents)\n"@,
        repos.0@.len() > 0 ==> repos.text() == repo_lines(repos.0@),
        repos.0@.len() == 0 ==> repos.text() == "(no repos)\n"@,
        star.starred ==> star.text() == "starred\n"@,
        !star.starred ==> star.text() == "not starred\n"@,
{
}

/// A list says in contracts what its items say, one for one and in their order.
pub proof fn law_items_are_read_one_for_one(v: Seq<Vec<u8>>)
    ensures
        key_views(v).len() == v.len(),
        forall|i: int| 0 <= i < v.len() ==> #[trigger] key_views(v)[i] == v[i]@,
{
}

/// There is a text for every answer; a list has one where each of its items has.
pub proof fn law_answers_can_be_shown(
    sponsor_response: SponsorResponse,
    agent_response: AgentResponse,
    me_response: MeResponse,
    agent_list: AgentList,
    repo_response: RepoResponse,
    repo_list: RepoList,
    star_response: StarResponse,
)
    ensures
        sponsor_response.renders(),
        agent_response.renders(),
        me_response.renders(),
        agent_list.renders(),
        repo_response.renders(),
        repo_list.renders(),
        star_response.renders(),
{
}

} // verus!
