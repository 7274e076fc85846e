//! Who a request comes from.
//!
//! Two token formats are supported:
//!
//! 1. SSH signature (recommended — zero dependencies for agents):
//!    `{timestamp}:{ssh_signature_base64}`
//!    The public key is extracted from the SSH signature, and the agent is
//!    looked up by key.
//!
//! 2. Legacy raw Ed25519 signature:
//!    `{agent_id}:{timestamp}:{raw_signature_base64}`
//!    The agent is looked up by ID, and the signature is verified against all
//!    registered keys for that agent.

use vstd::prelude::*;
use vstd::string::*;
use vstd::utf8::{decode_utf8, encode_utf8, valid_utf8};
use crate::clock::{fresh, is_fresh, unix_time};
use crate::keys::{
    base64_bytes, base64_decode, base64_encode, base64_text, ed25519_public, ed25519_sign,
    ed25519_signature, ed25519_valid, ed25519_verify, is_uuid, opt_vec, ssh_key_of, ssh_key_view,
    ssh_signature_key, ssh_signature_verifies, ssh_verify, uuid_parse, uuid_text,
};
use crate::status::Status;
use crate::text::{
    chars_of, dec, opt_str, opt_text, parse_dec, parse_u64, splitn, splitn_chars, string_of, strip_prefix,
    texts, u64_text, utf8_text,
};

verus! {

/// The namespace used for SSH signatures (`ssh-keygen -Y sign -n <namespace>`).
pub const SSH_SIG_NAMESPACE: &'static str = "agentcoderepo";

/// Authenticated agent identity.
#[derive(Debug)]
pub struct AuthAgent {
    pub agent_id: String,
    pub agent_name: String,
    pub sponsor_name: String,
}

/// What an identity says.
#[verifier::ext_equal]
pub struct AuthAgentView {
    pub agent_id: Seq<char>,
    pub agent_name: Seq<char>,
    pub sponsor_name: Seq<char>,
}

impl View for AuthAgent {
    type V = AuthAgentView;

    open spec fn view(&self) -> AuthAgentView {
        AuthAgentView {
            agent_id: self.agent_id@,
            agent_name: self.agent_name@,
            sponsor_name: self.sponsor_name@,
        }
    }
}

/// Parsed bearer token — either the 2-part SSH format or the legacy 3-part format.
#[derive(Debug)]
pub enum ParsedToken {
    /// `{timestamp}:{ssh_sig_base64}` — agent identity is in the signature.
    Ssh { timestamp: u64, pem: String, key: Option<Vec<u8>> },
    /// `{agent_id}:{timestamp}:{raw_sig_base64}` — legacy format.
    Legacy { agent_id: String, timestamp: u64, signature: Vec<u8> },
}

/// What a token says.
pub enum TokenView {
    Ssh { timestamp: nat, pem: Seq<char>, key: Option<Seq<u8>> },
    Legacy { agent_id: Seq<char>, timestamp: nat, signature: Seq<u8> },
}

impl View for ParsedToken {
    type V = TokenView;

    open spec fn view(&self) -> TokenView {
        match self {
            ParsedToken::Ssh { timestamp, pem, key } => TokenView::Ssh {
                timestamp: *timestamp as nat,
                pem: pem@,
                key: opt_vec(*key),
            },
            ParsedToken::Legacy { agent_id, timestamp, signature } => TokenView::Legacy {
                agent_id: agent_id@,
                timestamp: *timestamp as nat,
                signature: signature@,
            },
        }
    }
}

pub open spec fn token_view(t: Option<ParsedToken>) -> Option<TokenView> {
    match t {
        Some(p) => Some(p@),
        None => None,
    }
}

/// A token of two parts, from its first part, what its second part encodes, and the key that is in
/// it where it is an SSH signature.
pub open spec fn ssh_token_of(
    timestamp: Seq<char>,
    signature: Option<Seq<u8>>,
    key: Option<Option<Seq<u8>>>,
) -> Option<TokenView> {
    match (parse_dec(timestamp, u64::MAX as nat), signature, key) {
        (Some(ts), Some(b), Some(k)) => if valid_utf8(b) {
            Some(TokenView::Ssh { timestamp: ts, pem: decode_utf8(b), key: k })
        } else {
            None
        },
        _ => None,
    }
}

/// A token of three parts, from the identifier in its first part, its second part, and what its
/// third part encodes.
pub open spec fn legacy_token_of(
    agent_id: Option<Seq<char>>,
    timestamp: Seq<char>,
    signature: Option<Seq<u8>>,
) -> Option<TokenView> {
    match (agent_id, parse_dec(timestamp, u64::MAX as nat), signature) {
        (Some(id), Some(ts), Some(b)) => if b.len() == 64 {
            Some(TokenView::Legacy { agent_id: id, timestamp: ts, signature: b })
        } else {
            None
        },
        _ => None,
    }
}

/// The key in the SSH signature that some bytes hold.
pub open spec fn key_in(signature: Option<Seq<u8>>) -> Option<Option<Seq<u8>>> {
    match signature {
        Some(b) => if valid_utf8(b) {
            ssh_signature_key(decode_utf8(b))
        } else {
            None
        },
        None => None,
    }
}

/// The token in a text.
pub open spec fn parsed_token(token: Seq<char>) -> Option<TokenView> {
    let parts = splitn(token, 3, ':');
    if parts.len() == 2 {
        ssh_token_of(parts[0], base64_bytes(parts[1]), key_in(base64_bytes(parts[1])))
    } else if parts.len() == 3 {
        legacy_token_of(uuid_text(parts[0]), parts[1], base64_bytes(parts[2]))
    } else {
        None
    }
}

/// A token of two parts, from what is in them.
pub fn ssh_token(
    timestamp: &str,
    signature: Option<Vec<u8>>,
    key: Option<Option<Vec<u8>>>,
) -> (r: Option<ParsedToken>)
    ensures
        token_view(r) == ssh_token_of(timestamp@, opt_vec(signature), ssh_key_view(key)),
{
    match (parse_u64(timestamp), signature, key) {
        (Some(ts), Some(b), Some(k)) => match utf8_text(b.as_slice()) {
            Some(pem) => Some(ParsedToken::Ssh { timestamp: ts, pem, key: k }),
            None => None,
        },
        _ => None,
    }
}

/// A token of three parts, from what is in them.
pub fn legacy_token(agent_id: Option<String>, timestamp: &str, signature: Option<Vec<u8>>) -> (r:
    Option<ParsedToken>)
    ensures
        token_view(r) == legacy_token_of(opt_text(agent_id), timestamp@, opt_vec(signature)),
{
    match (agent_id, parse_u64(timestamp), signature) {
        (Some(id), Some(ts), Some(b)) => {
            if b.len() == 64 {
                Some(ParsedToken::Legacy { agent_id: id, timestamp: ts, signature: b })
            } else {
                None
            }
        },
        _ => None,
    }
}

/// Parse a bearer token.
///
/// Two formats:
/// - 2 parts: `{timestamp}:{ssh_sig_base64}` (SSH format)
/// - 3 parts: `{agent_id}:{timestamp}:{raw_sig_base64}` (legacy)
pub fn parse_token(token: &str) -> (r: Option<ParsedToken>)
    ensures
        token_view(r) == parsed_token(token@),
        match parsed_token(token@) {
            Some(TokenView::Ssh { key: Some(k), .. }) => k.len() == 32,
            Some(TokenView::Legacy { signature, .. }) => signature.len() == 64,
            _ => true,
        },
{
    let chars = chars_of(token);
    let parts = splitn_chars(chars.as_slice(), 3, ':');
    let ghost p = texts(parts@);
    if parts.len() == 2 {
        proof {
            assert(p[0] == parts@[0]@ && p[1] == parts@[1]@);
        }
        let signature = base64_decode(parts[1].as_str());
        let key = match &signature {
            Some(b) => match utf8_text(b.as_slice()) {
                Some(pem) => ssh_key_of(pem.as_str()),
                None => None,
            },
            None => None,
        };
        return ssh_token(parts[0].as_str(), signature, key);
    }
    if parts.len() == 3 {
        proof {
            assert(p[0] == parts@[0]@ && p[1] == parts@[1]@ && p[2] == parts@[2]@);
        }
        return legacy_token(
            uuid_parse(parts[0].as_str()),
            parts[1].as_str(),
            base64_decode(parts[2].as_str()),
        );
    }
    None
}

/// What to do next with a request.
#[derive(Debug)]
pub enum AuthStep {
    Refuse(Status),
    /// Find the agent that a key belongs to.
    FindByKey { key: Vec<u8>, timestamp: u64, pem: String },
    /// Find all keys of an agent.
    FindKeys { agent_id: String, timestamp: u64, signature: Vec<u8> },
}

/// What a step says.
pub enum AuthStepView {
    Refuse(Status),
    FindByKey { key: Seq<u8>, timestamp: nat, pem: Seq<char> },
    FindKeys { agent_id: Seq<char>, timestamp: nat, signature: Seq<u8> },
}

impl View for AuthStep {
    type V = AuthStepView;

    open spec fn view(&self) -> AuthStepView {
        match self {
            AuthStep::Refuse(s) => AuthStepView::Refuse(*s),
            AuthStep::FindByKey { key, timestamp, pem } => AuthStepView::FindByKey {
                key: key@,
                timestamp: *timestamp as nat,
                pem: pem@,
            },
            AuthStep::FindKeys { agent_id, timestamp, signature } => AuthStepView::FindKeys {
                agent_id: agent_id@,
                timestamp: *timestamp as nat,
                signature: signature@,
            },
        }
    }
}

/// The token in an `Authorization` header.
pub open spec fn bearer(header: Option<Seq<char>>) -> Option<Seq<char>> {
    match header {
        Some(h) => if crate::text::has_prefix(h, "Bearer "@) {
            Some(h.skip("Bearer "@.len() as int))
        } else {
            None
        },
        None => None,
    }
}

/// The step for a token at a given time: one that cannot be read, is not fresh, or was made with a
/// key of another kind is unauthorized.
pub open spec fn token_step(token: Option<TokenView>, now: u64) -> AuthStepView {
    match token {
        None => AuthStepView::Refuse(Status::Unauthorized),
        Some(TokenView::Ssh { timestamp, pem, key }) => if !is_fresh(now, timestamp as u64) {
            AuthStepView::Refuse(Status::Unauthorized)
        } else {
            match key {
                Some(k) => AuthStepView::FindByKey { key: k, timestamp, pem },
                None => AuthStepView::Refuse(Status::Unauthorized),
            }
        },
        Some(TokenView::Legacy { agent_id, timestamp, signature }) => if !is_fresh(
            now,
            timestamp as u64,
        ) {
            AuthStepView::Refuse(Status::Unauthorized)
        } else {
            AuthStepView::FindKeys { agent_id, timestamp, signature }
        },
    }
}

/// The step for a token that was read.
pub fn check_token(token: Option<ParsedToken>, now: u64) -> (r: AuthStep)
    ensures
        r@ == token_step(token_view(token), now),
{
    match token {
        None => AuthStep::Refuse(Status::Unauthorized),
        Some(ParsedToken::Ssh { timestamp, pem, key }) => {
            if !fresh(now, timestamp) {
                return AuthStep::Refuse(Status::Unauthorized);
            }
            match key {
                Some(k) => AuthStep::FindByKey { key: k, timestamp, pem },
                None => AuthStep::Refuse(Status::Unauthorized),
            }
        },
        Some(ParsedToken::Legacy { agent_id, timestamp, signature }) => {
            if !fresh(now, timestamp) {
                return AuthStep::Refuse(Status::Unauthorized);
            }
            AuthStep::FindKeys { agent_id, timestamp, signature }
        },
    }
}

/// The step for an `Authorization` header at a given time.
pub open spec fn header_step(header: Option<Seq<char>>, now: u64) -> AuthStepView {
    match bearer(header) {
        None => AuthStepView::Refuse(Status::Unauthorized),
        Some(t) => token_step(parsed_token(t), now),
    }
}

/// Whether a key or a signature that is to be looked up has the size of one.
pub open spec fn has_right_size(step: AuthStepView) -> bool {
    match step {
        AuthStepView::FindByKey { key, .. } => key.len() == 32,
        AuthStepView::FindKeys { signature, .. } => signature.len() == 64,
        AuthStepView::Refuse(_) => true,
    }
}

/// Begins to find out who a request comes from, at the given time.
pub fn authenticate_at(header: Option<&str>, now: u64) -> (r: AuthStep)
    ensures
        r@ == header_step(opt_str(header), now),
        has_right_size(r@),
{
    match header {
        None => AuthStep::Refuse(Status::Unauthorized),
        Some(h) => {
            let chars = chars_of(h);
            match strip_prefix(chars.as_slice(), "Bearer ") {
                None => AuthStep::Refuse(Status::Unauthorized),
                Some(t) => {
                    let token = string_of(t);
                    check_token(parse_token(token.as_str()), now)
                },
            }
        },
    }
}

/// Begins to find out who a request comes from, now: the step is that of the time at which the
/// clock is read.
pub fn authenticate(header: Option<&str>) -> (r: AuthStep)
    ensures
        exists|now: u64| r@ == #[trigger] header_step(opt_str(header), now),
        has_right_size(r@),
{
    let now = unix_time();
    authenticate_at(header, now)
}

/// An agent that was found by its key.
#[derive(Debug)]
pub struct AgentRow {
    pub id: String,
    pub name: String,
    pub sponsor_name: String,
}

/// The verdict on an SSH token, once the agent was looked up, its identifier was read, and the
/// signature was checked.
pub fn ssh_verdict(row: Option<AgentRow>, id: Option<String>, verified: bool) -> (r: Result<
    AuthAgent,
    Status,
>)
    ensures
        match (row, id) {
            (None, _) => r matches Err(e) && e == Status::Unauthorized,
            (Some(_), None) => r matches Err(e) && e == Status::InternalServerError,
            (Some(a), Some(u)) => if verified {
                r matches Ok(agent) && agent@ == (AuthAgentView {
                    agent_id: u@,
                    agent_name: a.name@,
                    sponsor_name: a.sponsor_name@,
                })
            } else {
                r matches Err(e) && e == Status::Unauthorized
            },
        },
{
    match row {
        None => Err(Status::Unauthorized),
        Some(a) => match id {
            None => Err(Status::InternalServerError),
            Some(u) => {
                if verified {
                    Ok(
                        AuthAgent {
                            agent_id: u,
                            agent_name: a.name,
                            sponsor_name: a.sponsor_name,
                        },
                    )
                } else {
                    Err(Status::Unauthorized)
                }
            },
        },
    }
}

/// Ends the authentication by an SSH signature: the signature has to be good, over the time stamp
/// in decimal, under the key that it names, which belongs to the agent that was found.
pub fn authenticate_ssh(row: Option<AgentRow>, timestamp: u64, pem: &str) -> (r: Result<
    AuthAgent,
    Status,
>)
    ensures
        match row {
            None => r matches Err(e) && e == Status::Unauthorized,
            Some(a) => match uuid_text(a.id@) {
                None => r matches Err(e) && e == Status::InternalServerError,
                Some(u) => if ssh_signature_verifies(
                    pem@,
                    SSH_SIG_NAMESPACE@,
                    encode_utf8(dec(timestamp as nat)),
                ) {
                    r matches Ok(agent) && agent@ == (AuthAgentView {
                        agent_id: u,
                        agent_name: a.name@,
                        sponsor_name: a.sponsor_name@,
                    })
                } else {
                    r matches Err(e) && e == Status::Unauthorized
                },
            },
        },
{
    let id = match &row {
        None => None,
        Some(a) => uuid_parse(a.id.as_str()),
    };
    let message = u64_text(timestamp);
    let verified = ssh_verify(pem, SSH_SIG_NAMESPACE, message.as_str().as_bytes());
    ssh_verdict(row, id, verified)
}

/// A key of an agent.
#[derive(Debug)]
pub struct KeyRow {
    pub agent_name: String,
    pub public_key: Vec<u8>,
    pub sponsor_name: String,
}

/// What a legacy token signs.
pub open spec fn legacy_message(agent_id: Seq<char>, timestamp: nat) -> Seq<char> {
    agent_id + ":"@ + dec(timestamp)
}

/// Whether a signature of 64 bytes is good under a key. A key that does not take 32 bytes is passed
/// over.
pub open spec fn key_accepts(row: KeyRow, message: Seq<u8>, signature: Seq<u8>) -> bool {
    signature.len() == 64 && row.public_key@.len() == 32 && ed25519_valid(row.public_key@, message, signature)
}

/// The first of the keys under which a signature is good.
pub open spec fn first_accepting(rows: Seq<KeyRow>, message: Seq<u8>, signature: Seq<u8>) -> Option<
    KeyRow,
>
    decreases rows.len(),
{
    if rows.len() == 0 {
        None
    } else if key_accepts(rows[0], message, signature) {
        Some(rows[0])
    } else {
        first_accepting(rows.skip(1), message, signature)
    }
}

/// The bytes as an array, where there are 32 of them.
fn array32(b: &[u8]) -> (r: Option<[u8; 32]>)
    ensures
        match r {
            Some(a) => a@ == b@,
            None => b@.len() != 32,
        },
{
    if b.len() != 32 {
        return None;
    }
    let mut a: [u8; 32] = [0;32];
    let mut i: usize = 0;
    while i < 32
        invariant
            i <= 32,
            b@.len() == 32,
            forall|j: int| 0 <= j < i ==> a@[j] == b@[j],
        decreases 32 - i,
    {
        a[i] = b[i];
        i += 1;
    }
    proof {
        assert(a@ =~= b@);
    }
    Some(a)
}

/// The bytes as an array, where there are 64 of them.
fn array64(b: &[u8]) -> (r: Option<[u8; 64]>)
    ensures
        match r {
            Some(a) => a@ == b@,
            None => b@.len() != 64,
        },
{
    if b.len() != 64 {
        return None;
    }
    let mut a: [u8; 64] = [0;64];
    let mut i: usize = 0;
    while i < 64
        invariant
            i <= 64,
            b@.len() == 64,
            forall|j: int| 0 <= j < i ==> a@[j] == b@[j],
        decreases 64 - i,
    {
        a[i] = b[i];
        i += 1;
    }
    proof {
        assert(a@ =~= b@);
    }
    Some(a)
}

/// Ends the authentication by a legacy token: the signature has to be good, over the agent's
/// identifier and the time stamp, under one of the agent's keys.
pub fn authenticate_legacy(
    agent_id: String,
    timestamp: u64,
    signature: &[u8],
    rows: &Vec<KeyRow>,
) -> (r: Result<AuthAgent, Status>)
    ensures
        match first_accepting(
            rows@,
            encode_utf8(legacy_message(agent_id@, timestamp as nat)),
            signature@,
        ) {
            Some(row) => r matches Ok(agent) && agent@ == (AuthAgentView {
                agent_id: agent_id@,
                agent_name: row.agent_name@,
                sponsor_name: row.sponsor_name@,
            }),
            None => r matches Err(e) && e == Status::Unauthorized,
        },
{
    let mut message = agent_id.clone();
    message.append(":");
    message.append(u64_text(timestamp).as_str());
    let bytes = message.as_str().as_bytes();
    let sig = match array64(signature) {
        Some(s) => s,
        None => {
            proof {
                law_any_key_authenticates(
                    rows@,
                    encode_utf8(legacy_message(agent_id@, timestamp as nat)),
                    signature@,
                );
            }
            return Err(Status::Unauthorized);
        },
    };
    let ghost m = encode_utf8(legacy_message(agent_id@, timestamp as nat));
    let mut i: usize = 0;
    proof {
        assert(rows@.skip(0) =~= rows@);
    }
    while i < rows.len()
        invariant
            i <= rows@.len(),
            bytes@ == m,
            sig@ == signature@,
            signature@.len() == 64,
            m == encode_utf8(legacy_message(agent_id@, timestamp as nat)),
            first_accepting(rows@, m, signature@) == first_accepting(
                rows@.skip(i as int),
                m,
                signature@,
            ),
        decreases rows@.len() - i,
    {
        let row = &rows[i];
        proof {
            assert(rows@.skip(i as int)[0] == rows@[i as int]);
            assert(rows@.skip(i as int).skip(1) =~= rows@.skip(i as int + 1));
        }
        match array32(row.public_key.as_slice()) {
            Some(key) => {
                if ed25519_verify(&key, bytes, &sig) {
                    return Ok(
                        AuthAgent {
                            agent_id,
                            agent_name: row.agent_name.clone(),
                            sponsor_name: row.sponsor_name.clone(),
                        },
                    );
                }
            },
            None => {},
        }
        i += 1;
    }
    Err(Status::Unauthorized)
}

/// Whether a token is an agent's, signed with a secret at a time: it says so, the signature is good
/// under the public key of the secret, and where the agent has a UUID the token is read back as what
/// it says.
pub open spec fn is_token_of(
    token: Seq<char>,
    agent_id: Seq<char>,
    secret: Seq<u8>,
    now: nat,
) -> bool {
    let message = encode_utf8(legacy_message(agent_id, now));
    let signature = ed25519_signature(secret, message);
    &&& token == legacy_message(agent_id, now) + ":"@ + base64_text(signature)
    &&& ed25519_valid(ed25519_public(secret), message, signature)
    &&& is_uuid(agent_id) ==> parsed_token(token) == Some(
        TokenView::Legacy { agent_id, timestamp: now, signature },
    )
}

/// A signed bearer token for an agent at a given time (raw Ed25519 signature, legacy format). It is
/// read back as what it says, and its signature is good under the public key of the secret.
pub fn make_bearer_token_at(agent_id: &str, secret: &[u8; 32], now: u64) -> (r: String)
    ensures
        is_token_of(r@, agent_id@, secret@, now as nat),
        r@ == agent_id@ + ":"@ + dec(now as nat) + ":"@ + base64_text(
            ed25519_signature(secret@, encode_utf8(agent_id@ + ":"@ + dec(now as nat))),
        ),
{
    let mut token = String::from_str(agent_id);
    token.append(":");
    token.append(u64_text(now).as_str());
    let signature = ed25519_sign(secret, token.as_str().as_bytes());
    let encoded = base64_encode(signature.as_slice());
    let ghost message = token@;
    token.append(":");
    token.append(encoded.as_str());
    proof {
        if is_uuid(agent_id@) {
            lemma_token_parts(agent_id@, now as nat, encoded@);
            lemma_dec_parses(now as nat, u64::MAX as nat);
        }
    }
    token
}

/// A signed bearer token for an agent, of the time at which the clock is read.
pub fn make_bearer_token(agent_id: &str, secret: &[u8; 32]) -> (r: String)
    ensures
        exists|now: u64| #[trigger] is_token_of(r@, agent_id@, secret@, now as nat),
{
    let now = unix_time();
    make_bearer_token_at(agent_id, secret, now)
}

proof fn lemma_dec_parses(n: nat, max: nat)
    requires
        n <= max,
    ensures
        parse_dec(dec(n), max) == Some(n),
        !dec(n).contains(':'),
{
    lemma_dec_value(n);
    let d = dec(n);
    assert(crate::text::is_digit(d[0]));
    assert(d[0] != '+');
    assert(crate::text::unsigned(d) == d);
    assert(!d.contains(':')) by {
        if d.contains(':') {
            let j = choose|j: int| 0 <= j < d.len() && d[j] == ':';
            assert(crate::text::is_digit(d[j]));
        }
    }
}

proof fn lemma_dec_value(n: nat)
    ensures
        dec(n).len() > 0,
        crate::text::all_digits(dec(n)),
        crate::text::dec_value(dec(n)) == n,
    decreases n,
{
    let d = dec(n);
    if n < 10 {
        assert(d.drop_last() =~= seq![]);
        assert(crate::text::dec_value(Seq::<char>::empty()) == 0);
        assert(crate::text::is_digit(d[0]));
    } else {
        lemma_dec_value(n / 10);
        assert(d.drop_last() =~= dec(n / 10));
        assert forall|i: int| 0 <= i < d.len() implies crate::text::is_digit(#[trigger] d[i]) by {
            if i < d.len() - 1 {
                assert(d[i] == dec(n / 10)[i]);
            }
        }
    }
}

proof fn lemma_token_parts(agent_id: Seq<char>, now: nat, encoded: Seq<char>)
    requires
        !agent_id.contains(':'),
    ensures
        splitn(agent_id + ":"@ + dec(now) + ":"@ + encoded, 3, ':') == seq![
            agent_id,
            dec(now),
            encoded,
        ],
{
    reveal_strlit(":");
    assert(":"@ =~= seq![':']);
    let t = agent_id + ":"@ + dec(now) + ":"@ + encoded;
    let a = agent_id.len() as int;
    lemma_dec_parses(now, now);
    let b = dec(now).len() as int;
    assert forall|j: int| 0 <= j < a implies t[j] != ':' by {
        assert(t[j] == agent_id[j]);
    }
    assert(t[a] == ':');
    crate::text::lemma_first_index(t, ':', a);
    let rest = t.skip(a + 1);
    assert forall|j: int| 0 <= j < b implies rest[j] != ':' by {
        assert(rest[j] == dec(now)[j]);
    }
    assert(rest[b] == ':');
    crate::text::lemma_first_index(rest, ':', b);
    assert(t.take(a) =~= agent_id);
    assert(rest.take(b) =~= dec(now));
    assert(rest.skip(b + 1) =~= encoded);
    reveal_with_fuel(splitn, 4);
    assert(splitn(t, 3, ':') =~= seq![agent_id, dec(now), encoded]);
}

/// A token authenticates while it is fresh, and at no other time, whatever it holds.
pub proof fn law_stale_token_is_refused(token: Option<TokenView>, now: u64)
    ensures
        token matches Some(TokenView::Ssh { timestamp, .. }) ==> !is_fresh(now, timestamp as u64)
            ==> token_step(token, now) == AuthStepView::Refuse(Status::Unauthorized),
        token matches Some(TokenView::Legacy { timestamp, .. }) ==> !is_fresh(now, timestamp as u64)
            ==> token_step(token, now) == AuthStepView::Refuse(Status::Unauthorized),
        token is None ==> token_step(token, now) == AuthStepView::Refuse(Status::Unauthorized),
{
}

/// One good key is enough: a legacy signature is accepted exactly where it is good under any of the
/// agent's keys, wherever in the list that stands. An agent without keys is never accepted.
pub proof fn law_any_key_authenticates(rows: Seq<KeyRow>, message: Seq<u8>, signature: Seq<u8>)
    ensures
        first_accepting(rows, message, signature) is Some <==> exists|i: int|
            0 <= i < rows.len() && key_accepts(#[trigger] rows[i], message, signature),
        rows.len() == 0 ==> first_accepting(rows, message, signature) is None,
    decreases rows.len(),
{
    if rows.len() > 0 && !key_accepts(rows[0], message, signature) {
        law_any_key_authenticates(rows.skip(1), message, signature);
        if first_accepting(rows, message, signature) is Some {
            let i = choose|i: int|
                0 <= i < rows.skip(1).len() && key_accepts(
                    #[trigger] rows.skip(1)[i],
                    message,
                    signature,
                );
            assert(key_accepts(rows[i + 1], message, signature));
        }
        if exists|i: int| 0 <= i < rows.len() && key_accepts(#[trigger] rows[i], message, signature) {
            let i = choose|i: int|
                0 <= i < rows.len() && key_accepts(#[trigger] rows[i], message, signature);
            assert(rows.skip(1)[i - 1] == rows[i]);
        }
    }
}

/// A fresh token leads on with exactly what it says: one with an SSH signature to the agent that the
/// key in it belongs to, and a legacy one to the keys of the agent that it names.
pub proof fn law_fresh_token_goes_on(
    now: u64,
    timestamp: nat,
    pem: Seq<char>,
    key: Seq<u8>,
    agent_id: Seq<char>,
    signature: Seq<u8>,
)
    requires
        timestamp <= u64::MAX,
        is_fresh(now, timestamp as u64),
    ensures
        token_step(Some(TokenView::Ssh { timestamp, pem, key: Some(key) }), now)
            == (AuthStepView::FindByKey { key, timestamp, pem }),
        token_step(Some(TokenView::Ssh { timestamp, pem, key: None }), now) == AuthStepView::Refuse(
            Status::Unauthorized,
        ),
        token_step(Some(TokenView::Legacy { agent_id, timestamp, signature }), now)
            == (AuthStepView::FindKeys { agent_id, timestamp, signature }),
{
}

/// A token stands behind the word `Bearer` and a blank; a header of any other kind, or none, is
/// refused.
pub proof fn law_token_stands_behind_bearer(token: Seq<char>, header: Seq<char>, now: u64)
    ensures
        header_step(Some("Bearer "@ + token), now) == token_step(parsed_token(token), now),
        !crate::text::has_prefix(header, "Bearer "@) ==> header_step(Some(header), now)
            == AuthStepView::Refuse(Status::Unauthorized),
        header_step(None, now) == AuthStepView::Refuse(Status::Unauthorized),
{
    let start = "Bearer "@;
    assert((start + token).take(start.len() as int) =~= start);
    assert((start + token).skip(start.len() as int) =~= token);
}

/// A token of three parts is read as an agent, a time and a signature of 64 bytes, and as nothing
/// where one of them is not what it has to be.
pub proof fn law_legacy_token_is_read_in_three_parts(
    agent_id: Seq<char>,
    timestamp: nat,
    encoded: Seq<char>,
)
    requires
        timestamp <= u64::MAX,
        !agent_id.contains(':'),
    ensures
        ({
            let token = agent_id + ":"@ + dec(timestamp) + ":"@ + encoded;
            &&& uuid_text(agent_id) is Some && base64_bytes(encoded) is Some && base64_bytes(
                encoded,
            ).unwrap().len() == 64 ==> parsed_token(token) == Some(
                TokenView::Legacy {
                    agent_id: uuid_text(agent_id).unwrap(),
                    timestamp,
                    signature: base64_bytes(encoded).unwrap(),
                },
            )
            &&& parsed_token(token) is Some ==> uuid_text(agent_id) is Some && (base64_bytes(
                encoded,
            ) matches Some(b) && b.len() == 64)
        }),
{
    lemma_token_parts(agent_id, timestamp, encoded);
    lemma_dec_parses(timestamp, u64::MAX as nat);
}

/// A token of two parts is read as a time and an SSH signature, with the key that the signature
/// names; a token of one part is read as nothing.
pub proof fn law_ssh_token_is_read_in_two_parts(timestamp: nat, encoded: Seq<char>)
    requires
        timestamp <= u64::MAX,
        !encoded.contains(':'),
    ensures
        ({
            let token = dec(timestamp) + ":"@ + encoded;
            &&& base64_bytes(encoded) is Some && valid_utf8(base64_bytes(encoded).unwrap())
                && ssh_signature_key(decode_utf8(base64_bytes(encoded).unwrap())) is Some
                ==> parsed_token(token) == Some(
                TokenView::Ssh {
                    timestamp,
                    pem: decode_utf8(base64_bytes(encoded).unwrap()),
                    key: ssh_signature_key(decode_utf8(base64_bytes(encoded).unwrap())).unwrap(),
                },
            )
            &&& parsed_token(token) is Some ==> (base64_bytes(encoded) matches Some(b)
                && valid_utf8(b) && ssh_signature_key(decode_utf8(b)) is Some)
        }),
        parsed_token(encoded) is None,
{
    lemma_dec_parses(timestamp, u64::MAX as nat);
    let d = dec(timestamp);
    let token = d + ":"@ + encoded;
    reveal_strlit(":");
    assert forall|j: int| 0 <= j < d.len() implies token[j] != ':' by {
        assert(token[j] == d[j]);
        assert(d.contains(d[j]));
    }
    assert(token[d.len() as int] == ':');
    crate::text::lemma_first_index(token, ':', d.len() as int);
    assert(token.take(d.len() as int) =~= d);
    assert(token.skip(d.len() as int + 1) =~= encoded);
    assert forall|j: int| 0 <= j < encoded.len() implies encoded[j] != ':' by {
        assert(encoded.contains(encoded[j]));
    }
    crate::text::lemma_first_index(encoded, ':', encoded.len() as int);
    reveal_with_fuel(splitn, 4);
    assert(splitn(token, 3, ':') =~= seq![d, encoded]);
    assert(splitn(encoded, 3, ':') =~= seq![encoded]);
}

/// What a legacy signature is over tells the agent and the time: a signature made for one agent or
/// one moment is not over the message of another.
pub proof fn law_message_names_agent_and_time(
    agent: Seq<char>,
    other: Seq<char>,
    timestamp: nat,
    moment: nat,
)
    requires
        !agent.contains(':'),
        !other.contains(':'),
        timestamp <= u64::MAX,
        moment <= u64::MAX,
    ensures
        legacy_message(agent, timestamp) == legacy_message(other, moment) ==> agent == other
            && timestamp == moment,
        crate::text::has_prefix(legacy_message(agent, timestamp), agent + ":"@),
{
    lemma_token_parts(agent, timestamp, seq![]);
    lemma_token_parts(other, moment, seq![]);
    lemma_dec_value(timestamp);
    lemma_dec_value(moment);
    let m = legacy_message(agent, timestamp);
    assert(m.take((agent + ":"@).len() as int) =~= agent + ":"@);
    let one = seq![agent, dec(timestamp), Seq::<char>::empty()];
    let two = seq![other, dec(moment), Seq::<char>::empty()];
    if m == legacy_message(other, moment) {
        assert(one == two);
        assert(one[0] == two[0] && one[1] == two[1]);
    }
}

/// The first of an agent's keys under which a signature is good is the one that counts, and one under
/// which it is not good never does.
pub proof fn law_first_good_key_counts(
    before: Seq<KeyRow>,
    row: KeyRow,
    after: Seq<KeyRow>,
    message: Seq<u8>,
    signature: Seq<u8>,
)
    requires
        signature.len() == 64,
        row.public_key@.len() == 32,
        ed25519_valid(row.public_key@, message, signature),
        forall|i: int|
            0 <= i < before.len() ==> !ed25519_valid(
                (#[trigger] before[i]).public_key@,
                message,
                signature,
            ),
    ensures
        first_accepting(before + seq![row] + after, message, signature) == Some(row),
        first_accepting(before, message, signature) is None,
    decreases before.len(),
{
    let all = before + seq![row] + after;
    if before.len() == 0 {
        assert(all[0] == row);
    } else {
        let tail = before.skip(1);
        assert(!ed25519_valid(before[0].public_key@, message, signature));
        assert forall|i: int| 0 <= i < tail.len() implies !ed25519_valid(
            (#[trigger] tail[i]).public_key@,
            message,
            signature,
        ) by {
            assert(tail[i] == before[i + 1]);
        }
        law_first_good_key_counts(tail, row, after, message, signature);
        assert(all[0] == before[0]);
        assert(all.skip(1) =~= tail + seq![row] + after);
    }
}

/// What a value says in contracts is what its fields say, each in its own place.
pub proof fn law_views_show_every_field(
    auth_agent: AuthAgent,
    parsed_token: ParsedToken,
    auth_step: AuthStep,
)
    ensures
        auth_agent@.agent_id == auth_agent.agent_id@,
        auth_agent@.agent_name == auth_agent.agent_name@,
        auth_agent@.sponsor_name == auth_agent.sponsor_name@,
        parsed_token@ == (match parsed_token {
            ParsedToken::Ssh { timestamp, pem, key } => TokenView::Ssh {
                timestamp: timestamp as nat,
                pem: pem@,
                key: opt_vec(key),
            },
            ParsedToken::Legacy { agent_id, timestamp, signature } => TokenView::Legacy {
                agent_id: agent_id@,
                timestamp: timestamp as nat,
                signature: signature@,
            },
        }),
        auth_step@ == (match auth_step {
            AuthStep::Refuse(s) => AuthStepView::Refuse(s),
            AuthStep::FindByKey { key, timestamp, pem } => AuthStepView::FindByKey {
                key: key@,
                timestamp: timestamp as nat,
                pem: pem@,
            },
            AuthStep::FindKeys { agent_id, timestamp, signature } => AuthStepView::FindKeys {
                agent_id: agent_id@,
                timestamp: timestamp as nat,
                signature: signature@,
            },
        }),
{
}

/// A value that may be missing says in contracts what it says where it is there.
pub proof fn law_missing_values_stay_missing(x: ParsedToken)
    ensures
        token_view(Some(x)) == Some(x@),
        token_view(None) is None,
{
}

/// Signatures are made for this service alone.
pub proof fn law_signatures_are_made_for_this_service()
    ensures
        SSH_SIG_NAMESPACE@ == "agentcoderepo"@,
{
}

/// A key that is looked up has thirty-two bytes, and a signature that is checked sixty-four.
pub proof fn law_keys_and_signatures_have_their_sizes(
    key: Seq<u8>,
    signature: Seq<u8>,
    agent_id: Seq<char>,
    timestamp: nat,
    pem: Seq<char>,
)
    ensures
        has_right_size(AuthStepView::FindByKey { key, timestamp, pem }) <==> key.len() == 32,
        has_right_size(AuthStepView::FindKeys { agent_id, timestamp, signature }) <==> signature.len()
            == 64,
{
}

} // verus!
