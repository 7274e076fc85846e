//! Sponsors: logging in with GitHub, and the sessions that follow.

use rand::Rng;
use vstd::prelude::*;
use vstd::string::*;
use crate::state::OAuthConfig;
use crate::status::Status;
use crate::text::{
    chars_of, has_prefix, hex, hex_text, is_space, lemma_first_index, lemma_hex_digits,
    lemma_split_joined, opt_str, opt_text, split, split_chars, string_of, strip_prefix, texts, trim, trim_chars, trim_start, u64_text,
};

verus! {

/// How long a session lasts: seven days.
pub const SESSION_MAX_AGE_SECS: u64 = 604800;

// ---------------------------------------------------------------------------
// Login
// ---------------------------------------------------------------------------

/// Where the browser is sent to log in.
pub open spec fn login_url(oauth: OAuthConfig) -> Seq<char> {
    "https://github.com/login/oauth/authorize?client_id="@ + oauth.client_id@ + "&redirect_uri="@ + (
    oauth.base_url@ + "/auth/github/callback"@) + "&scope=read:user"@
}

/// Login → redirect to GitHub, where that is configured.
pub fn login_github(oauth: Option<&OAuthConfig>) -> (r: Result<String, Status>)
    ensures
        match oauth {
            None => r matches Err(e) && e == Status::NotImplemented,
            Some(o) => r matches Ok(u) && u@ == login_url(*o),
        },
{
    match oauth {
        None => Err(Status::NotImplemented),
        Some(o) => {
            let mut redirect = String::from_str(o.base_url.as_str());
            redirect.append("/auth/github/callback");
            let mut url = String::from_str("https://github.com/login/oauth/authorize?client_id=");
            url.append(o.client_id.as_str());
            url.append("&redirect_uri=");
            url.append(redirect.as_str());
            url.append("&scope=read:user");
            Ok(url)
        },
    }
}

pub struct CallbackParams {
    pub code: String,
}

/// The form that exchanges a code for an access token.
pub fn token_form(oauth: &OAuthConfig, params: &CallbackParams) -> (r: Vec<(String, String)>)
    ensures
        crate::stripe::pairs(r@) == seq![
            ("client_id"@, oauth.client_id@),
            ("client_secret"@, oauth.client_secret@),
            ("code"@, params.code@),
        ],
{
    let mut v: Vec<(String, String)> = Vec::new();
    v.push((String::from_str("client_id"), oauth.client_id.clone()));
    v.push((String::from_str("client_secret"), oauth.client_secret.clone()));
    v.push((String::from_str("code"), params.code.clone()));
    proof {
        assert(crate::stripe::pairs(v@) =~= seq![
            ("client_id"@, oauth.client_id@),
            ("client_secret"@, oauth.client_secret@),
            ("code"@, params.code@),
        ]);
    }
    v
}

/// A GitHub user.
#[derive(Debug)]
pub struct GitHubUser {
    pub id: u64,
    pub login: String,
    pub avatar_url: String,
}

/// A change of the sponsors.
#[derive(Debug)]
pub enum SponsorWrite {
    /// Note the login and the avatar of a known sponsor, in case they changed; whether that works
    /// does not matter.
    UpdateGitHub { sponsor_id: String, login: String, avatar_url: String },
    /// A sponsor of a name that is taken already is a conflict.
    InsertSponsor { id: String, name: String },
    InsertGitHub { sponsor_id: String, github_id: String, login: String, avatar_url: String },
}

/// What a change says.
pub enum SponsorWriteView {
    UpdateGitHub { sponsor_id: Seq<char>, login: Seq<char>, avatar_url: Seq<char> },
    InsertSponsor { id: Seq<char>, name: Seq<char> },
    InsertGitHub {
        sponsor_id: Seq<char>,
        github_id: Seq<char>,
        login: Seq<char>,
        avatar_url: Seq<char>,
    },
}

impl View for SponsorWrite {
    type V = SponsorWriteView;

    open spec fn view(&self) -> SponsorWriteView {
        match self {
            SponsorWrite::UpdateGitHub { sponsor_id, login, avatar_url } => {
                SponsorWriteView::UpdateGitHub {
                    sponsor_id: sponsor_id@,
                    login: login@,
                    avatar_url: avatar_url@,
                }
            },
            SponsorWrite::InsertSponsor { id, name } => SponsorWriteView::InsertSponsor {
                id: id@,
                name: name@,
            },
            SponsorWrite::InsertGitHub { sponsor_id, github_id, login, avatar_url } => {
                SponsorWriteView::InsertGitHub {
                    sponsor_id: sponsor_id@,
                    github_id: github_id@,
                    login: login@,
                    avatar_url: avatar_url@,
                }
            },
        }
    }
}

pub open spec fn sponsor_writes(v: Seq<SponsorWrite>) -> Seq<SponsorWriteView> {
    v.map_values(|w: SponsorWrite| w@)
}

/// The identifier under which a GitHub user is stored.
pub fn github_id(user: &GitHubUser) -> (r: String)
    ensures
        r@ == crate::text::dec(user.id as nat),
{
    u64_text(user.id)
}

/// The changes of a login: a user that is known keeps its sponsor; for any other a sponsor is made,
/// named after its login.
pub open spec fn login_writes(
    existing: Option<Seq<char>>,
    new_id: Seq<char>,
    user: GitHubUser,
) -> Seq<SponsorWriteView> {
    match existing {
        Some(id) => seq![
            SponsorWriteView::UpdateGitHub {
                sponsor_id: id,
                login: user.login@,
                avatar_url: user.avatar_url@,
            },
        ],
        None => seq![
            SponsorWriteView::InsertSponsor { id: new_id, name: user.login@ },
            SponsorWriteView::InsertGitHub {
                sponsor_id: new_id,
                github_id: crate::text::dec(user.id as nat),
                login: user.login@,
                avatar_url: user.avatar_url@,
            },
        ],
    }
}

/// The sponsor of a login.
pub open spec fn login_sponsor(existing: Option<Seq<char>>, new_id: Seq<char>) -> Seq<char> {
    match existing {
        Some(id) => id,
        None => new_id,
    }
}

/// Find or create the sponsor of a GitHub user.
pub fn github_callback(existing: Option<String>, new_id: String, user: &GitHubUser) -> (r: (
    String,
    Vec<SponsorWrite>,
))
    ensures
        r.0@ == login_sponsor(opt_text(existing), new_id@),
        sponsor_writes(r.1@) == login_writes(opt_text(existing), new_id@, *user),
{
    let mut writes: Vec<SponsorWrite> = Vec::new();
    match existing {
        Some(id) => {
            writes.push(
                SponsorWrite::UpdateGitHub {
                    sponsor_id: id.clone(),
                    login: user.login.clone(),
                    avatar_url: user.avatar_url.clone(),
                },
            );
            proof {
                assert(sponsor_writes(writes@) =~= login_writes(Some(id@), new_id@, *user));
            }
            (id, writes)
        },
        None => {
            writes.push(
                SponsorWrite::InsertSponsor { id: new_id.clone(), name: user.login.clone() },
            );
            writes.push(
                SponsorWrite::InsertGitHub {
                    sponsor_id: new_id.clone(),
                    github_id: github_id(user),
                    login: user.login.clone(),
                    avatar_url: user.avatar_url.clone(),
                },
            );
            proof {
                assert(sponsor_writes(writes@) =~= login_writes(None, new_id@, *user));
            }
            (new_id, writes)
        },
    }
}

/// The sponsor that each GitHub user has.
pub type Logins = Map<Seq<char>, Seq<char>>;

pub open spec fn sponsor_of(l: Logins, github_id: Seq<char>) -> Option<Seq<char>> {
    if l.dom().contains(github_id) {
        Some(l[github_id])
    } else {
        None
    }
}

// ---------------------------------------------------------------------------
// Sessions
// ---------------------------------------------------------------------------

pub struct SessionSponsor {
    pub id: String,
    pub name: String,
    pub avatar_url: String,
}

/// A session as it is stored. It ends once it is as old as `max_age_secs`.
#[derive(Debug)]
pub struct SessionRow {
    pub token: String,
    pub sponsor_id: String,
    pub max_age_secs: u64,
}

/// What a stored session says.
#[verifier::ext_equal]
pub struct SessionRowView {
    pub token: Seq<char>,
    pub sponsor_id: Seq<char>,
    pub max_age_secs: u64,
}

impl View for SessionRow {
    type V = SessionRowView;

    open spec fn view(&self) -> SessionRowView {
        SessionRowView {
            token: self.token@,
            sponsor_id: self.sponsor_id@,
            max_age_secs: self.max_age_secs,
        }
    }
}

/// The session that a login of a sponsor starts.
pub open spec fn login_session(token: Seq<char>, sponsor_id: Seq<char>) -> SessionRowView {
    SessionRowView { token, sponsor_id, max_age_secs: SESSION_MAX_AGE_SECS }
}

/// The session that a login of a sponsor starts under a given token.
pub fn session_row(token: String, sponsor_id: String) -> (r: SessionRow)
    ensures
        r@ == login_session(token@, sponsor_id@),
{
    SessionRow { token, sponsor_id, max_age_secs: SESSION_MAX_AGE_SECS }
}

/// Start a session of the sponsor that has logged in, under a new token.
pub fn start_session(sponsor_id: String) -> (r: SessionRow)
    ensures
        is_token(r.token@),
        r@ == login_session(r.token@, sponsor_id@),
{
    session_row(generate_session_token(), sponsor_id)
}

/// The cookie that starts a session.
pub open spec fn session_cookie_text(token: Seq<char>) -> Seq<char> {
    "session="@ + token + "; HttpOnly; SameSite=Lax; Path=/; Max-Age="@ + crate::text::dec(
        SESSION_MAX_AGE_SECS as nat,
    )
}

/// The cookie that starts a session.
pub fn session_cookie(token: &str) -> (r: String)
    ensures
        r@ == session_cookie_text(token@),
{
    let mut s = String::from_str("session=");
    s.append(token);
    s.append("; HttpOnly; SameSite=Lax; Path=/; Max-Age=");
    s.append(u64_text(SESSION_MAX_AGE_SECS).as_str());
    s
}

/// The cookie that ends a session.
pub const CLEAR_COOKIE: &'static str = "session=; HttpOnly; SameSite=Lax; Path=/; Max-Age=0";

/// The session that a part of a cookie header names.
pub open spec fn session_in(part: Seq<char>) -> Option<Seq<char>> {
    let t = trim(part);
    if has_prefix(t, "session="@) && t.len() > "session="@.len() {
        Some(t.skip("session="@.len() as int))
    } else {
        None
    }
}

/// The first session that the parts of a cookie header name.
pub open spec fn first_session(parts: Seq<Seq<char>>) -> Option<Seq<char>>
    decreases parts.len(),
{
    if parts.len() == 0 {
        None
    } else {
        match session_in(parts[0]) {
            Some(t) => Some(t),
            None => first_session(parts.skip(1)),
        }
    }
}

/// The session that a cookie header names.
pub open spec fn header_session(header: Option<Seq<char>>) -> Option<Seq<char>> {
    match header {
        Some(h) => first_session(split(h, ';')),
        None => None,
    }
}

/// The session that a cookie header names, if any.
pub fn extract_session_cookie(header: Option<&str>) -> (r: Option<String>)
    ensures
        opt_text(r) == header_session(opt_str(header)),
{
    let h = match header {
        None => {
            return None;
        },
        Some(h) => h,
    };
    let chars = chars_of(h);
    let parts = split_chars(chars.as_slice(), ';');
    let ghost all = texts(parts@);
    let mut i: usize = 0;
    proof {
        assert(all.skip(0) =~= all);
    }
    while i < parts.len()
        invariant
            i <= parts@.len(),
            all == texts(parts@),
            all == split(h@, ';'),
            header == Some(h),
            first_session(all) == first_session(all.skip(i as int)),
        decreases parts@.len() - i,
    {
        let part = chars_of(parts[i].as_str());
        let t = trim_chars(part.as_slice());
        proof {
            assert(all.skip(i as int)[0] == part@);
            assert(all.skip(i as int).skip(1) =~= all.skip(i as int + 1));
        }
        match strip_prefix(t, "session=") {
            Some(value) => {
                if value.len() > 0 {
                    return Some(string_of(value));
                }
            },
            None => {},
        }
        i += 1;
    }
    None
}

/// `Rng::fill` of the crate `rand`, on an array of 32 bytes, with the thread's own generator. Chance
/// decides what they are.
#[verifier::external_body]
fn random_bytes() -> (r: [u8; 32]) {
    let mut bytes = [0u8; 32];
    rand::thread_rng().fill(&mut bytes);
    bytes
}

/// The token that some random bytes make.
pub fn session_token(bytes: &[u8; 32]) -> (r: String)
    ensures
        r@ == hex(bytes@),
        is_token(r@),
{
    let s = hex_text(bytes);
    proof {
        lemma_hex_is_token(bytes@);
    }
    s
}

/// A new session token: 64 lower-case hexadecimal digits.
pub fn generate_session_token() -> (r: String)
    ensures
        is_token(r@),
{
    let bytes = random_bytes();
    session_token(&bytes)
}

/// 64 lower-case hexadecimal digits.
pub open spec fn is_token(s: Seq<char>) -> bool {
    s.len() == 64 && forall|i: int|
        0 <= i < s.len() ==> {
            let c = #[trigger] s[i];
            '0' <= c <= '9' || 'a' <= c <= 'f'
        }
}

proof fn lemma_hex_is_token(b: Seq<u8>)
    requires
        b.len() == 32,
    ensures
        is_token(hex(b)),
{
    lemma_hex_digits(b);
}

/// A browser that sends a session's cookie back is recognised by it, alone or behind another cookie
/// that names no session.
pub proof fn law_session_cookie_is_read_back(token: Seq<char>, other: Seq<char>)
    requires
        is_token(token),
        !other.contains(';'),
        session_in(other) is None,
    ensures
        header_session(Some("session="@ + token)) == Some(token),
        header_session(Some(other + "; session="@ + token)) == Some(token),
{
    reveal_strlit("session=");
    reveal_strlit("; session=");
    let c = "session="@ + token;
    assert forall|j: int| 0 <= j < c.len() implies c[j] != ';' && !is_space(#[trigger] c[j]) by {
        if j < 8 {
            assert(c[j] == "session="@[j]);
        } else {
            assert(c[j] == token[j - 8]);
        }
    }
    lemma_first_index(c, ';', c.len() as int);
    assert(split(c, ';') == seq![c]);
    assert(trim_start(c) == c);
    assert(trim(c) == c);
    assert(c.take(8) =~= "session="@);
    assert(c.skip(8) =~= token);
    assert(session_in(c) == Some(token));
    reveal_with_fuel(first_session, 3);
    let back = seq![' '] + c;
    let d = other + "; session="@ + token;
    assert(d =~= other + seq![';'] + back);
    lemma_split_joined(other, back, ';');
    assert forall|j: int| 0 <= j < back.len() implies back[j] != ';' by {
        if j > 0 {
            assert(back[j] == c[j - 1]);
        }
    }
    lemma_first_index(back, ';', back.len() as int);
    assert(split(back, ';') == seq![back]);
    assert forall|j: int| 0 <= j < other.len() implies other[j] != ';' by {
        assert(other.contains(other[j]));
    }
    lemma_first_index(other, ';', other.len() as int);
    assert(split(other, ';') == seq![other]);
    assert(split(d, ';') =~= seq![other, back]);
    assert(back.skip(1) =~= c);
    assert(trim_start(back) == trim_start(c));
    assert(trim(back) == c);
    assert(split(d, ';').skip(1) =~= seq![back]);
}

// ---------------------------------------------------------------------------
// Logging in twice
// ---------------------------------------------------------------------------

/// A session and the moment at which it ends.
#[verifier::ext_equal]
pub struct Session {
    pub sponsor_id: Seq<char>,
    pub expires_at: int,
}

/// The sponsors by their identifiers, the sponsor that each GitHub user has, and the sessions by
/// their tokens.
#[verifier::ext_equal]
pub struct Accounts {
    pub sponsors: Map<Seq<char>, Seq<char>>,
    pub logins: Logins,
    pub sessions: Map<Seq<char>, Session>,
}

/// What a change does.
pub open spec fn apply_sponsor_write(a: Accounts, w: SponsorWriteView) -> Accounts {
    match w {
        SponsorWriteView::InsertSponsor { id, name } => Accounts {
            sponsors: a.sponsors.insert(id, name),
            ..a
        },
        SponsorWriteView::InsertGitHub { sponsor_id, github_id, .. } => Accounts {
            logins: a.logins.insert(github_id, sponsor_id),
            ..a
        },
        SponsorWriteView::UpdateGitHub { .. } => a,
    }
}

pub open spec fn apply_sponsor_writes(a: Accounts, ws: Seq<SponsorWriteView>) -> Accounts
    decreases ws.len(),
{
    if ws.len() == 0 {
        a
    } else {
        apply_sponsor_write(apply_sponsor_writes(a, ws.drop_last()), ws.last())
    }
}

/// What a stored session does.
pub open spec fn apply_session(a: Accounts, row: SessionRowView, now: int) -> Accounts {
    Accounts {
        sessions: a.sessions.insert(
            row.token,
            Session { sponsor_id: row.sponsor_id, expires_at: now + row.max_age_secs },
        ),
        ..a
    }
}

/// The accounts after a GitHub user has logged in. `new_id` is the identifier that a new sponsor
/// gets, and `token` that of the session.
pub open spec fn logged_in(
    a: Accounts,
    user: GitHubUser,
    new_id: Seq<char>,
    token: Seq<char>,
    now: int,
) -> Accounts {
    let known = sponsor_of(a.logins, crate::text::dec(user.id as nat));
    apply_session(
        apply_sponsor_writes(a, login_writes(known, new_id, user)),
        login_session(token, login_sponsor(known, new_id)),
        now,
    )
}

/// The sponsor whom a token stands for at a moment.
pub open spec fn signed_in(a: Accounts, token: Seq<char>, now: int) -> Option<Seq<char>> {
    if a.sessions.dom().contains(token) && a.sessions[token].expires_at > now {
        Some(a.sessions[token].sponsor_id)
    } else {
        None
    }
}

proof fn lemma_login(
    a: Accounts,
    user: GitHubUser,
    new_id: Seq<char>,
    token: Seq<char>,
    now: int,
)
    ensures
        ({
            let key = crate::text::dec(user.id as nat);
            let after = logged_in(a, user, new_id, token, now);
            let sponsor = login_sponsor(sponsor_of(a.logins, key), new_id);
            &&& sponsor_of(after.logins, key) == Some(sponsor)
            &&& sponsor_of(a.logins, key) is Some ==> after.sponsors == a.sponsors && after.logins
                == a.logins
            &&& after.sessions == a.sessions.insert(
                token,
                Session { sponsor_id: sponsor, expires_at: now + SESSION_MAX_AGE_SECS },
            )
        }),
{
    let key = crate::text::dec(user.id as nat);
    let ws = login_writes(sponsor_of(a.logins, key), new_id, user);
    reveal_with_fuel(apply_sponsor_writes, 3);
    if ws.len() == 2 {
        assert(ws.drop_last() =~= seq![ws[0]]);
        assert(ws.drop_last().drop_last() =~= seq![]);
    } else {
        assert(ws.drop_last() =~= seq![]);
    }
}

/// A GitHub user that logs in a second time, be it under another login name, has the sponsor of the
/// first time, whatever identifier a new one would have been given. The second login adds no
/// sponsor and changes the sponsor of no one. It starts a session beside the first, and each of the
/// two stands for that sponsor until it is seven days old.
pub proof fn law_second_login_reuses_sponsor(
    a: Accounts,
    user: GitHubUser,
    again: GitHubUser,
    new_ids: (Seq<char>, Seq<char>),
    tokens: (Seq<char>, Seq<char>),
    times: (int, int),
    now: int,
)
    requires
        again.id == user.id,
        tokens.0 != tokens.1,
    ensures
        ({
            let first = logged_in(a, user, new_ids.0, tokens.0, times.0);
            let second = logged_in(first, again, new_ids.1, tokens.1, times.1);
            let sponsor = login_sponsor(
                sponsor_of(a.logins, crate::text::dec(user.id as nat)),
                new_ids.0,
            );
            &&& second.sponsors == first.sponsors
            &&& second.logins == first.logins
            &&& signed_in(second, tokens.0, now) == (if now < times.0 + SESSION_MAX_AGE_SECS {
                Some(sponsor)
            } else {
                None
            })
            &&& signed_in(second, tokens.1, now) == (if now < times.1 + SESSION_MAX_AGE_SECS {
                Some(sponsor)
            } else {
                None
            })
        }),
{
    lemma_login(a, user, new_ids.0, tokens.0, times.0);
    let first = logged_in(a, user, new_ids.0, tokens.0, times.0);
    lemma_login(first, again, new_ids.1, tokens.1, times.1);
}

/// The browser is sent to GitHub with this server's own identity, and is to come back to this server.
pub proof fn law_login_comes_back_here(oauth: OAuthConfig)
    ensures
        has_prefix(
            login_url(oauth),
            "https://github.com/login/oauth/authorize?client_id="@ + oauth.client_id@,
        ),
        crate::text::has_suffix(
            login_url(oauth),
            "&redirect_uri="@ + (oauth.base_url@ + "/auth/github/callback"@) + "&scope=read:user"@,
        ),
{
    let url = login_url(oauth);
    let start = "https://github.com/login/oauth/authorize?client_id="@ + oauth.client_id@;
    let end = "&redirect_uri="@ + (oauth.base_url@ + "/auth/github/callback"@)
        + "&scope=read:user"@;
    assert(url.take(start.len() as int) =~= start);
    assert(url.skip(url.len() - end.len()) =~= end);
}

/// The first login of a GitHub user makes a sponsor named after the login, which from then on is that
/// user's; nobody else's sponsor changes.
pub proof fn law_first_login_makes_a_sponsor(
    a: Accounts,
    user: GitHubUser,
    new_id: Seq<char>,
    token: Seq<char>,
    now: int,
    other: Seq<char>,
)
    requires
        sponsor_of(a.logins, crate::text::dec(user.id as nat)) is None,
        other != crate::text::dec(user.id as nat),
    ensures
        ({
            let after = logged_in(a, user, new_id, token, now);
            &&& after.sponsors == a.sponsors.insert(new_id, user.login@)
            &&& sponsor_of(after.logins, crate::text::dec(user.id as nat)) == Some(new_id)
            &&& sponsor_of(after.logins, other) == sponsor_of(a.logins, other)
            &&& signed_in(after, token, now) == Some(new_id)
        }),
{
    let key = crate::text::dec(user.id as nat);
    let ws = login_writes(None, new_id, user);
    reveal_with_fuel(apply_sponsor_writes, 3);
    assert(ws.drop_last() =~= seq![ws[0]]);
    assert(ws.drop_last().drop_last() =~= seq![]);
    lemma_login(a, user, new_id, token, now);
}

/// A later login keeps what GitHub says of the user up to date, under the sponsor that the user has,
/// and stores nothing else.
pub proof fn law_later_login_updates_the_user(id: Seq<char>, new_id: Seq<char>, user: GitHubUser)
    ensures
        login_writes(Some(id), new_id, user).len() == 1,
        login_writes(Some(id), new_id, user)[0] == (SponsorWriteView::UpdateGitHub {
            sponsor_id: id,
            login: user.login@,
            avatar_url: user.avatar_url@,
        }),
        login_sponsor(Some(id), new_id) == id,
        login_sponsor(None, new_id) == new_id,
{
}

/// A session and its cookie last seven days, and the cookie is kept from scripts.
pub proof fn law_sessions_last_seven_days(token: Seq<char>, sponsor_id: Seq<char>)
    ensures
        login_session(token, sponsor_id).max_age_secs == 7 * 24 * 60 * 60,
        login_session(token, sponsor_id).token == token,
        login_session(token, sponsor_id).sponsor_id == sponsor_id,
        has_prefix(session_cookie_text(token), "session="@ + token),
        crate::text::has_suffix(
            session_cookie_text(token),
            "; HttpOnly; SameSite=Lax; Path=/; Max-Age="@ + crate::text::dec(604800),
        ),
{
    let cookie = session_cookie_text(token);
    let start = "session="@ + token;
    let end = "; HttpOnly; SameSite=Lax; Path=/; Max-Age="@ + crate::text::dec(604800);
    assert(cookie.take(start.len() as int) =~= start);
    assert(cookie.skip(cookie.len() - end.len()) =~= end);
}

/// The first cookie that names a session counts, whatever stands before and behind it.
pub proof fn law_first_session_cookie_counts(
    before: Seq<Seq<char>>,
    one: Seq<char>,
    after: Seq<Seq<char>>,
)
    requires
        forall|i: int| 0 <= i < before.len() ==> session_in(#[trigger] before[i]) is None,
        session_in(one) is Some,
    ensures
        first_session(before + seq![one] + after) == session_in(one),
        first_session(before) is None,
    decreases before.len(),
{
    let all = before + seq![one] + after;
    if before.len() == 0 {
        assert(all[0] == one);
    } else {
        let tail = before.skip(1);
        assert(session_in(before[0]) is None);
        assert forall|i: int| 0 <= i < tail.len() implies session_in(#[trigger] tail[i]) is None by {
            assert(tail[i] == before[i + 1]);
        }
        law_first_session_cookie_counts(tail, one, after);
        assert(all[0] == before[0]);
        assert(all.skip(1) =~= tail + seq![one] + after);
    }
}

/// What a value says in contracts is what its fields say, each in its own place.
pub proof fn law_views_show_every_field(sponsor_write: SponsorWrite, session_row: SessionRow)
    ensures
        sponsor_write@ == (match sponsor_write {
            SponsorWrite::UpdateGitHub { sponsor_id, login, avatar_url } => {
                SponsorWriteView::UpdateGitHub {
                    sponsor_id: sponsor_id@,
                    login: login@,
                    avatar_url: avatar_url@,
                }
            },
            SponsorWrite::InsertSponsor { id, name } => SponsorWriteView::InsertSponsor {
                id: id@,
                name: name@,
            },
            SponsorWrite::InsertGitHub { sponsor_id, github_id, login, avatar_url } => {
                SponsorWriteView::InsertGitHub {
                    sponsor_id: sponsor_id@,
                    github_id: github_id@,
                    login: login@,
                    avatar_url: avatar_url@,
                }
            },
        }),
        session_row@.token == session_row.token@,
        session_row@.sponsor_id == session_row.sponsor_id@,
        session_row@.max_age_secs == session_row.max_age_secs,
{
}

/// A list says in contracts what its items say, one for one and in their order.
pub proof fn law_items_are_read_one_for_one(v: Seq<SponsorWrite>)
    ensures
        sponsor_writes(v).len() == v.len(),
        forall|i: int| 0 <= i < v.len() ==> #[trigger] sponsor_writes(v)[i] == v[i]@,
{
}

} // verus!
