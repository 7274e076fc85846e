use agentcoderepo::app::{
    add_agent_key, agent_created, agent_profile, changesets_of, check_ref, check_star, create_agent,
    create_repo, create_sponsor, decoded_key, delete_repo, explore_repos, health, is_valid_name,
    key_added, key_to_change, me, parse_ed25519_public_key, read_key_text, ref_check, repo_created,
    revoke_agent_key, star_repo, unstar_repo, update_repo, AddKey, AgentList, 
    CreateAgent, CreateRepo, CreateSponsor, KeyText, RepoList, RepoResponse, StarResponse,
    StarWrite, UpdateRepo,
};
use agentcoderepo::auth::AuthAgent;
use agentcoderepo::fly_replay::replay_writes_to_primary;
use agentcoderepo::format::TextFormat;
use agentcoderepo::git::RefUpdate;
use agentcoderepo::oauth::{
    extract_session_cookie, generate_session_token, github_callback, github_id, login_github,
    session_cookie, session_row, session_token, start_session, token_form, CallbackParams, GitHubUser, SessionSponsor,
    SponsorWrite, CLEAR_COOKIE,
};
use agentcoderepo::pages::{docs_sponsorship, register_agent_form, root, SITEMAP};
use agentcoderepo::repo::validate_name;
use agentcoderepo::state::{is_primary, OAuthConfig};
use agentcoderepo::status::Status;
use agentcoderepo::store::MemStore;
use agentcoderepo::table::Table;
use base64::Engine;

fn s(x: &str) -> String {
    x.to_string()
}

fn encode(bytes: &[u8]) -> String {
    base64::engine::general_purpose::STANDARD.encode(bytes)
}

#[test]
fn names_are_validated() {
    for good in ["a", "my-agent", "a_b", "0", "_x_"] {
        assert!(is_valid_name(good), "{good}");
        assert!(validate_name(good).is_ok());
    }
    for bad in ["", "-a", "a-", "A", "a b", "a/b", "..", "é", "a.b"] {
        assert!(!is_valid_name(bad), "{bad}");
    }
    assert!(is_valid_name(&"a".repeat(64)));
    assert!(!is_valid_name(&"a".repeat(65)));
}

fn ssh_line(key: &[u8]) -> String {
    let mut blob = vec![0, 0, 0, 11];
    blob.extend_from_slice(b"ssh-ed25519");
    blob.extend_from_slice(&[0, 0, 0, 32]);
    blob.extend_from_slice(key);
    format!("ssh-ed25519 {} me@host", encode(&blob))
}

#[test]
fn public_keys_are_read() {
    let key: Vec<u8> = (0u8..32).collect();
    assert_eq!(parse_ed25519_public_key(&encode(&key)), Some(key.clone()));
    assert_eq!(parse_ed25519_public_key(&format!("  {}\n", encode(&key))), Some(key.clone()));
    assert_eq!(parse_ed25519_public_key(&ssh_line(&key)), Some(key.clone()));
    assert_eq!(parse_ed25519_public_key(&encode(&key[..31])), None);
    assert_eq!(parse_ed25519_public_key(&ssh_line(&key[..31])), None);
    assert_eq!(parse_ed25519_public_key("not base64!"), None);
    assert_eq!(parse_ed25519_public_key(""), None);
    assert_eq!(parse_ed25519_public_key("ssh-ed25519 "), None);
    assert!(matches!(read_key_text("ssh-ed25519  AAAA c"), KeyText::Ssh(t) if t == "AAAA"));
    assert!(matches!(read_key_text(" AAAA "), KeyText::Raw(t) if t == "AAAA"));
    assert_eq!(decoded_key(&KeyText::Raw(s("x")), Some(vec![0; 33])), None);
    let blob: Vec<u8> = (0u8..60).collect();
    assert_eq!(decoded_key(&KeyText::Ssh(s("x")), Some(blob)), Some((19u8..51).collect()));
    assert_eq!(decoded_key(&KeyText::Missing, Some(vec![0; 32])), None);
}

fn session() -> Option<SessionSponsor> {
    Some(SessionSponsor { id: s("s1"), name: s("alice"), avatar_url: s("") })
}

#[test]
fn sponsor_registers_an_agent() {
    let body = |name: &str, key: &str| CreateAgent { name: s(name), public_key_base64: s(key) };
    let key = encode(&[5u8; 32]);
    let create = |session: Option<SessionSponsor>, sponsor: &str, name: &str, key: &str| {
        create_agent(&session, s(sponsor), body(name, key), s("a1"))
    };
    assert_eq!(create(None, "s1", "bot", &key).err(), Some(Status::Unauthorized));
    assert_eq!(create(session(), "s2", "bot", &key).err(), Some(Status::Forbidden));
    assert_eq!(create(session(), "s1", "Bot", &key).err(), Some(Status::BadRequest));
    assert_eq!(create(session(), "s1", "bot", "junk").err(), Some(Status::BadRequest));
    let agent = create(session(), "s1", "bot", &key).unwrap();
    assert_eq!(agent.key, vec![5u8; 32]);
    let response = agent_created(agent, true, true).unwrap();
    assert_eq!(response.to_text(), "id: a1\nname: bot\nsponsor: s1\n");
    let taken = create(session(), "s1", "bot", &key).unwrap();
    assert_eq!(agent_created(taken, false, false).err(), Some(Status::Conflict));
    let failed = create(session(), "s1", "bot", &key).unwrap();
    assert_eq!(agent_created(failed, true, false).err(), Some(Status::InternalServerError));
    assert_eq!(AgentList(vec![]).to_text(), "(no agents)\n");
    assert_eq!(AgentList(vec![response]).to_text(), "a1\tbot\n");
}

#[test]
fn sponsors_are_created_under_test_alone() {
    let body = || CreateSponsor { name: s("acme") };
    assert_eq!(create_sponsor(false, body(), s("s1"), true).err(), Some(Status::NotFound));
    assert_eq!(create_sponsor(true, body(), s("s1"), false).err(), Some(Status::Conflict));
    assert_eq!(
        create_sponsor(true, body(), s("s1"), true).unwrap().to_text(),
        "id: s1\nname: acme\n"
    );
    assert_eq!(health(), "ok");
}

#[test]
fn keys_are_rotated() {
    let body = |b: u8| AddKey { public_key_base64: encode(&[b; 32]) };
    assert_eq!(key_to_change(false, &body(1)).err(), Some(Status::Unauthorized));
    assert_eq!(
        key_to_change(true, &AddKey { public_key_base64: s("?") }).err(),
        Some(Status::BadRequest)
    );
    assert_eq!(add_agent_key(true, &body(1), None).err(), Some(Status::NotFound));
    assert_eq!(add_agent_key(true, &body(1), Some(s("a1"))), Ok((s("a1"), vec![1u8; 32])));
    assert_eq!(key_added(true), Status::Created);
    assert_eq!(key_added(false), Status::Conflict);
    let one = vec![vec![1u8; 32]];
    let two = vec![vec![1u8; 32], vec![2u8; 32]];
    let revoke = |b: u8, keys: &Vec<Vec<u8>>| revoke_agent_key(true, &body(b), Some(s("a1")), keys);
    assert_eq!(revoke(2, &two), Ok((s("a1"), vec![2u8; 32])));
    assert_eq!(revoke(1, &one), Err(Status::Conflict));
    assert_eq!(revoke(3, &two), Err(Status::NotFound));
    assert_eq!(revoke_agent_key(false, &body(1), None, &one), Err(Status::Unauthorized));
}

fn agent() -> AuthAgent {
    AuthAgent { agent_id: s("a1"), agent_name: s("bot"), sponsor_name: s("alice") }
}

fn repo(name: &str) -> RepoResponse {
    RepoResponse {
        id: s("r1"),
        owner_name: s("bot"),
        name: s(name),
        description: s("sorts"),
        stars: 1,
        created_at: s("today"),
    }
}

#[test]
fn repos_are_created() {
    let body = |name: &str| CreateRepo { name: s(name), description: s("sorts") };
    assert_eq!(create_repo(agent(), body("My Lib"), s("r1")).err(), Some(Status::BadRequest));
    let (row, response) = create_repo(agent(), body("lib"), s("r1")).unwrap();
    assert_eq!(row.owner_id, "a1");
    assert_eq!(response.to_text(), "bot/lib  0 stars\n  sorts\n");
    let (undo, answer) = repo_created(true, false, response);
    assert!(undo);
    assert_eq!(answer.err(), Some(Status::InternalServerError));
    let (undo, answer) = repo_created(false, false, repo("lib"));
    assert!(!undo);
    assert_eq!(answer.err(), Some(Status::Conflict));
    assert!(repo_created(true, true, repo("lib")).1.is_ok());
    assert_eq!(me(agent()).to_text(), "agent: a1\nname: bot\nsponsor: alice\n");
}

#[test]
fn owner_updates_and_deletes_a_repo() {
    let to = |d: Option<&str>| UpdateRepo { description: d.map(s) };
    let (write, response) = update_repo(Some(repo("lib")), "bot", to(Some("new"))).unwrap();
    assert_eq!(write, Some((s("r1"), s("new"))));
    assert_eq!(response.to_text(), "bot/lib  1 star\n  new\n  created: today\n");
    let (write, response) = update_repo(Some(repo("lib")), "bot", to(None)).unwrap();
    assert_eq!(write, None);
    assert_eq!(response.description, "sorts");
    assert_eq!(update_repo(Some(repo("lib")), "x", to(None)).err(), Some(Status::Forbidden));
    assert_eq!(update_repo(None, "bot", to(None)).err(), Some(Status::NotFound));
    assert_eq!(delete_repo(Some((s("r1"), s("bot"))), "bot"), Ok(s("r1")));
    assert_eq!(delete_repo(Some((s("r1"), s("bot"))), "x"), Err(Status::Forbidden));
    assert_eq!(delete_repo(None, "bot"), Err(Status::NotFound));
    assert_eq!(RepoList(vec![]).to_text(), "(no repos)\n");
    assert_eq!(RepoList(vec![repo("lib")]).to_text(), "bot/lib  sorts  (1 star)\n");
}

#[test]
fn repos_are_explored_in_pages() {
    let all = || (0..5).map(|i| repo(&format!("repo-{i}"))).collect::<Vec<_>>();
    assert_eq!(explore_repos(all(), 0, 2).0.len(), 2);
    let second = explore_repos(all(), 2, 2);
    assert_eq!(second.0[0].name, "repo-2");
    assert_eq!(second.0.len(), 2);
    assert_eq!(explore_repos(all(), 4, 2).0.len(), 1);
    assert_eq!(explore_repos(all(), 9, 2).0.len(), 0);
    let profile = agent_profile(Some((s("bot"), 1))).unwrap();
    assert_eq!((profile.name.as_str(), profile.repo_count), ("bot", 1));
    assert_eq!(agent_profile(None).err(), Some(Status::NotFound));
}

#[test]
fn stars_are_given_and_taken_back() {
    let (write, response) = star_repo(Some(s("r1")), s("a1")).unwrap();
    assert!(matches!(write, StarWrite::Give { agent_id, repo_id } if agent_id == "a1" && repo_id == "r1"));
    assert_eq!(response.to_text(), "starred\n");
    assert_eq!(star_repo(None, s("a1")).err(), Some(Status::NotFound));
    assert!(matches!(unstar_repo(Some(s("r1")), s("a1")), Ok(StarWrite::TakeBack { .. })));
    assert_eq!(unstar_repo(None, s("a1")).err(), Some(Status::NotFound));
    assert!(!check_star(Some(s("r1")), false).unwrap().starred);
    assert_eq!(check_star(None, true).err(), Some(Status::NotFound));
    assert_eq!(StarResponse { starred: false }.to_text(), "not starred\n");
}

fn update(name: &str) -> RefUpdate {
    RefUpdate { old_sha: "0".repeat(40), new_sha: "a".repeat(40), ref_name: s(name) }
}

#[test]
fn pushes_are_held_to_rights() {
    let mut authors = Table::new();
    authors.insert(s("c1"), s("author"));
    let check = |agent: &str, names: &[&str]| {
        let updates: Vec<RefUpdate> = names.iter().map(|n| update(n)).collect();
        ref_check("alice", "lib", Some("owner"), agent, "bob", &updates, &authors)
    };
    assert_eq!(check("owner", &["refs/heads/main", "refs/heads/dev"]), Ok(()));
    assert_eq!(check("author", &["refs/changesets/c1"]), Ok(()));
    assert_eq!(
        check("author", &["refs/changesets/c1", "refs/heads/main"]),
        Err(s("only the repo owner can push to refs/heads/main"))
    );
    assert_eq!(
        check("owner", &["refs/changesets/c1"]),
        Err(s("you don't own changeset c1"))
    );
    assert_eq!(
        check("author", &["refs/changesets/c2"]),
        Err(s("changeset c2 not found or not in proposed state"))
    );
    assert_eq!(
        check("owner", &["refs/tags/v1"]),
        Err(s("cannot push to ref refs/tags/v1; use refs/heads/* (owner) or refs/changesets/* (changeset author)"))
    );
    assert_eq!(
        ref_check("alice", "lib", None, "owner", "bob", &vec![], &authors),
        Err(s("repo alice/lib not found"))
    );
    assert!(check_ref(true, "owner", "refs/heads/x", &authors).is_ok());
    assert_eq!(
        changesets_of(&vec![update("refs/heads/x"), update("refs/changesets/c9")]),
        vec![s("c9")]
    );
}

#[test]
fn branches_go_to_a_repo_that_was_not_created() {
    let mut authors = Table::new();
    authors.insert(s("c1"), s("a1"));
    let check = |name: &str, refs: &[&str]| {
        let updates: Vec<RefUpdate> = refs.iter().map(|n| update(n)).collect();
        ref_check("alice", "uncreated-repo", None, "a1", name, &updates, &authors)
    };
    assert_eq!(check("alice", &["refs/heads/main"]), Ok(()));
    assert_eq!(check("alice", &["refs/heads/main", "refs/heads/dev"]), Ok(()));
    let refused = Err(s("repo alice/uncreated-repo not found"));
    assert_eq!(check("bob", &["refs/heads/main"]), refused);
    assert_eq!(check("alice", &["refs/heads/main", "refs/tags/v1"]), refused);
    assert_eq!(check("alice", &["refs/changesets/c1"]), refused);
}

fn oauth() -> OAuthConfig {
    OAuthConfig::new(s("id"), s("secret"), s("https://me"))
}

#[test]
fn login_goes_through_github() {
    let config = oauth();
    assert_eq!(config.token_url, "https://github.com/login/oauth/access_token");
    assert_eq!(config.userinfo_url, "https://api.github.com/user");
    let url = login_github(Some(&config)).unwrap();
    assert!(url.starts_with("https://github.com/login/oauth/authorize?client_id=id"));
    assert_eq!(login_github(None).err(), Some(Status::NotImplemented));
    let form = token_form(&config, &CallbackParams { code: s("c") });
    assert_eq!(form[2], (s("code"), s("c")));
    let user = GitHubUser { id: 12345, login: s("alice"), avatar_url: s("pic") };
    assert_eq!(github_id(&user), "12345");
    let (sponsor, writes) = github_callback(None, s("new"), &user);
    assert_eq!(sponsor, "new");
    assert!(matches!(&writes[0], SponsorWrite::InsertSponsor { id, name } if id == "new" && name == "alice"));
    let (sponsor, writes) = github_callback(Some(s("old")), s("new"), &user);
    assert_eq!(sponsor, "old");
    assert!(matches!(&writes[..], [SponsorWrite::UpdateGitHub { .. }]));
}

#[test]
fn logins_start_sessions_of_their_sponsor() {
    let row = session_row(s("tok"), s("sp1"));
    assert_eq!((row.token.as_str(), row.sponsor_id.as_str()), ("tok", "sp1"));
    assert_eq!(row.max_age_secs, 604800);
    let user = GitHubUser { id: 7, login: s("alice"), avatar_url: s("") };
    let (sponsor, _) = github_callback(None, s("sp1"), &user);
    let first = start_session(sponsor.clone());
    let (sponsor, _) = github_callback(Some(sponsor), s("sp2"), &user);
    let second = start_session(sponsor);
    assert_eq!(first.sponsor_id, second.sponsor_id);
    assert_ne!(first.token, second.token);
    assert_eq!(second.max_age_secs, 604800);
}

#[test]
fn session_cookie_is_read_back() {
    let token = generate_session_token();
    assert_eq!(token.len(), 64);
    assert_ne!(token, generate_session_token());
    assert_eq!(session_token(&[0xabu8; 32]), "ab".repeat(32));
    let cookie = session_cookie("tok");
    assert!(cookie.starts_with("session=tok; HttpOnly; SameSite=Lax; Path=/; Max-Age="));
    assert_eq!(extract_session_cookie(Some("a=b; session=tok; c=d")).as_deref(), Some("tok"));
    assert_eq!(extract_session_cookie(Some("a=b")), None);
    assert_eq!(extract_session_cookie(None), None);
    assert!(CLEAR_COOKIE.contains("Max-Age=0"));
}

#[test]
fn writes_go_to_the_primary() {
    assert!(is_primary(None, None));
    assert!(is_primary(Some("sjc"), None));
    assert!(!is_primary(Some("ams"), None));
    assert!(is_primary(Some("ams"), Some("ams")));
    assert_eq!(replay_writes_to_primary(true, "POST", "/api/repos", Some("m1")), None);
    assert_eq!(replay_writes_to_primary(false, "GET", "/api/repos", Some("m1")), None);
    assert!(replay_writes_to_primary(false, "POST", "/api/repos", Some("m1"))
        .unwrap()
        .contains("m1"));
}

#[test]
fn store_gives_back_what_was_put() {
    let mut store = MemStore::new();
    store.put("a/1", vec![1]);
    store.put("a/2", vec![2]);
    store.put("b/1", vec![3]);
    store.put("a/1", vec![9]);
    assert_eq!(store.get("a/1"), Some(vec![9]));
    assert_eq!(store.list("a/").len(), 2);
    store.delete("a/1");
    assert_eq!(store.get("a/1"), None);
    assert_eq!(store.list(""), vec![s("a/2"), s("b/1")]);
}

#[test]
fn pages_are_made() {
    assert!(root(Some("alice"), true).contains("Logged in as <strong>alice</strong>"));
    assert!(root(None, true).contains("Login with GitHub"));
    assert!(!root(None, false).contains("Login"));
    assert!(root(None, false).contains(SITEMAP));
    assert!(docs_sponsorship().contains("SPONSORSHIP MODEL"));
    let form = register_agent_form("alice", "s1");
    assert!(form.contains("<strong>alice</strong>"));
    assert!(form.contains("action=\"/sponsors/s1/agents\"\n      enctype"));
}

#[test]
fn statuses_have_their_codes() {
    for (status, code) in [
        (Status::Success, 200),
        (Status::Created, 201),
        (Status::NoContent, 204),
        (Status::TemporaryRedirect, 307),
        (Status::BadRequest, 400),
        (Status::Unauthorized, 401),
        (Status::PaymentRequired, 402),
        (Status::Forbidden, 403),
        (Status::NotFound, 404),
        (Status::Conflict, 409),
        (Status::UnprocessableEntity, 422),
        (Status::InternalServerError, 500),
        (Status::NotImplemented, 501),
        (Status::BadGateway, 502),
        (Status::ServiceUnavailable, 503),
    ] {
        assert_eq!(status.code(), code);
    }
}
