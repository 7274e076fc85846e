use agentcoderepo::changesets::{
    accept_changeset, accepted, check_changeset, commits_to_pick, create_changeset, default_status,
    list_changesets, log_range_args, push_url, reject_changeset, withdraw_changeset, worktree_args,
    CherryPick, CreateChangeset, Decision, ListChangesetsParams, PickStep, ProposedChangeset,
    RepoPath,
};
use agentcoderepo::format::TextFormat;
use agentcoderepo::log::{
    default_limit, default_ref, get_log, git_log, valid_ref_name, LogParams, LogResponse,
};
use agentcoderepo::status::Status;
use agentcoderepo::versions::{yank_version, yanked, OwnedRepo, VersionEntry, VersionList};
use agentcoderepo::votes::{
    check_vote, get_votes, unvote, verify_comment, vote, VoteRequest, VoteResponse, VoteWrite,
};

fn s(x: &str) -> String {
    x.to_string()
}

#[test]
fn changeset_is_proposed() {
    let body = |d: &str| CreateChangeset { description: s(d) };
    assert_eq!(check_changeset(&body(""), Some(s("r1"))).err(), Some(Status::BadRequest));
    assert_eq!(check_changeset(&body("fix"), None).err(), Some(Status::NotFound));
    assert_eq!(check_changeset(&body("fix"), Some(s("r1"))).unwrap(), "r1");
    let path = RepoPath { owner: s("alice"), repo: s("lib") };
    let sha = "0123456789abcdef0123456789abcdef01234567";
    let (row, response) =
        create_changeset(path, body("fix"), s("c1"), s("r1"), s("b"), s("bob"), s(sha));
    assert_eq!(row.ref_name, "refs/changesets/c1");
    assert_eq!(response.status, default_status());
    assert_eq!(response.push_url, push_url("alice", "lib"));
    let text = response.to_text();
    assert!(text.contains("0123456789ab") && !text.contains("0123456789abc"));
}

#[test]
fn changesets_are_filtered_by_status() {
    let by = |x: &str| list_changesets(&ListChangesetsParams { status: s(x) });
    assert_eq!(by("proposed").unwrap().as_deref(), Some("proposed"));
    assert_eq!(by("withdrawn").unwrap().as_deref(), Some("withdrawn"));
    assert_eq!(by("all").unwrap(), None);
    assert_eq!(by("lost").err(), Some(Status::BadRequest));
}

fn proposed() -> Option<ProposedChangeset> {
    Some(ProposedChangeset {
        owner_id: s("o"),
        author_id: s("a"),
        ref_name: s("refs/changesets/c1"),
        base_commit: s("base"),
    })
}

#[test]
fn deciders_are_told_apart() {
    assert!(accept_changeset(proposed(), "o").is_ok());
    assert_eq!(accept_changeset(proposed(), "a").err(), Some(Status::Forbidden));
    assert_eq!(accept_changeset(None, "o").err(), Some(Status::NotFound));
    assert_eq!(reject_changeset(proposed(), "o").unwrap(), "refs/changesets/c1");
    assert_eq!(reject_changeset(proposed(), "a").err(), Some(Status::Forbidden));
    assert_eq!(withdraw_changeset(proposed(), "a").unwrap(), "refs/changesets/c1");
    assert_eq!(withdraw_changeset(proposed(), "o").err(), Some(Status::Forbidden));
    assert_eq!(Decision::Accept.status(), "accepted");
    assert_eq!(Decision::Reject.status(), "rejected");
    assert_eq!(Decision::Withdraw.status(), "withdrawn");
}

#[test]
fn commits_are_picked_oldest_first() {
    let stdout = "bb\0aa\0bob\02024-01-02\0second\naa\0\0bob\02024-01-01\0first\n\njunk\n";
    let commits = git_log(true, stdout);
    assert_eq!(commits.len(), 2);
    assert_eq!(commits[0].parents, vec![s("aa")]);
    assert!(commits[1].parents.is_empty());
    assert_eq!(commits_to_pick(&commits).unwrap(), vec![s("aa"), s("bb")]);
    assert_eq!(commits_to_pick(&vec![]).err(), Some(Status::UnprocessableEntity));
    assert!(git_log(false, stdout).is_empty());
    assert_eq!(log_range_args("main", "tip")[2], "main..tip");
}

#[test]
fn cherry_pick_takes_all_commits() {
    assert_eq!(worktree_args("/tmp/w").join(" "), "worktree add --detach /tmp/w main");
    let mut pick = CherryPick::new(vec![s("aa"), s("bb")]);
    assert!(matches!(pick.after_worktree(true, ""), PickStep::Pick(c) if c == "aa"));
    assert!(matches!(pick.after_pick(true, ""), PickStep::Pick(c) if c == "bb"));
    assert!(matches!(pick.after_pick(true, ""), PickStep::ReadHead));
    assert!(matches!(pick.after_head("newhead\n"), PickStep::UpdateMain(h) if h == "newhead"));
    assert!(matches!(pick.after_update(true, "", s("newhead")), PickStep::Done(h) if h == "newhead"));
}

#[test]
fn cherry_pick_stops_at_a_conflict() {
    let mut pick = CherryPick::new(vec![s("0123456789abcdef"), s("bb")]);
    assert!(matches!(pick.after_worktree(false, "boom"), PickStep::Fail(m)
        if m == "git worktree add failed: boom"));
    assert!(matches!(pick.after_pick(false, "both changed"), PickStep::Abort(m)
        if m == "cherry-pick conflict on 0123456789ab: both changed"));
    assert!(matches!(pick.after_update(false, "locked", s("h")), PickStep::Fail(m)
        if m == "git update-ref failed: locked"));
    assert_eq!(accepted(Err(s("x"))).err(), Some(Status::Conflict));
    let response = accepted(Ok(s("h"))).unwrap();
    assert_eq!(response.to_text(), "accepted, new head: h\n");
}

#[test]
fn log_refs_are_checked() {
    for good in ["HEAD", "main", "refs/heads/feature-1", "v1.0", "a_b"] {
        assert!(valid_ref_name(good), "{good}");
    }
    for bad in ["a b", "a;b", "main~1", "$(x)"] {
        assert!(!valid_ref_name(bad), "{bad}");
    }
    let params = |limit: usize, r: &str| LogParams { limit, git_ref: s(r) };
    assert_eq!(get_log(false, &params(1, "main")).err(), Some(Status::NotFound));
    assert_eq!(get_log(true, &params(1, "a;b")).err(), Some(Status::BadRequest));
    let args = get_log(true, &params(default_limit(), &default_ref())).unwrap();
    assert!(args.contains(&s("HEAD")));
    assert_eq!(
        get_log(true, &params(100_000, "main")).unwrap(),
        get_log(true, &params(200_000, "main")).unwrap()
    );
    assert_eq!(LogResponse(vec![]).to_text(), "(no commits)\n");
    let entries = git_log(true, "0123456789abcdef\0\0bob\0today\0fix\n");
    assert_eq!(LogResponse(entries).to_text(), "0123456789ab bob today\n  fix\n");
}

#[test]
fn owner_yanks_a_version() {
    let repo = || Some(OwnedRepo { repo_id: s("r1"), owner_id: s("o") });
    assert_eq!(yank_version(repo(), "o").unwrap(), "r1");
    assert_eq!(yank_version(repo(), "x").err(), Some(Status::Forbidden));
    assert_eq!(yank_version(None, "o").err(), Some(Status::NotFound));
    assert_eq!(yanked(1), Ok(Status::NoContent));
    assert_eq!(yanked(0), Err(Status::NotFound));
    let list = VersionList(vec![VersionEntry {
        version: s("1.0.0"),
        commit_sha: s("aaa"),
        yanked: true,
        created_at: s("today"),
    }]);
    assert_eq!(list.to_text(), "1.0.0  aaa  today [yanked]\n");
    assert_eq!(VersionList(vec![]).to_text(), "(no versions)\n");
}

#[test]
fn votes_are_plus_or_minus_one() {
    assert_eq!(check_vote(&VoteRequest { value: 2 }).err(), Some(Status::BadRequest));
    assert_eq!(check_vote(&VoteRequest { value: 0 }).err(), Some(Status::BadRequest));
    assert_eq!(verify_comment(false), Err(Status::NotFound));
    let (write, response) = vote(&VoteRequest { value: -1 }, true, "a", "c").unwrap();
    assert!(matches!(write, VoteWrite::Cast { value: -1, .. }));
    assert_eq!(response.to_text(), "voted: -1\n");
    assert_eq!(vote(&VoteRequest { value: 1 }, false, "a", "c").err(), Some(Status::NotFound));
    assert!(matches!(unvote(true, "a", "c"), Ok(VoteWrite::Remove { .. })));
    assert_eq!(unvote(false, "a", "c").err(), Some(Status::NotFound));
    assert_eq!(VoteResponse { voted: false, value: 0 }.to_text(), "vote removed\n");
    let summary = get_votes(3, 1, Some(1));
    assert_eq!(summary.total, 2);
    assert_eq!(summary.to_text(), "+3 / -1 (total: 2) (you: +1)\n");
}
