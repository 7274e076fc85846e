use agentcoderepo::git::{
    current_head, info_refs, info_refs_command, parse_ref_updates, receive_pack,
    receive_pack_checked, receive_pack_moved, receive_pack_reply, zero_sha_text, PushStep,
};
use agentcoderepo::pktline::{packet_len_at, wrap_advertisement};
use agentcoderepo::repo::{bare_repo_path, temp_repo_name, validate_name, RepoError};
use agentcoderepo::status::Status;

#[test]
fn parse_single_ref_update() {
    // Construct a pkt-line: "00850000...old 0000...new refs/heads/main\0 report-status\n"
    let old = "0000000000000000000000000000000000000000";
    let new = "aaaaaaaaaaaaaaaaaaaaaaaaaaaaaaaaaaaaaaaa";
    let line = format!("{old} {new} refs/heads/main\0 report-status side-band-64k\n");
    let pkt_len = line.len() + 4;
    let pkt = format!("{pkt_len:04x}{line}");
    let body = format!("{pkt}0000");

    let updates = parse_ref_updates(body.as_bytes());
    assert_eq!(updates.len(), 1);
    assert_eq!(updates[0].old_sha, old);
    assert_eq!(updates[0].new_sha, new);
    assert_eq!(updates[0].ref_name, "refs/heads/main");
}

#[test]
fn parse_multiple_ref_updates() {
    let old = "0000000000000000000000000000000000000000";
    let new1 = "aaaaaaaaaaaaaaaaaaaaaaaaaaaaaaaaaaaaaaaa";
    let new2 = "bbbbbbbbbbbbbbbbbbbbbbbbbbbbbbbbbbbbbbbb";

    let line1 = format!("{old} {new1} refs/heads/main\0 report-status\n");
    let pkt1_len = line1.len() + 4;
    let pkt1 = format!("{pkt1_len:04x}{line1}");

    let line2 = format!("{old} {new2} refs/changesets/abc\n");
    let pkt2_len = line2.len() + 4;
    let pkt2 = format!("{pkt2_len:04x}{line2}");

    let body = format!("{pkt1}{pkt2}0000");

    let updates = parse_ref_updates(body.as_bytes());
    assert_eq!(updates.len(), 2);
    assert_eq!(updates[0].ref_name, "refs/heads/main");
    assert_eq!(updates[1].ref_name, "refs/changesets/abc");
}

#[test]
fn capabilities_and_line_feeds_are_passed_over_anywhere() {
    let old = "0".repeat(40);
    let new = "a".repeat(40);
    let mut body = String::new();
    for end in ["", "\n", "\n\n", "\0 report-status", "\0 report-status\n"] {
        let line = format!("{old} {new} refs/heads/x{end}");
        body.push_str(&format!("{:04x}{line}", line.len() + 4));
    }
    body.push_str("0000PACK");
    let updates = parse_ref_updates(body.as_bytes());
    assert_eq!(updates.len(), 5);
    assert!(updates.iter().all(|u| u.ref_name == "refs/heads/x" && u.new_sha == new));
}

#[test]
fn malformed_packets_end_the_commands() {
    assert_eq!(parse_ref_updates(b"").len(), 0);
    assert_eq!(parse_ref_updates(b"zzzz").len(), 0);
    assert_eq!(parse_ref_updates(b"ffff").len(), 0);
    // A command with a short object name is no command.
    assert_eq!(parse_ref_updates(b"0018abc def refs/heads/x0000").len(), 0);
    // What follows a flush is not read.
    assert_eq!(packet_len_at(b"0000", 0), None);
    assert_eq!(packet_len_at(b"0006ab", 0), Some(6));
    assert_eq!(packet_len_at(b"00000006ab", 4), Some(6));
    assert_eq!(packet_len_at(b"0007ab", 0), None);
    assert_eq!(packet_len_at(b"00g6ab", 0), None);
}

#[test]
fn advertisement_is_framed() {
    let out = wrap_advertisement("git-upload-pack", b"rest");
    assert_eq!(out, b"001e# service=git-upload-pack\n0000rest".to_vec());
}

#[test]
fn info_refs_knows_two_services() {
    assert_eq!(info_refs_command("git-upload-pack").unwrap(), "upload-pack");
    assert_eq!(info_refs_command("git-receive-pack").unwrap(), "receive-pack");
    assert!(info_refs_command("git-archive").is_err());
    let reply = info_refs("git-upload-pack", Some(b"x".to_vec()));
    assert_eq!(reply.status, Status::Success);
    assert_eq!(
        reply.content_type.as_deref(),
        Some("application/x-git-upload-pack-advertisement")
    );
    assert!(reply.no_cache);
    assert_eq!(reply.body, b"001e# service=git-upload-pack\n0000x".to_vec());
    let failed = info_refs("git-upload-pack", None);
    assert_eq!(failed.status, Status::InternalServerError);
}

#[test]
fn push_is_checked_before_git_runs() {
    let line = format!("{} {} refs/heads/main\n", zero_sha_text(), "a".repeat(40));
    let body = format!("{:04x}{line}0000", line.len() + 4);
    match receive_pack(true, Some(body.as_bytes())) {
        PushStep::CheckRefs(updates) => assert_eq!(updates[0].ref_name, "refs/heads/main"),
        _ => panic!("refs are to be checked"),
    }
    assert!(matches!(receive_pack(false, Some(body.as_bytes())), PushStep::RunGit));
    assert!(matches!(receive_pack_checked(Ok(())), PushStep::RunGit));
    match receive_pack_checked(Err("not yours".to_string())) {
        PushStep::Respond(reply) => {
            assert_eq!(reply.status, Status::Forbidden);
            assert_eq!(reply.body, b"push rejected: not yours\n".to_vec());
        }
        _ => panic!("the push is refused"),
    }
    assert!(matches!(receive_pack(true, None), PushStep::Respond(_)));
}

#[test]
fn only_a_moved_head_is_indexed() {
    let a = "a".repeat(40);
    let b = "b".repeat(40);
    assert_eq!(
        receive_pack_moved(true, Some(a.clone()), Some(b.clone())),
        Some((a.clone(), b.clone()))
    );
    assert_eq!(receive_pack_moved(true, Some(a.clone()), Some(a.clone())), None);
    assert_eq!(receive_pack_moved(false, Some(a.clone()), Some(b.clone())), None);
    assert_eq!(receive_pack_moved(true, Some(a), None), None);
    assert_eq!(current_head(false, ""), "0".repeat(40));
    assert_eq!(current_head(true, &format!("{b}\n")), b);
}

#[test]
fn push_reply_tells_of_a_refused_version() {
    let ok = receive_pack_reply(Some(b"out".to_vec()), Ok(()));
    assert_eq!(ok.status, Status::Success);
    assert_eq!(ok.body, b"out".to_vec());
    let refused = receive_pack_reply(Some(b"out".to_vec()), Err("semver violation: x".to_string()));
    assert_eq!(refused.status, Status::Forbidden);
    assert_eq!(refused.body, b"push rejected: semver violation: x\n".to_vec());
    let failed = receive_pack_reply(None, Ok(()));
    assert_eq!(failed.status, Status::InternalServerError);
}

#[test]
fn names_cannot_leave_the_root() {
    assert!(validate_name("alice").is_ok());
    assert!(validate_name("a/b").is_ok());
    for bad in ["", "/etc", ".git", "../x", "a/../b", "a/.."] {
        assert!(validate_name(bad).is_err(), "{bad}");
        assert!(bare_repo_path("alice", bad).is_err());
        assert!(bare_repo_path(bad, "repo").is_err());
    }
    assert_eq!(bare_repo_path("alice", "repo").unwrap(), "alice/repo.git");
    assert_eq!(temp_repo_name("alice", "repo", 7), ".tmp-alice-repo-7");
    let (status, message) = RepoError::InvalidPath.into_response();
    assert_eq!((status, message.as_str()), (Status::BadRequest, "invalid owner or repo name"));
    let (status, message) = RepoError::InitFailed("disk full".to_string()).into_response();
    assert_eq!(status, Status::InternalServerError);
    assert_eq!(message, "");
}
