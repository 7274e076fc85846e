//! Which instance handles a request.

use vstd::prelude::*;
use vstd::string::*;
use crate::text::{has_prefix, opt_str, opt_text, same_text, text_starts_with};

verus! {

/// A method that changes nothing.
pub open spec fn is_read(method: Seq<char>) -> bool {
    method == "GET"@ || method == "HEAD"@ || method == "OPTIONS"@
}

/// The paths of login and logout, which set cookies.
pub open spec fn is_login(path: Seq<char>) -> bool {
    has_prefix(path, "/auth/"@) || has_prefix(path, "/login/"@) || path == "/logout"@
}

/// Where a request is to be replayed, where it is.
pub open spec fn replay_target(
    is_primary: bool,
    method: Seq<char>,
    path: Seq<char>,
    primary_machine_id: Option<Seq<char>>,
) -> Option<Seq<char>> {
    if is_primary || is_read(method) || is_login(path) {
        None
    } else {
        match primary_machine_id {
            Some(id) => Some("instance="@ + id),
            None => Some("region=sjc"@),
        }
    }
}

/// Where a request is to be replayed.
///
/// On non-primary instances, mutating requests (POST, PUT, PATCH, DELETE)
/// are not executed. Instead, they are answered with a conflict and a
/// `fly-replay` header that tells Fly's proxy to replay the request on the
/// primary machine.
///
/// Read-only requests (GET, HEAD, OPTIONS) are always served locally.
pub fn replay_writes_to_primary(
    is_primary: bool,
    method: &str,
    path: &str,
    primary_machine_id: Option<&str>,
) -> (r: Option<String>)
    ensures
        opt_text(r) == replay_target(is_primary, method@, path@, opt_str(primary_machine_id)),
{
    if is_primary {
        return None;
    }
    if same_text(method, "GET") || same_text(method, "HEAD") || same_text(method, "OPTIONS") {
        return None;
    }
    if text_starts_with(path, "/auth/") || text_starts_with(path, "/login/") || same_text(
        path,
        "/logout",
    ) {
        return None;
    }
    match primary_machine_id {
        Some(id) => {
            let mut s = String::from_str("instance=");
            s.append(id);
            Some(s)
        },
        None => Some(String::from_str("region=sjc")),
    }
}

/// The primary handles everything itself, and every instance serves reads and logins itself;
/// everything else is replayed, so that only the primary ever writes.
pub proof fn law_only_primary_writes(
    is_primary: bool,
    method: Seq<char>,
    path: Seq<char>,
    machine: Option<Seq<char>>,
)
    ensures
        replay_target(is_primary, method, path, machine) is None <==> is_primary || is_read(method)
            || is_login(path),
{
}

/// What reads is served where it arrives, and what writes is not: the methods that write are none of
/// those that read, and a request with one of them goes to the primary machine, by its name where
/// that is known and to its region otherwise, unless it belongs to logging in or out.
pub proof fn law_writes_go_to_the_primary_machine(path: Seq<char>, id: Seq<char>, rest: Seq<char>)
    ensures
        is_read("GET"@) && is_read("HEAD"@) && is_read("OPTIONS"@),
        !is_read("POST"@) && !is_read("PUT"@) && !is_read("PATCH"@) && !is_read("DELETE"@),
        !is_login(path) ==> replay_target(false, "POST"@, path, Some(id)) == Some("instance="@ + id)
            && replay_target(false, "PUT"@, path, Some(id)) == Some("instance="@ + id)
            && replay_target(false, "PATCH"@, path, Some(id)) == Some("instance="@ + id)
            && replay_target(false, "DELETE"@, path, Some(id)) == Some("instance="@ + id)
            && replay_target(false, "POST"@, path, None) == Some("region=sjc"@),
        is_login("/auth/"@ + rest) && is_login("/login/"@ + rest) && is_login("/logout"@),
        !is_login("/api/"@ + rest) && !is_login("/git/"@ + rest),
{
    reveal_strlit("GET");
    reveal_strlit("HEAD");
    reveal_strlit("OPTIONS");
    reveal_strlit("POST");
    reveal_strlit("PUT");
    reveal_strlit("PATCH");
    reveal_strlit("DELETE");
    assert("POST"@[0] != "HEAD"@[0]);
    assert("PUT"@[0] != "GET"@[0]);
    assert("GET"@.len() == 3 && "HEAD"@.len() == 4 && "OPTIONS"@.len() == 7 && "POST"@.len() == 4
        && "PUT"@.len() == 3 && "PATCH"@.len() == 5 && "DELETE"@.len() == 6);
    reveal_strlit("/auth/");
    reveal_strlit("/login/");
    reveal_strlit("/logout");
    reveal_strlit("/api/");
    reveal_strlit("/git/");
    let a = "/auth/"@ + rest;
    assert(a.take(6) =~= "/auth/"@);
    let l = "/login/"@ + rest;
    assert(l.take(7) =~= "/login/"@);
    let api = "/api/"@ + rest;
    let git = "/git/"@ + rest;
    assert(api[2] == 'p' && git[1] == 'g' && api[1] == 'a');
    if has_prefix(api, "/auth/"@) {
        assert(api.take(6)[2] == "/auth/"@[2]);
    }
    if has_prefix(api, "/login/"@) {
        assert(api.take(7)[1] == "/login/"@[1]);
    }
    if has_prefix(git, "/auth/"@) {
        assert(git.take(6)[1] == "/auth/"@[1]);
    }
    if has_prefix(git, "/login/"@) {
        assert(git.take(7)[1] == "/login/"@[1]);
    }
    assert("/logout"@[1] == 'l');
}

} // verus!
