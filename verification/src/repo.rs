//! Where repositories live below the repository root.

use vstd::prelude::*;
use vstd::string::*;
use crate::status::Status;
use crate::text::{
    chars_of, lemma_split_extended, lemma_split_joined, same_text, split, split_chars, texts, u64_text,
};

verus! {

/// Error type for repo operations.
#[derive(Debug)]
pub enum RepoError {
    InvalidPath,
    InitFailed(String),
}

/// The status and the text with which an error is answered.
pub open spec fn error_answer(e: RepoError) -> (Status, Seq<char>) {
    match e {
        RepoError::InvalidPath => (Status::BadRequest, "invalid owner or repo name"@),
        RepoError::InitFailed(_) => (Status::InternalServerError, ""@),
    }
}

impl RepoError {
    /// The status and the text of the answer. Why a repository could not be created is not told.
    pub fn into_response(self) -> (r: (Status, String))
        ensures
            (r.0, r.1@) == error_answer(self),
    {
        match self {
            RepoError::InvalidPath => (
                Status::BadRequest,
                String::from_str("invalid owner or repo name"),
            ),
            RepoError::InitFailed(_) => (Status::InternalServerError, String::from_str("")),
        }
    }
}

/// A name that can stand in a path below the root: not empty, not absolute, not hidden, and never
/// on the way up.
pub open spec fn is_safe_name(name: Seq<char>) -> bool {
    &&& name.len() > 0
    &&& name[0] != '/'
    &&& name[0] != '.'
    &&& !split(name, '/').contains(seq!['.', '.'])
}

/// Reject names that could escape the repo root via path traversal.
pub fn validate_name(name: &str) -> (r: Result<(), RepoError>)
    ensures
        match r {
            Ok(_) => is_safe_name(name@),
            Err(e) => !is_safe_name(name@) && e is InvalidPath,
        },
{
    let chars = chars_of(name);
    if chars.len() == 0 || chars[0] == '/' || chars[0] == '.' {
        return Err(RepoError::InvalidPath);
    }
    let parts = split_chars(chars.as_slice(), '/');
    let ghost p = texts(parts@);
    let mut i: usize = 0;
    while i < parts.len()
        invariant
            i <= parts@.len(),
            p == texts(parts@),
            p == split(name@, '/'),
            forall|j: int| 0 <= j < i ==> p[j] != seq!['.', '.'],
        decreases parts@.len() - i,
    {
        if same_text(parts[i].as_str(), "..") {
            proof {
                reveal_strlit("..");
                assert(p[i as int] =~= seq!['.', '.']);
                assert(p.contains(seq!['.', '.']));
            }
            return Err(RepoError::InvalidPath);
        }
        proof {
            reveal_strlit("..");
            assert(".."@ =~= seq!['.', '.']);
        }
        i += 1;
    }
    Ok(())
}

/// The path of a bare repository, from the root.
pub open spec fn bare_repo_path_of(owner: Seq<char>, repo: Seq<char>) -> Seq<char> {
    owner + "/"@ + repo + ".git"@
}

/// Where the bare repository of `owner` and `repo` lives, from the root.
///
/// Owner and repo names are validated to prevent path traversal.
pub fn bare_repo_path(owner: &str, repo: &str) -> (r: Result<String, RepoError>)
    ensures
        match r {
            Ok(p) => is_safe_name(owner@) && is_safe_name(repo@) && p@ == bare_repo_path_of(
                owner@,
                repo@,
            ),
            Err(e) => !(is_safe_name(owner@) && is_safe_name(repo@)) && e is InvalidPath,
        },
{
    match validate_name(owner) {
        Ok(_) => {},
        Err(e) => {
            return Err(e);
        },
    }
    match validate_name(repo) {
        Ok(_) => {},
        Err(e) => {
            return Err(e);
        },
    }
    let mut p = String::from_str(owner);
    p.append("/");
    p.append(repo);
    p.append(".git");
    Ok(p)
}

/// The directory in which a repository is prepared before it is moved into place.
pub fn temp_repo_name(owner: &str, repo: &str, process: u32) -> (r: String)
    ensures
        r@ == ".tmp-"@ + owner@ + "-"@ + repo@ + "-"@ + crate::text::dec(process as nat),
{
    let mut p = String::from_str(".tmp-");
    p.append(owner);
    p.append("-");
    p.append(repo);
    p.append("-");
    p.append(u64_text(process as u64).as_str());
    p
}

// ---------------------------------------------------------------------------
// Names stay below the root
// ---------------------------------------------------------------------------

/// Where one arrives from the directory `at` by following the parts of a relative path. From the
/// top there is no way further up.
pub open spec fn follow(at: Seq<Seq<char>>, parts: Seq<Seq<char>>) -> Seq<Seq<char>>
    decreases parts.len(),
{
    if parts.len() == 0 {
        at
    } else if parts[0] == Seq::<char>::empty() || parts[0] == seq!['.'] {
        follow(at, parts.skip(1))
    } else if parts[0] == seq!['.', '.'] {
        follow(
            if at.len() > 0 {
                at.drop_last()
            } else {
                at
            },
            parts.skip(1),
        )
    } else {
        follow(at.push(parts[0]), parts.skip(1))
    }
}

proof fn lemma_follow_down(at: Seq<Seq<char>>, parts: Seq<Seq<char>>)
    requires
        !parts.contains(seq!['.', '.']),
    ensures
        follow(at, parts).len() >= at.len(),
        follow(at, parts).take(at.len() as int) == at,
    decreases parts.len(),
{
    if parts.len() == 0 {
        assert(at.take(at.len() as int) =~= at);
    } else {
        assert(parts.contains(parts[0]));
        assert(!parts.skip(1).contains(seq!['.', '.'])) by {
            if parts.skip(1).contains(seq!['.', '.']) {
                let j = choose|j: int|
                    0 <= j < parts.skip(1).len() && parts.skip(1)[j] == seq!['.', '.'];
                assert(parts[j + 1] == seq!['.', '.']);
            }
        }
        if parts[0] == Seq::<char>::empty() || parts[0] == seq!['.'] {
            lemma_follow_down(at, parts.skip(1));
        } else {
            let next = at.push(parts[0]);
            lemma_follow_down(next, parts.skip(1));
            assert(follow(at, parts).take(at.len() as int) =~= follow(at, parts).take(
                next.len() as int,
            ).take(at.len() as int));
            assert(next.take(at.len() as int) =~= at);
        }
    }
}

/// A name that passed validation is a relative path that never leads out of the directory from
/// which it is followed.
pub proof fn law_safe_name_stays_below(root: Seq<Seq<char>>, name: Seq<char>)
    requires
        is_safe_name(name),
    ensures
        name[0] != '/',
        follow(root, split(name, '/')).len() >= root.len(),
        follow(root, split(name, '/')).take(root.len() as int) == root,
{
    lemma_follow_down(root, split(name, '/'));
}

/// The path of a bare repository never leads out of the root either.
pub proof fn law_repo_stays_below_root(root: Seq<Seq<char>>, owner: Seq<char>, repo: Seq<char>)
    requires
        is_safe_name(owner),
        is_safe_name(repo),
    ensures
        bare_repo_path_of(owner, repo)[0] != '/',
        follow(root, split(bare_repo_path_of(owner, repo), '/')).len() >= root.len(),
        follow(root, split(bare_repo_path_of(owner, repo), '/')).take(root.len() as int) == root,
{
    let dir = repo + ".git"@;
    let up = seq!['.', '.'];
    reveal_strlit("/");
    reveal_strlit(".git");
    assert("/"@ =~= seq!['/']);
    assert(bare_repo_path_of(owner, repo) =~= owner + seq!['/'] + dir);
    lemma_split_joined(owner, dir, '/');
    lemma_split_extended(repo, ".git"@, '/');
    let a = split(owner, '/');
    let b = split(dir, '/');
    assert(!(a + b).contains(up)) by {
        if (a + b).contains(up) {
            let j = choose|j: int| 0 <= j < (a + b).len() && (a + b)[j] == up;
            if j < a.len() {
                assert(a[j] == up);
            } else {
                let k = j - a.len();
                assert(b[k] == up);
                if k < b.len() - 1 {
                    assert(split(repo, '/')[k] == up);
                } else {
                    assert(b[k].len() >= 4);
                }
            }
        }
    }
    lemma_follow_down(root, a + b);
}

/// A name is unsafe where it is empty, begins with a slash or a dot, or has a part that leads up; and
/// a name without slashes that begins otherwise is safe.
pub proof fn law_names_that_lead_away_are_unsafe(
    name: Seq<char>,
    before: Seq<char>,
    after: Seq<char>,
    plain: Seq<char>,
)
    requires
        plain.len() > 0,
        plain[0] != '.',
        !plain.contains('/'),
    ensures
        !is_safe_name(seq![]),
        !is_safe_name(seq!['/'] + name),
        !is_safe_name(seq!['.'] + name),
        !is_safe_name(before + seq!['/'] + (seq!['.', '.'] + seq!['/'] + after)),
        is_safe_name(plain),
{
    assert((seq!['/'] + name)[0] == '/');
    assert((seq!['.'] + name)[0] == '.');
    let up = seq!['.', '.'];
    let tail = up + seq!['/'] + after;
    crate::text::lemma_split_joined(before, tail, '/');
    crate::text::lemma_split_joined(up, after, '/');
    crate::text::lemma_first_index(up, '/', 2);
    assert(split(up, '/') =~= seq![up]);
    let parts = split(before + seq!['/'] + tail, '/');
    let k = split(before, '/').len() as int;
    assert(parts[k] == up);
    assert(parts.contains(up));
    assert(up == seq!['.', '.']);
    assert forall|j: int| 0 <= j < plain.len() implies plain[j] != '/' by {
        assert(plain.contains(plain[j]));
    }
    crate::text::lemma_first_index(plain, '/', plain.len() as int);
    assert(split(plain, '/') =~= seq![plain]);
    if split(plain, '/').contains(seq!['.', '.']) {
        let j = choose|j: int| 0 <= j < 1 && split(plain, '/')[j] == seq!['.', '.'];
        assert(plain[0] == '.');
    }
}

/// A repository lies below its owner, under its own name: two that differ in owner or name, where
/// owners have no slash in them, lie in different places.
pub proof fn law_repositories_lie_apart(
    owner: Seq<char>,
    repo: Seq<char>,
    other_owner: Seq<char>,
    other_repo: Seq<char>,
)
    requires
        !owner.contains('/'),
        !other_owner.contains('/'),
    ensures
        bare_repo_path_of(owner, repo) == bare_repo_path_of(other_owner, other_repo) ==> owner
            == other_owner && repo == other_repo,
        crate::text::has_prefix(bare_repo_path_of(owner, repo), owner + "/"@ + repo),
        crate::text::has_suffix(bare_repo_path_of(owner, repo), ".git"@),
{
    reveal_strlit("/");
    let a = bare_repo_path_of(owner, repo);
    let b = bare_repo_path_of(other_owner, other_repo);
    assert(a.take((owner + "/"@ + repo).len() as int) =~= owner + "/"@ + repo);
    assert(a.skip(a.len() - ".git"@.len()) =~= ".git"@);
    lemma_owner_ends(owner, repo);
    lemma_owner_ends(other_owner, other_repo);
    if a == b {
        assert(owner =~= a.take(owner.len() as int));
        assert(other_owner =~= b.take(owner.len() as int));
        assert(repo =~= a.subrange(owner.len() as int + 1, a.len() - ".git"@.len()));
        assert(other_repo =~= b.subrange(owner.len() as int + 1, b.len() - ".git"@.len()));
    }
}

proof fn lemma_owner_ends(owner: Seq<char>, repo: Seq<char>)
    requires
        !owner.contains('/'),
    ensures
        crate::text::first_index(bare_repo_path_of(owner, repo), '/') == owner.len(),
{
    reveal_strlit("/");
    let a = bare_repo_path_of(owner, repo);
    assert forall|j: int| 0 <= j < owner.len() implies a[j] != '/' by {
        assert(a[j] == owner[j]);
        assert(owner.contains(owner[j]));
    }
    assert(a[owner.len() as int] == '/');
    crate::text::lemma_first_index(a, '/', owner.len() as int);
}

/// A name that cannot be used is a bad request and the caller is told so; why a repository could not be
/// created is not told.
pub proof fn law_errors_tell_no_more_than_they_should(reason: String)
    ensures
        error_answer(RepoError::InvalidPath) == (
            Status::BadRequest,
            "invalid owner or repo name"@,
        ),
        error_answer(RepoError::InitFailed(reason)).0 == Status::InternalServerError,
        error_answer(RepoError::InitFailed(reason)).1.len() == 0,
{
    reveal_strlit("");
}

} // verus!
