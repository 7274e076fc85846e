//! What a push changes in the index.
//!
//! After a git push completes, function signatures are extracted from the changed files and stored
//! with embeddings. If an `agentcoderepo.toml` manifest is present, semver validation is enforced:
//! breaking changes require a major bump.

use sha2::Digest;
use vstd::prelude::*;
use vstd::string::*;
use vstd::utf8::encode_utf8;
use crate::git::zero_sha;
use crate::index_git::{file_views, ChangedFile, ChangedFileView, FileStatus};
use crate::table::Table;
use crate::text::{
    chars_of, find_char, first_index, has_prefix, head, hex, hex_text, last_index, lemma_hex_digits,
    opt_str, rfind_char, same_text, string_of, strip_prefix, tail, texts,
};

verus! {

// ---------------------------------------------------------------------------
// Languages
// ---------------------------------------------------------------------------

/// The language that a file extension stands for, or nothing.
pub open spec fn extension_language(ext: Seq<char>) -> Seq<char> {
    if ext == "rs"@ {
        "rust"@
    } else if ext == "py"@ {
        "python"@
    } else if ext == "js"@ || ext == "mjs"@ || ext == "cjs"@ {
        "javascript"@
    } else if ext == "ts"@ || ext == "mts"@ || ext == "cts"@ {
        "typescript"@
    } else if ext == "go"@ {
        "go"@
    } else if ext == "java"@ {
        "java"@
    } else if ext == "kt"@ || ext == "kts"@ {
        "kotlin"@
    } else if ext == "swift"@ {
        "swift"@
    } else if ext == "c"@ {
        "c"@
    } else if ext == "cpp"@ || ext == "cc"@ || ext == "cxx"@ {
        "cpp"@
    } else if ext == "hs"@ {
        "haskell"@
    } else if ext == "ml"@ || ext == "mli"@ {
        "ocaml"@
    } else if ext == "ex"@ || ext == "exs"@ {
        "elixir"@
    } else if ext == "rb"@ {
        "ruby"@
    } else if ext == "scala"@ {
        "scala"@
    } else if ext == "zig"@ {
        "zig"@
    } else if ext == "lua"@ {
        "lua"@
    } else {
        ""@
    }
}

/// The language of a file: the directory below `impl/` that it lies in, or else by its extension. A
/// path without a dot counts as an extension as a whole.
pub open spec fn language_of(path: Seq<char>) -> Seq<char> {
    let rest = path.skip("impl/"@.len() as int);
    let end = first_index(rest, '/');
    if has_prefix(path, "impl/"@) && 0 < end < rest.len() {
        rest.take(end)
    } else {
        extension_language(path.skip(last_index(path, '.') + 1))
    }
}

fn language_of_extension(ext: &str) -> (r: &'static str)
    ensures
        r@ == extension_language(ext@),
{
    if same_text(ext, "rs") {
        "rust"
    } else if same_text(ext, "py") {
        "python"
    } else if same_text(ext, "js") || same_text(ext, "mjs") || same_text(ext, "cjs") {
        "javascript"
    } else if same_text(ext, "ts") || same_text(ext, "mts") || same_text(ext, "cts") {
        "typescript"
    } else if same_text(ext, "go") {
        "go"
    } else if same_text(ext, "java") {
        "java"
    } else if same_text(ext, "kt") || same_text(ext, "kts") {
        "kotlin"
    } else if same_text(ext, "swift") {
        "swift"
    } else if same_text(ext, "c") {
        "c"
    } else if same_text(ext, "cpp") || same_text(ext, "cc") || same_text(ext, "cxx") {
        "cpp"
    } else if same_text(ext, "hs") {
        "haskell"
    } else if same_text(ext, "ml") || same_text(ext, "mli") {
        "ocaml"
    } else if same_text(ext, "ex") || same_text(ext, "exs") {
        "elixir"
    } else if same_text(ext, "rb") {
        "ruby"
    } else if same_text(ext, "scala") {
        "scala"
    } else if same_text(ext, "zig") {
        "zig"
    } else if same_text(ext, "lua") {
        "lua"
    } else {
        ""
    }
}

/// Detect the implementation language from a file path.
///
/// Supports two conventions:
/// 1. `impl/{language}/...` directory structure (preferred)
/// 2. File extension fallback (`.rs` → "rust", `.py` → "python", etc.)
pub fn detect_language(path: &str) -> (r: String)
    ensures
        r@ == language_of(path@),
{
    let chars = chars_of(path);
    match strip_prefix(chars.as_slice(), "impl/") {
        Some(rest) => {
            let end: usize = find_char(rest, '/');
            if 0 < end && end < rest.len() {
                return string_of(head(rest, end));
            }
        },
        None => {},
    }
    assert(chars.len() <= usize::MAX);
    let from: usize = match rfind_char(chars.as_slice(), '.') {
        Some(i) => i + 1,
        None => 0,
    };
    let ext = string_of(tail(chars.as_slice(), from));
    String::from_str(language_of_extension(ext.as_str()))
}

// ---------------------------------------------------------------------------
// Hashes
// ---------------------------------------------------------------------------

/// The SHA-256 digest of some bytes.
pub uninterp spec fn sha256(data: Seq<u8>) -> Seq<u8>;

/// `Sha256::digest` of the crate `sha2`: the digest of the bytes, which are 32 bytes.
#[verifier::external_body]
fn sha256_digest(data: &[u8]) -> (r: Vec<u8>)
    ensures
        r@ == sha256(data@),
        r@.len() == 32,
{
    sha2::Sha256::digest(data).to_vec()
}

/// The SHA-256 digest of a text: 64 lower-case hexadecimal digits.
pub fn hex_sha256(input: &str) -> (r: String)
    ensures
        r@ == hex(sha256(encode_utf8(input@))),
        r@.len() == 64,
{
    let digest = sha256_digest(input.as_bytes());
    proof {
        lemma_hex_digits(digest@);
    }
    hex_text(digest.as_slice())
}

// ---------------------------------------------------------------------------
// Signatures in the index
// ---------------------------------------------------------------------------

/// A signature as it was extracted from a file, with its type in the forms that are stored.
#[derive(Debug)]
pub struct ExtractedSig {
    pub name: String,
    pub type_text: String,
    pub type_normalized: String,
    pub type_json: String,
    pub description: String,
}

/// A row of the signature table.
#[derive(Debug)]
pub struct SignatureRow {
    pub id: String,
    pub repo_id: String,
    pub file_path: String,
    pub language: String,
    pub function_name: String,
    pub type_signature: String,
    pub type_normalized: String,
    pub type_json: String,
    pub description: String,
    pub commit_sha: String,
}

/// What a row of the signature table says.
#[verifier::ext_equal]
pub struct SignatureRowView {
    pub id: Seq<char>,
    pub repo_id: Seq<char>,
    pub file_path: Seq<char>,
    pub language: Seq<char>,
    pub function_name: Seq<char>,
    pub type_signature: Seq<char>,
    pub type_normalized: Seq<char>,
    pub type_json: Seq<char>,
    pub description: Seq<char>,
    pub commit_sha: Seq<char>,
}

impl View for SignatureRow {
    type V = SignatureRowView;

    open spec fn view(&self) -> SignatureRowView {
        SignatureRowView {
            id: self.id@,
            repo_id: self.repo_id@,
            file_path: self.file_path@,
            language: self.language@,
            function_name: self.function_name@,
            type_signature: self.type_signature@,
            type_normalized: self.type_normalized@,
            type_json: self.type_json@,
            description: self.description@,
            commit_sha: self.commit_sha@,
        }
    }
}

/// A change of the index.
#[derive(Debug)]
pub enum IndexWrite {
    /// Remove the signatures of a file.
    DeleteSignatures { repo_id: String, file_path: String },
    InsertSignature(SignatureRow),
    /// Note the commit and the version up to which a repository is indexed.
    SetState { repo_id: String, commit: String, version: String },
}

/// What a change of the index says.
pub enum IndexWriteView {
    DeleteSignatures { repo_id: Seq<char>, file_path: Seq<char> },
    InsertSignature(SignatureRowView),
    SetState { repo_id: Seq<char>, commit: Seq<char>, version: Seq<char> },
}

impl View for IndexWrite {
    type V = IndexWriteView;

    open spec fn view(&self) -> IndexWriteView {
        match self {
            IndexWrite::DeleteSignatures { repo_id, file_path } => IndexWriteView::DeleteSignatures {
                repo_id: repo_id@,
                file_path: file_path@,
            },
            IndexWrite::InsertSignature(row) => IndexWriteView::InsertSignature(row@),
            IndexWrite::SetState { repo_id, commit, version } => IndexWriteView::SetState {
                repo_id: repo_id@,
                commit: commit@,
                version: version@,
            },
        }
    }
}

pub open spec fn write_views(v: Seq<IndexWrite>) -> Seq<IndexWriteView> {
    v.map_values(|w: IndexWrite| w@)
}

/// The row that stores a signature.
pub open spec fn row_of(
    repo_id: Seq<char>,
    path: Seq<char>,
    commit: Seq<char>,
    sig: ExtractedSig,
    id: Seq<char>,
) -> SignatureRowView {
    SignatureRowView {
        id,
        repo_id,
        file_path: path,
        language: language_of(path),
        function_name: sig.name@,
        type_signature: sig.type_text@,
        type_normalized: sig.type_normalized@,
        type_json: sig.type_json@,
        description: sig.description@,
        commit_sha: commit,
    }
}

/// The rows that store the signatures of a file.
pub open spec fn rows_of(
    repo_id: Seq<char>,
    path: Seq<char>,
    commit: Seq<char>,
    sigs: Seq<ExtractedSig>,
    ids: Seq<Seq<char>>,
) -> Seq<SignatureRowView> {
    Seq::new(sigs.len(), |i: int| row_of(repo_id, path, commit, sigs[i], ids[i]))
}

pub open spec fn inserts(rows: Seq<SignatureRowView>) -> Seq<IndexWriteView> {
    rows.map_values(|r: SignatureRowView| IndexWriteView::InsertSignature(r))
}

/// The files of a list that have the given status.
pub open spec fn paths_with(files: Seq<ChangedFileView>, status: FileStatus) -> Seq<Seq<char>>
    decreases files.len(),
{
    if files.len() == 0 {
        seq![]
    } else if files.last().status == status {
        paths_with(files.drop_last(), status).push(files.last().path)
    } else {
        paths_with(files.drop_last(), status)
    }
}

/// The files of a list that were not deleted.
pub open spec fn paths_left(files: Seq<ChangedFileView>) -> Seq<Seq<char>>
    decreases files.len(),
{
    if files.len() == 0 {
        seq![]
    } else if files.last().status != FileStatus::Deleted {
        paths_left(files.drop_last()).push(files.last().path)
    } else {
        paths_left(files.drop_last())
    }
}

/// The changes that remove the signatures of the given files.
pub open spec fn removals(repo_id: Seq<char>, paths: Seq<Seq<char>>) -> Seq<IndexWriteView> {
    paths.map_values(
        |p: Seq<char>| IndexWriteView::DeleteSignatures { repo_id, file_path: p },
    )
}

/// Remove the signatures of the files that a push deleted.
pub fn deletions(repo_id: &str, changed: &Vec<ChangedFile>) -> (r: Vec<IndexWrite>)
    ensures
        write_views(r@) == removals(
            repo_id@,
            paths_with(file_views(changed@), FileStatus::Deleted),
        ),
{
    let ghost files = file_views(changed@);
    let mut out: Vec<IndexWrite> = Vec::new();
    let mut i: usize = 0;
    proof {
        assert(files.take(0) =~= seq![]);
        assert(write_views(out@) =~= removals(repo_id@, seq![]));
    }
    while i < changed.len()
        invariant
            i <= changed@.len(),
            files == file_views(changed@),
            write_views(out@) == removals(
                repo_id@,
                paths_with(files.take(i as int), FileStatus::Deleted),
            ),
        decreases changed@.len() - i,
    {
        let ghost before = out@;
        let ghost paths = paths_with(files.take(i as int), FileStatus::Deleted);
        proof {
            assert(files.take(i as int + 1).drop_last() =~= files.take(i as int));
        }
        if changed[i].status == FileStatus::Deleted {
            out.push(
                IndexWrite::DeleteSignatures {
                    repo_id: String::from_str(repo_id),
                    file_path: changed[i].path.clone(),
                },
            );
            proof {
                let path = files[i as int].path;
                assert(write_views(out@) =~= write_views(before).push(out@.last()@));
                assert(removals(repo_id@, paths.push(path)) =~= removals(repo_id@, paths).push(
                    out@.last()@,
                ));
            }
        }
        i += 1;
    }
    proof {
        assert(files.take(i as int) =~= files);
    }
    out
}

/// The files of a push that are to be read and indexed.
pub fn indexable(changed: &Vec<ChangedFile>) -> (r: Vec<String>)
    ensures
        texts(r@) == paths_left(file_views(changed@)),
{
    let ghost files = file_views(changed@);
    let mut out: Vec<String> = Vec::new();
    let mut i: usize = 0;
    proof {
        assert(files.take(0) =~= seq![]);
        assert(texts(out@) =~= seq![]);
    }
    while i < changed.len()
        invariant
            i <= changed@.len(),
            files == file_views(changed@),
            texts(out@) == paths_left(files.take(i as int)),
        decreases changed@.len() - i,
    {
        let ghost before = out@;
        proof {
            assert(files.take(i as int + 1).drop_last() =~= files.take(i as int));
        }
        if changed[i].status != FileStatus::Deleted {
            out.push(changed[i].path.clone());
            proof {
                assert(texts(out@) =~= texts(before).push(out@.last()@));
            }
        }
        i += 1;
    }
    proof {
        assert(files.take(i as int) =~= files);
    }
    out
}

/// Whether signatures are to be extracted from a file: it could be read, and is neither empty nor
/// binary.
pub fn is_source(content: Option<&str>) -> (r: bool)
    ensures
        r == (content matches Some(s) && s@.len() > 0 && !s@.contains('\0')),
{
    match content {
        Some(s) => {
            let chars = chars_of(s);
            let i = find_char(chars.as_slice(), '\0');
            proof {
                crate::text::lemma_first_index_props(s@, '\0');
                if s@.contains('\0') {
                    let j = choose|j: int| 0 <= j < s@.len() && s@[j] == '\0';
                    assert(!(j < i));
                } else if i < s@.len() {
                    assert(s@[i as int] == '\0');
                }
            }
            chars.len() > 0 && i == chars.len()
        },
        None => false,
    }
}

/// The changes that put the given signatures of a file in place of those that it had. They remove
/// the old ones even where there are no new ones.
pub fn replace_signatures(
    repo_id: &str,
    path: &str,
    commit: &str,
    sigs: &Vec<ExtractedSig>,
    ids: &Vec<String>,
) -> (r: Vec<IndexWrite>)
    requires
        ids@.len() == sigs@.len(),
    ensures
        write_views(r@) == removals(repo_id@, seq![path@]) + inserts(
            rows_of(repo_id@, path@, commit@, sigs@, texts(ids@)),
        ),
{
    let language = detect_language(path);
    let mut out: Vec<IndexWrite> = Vec::new();
    out.push(
        IndexWrite::DeleteSignatures {
            repo_id: String::from_str(repo_id),
            file_path: String::from_str(path),
        },
    );
    let ghost rows = rows_of(repo_id@, path@, commit@, sigs@, texts(ids@));
    let ghost start = removals(repo_id@, seq![path@]);
    let mut i: usize = 0;
    proof {
        assert(write_views(out@) =~= start + inserts(rows.take(0)));
    }
    while i < sigs.len()
        invariant
            i <= sigs@.len(),
            ids@.len() == sigs@.len(),
            language@ == language_of(path@),
            rows == rows_of(repo_id@, path@, commit@, sigs@, texts(ids@)),
            start == removals(repo_id@, seq![path@]),
            write_views(out@) == start + inserts(rows.take(i as int)),
        decreases sigs@.len() - i,
    {
        let ghost before = out@;
        let sig = &sigs[i];
        out.push(
            IndexWrite::InsertSignature(
                SignatureRow {
                    id: ids[i].clone(),
                    repo_id: String::from_str(repo_id),
                    file_path: String::from_str(path),
                    language: language.clone(),
                    function_name: sig.name.clone(),
                    type_signature: sig.type_text.clone(),
                    type_normalized: sig.type_normalized.clone(),
                    type_json: sig.type_json.clone(),
                    description: sig.description.clone(),
                    commit_sha: String::from_str(commit),
                },
            ),
        );
        proof {
            assert(write_views(out@) =~= write_views(before).push(out@.last()@));
            assert(out@.last()@ == IndexWriteView::InsertSignature(rows[i as int]));
            assert(rows.take(i as int + 1) =~= rows.take(i as int).push(rows[i as int]));
            assert(write_views(out@) =~= start + inserts(rows.take(i as int + 1)));
        }
        i += 1;
    }
    proof {
        assert(rows.take(i as int) =~= rows);
    }
    out
}

/// The signatures of every file of every repository.
pub type SignatureTable = Map<(Seq<char>, Seq<char>), Seq<SignatureRowView>>;

/// The signatures of a file; a file that was never indexed has none.
pub open spec fn signatures_in(
    t: SignatureTable,
    repo_id: Seq<char>,
    path: Seq<char>,
) -> Seq<SignatureRowView> {
    if t.dom().contains((repo_id, path)) {
        t[(repo_id, path)]
    } else {
        seq![]
    }
}

/// What a change does to the signatures. The state of a repository is kept in a table of its own.
pub open spec fn apply_write(t: SignatureTable, w: IndexWriteView) -> SignatureTable {
    match w {
        IndexWriteView::DeleteSignatures { repo_id, file_path } => t.remove((repo_id, file_path)),
        IndexWriteView::InsertSignature(row) => t.insert(
            (row.repo_id, row.file_path),
            signatures_in(t, row.repo_id, row.file_path).push(row),
        ),
        IndexWriteView::SetState { .. } => t,
    }
}

/// What a list of changes does to the signatures, one after the other.
pub open spec fn apply_writes(t: SignatureTable, ws: Seq<IndexWriteView>) -> SignatureTable
    decreases ws.len(),
{
    if ws.len() == 0 {
        t
    } else {
        apply_write(apply_writes(t, ws.drop_last()), ws.last())
    }
}

/// How far a repository is indexed: the commit, and the version that its manifest stated there, which
/// is empty where there was no manifest.
#[verifier::ext_equal]
pub struct IndexState {
    pub commit: Seq<char>,
    pub version: Seq<char>,
}

/// The state of every repository that was indexed.
pub type StateTable = Map<Seq<char>, IndexState>;

/// What a change does to the states.
pub open spec fn apply_state(s: StateTable, w: IndexWriteView) -> StateTable {
    match w {
        IndexWriteView::SetState { repo_id, commit, version } => s.insert(
            repo_id,
            IndexState { commit, version },
        ),
        _ => s,
    }
}

/// What a list of changes does to the states, one after the other.
pub open spec fn apply_states(s: StateTable, ws: Seq<IndexWriteView>) -> StateTable
    decreases ws.len(),
{
    if ws.len() == 0 {
        s
    } else {
        apply_state(apply_states(s, ws.drop_last()), ws.last())
    }
}

/// Changes among which no state is set leave the states as they were.
pub proof fn lemma_states_stay(s: StateTable, ws: Seq<IndexWriteView>)
    requires
        forall|i: int| 0 <= i < ws.len() ==> !(#[trigger] ws[i] is SetState),
    ensures
        apply_states(s, ws) == s,
    decreases ws.len(),
{
    if ws.len() > 0 {
        assert(!(ws[ws.len() - 1] is SetState));
        assert forall|i: int| 0 <= i < ws.drop_last().len() implies !(
        #[trigger] ws.drop_last()[i] is SetState) by {
            assert(ws.drop_last()[i] == ws[i]);
        }
        lemma_states_stay(s, ws.drop_last());
    }
}

/// What is written for the files of a push sets no state.
pub proof fn lemma_push_writes_set_no_state(
    repo_id: Seq<char>,
    commit: Seq<char>,
    files: Seq<FileOutcome>,
)
    ensures
        forall|i: int|
            0 <= i < push_writes(repo_id, commit, files).len() ==> !(#[trigger] push_writes(
                repo_id,
                commit,
                files,
            )[i] is SetState),
    decreases files.len(),
{
    if files.len() > 0 {
        let f = files.last();
        let earlier = push_writes(repo_id, commit, files.drop_last());
        let own = file_writes(repo_id, commit, f.path, f.content, f.sigs, f.ids);
        lemma_push_writes_set_no_state(repo_id, commit, files.drop_last());
        assert forall|i: int| 0 <= i < (earlier + own).len() implies !(
        #[trigger] (earlier + own)[i] is SetState) by {
            if i < earlier.len() {
                assert((earlier + own)[i] == earlier[i]);
            } else {
                assert((earlier + own)[i] == own[i - earlier.len()]);
            }
        }
    }
}

/// The signatures of a file after it was indexed are those that were extracted from it, whatever
/// it had before, and no other file's signatures change.
pub proof fn law_signatures_are_replaced(
    t: SignatureTable,
    repo_id: Seq<char>,
    path: Seq<char>,
    commit: Seq<char>,
    sigs: Seq<ExtractedSig>,
    ids: Seq<Seq<char>>,
)
    requires
        ids.len() == sigs.len(),
    ensures
        ({
            let rows = rows_of(repo_id, path, commit, sigs, ids);
            let after = apply_writes(t, removals(repo_id, seq![path]) + inserts(rows));
            &&& signatures_in(after, repo_id, path) == rows
            &&& forall|r: Seq<char>, p: Seq<char>|
                (r, p) != (repo_id, path) ==> #[trigger] signatures_in(after, r, p)
                    == signatures_in(t, r, p)
        }),
{
    let rows = rows_of(repo_id, path, commit, sigs, ids);
    let start = removals(repo_id, seq![path]);
    assert(start + inserts(rows.take(0)) =~= start);
    assert(start.drop_last() =~= seq![]);
    reveal_with_fuel(apply_writes, 2);
    lemma_inserts(t, repo_id, path, rows, rows.len() as int);
    assert(rows.take(rows.len() as int) =~= rows);
}

proof fn lemma_inserts(
    t: SignatureTable,
    repo_id: Seq<char>,
    path: Seq<char>,
    rows: Seq<SignatureRowView>,
    k: int,
)
    requires
        0 <= k <= rows.len(),
        forall|i: int|
            0 <= i < rows.len() ==> (#[trigger] rows[i]).repo_id == repo_id && rows[i].file_path
                == path,
    ensures
        ({
            let after = apply_writes(t, removals(repo_id, seq![path]) + inserts(rows.take(k)));
            &&& signatures_in(after, repo_id, path) == rows.take(k)
            &&& forall|r: Seq<char>, p: Seq<char>|
                (r, p) != (repo_id, path) ==> #[trigger] signatures_in(after, r, p)
                    == signatures_in(t, r, p)
        }),
    decreases k,
{
    let start = removals(repo_id, seq![path]);
    let ws = start + inserts(rows.take(k));
    if k == 0 {
        assert(ws =~= start);
        assert(start.drop_last() =~= seq![]);
        reveal_with_fuel(apply_writes, 2);
        assert(rows.take(0) =~= seq![]);
        assert(apply_writes(t, ws) == t.remove((repo_id, path)));
    } else {
        lemma_inserts(t, repo_id, path, rows, k - 1);
        assert(rows.take(k).drop_last() =~= rows.take(k - 1));
        assert(ws.drop_last() =~= start + inserts(rows.take(k - 1)));
        assert(ws.last() == IndexWriteView::InsertSignature(rows[k - 1]));
        assert(rows.take(k) =~= rows.take(k - 1).push(rows[k - 1]));
        let before = apply_writes(t, start + inserts(rows.take(k - 1)));
        let after = apply_writes(t, ws);
        assert(after == before.insert((repo_id, path), rows.take(k)));
        assert forall|r: Seq<char>, p: Seq<char>| (r, p) != (repo_id, path) implies #[trigger] signatures_in(after, r, p)
            == signatures_in(t, r, p) by {
            assert(signatures_in(before, r, p) == signatures_in(t, r, p));
        }
    }
}

/// Whether a file is indexed: it could be read and is neither empty nor binary, and its signatures
/// could be extracted.
pub open spec fn indexes(content: Option<Seq<char>>, sigs: Option<Seq<ExtractedSig>>) -> bool {
    content matches Some(s) && s.len() > 0 && !s.contains('\0') && sigs is Some
}

pub open spec fn opt_sigs(sigs: Option<&Vec<ExtractedSig>>) -> Option<Seq<ExtractedSig>> {
    match sigs {
        Some(v) => Some(v@),
        None => None,
    }
}

/// What is written for a file.
pub open spec fn file_writes(
    repo_id: Seq<char>,
    commit: Seq<char>,
    path: Seq<char>,
    content: Option<Seq<char>>,
    sigs: Option<Seq<ExtractedSig>>,
    ids: Seq<Seq<char>>,
) -> Seq<IndexWriteView> {
    if indexes(content, sigs) {
        removals(repo_id, seq![path]) + inserts(
            rows_of(repo_id, path, commit, sigs.unwrap(), ids),
        )
    } else {
        seq![]
    }
}

/// A file of a push, with what was read from it and extracted.
pub struct FileOutcome {
    pub path: Seq<char>,
    pub content: Option<Seq<char>>,
    pub sigs: Option<Seq<ExtractedSig>>,
    pub ids: Seq<Seq<char>>,
}

/// What is written for the files of a push, one after the other.
pub open spec fn push_writes(
    repo_id: Seq<char>,
    commit: Seq<char>,
    files: Seq<FileOutcome>,
) -> Seq<IndexWriteView>
    decreases files.len(),
{
    if files.len() == 0 {
        seq![]
    } else {
        let f = files.last();
        push_writes(repo_id, commit, files.drop_last()) + file_writes(
            repo_id,
            commit,
            f.path,
            f.content,
            f.sigs,
            f.ids,
        )
    }
}

proof fn lemma_writes_in_two_parts(
    t: SignatureTable,
    a: Seq<IndexWriteView>,
    b: Seq<IndexWriteView>,
)
    ensures
        apply_writes(t, a + b) == apply_writes(apply_writes(t, a), b),
    decreases b.len(),
{
    if b.len() == 0 {
        assert(a + b =~= a);
    } else {
        assert((a + b).drop_last() =~= a + b.drop_last());
        lemma_writes_in_two_parts(t, a, b.drop_last());
    }
}

/// After the files of a push were indexed, the index holds of each file exactly the signatures that
/// were extracted from it, or what it held before where the file was skipped; files that the push
/// does not touch keep theirs.
pub proof fn law_push_is_indexed(
    t: SignatureTable,
    repo_id: Seq<char>,
    commit: Seq<char>,
    files: Seq<FileOutcome>,
)
    requires
        forall|i: int, j: int|
            0 <= i < j < files.len() ==> (#[trigger] files[i]).path != (#[trigger] files[j]).path,
        forall|i: int|
            0 <= i < files.len() ==> ((#[trigger] files[i]).sigs matches Some(v)
                ==> files[i].ids.len() == v.len()),
    ensures
        ({
            let after = apply_writes(t, push_writes(repo_id, commit, files));
            &&& forall|i: int|
                0 <= i < files.len() ==> #[trigger] signatures_in(after, repo_id, files[i].path)
                    == (if indexes(files[i].content, files[i].sigs) {
                    rows_of(
                        repo_id,
                        files[i].path,
                        commit,
                        files[i].sigs.unwrap(),
                        files[i].ids,
                    )
                } else {
                    signatures_in(t, repo_id, files[i].path)
                })
            &&& forall|r: Seq<char>, p: Seq<char>|
                r != repo_id || !(exists|i: int|
                    0 <= i < files.len() && (#[trigger] files[i]).path == p)
                    ==> #[trigger] signatures_in(after, r, p) == signatures_in(t, r, p)
        }),
    decreases files.len(),
{
    if files.len() > 0 {
        let front = files.drop_last();
        let f = files.last();
        let last = files.len() - 1;
        assert forall|i: int, j: int| 0 <= i < j < front.len() implies (#[trigger] front[i]).path
            != (#[trigger] front[j]).path by {
            assert(front[i] == files[i] && front[j] == files[j]);
        }
        assert forall|i: int| 0 <= i < front.len() implies ((#[trigger] front[i]).sigs matches Some(
            v,
        ) ==> front[i].ids.len() == v.len()) by {
            assert(front[i] == files[i]);
        }
        law_push_is_indexed(t, repo_id, commit, front);
        let earlier = push_writes(repo_id, commit, front);
        let own = file_writes(repo_id, commit, f.path, f.content, f.sigs, f.ids);
        lemma_writes_in_two_parts(t, earlier, own);
        let before = apply_writes(t, earlier);
        let after = apply_writes(before, own);
        assert(files[last] == f);
        if indexes(f.content, f.sigs) {
            law_signatures_are_replaced(before, repo_id, f.path, commit, f.sigs.unwrap(), f.ids);
        } else {
            assert(after == before);
        }
        assert forall|r: Seq<char>, p: Seq<char>|
            r != repo_id || !(exists|i: int|
                0 <= i < files.len() && (#[trigger] files[i]).path == p) implies #[trigger] signatures_in(
            after,
            r,
            p,
        ) == signatures_in(t, r, p) by {
            if r == repo_id {
                assert(files[last].path != p);
                if exists|i: int| 0 <= i < front.len() && (#[trigger] front[i]).path == p {
                    let i = choose|i: int| 0 <= i < front.len() && (#[trigger] front[i]).path == p;
                    assert(files[i].path == p);
                }
            }
            assert(signatures_in(before, r, p) == signatures_in(t, r, p));
        }
        assert forall|i: int| 0 <= i < files.len() implies #[trigger] signatures_in(
            after,
            repo_id,
            files[i].path,
        ) == (if indexes(files[i].content, files[i].sigs) {
            rows_of(repo_id, files[i].path, commit, files[i].sigs.unwrap(), files[i].ids)
        } else {
            signatures_in(t, repo_id, files[i].path)
        }) by {
            if i < last {
                assert(front[i] == files[i]);
                assert(files[i].path != files[last].path);
                assert(signatures_in(before, repo_id, front[i].path) == signatures_in(
                    after,
                    repo_id,
                    files[i].path,
                ));
            } else {
                if exists|k: int| 0 <= k < front.len() && (#[trigger] front[k]).path == f.path {
                    let k = choose|k: int| 0 <= k < front.len() && (#[trigger] front[k]).path
                        == f.path;
                    assert(files[k].path == files[last].path);
                }
                assert(signatures_in(before, repo_id, f.path) == signatures_in(t, repo_id, f.path));
            }
        }
    }
}

/// After the deletions of a push no deleted file has signatures, and no other file's signatures
/// change.
pub proof fn law_deleted_files_have_no_signatures(
    t: SignatureTable,
    repo_id: Seq<char>,
    paths: Seq<Seq<char>>,
)
    ensures
        forall|p: Seq<char>|
            paths.contains(p) ==> (#[trigger] signatures_in(
                apply_writes(t, removals(repo_id, paths)),
                repo_id,
                p,
            )).len() == 0,
        forall|r: Seq<char>, p: Seq<char>|
            r != repo_id || !paths.contains(p) ==> #[trigger] signatures_in(
                apply_writes(t, removals(repo_id, paths)),
                r,
                p,
            ) == signatures_in(t, r, p),
    decreases paths.len(),
{
    if paths.len() > 0 {
        let front = paths.drop_last();
        law_deleted_files_have_no_signatures(t, repo_id, front);
        assert(removals(repo_id, paths).drop_last() =~= removals(repo_id, front));
        let before = apply_writes(t, removals(repo_id, front));
        let after = apply_writes(t, removals(repo_id, paths));
        assert(after == before.remove((repo_id, paths.last())));
        assert forall|p: Seq<char>| paths.contains(p) implies (#[trigger] signatures_in(
            after,
            repo_id,
            p,
        )).len() == 0 by {
            if p != paths.last() {
                let j = choose|j: int| 0 <= j < paths.len() && paths[j] == p;
                assert(front[j] == p);
                assert(signatures_in(before, repo_id, p).len() == 0);
            }
        }
        assert forall|r: Seq<char>, p: Seq<char>| r != repo_id || !paths.contains(p) implies #[trigger] signatures_in(after, r, p)
            == signatures_in(t, r, p) by {
            assert(paths.contains(paths.last()));
            if front.contains(p) {
                let j = choose|j: int| 0 <= j < front.len() && front[j] == p;
                assert(paths[j] == p);
            }
            assert(signatures_in(before, r, p) == signatures_in(t, r, p));
        }
    }
}

// ---------------------------------------------------------------------------
// Embeddings
// ---------------------------------------------------------------------------

/// The text whose embedding stands for a function.
pub open spec fn embedding_input(sig: ExtractedSig, path: Seq<char>, source: Seq<char>) -> Seq<char> {
    "Function: "@ + sig.name@ + "\nType: "@ + sig.type_text@ + "\nDescription: "@ + sig.description@
        + "\nFile: "@ + path + "\n\nSource:\n"@ + source
}

fn embed_text(sig: &ExtractedSig, path: &str, source: &str) -> (r: String)
    ensures
        r@ == embedding_input(*sig, path@, source@),
{
    let mut s = String::from_str("Function: ");
    s.append(sig.name.as_str());
    s.append("\nType: ");
    s.append(sig.type_text.as_str());
    s.append("\nDescription: ");
    s.append(sig.description.as_str());
    s.append("\nFile: ");
    s.append(path);
    s.append("\n\nSource:\n");
    s.append(source);
    s
}

/// The texts to embed for a file, one for each signature.
pub fn embed_texts(sigs: &Vec<ExtractedSig>, path: &str, source: &str) -> (r: Vec<String>)
    ensures
        r@.len() == sigs@.len(),
        forall|i: int|
            0 <= i < r@.len() ==> (#[trigger] r@[i])@ == embedding_input(sigs@[i], path@, source@),
{
    let mut out: Vec<String> = Vec::new();
    let mut i: usize = 0;
    while i < sigs.len()
        invariant
            i <= sigs@.len(),
            out@.len() == i,
            forall|j: int|
                0 <= j < i ==> (#[trigger] out@[j])@ == embedding_input(sigs@[j], path@, source@),
        decreases sigs@.len() - i,
    {
        out.push(embed_text(&sigs[i], path, source));
        i += 1;
    }
    out
}

/// A stored embedding: the signature it belongs to, its place among the vectors that came back, and
/// the hash of what it was made from.
#[derive(Debug)]
pub struct EmbeddingRow {
    pub signature_id: String,
    pub vector: usize,
    pub source_hash: String,
}

/// The embeddings to store for a file: the vectors that came back go to the signatures in order, as
/// far as both reach. All carry the hash of the first text.
pub fn embedding_rows(sig_ids: &Vec<String>, texts_embedded: &Vec<String>, vectors: usize) -> (r: Vec<
    EmbeddingRow,
>)
    requires
        texts_embedded@.len() > 0,
    ensures
        r@.len() == if vectors <= sig_ids@.len() {
            vectors as nat
        } else {
            sig_ids@.len()
        },
        forall|i: int|
            0 <= i < r@.len() ==> {
                &&& (#[trigger] r@[i]).signature_id@ == sig_ids@[i]@
                &&& r@[i].vector == i
                &&& r@[i].source_hash@ == hex(sha256(encode_utf8(texts_embedded@[0]@)))
            },
{
    let mut out: Vec<EmbeddingRow> = Vec::new();
    let mut i: usize = 0;
    while i < sig_ids.len() && i < vectors
        invariant
            texts_embedded@.len() > 0,
            i <= sig_ids@.len(),
            i <= vectors,
            out@.len() == i,
            forall|j: int|
                0 <= j < i ==> {
                    &&& (#[trigger] out@[j]).signature_id@ == sig_ids@[j]@
                    &&& out@[j].vector == j
                    &&& out@[j].source_hash@ == hex(sha256(encode_utf8(texts_embedded@[0]@)))
                },
        decreases sig_ids@.len() - i,
    {
        out.push(
            EmbeddingRow {
                signature_id: sig_ids[i].clone(),
                vector: i,
                source_hash: hex_sha256(texts_embedded[0].as_str()),
            },
        );
        i += 1;
    }
    out
}

// ---------------------------------------------------------------------------
// Semantic versions
// ---------------------------------------------------------------------------

/// What is known of a push while its files are indexed.
#[derive(Debug)]
pub struct PushIndex {
    initial: bool,
    modified: Vec<String>,
    functions: Table<String>,
    extracted: bool,
}

/// Whether the push is the first into its repository, which files it modified, in which file each
/// extracted function was last seen, and whether any function was extracted.
#[verifier::ext_equal]
pub struct PushIndexView {
    pub initial: bool,
    pub modified: Set<Seq<char>>,
    pub functions: Map<Seq<char>, Seq<char>>,
    pub extracted: bool,
}

impl View for PushIndex {
    type V = PushIndexView;

    closed spec fn view(&self) -> PushIndexView {
        PushIndexView {
            initial: self.initial,
            modified: texts(self.modified@).to_set(),
            functions: self.functions@.map_values(|s: String| s@),
            extracted: self.extracted,
        }
    }
}

/// The functions after those of a file were seen in it.
pub open spec fn functions_seen(
    functions: Map<Seq<char>, Seq<char>>,
    path: Seq<char>,
    sigs: Seq<ExtractedSig>,
) -> Map<Seq<char>, Seq<char>>
    decreases sigs.len(),
{
    if sigs.len() == 0 {
        functions
    } else {
        functions_seen(functions, path, sigs.drop_last()).insert(sigs.last().name@, path)
    }
}

/// The file whose two versions the model is to compare for a function: the function's type did not
/// change, it was seen in a file that the push modified, and the push is not the first.
pub open spec fn file_to_assess(p: PushIndexView, name: Seq<char>, unchanged: bool) -> Option<
    Seq<char>,
> {
    if !p.initial && unchanged && p.functions.dom().contains(name) && p.modified.contains(
        p.functions[name],
    ) {
        Some(p.functions[name])
    } else {
        None
    }
}

pub open spec fn pair_views(v: Seq<(String, String)>) -> Seq<(Seq<char>, Seq<char>)> {
    v.map_values(|a: (String, String)| (a.0@, a.1@))
}

/// The functions that are to be assessed, each with the file it is in. A change is a function's name
/// and whether its type is unchanged.
pub open spec fn to_assess(p: PushIndexView, changes: Seq<(String, bool)>) -> Seq<
    (Seq<char>, Seq<char>),
>
    decreases changes.len(),
{
    if changes.len() == 0 {
        seq![]
    } else {
        let above = to_assess(p, changes.drop_last());
        match file_to_assess(p, changes.last().0@, changes.last().1) {
            Some(path) => above.push((changes.last().0@, path)),
            None => above,
        }
    }
}

impl PushIndex {
    pub fn new(old_sha: &str, changed: &Vec<ChangedFile>) -> (r: Self)
        ensures
            r@.initial == (old_sha@ == zero_sha()),
            r@.modified == paths_with(file_views(changed@), FileStatus::Modified).to_set(),
            r@.functions == Map::<Seq<char>, Seq<char>>::empty(),
            !r@.extracted,
    {
        let ghost files = file_views(changed@);
        let mut modified: Vec<String> = Vec::new();
        let mut i: usize = 0;
        proof {
            assert(files.take(0) =~= seq![]);
            assert(texts(modified@) =~= seq![]);
        }
        while i < changed.len()
            invariant
                i <= changed@.len(),
                files == file_views(changed@),
                texts(modified@) == paths_with(files.take(i as int), FileStatus::Modified),
            decreases changed@.len() - i,
        {
            let ghost before = modified@;
            proof {
                assert(files.take(i as int + 1).drop_last() =~= files.take(i as int));
            }
            if changed[i].status == FileStatus::Modified {
                modified.push(changed[i].path.clone());
                proof {
                    assert(texts(modified@) =~= texts(before).push(modified@.last()@));
                }
            }
            i += 1;
        }
        proof {
            assert(files.take(i as int) =~= files);
        }
        let zeros = crate::git::zero_sha_text();
        let r = PushIndex {
            initial: same_text(old_sha, zeros.as_str()),
            modified,
            functions: Table::new(),
            extracted: false,
        };
        proof {
            assert(r@.functions =~= Map::empty());
        }
        r
    }

    /// Notes the signatures that were extracted from a file.
    pub fn record(&mut self, path: &str, sigs: &Vec<ExtractedSig>)
        ensures
            final(self)@.initial == old(self)@.initial,
            final(self)@.modified == old(self)@.modified,
            final(self)@.functions == functions_seen(old(self)@.functions, path@, sigs@),
            final(self)@.extracted == (old(self)@.extracted || sigs@.len() > 0),
    {
        let ghost start = self@;
        let mut i: usize = 0;
        proof {
            assert(sigs@.take(0) =~= seq![]);
        }
        while i < sigs.len()
            invariant
                i <= sigs@.len(),
                self@.initial == start.initial,
                self@.modified == start.modified,
                self@.extracted == start.extracted,
                self@.functions == functions_seen(start.functions, path@, sigs@.take(i as int)),
            decreases sigs@.len() - i,
        {
            let ghost before = self@.functions;
            self.functions.insert(sigs[i].name.clone(), String::from_str(path));
            proof {
                assert(sigs@.take(i as int + 1).drop_last() =~= sigs@.take(i as int));
                assert(self@.functions =~= before.insert(sigs@[i as int].name@, path@));
            }
            i += 1;
        }
        proof {
            assert(sigs@.take(i as int) =~= sigs@);
        }
        if sigs.len() > 0 {
            self.extracted = true;
        }
    }

    /// What is written for a file, and the texts to embed then. A file that could not be read, holds no
    /// source or gave no signatures because the model failed is skipped, and keeps what the index has
    /// of it.
    pub fn index_file(
        &mut self,
        repo_id: &str,
        commit: &str,
        path: &str,
        content: Option<&str>,
        sigs: Option<&Vec<ExtractedSig>>,
        ids: &Vec<String>,
    ) -> (r: (Vec<IndexWrite>, Vec<String>))
        requires
            sigs matches Some(v) ==> ids@.len() == v@.len(),
        ensures
            write_views(r.0@) == file_writes(
                repo_id@,
                commit@,
                path@,
                opt_str(content),
                opt_sigs(sigs),
                texts(ids@),
            ),
            final(self)@.initial == old(self)@.initial,
            final(self)@.modified == old(self)@.modified,
            if indexes(opt_str(content), opt_sigs(sigs)) {
                &&& final(self)@.functions == functions_seen(
                    old(self)@.functions,
                    path@,
                    sigs.unwrap()@,
                )
                &&& final(self)@.extracted == (old(self)@.extracted || sigs.unwrap()@.len() > 0)
                &&& r.1@.len() == sigs.unwrap()@.len()
                &&& forall|i: int|
                    0 <= i < r.1@.len() ==> (#[trigger] r.1@[i])@ == embedding_input(
                        sigs.unwrap()@[i],
                        path@,
                        content.unwrap()@,
                    )
            } else {
                &&& final(self)@.functions == old(self)@.functions
                &&& final(self)@.extracted == old(self)@.extracted
                &&& r.1@.len() == 0
            },
    {
        if !is_source(content) {
            let none: Vec<IndexWrite> = Vec::new();
            proof {
                assert(write_views(none@) =~= seq![]);
            }
            return (none, Vec::new());
        }
        match (content, sigs) {
            (Some(source), Some(v)) => {
                self.record(path, v);
                (
                    replace_signatures(repo_id, path, commit, v, ids),
                    embed_texts(v, path, source),
                )
            },
            _ => {
                let none: Vec<IndexWrite> = Vec::new();
                proof {
                    assert(write_views(none@) =~= seq![]);
                }
                (none, Vec::new())
            },
        }
    }

    /// The functions whose two versions the model is to compare, and the files they are in.
    pub fn assessments(&self, changes: &Vec<(String, bool)>) -> (r: Vec<(String, String)>)
        ensures
            pair_views(r@) == to_assess(self@, changes@),
            forall|i: int|
                0 <= i < changes@.len() && (#[trigger] changes@[i]).1 && !self@.initial
                    && self@.functions.dom().contains(changes@[i].0@) && self@.modified.contains(
                    self@.functions[changes@[i].0@],
                ) ==> exists|k: int|
                    0 <= k < r@.len() && (#[trigger] r@[k]).0@ == changes@[i].0@ && r@[k].1@
                        == self@.functions[changes@[i].0@],
    {
        let mut out: Vec<(String, String)> = Vec::new();
        let mut i: usize = 0;
        proof {
            assert(changes@.take(0) =~= seq![]);
            assert(pair_views(out@) =~= to_assess(self@, changes@.take(0)));
        }
        while i < changes.len()
            invariant
                i <= changes@.len(),
                pair_views(out@) == to_assess(self@, changes@.take(i as int)),
            decreases changes@.len() - i,
        {
            let ghost before = out@;
            proof {
                assert(changes@.take(i as int + 1).drop_last() =~= changes@.take(i as int));
                assert(changes@.take(i as int + 1).last() == changes@[i as int]);
            }
            match self.assesses(changes[i].0.as_str(), changes[i].1) {
                Some(path) => {
                    out.push((changes[i].0.clone(), path));
                    proof {
                        assert(pair_views(out@) =~= pair_views(before).push(
                            (changes@[i as int].0@, path@),
                        ));
                    }
                },
                None => {},
            }
            i += 1;
        }
        proof {
            assert(changes@.take(i as int) =~= changes@);
            law_every_unchanged_function_is_assessed(self@, changes@);
            assert forall|i: int|
                0 <= i < changes@.len() && (#[trigger] changes@[i]).1 && !self@.initial
                    && self@.functions.dom().contains(changes@[i].0@) && self@.modified.contains(
                    self@.functions[changes@[i].0@],
                ) implies exists|k: int|
                0 <= k < out@.len() && (#[trigger] out@[k]).0@ == changes@[i].0@ && out@[k].1@
                    == self@.functions[changes@[i].0@] by {
                let all = pair_views(out@);
                let want = (changes@[i].0@, self@.functions[changes@[i].0@]);
                assert(all.contains(want));
                let k = choose|k: int| 0 <= k < all.len() && all[k] == want;
                assert(all[k] == (out@[k].0@, out@[k].1@));
            }
        }
        out
    }

    /// Whether the push is held to its version: it has a manifest, an earlier push had a version,
    /// and there are functions to compare.
    pub fn checks_version(&self, manifest: bool, previous_version: bool, previous_sigs: usize) -> (r:
        bool)
        ensures
            r == (manifest && previous_version && (previous_sigs > 0 || self@.extracted)),
    {
        manifest && previous_version && (previous_sigs > 0 || self.extracted)
    }

    /// The file whose two versions the model is to compare for a function, where it is to.
    pub fn assesses(&self, name: &str, unchanged: bool) -> (r: Option<String>)
        ensures
            match r {
                Some(p) => file_to_assess(self@, name@, unchanged) == Some(p@),
                None => file_to_assess(self@, name@, unchanged) is None,
            },
    {
        if self.initial || !unchanged {
            return None;
        }
        let path = match self.functions.get(name) {
            Some(p) => p,
            None => {
                return None;
            },
        };
        let ghost all = texts(self.modified@);
        let mut i: usize = 0;
        while i < self.modified.len()
            invariant
                i <= self.modified@.len(),
                all == texts(self.modified@),
                !self.initial,
                unchanged,
                self.functions@.dom().contains(name@),
                *path == self.functions@[name@],
                forall|j: int| 0 <= j < i ==> all[j] != path@,
            decreases self.modified@.len() - i,
        {
            if same_text(self.modified[i].as_str(), path.as_str()) {
                proof {
                    assert(all[i as int] == path@);
                    assert(all.contains(path@));
                }
                return Some(path.clone());
            }
            i += 1;
        }
        None
    }
}

/// Whether the model is to be asked about a function: both versions of its file could be read, and
/// they differ.
pub fn sources_differ(old_source: Option<&str>, new_source: Option<&str>) -> (r: bool)
    ensures
        r == (old_source matches Some(a) && new_source matches Some(b) && a@ != b@),
{
    match (old_source, new_source) {
        (Some(a), Some(b)) => !same_text(a, b),
        _ => false,
    }
}

/// The version that an earlier push was indexed with; an empty one is none.
pub fn stored_version(version: Option<String>) -> (r: Option<String>)
    ensures
        match version {
            Some(v) => if v@.len() > 0 {
                r matches Some(w) && w@ == v@
            } else {
                r is None
            },
            None => r is None,
        },
{
    match version {
        Some(v) => {
            if v.as_str().is_empty() {
                None
            } else {
                Some(v)
            }
        },
        None => None,
    }
}

/// How a push ends. One that breaks its version is refused and leaves the index state as it was;
/// any other sets it to the new commit and the manifest's version, which is empty where there is no
/// manifest.
pub fn conclude_push(
    repo_id: &str,
    new_sha: &str,
    version: Option<String>,
    verdict: Result<(), String>,
) -> (r: Result<IndexWrite, String>)
    ensures
        match verdict {
            Err(msg) => r matches Err(e) && e@ == "semver violation: "@ + msg@,
            Ok(_) => r matches Ok(w) && w@ == (IndexWriteView::SetState {
                repo_id: repo_id@,
                commit: new_sha@,
                version: match version {
                    Some(v) => v@,
                    None => seq![],
                },
            }),
        },
{
    match verdict {
        Err(msg) => {
            let mut e = String::from_str("semver violation: ");
            e.append(msg.as_str());
            Err(e)
        },
        Ok(_) => {
            let version = match version {
                Some(v) => v,
                None => String::new(),
            };
            Ok(
                IndexWrite::SetState {
                    repo_id: String::from_str(repo_id),
                    commit: String::from_str(new_sha),
                    version,
                },
            )
        },
    }
}

/// The first push into a repository asks the model about no function, whatever it holds.
pub proof fn law_first_push_is_not_assessed(p: PushIndexView, name: Seq<char>, unchanged: bool)
    requires
        p.initial,
    ensures
        file_to_assess(p, name, unchanged) is None,
{
}

/// A function of a file that the push added is never compared with an earlier version.
pub proof fn law_only_modified_files_are_assessed(
    p: PushIndexView,
    name: Seq<char>,
    unchanged: bool,
)
    ensures
        file_to_assess(p, name, unchanged) matches Some(path) ==> p.modified.contains(path)
            && unchanged,
{
}

/// Whether a function is among those whose type did not change.
pub open spec fn is_unchanged(changes: Seq<(String, bool)>, name: Seq<char>) -> bool {
    exists|i: int| 0 <= i < changes.len() && (#[trigger] changes[i]).1 && changes[i].0@ == name
}

/// Every function whose type did not change and that was seen in a file which the push modified is
/// assessed, with that file, unless the push is the first; and nothing else is.
pub proof fn law_every_unchanged_function_is_assessed(
    p: PushIndexView,
    changes: Seq<(String, bool)>,
)
    ensures
        forall|i: int|
            0 <= i < changes.len() && (#[trigger] changes[i]).1 && !p.initial
                && p.functions.dom().contains(changes[i].0@) && p.modified.contains(
                p.functions[changes[i].0@],
            ) ==> to_assess(p, changes).contains((changes[i].0@, p.functions[changes[i].0@])),
        forall|k: int|
            0 <= k < to_assess(p, changes).len() ==> {
                let found = #[trigger] to_assess(p, changes)[k];
                is_unchanged(changes, found.0) && !p.initial && p.functions.dom().contains(found.0) && p.functions[found.0] == found.1
                    && p.modified.contains(found.1)
            },
    decreases changes.len(),
{
    if changes.len() > 0 {
        let front = changes.drop_last();
        let n = changes.len() - 1;
        let all = to_assess(p, changes);
        let above = to_assess(p, front);
        law_every_unchanged_function_is_assessed(p, front);
        assert forall|i: int|
            0 <= i < changes.len() && (#[trigger] changes[i]).1 && !p.initial
                && p.functions.dom().contains(changes[i].0@) && p.modified.contains(
                p.functions[changes[i].0@],
            ) implies all.contains((changes[i].0@, p.functions[changes[i].0@])) by {
            let want = (changes[i].0@, p.functions[changes[i].0@]);
            if i < n {
                assert(front[i] == changes[i]);
                assert(above.contains(want));
                let k = choose|k: int| 0 <= k < above.len() && above[k] == want;
                assert(all[k] == want);
            } else {
                assert(all[all.len() - 1] == want);
            }
        }
        assert forall|k: int| 0 <= k < all.len() implies {
            let found = #[trigger] all[k];
            is_unchanged(changes, found.0) && !p.initial && p.functions.dom().contains(found.0) && p.functions[found.0] == found.1
                && p.modified.contains(found.1)
        } by {
            if k < above.len() {
                assert(all[k] == above[k]);
                assert(is_unchanged(front, above[k].0));
                let i = choose|i: int|
                    0 <= i < front.len() && (#[trigger] front[i]).1 && front[i].0@ == above[k].0;
                assert(changes[i] == front[i]);
            } else {
                assert(changes[n].1);
            }
        }
    }
}

/// Changes are looked at one by one and in their order: what is to be assessed of two lists together
/// is what is to be assessed of the first, and behind it what is to be assessed of the second; and
/// of one change it is that function and its file, or nothing.
pub proof fn law_changes_are_assessed_one_by_one(
    p: PushIndexView,
    first: Seq<(String, bool)>,
    second: Seq<(String, bool)>,
    one: (String, bool),
)
    ensures
        to_assess(p, first + second) == to_assess(p, first) + to_assess(p, second),
        to_assess(p, seq![one]).len() == (if one.1 && !p.initial && p.functions.dom().contains(
            one.0@,
        ) && p.modified.contains(p.functions[one.0@]) {
            1nat
        } else {
            0
        }),
    decreases second.len(),
{
    assert(seq![one].drop_last() =~= seq![]);
    reveal_with_fuel(to_assess, 2);
    if second.len() == 0 {
        assert(first + second =~= first);
        assert(to_assess(p, first) + to_assess(p, second) =~= to_assess(p, first));
    } else {
        law_changes_are_assessed_one_by_one(p, first, second.drop_last(), one);
        assert((first + second).drop_last() =~= first + second.drop_last());
        assert(to_assess(p, first + second) =~= to_assess(p, first) + to_assess(p, second));
    }
}

/// Every function that was extracted from a file is known to be in that file, and functions that were
/// not keep the file that they were in.
pub proof fn law_functions_are_found_in_their_file(
    functions: Map<Seq<char>, Seq<char>>,
    path: Seq<char>,
    sigs: Seq<ExtractedSig>,
    name: Seq<char>,
)
    ensures
        forall|i: int|
            0 <= i < sigs.len() ==> functions_seen(functions, path, sigs).dom().contains(
                (#[trigger] sigs[i]).name@,
            ) && functions_seen(functions, path, sigs)[sigs[i].name@] == path,
        (forall|i: int| 0 <= i < sigs.len() ==> (#[trigger] sigs[i]).name@ != name) ==> (
        functions_seen(functions, path, sigs).dom().contains(name) <==> functions.dom().contains(name))
            && functions_seen(functions, path, sigs)[name] == functions[name],
    decreases sigs.len(),
{
    if sigs.len() > 0 {
        let front = sigs.drop_last();
        law_functions_are_found_in_their_file(functions, path, front, name);
        assert(forall|i: int| 0 <= i < front.len() ==> front[i] == sigs[i]);
        assert forall|i: int| 0 <= i < sigs.len() implies functions_seen(
            functions,
            path,
            sigs,
        ).dom().contains((#[trigger] sigs[i]).name@) && functions_seen(functions, path, sigs)[sigs[i].name@]
            == path by {
            if i < front.len() {
                assert(front[i] == sigs[i]);
            }
        }
        if forall|i: int| 0 <= i < sigs.len() ==> (#[trigger] sigs[i]).name@ != name {
            assert(sigs[sigs.len() - 1].name@ != name);
        }
    }
}

/// A file of a push is deleted or is left to be indexed, and never both; no file is passed over, and
/// the order stays. The files of a kind in two lists together are those of the first and then those
/// of the second.
pub proof fn law_no_file_is_passed_over(
    files: Seq<ChangedFileView>,
    more: Seq<ChangedFileView>,
    status: FileStatus,
    one: ChangedFileView,
)
    ensures
        paths_with(files + more, status) == paths_with(files, status) + paths_with(more, status),
        paths_left(files + more) == paths_left(files) + paths_left(more),
        paths_left(files).len() + paths_with(files, FileStatus::Deleted).len() == files.len(),
        paths_with(seq![one], status) == (if one.status == status {
            seq![one.path]
        } else {
            seq![]
        }),
        paths_left(seq![one]) == (if one.status == FileStatus::Added || one.status
            == FileStatus::Modified {
            seq![one.path]
        } else {
            seq![]
        }),
    decreases files.len() + more.len(),
{
    assert(seq![one].drop_last() =~= seq![]);
    reveal_with_fuel(paths_with, 2);
    reveal_with_fuel(paths_left, 2);
    assert(paths_with(seq![one], status) =~= (if one.status == status {
        seq![one.path]
    } else {
        seq![]
    }));
    assert(paths_left(seq![one]) =~= (if one.status == FileStatus::Added || one.status
        == FileStatus::Modified {
        seq![one.path]
    } else {
        seq![]
    }));
    if files.len() > 0 {
        law_no_file_is_passed_over(files.drop_last(), seq![], status, one);
    }
    if more.len() == 0 {
        assert(files + more =~= files);
        assert(paths_with(files, status) + paths_with(more, status) =~= paths_with(files, status));
        assert(paths_left(files) + paths_left(more) =~= paths_left(files));
    } else {
        law_no_file_is_passed_over(files, more.drop_last(), status, one);
        assert((files + more).drop_last() =~= files + more.drop_last());
        assert(paths_with(files + more, status) =~= paths_with(files, status) + paths_with(
            more,
            status,
        ));
        assert(paths_left(files + more) =~= paths_left(files) + paths_left(more));
    }
}

/// What is stored of a signature is what was extracted, at its place: each row has its own identifier
/// and says in which repository, file and commit the function is, in which language, what it is
/// called, what its type is in each of its forms, and what it does.
pub proof fn law_rows_say_what_was_extracted(
    repo_id: Seq<char>,
    path: Seq<char>,
    commit: Seq<char>,
    sigs: Seq<ExtractedSig>,
    ids: Seq<Seq<char>>,
)
    ensures
        rows_of(repo_id, path, commit, sigs, ids).len() == sigs.len(),
        forall|i: int|
            0 <= i < sigs.len() ==> {
                let row = #[trigger] rows_of(repo_id, path, commit, sigs, ids)[i];
                &&& row.id == ids[i]
                &&& row.repo_id == repo_id
                &&& row.file_path == path
                &&& row.commit_sha == commit
                &&& row.language == language_of(path)
                &&& row.function_name == sigs[i].name@
                &&& row.type_signature == sigs[i].type_text@
                &&& row.type_normalized == sigs[i].type_normalized@
                &&& row.type_json == sigs[i].type_json@
                &&& row.description == sigs[i].description@
            },
{
}

/// A file is indexed exactly where it is text that holds something, and its signatures could be
/// extracted; where it is not, nothing is written for it, and what it had stays.
pub proof fn law_only_text_is_indexed(
    content: Seq<char>,
    sigs: Seq<ExtractedSig>,
    repo_id: Seq<char>,
    commit: Seq<char>,
    path: Seq<char>,
    ids: Seq<Seq<char>>,
)
    ensures
        indexes(Some(content), Some(sigs)) <==> content.len() != 0 && forall|i: int|
            0 <= i < content.len() ==> #[trigger] content[i] != '\0',
        !indexes(None, Some(sigs)),
        !indexes(Some(content), None),
        file_writes(repo_id, commit, path, None, Some(sigs), ids).len() == 0,
        file_writes(repo_id, commit, path, Some(content), None, ids).len() == 0,
        indexes(Some(content), Some(sigs)) ==> file_writes(
            repo_id,
            commit,
            path,
            Some(content),
            Some(sigs),
            ids,
        ).len() == sigs.len() + 1,
{
    if content.contains('\0') {
        let i = choose|i: int| 0 <= i < content.len() && content[i] == '\0';
        assert(content[i] == '\0');
    }
    if content.len() != 0 && exists|i: int| 0 <= i < content.len() && #[trigger] content[i] == '\0' {
        let i = choose|i: int| 0 <= i < content.len() && #[trigger] content[i] == '\0';
        assert(content.contains(content[i]));
    }
}

/// A file below `impl/` is in the language that its directory is named after, whatever it is called
/// itself; any other file is in the language of its extension.
pub proof fn law_directory_or_extension_tells_the_language(
    language: Seq<char>,
    rest: Seq<char>,
    stem: Seq<char>,
    ext: Seq<char>,
)
    requires
        language.len() > 0,
        !language.contains('/'),
        !ext.contains('.'),
        !has_prefix(stem + seq!['.'] + ext, "impl/"@),
    ensures
        language_of("impl/"@ + language + seq!['/'] + rest) == language,
        language_of(stem + seq!['.'] + ext) == extension_language(ext),
{
    let start = "impl/"@;
    let path = start + language + seq!['/'] + rest;
    assert(path.take(start.len() as int) =~= start);
    let below = path.skip(start.len() as int);
    assert(below =~= language + seq!['/'] + rest);
    assert forall|j: int| 0 <= j < language.len() implies below[j] != '/' by {
        assert(below[j] == language[j]);
        assert(language.contains(language[j]));
    }
    assert(below[language.len() as int] == '/');
    crate::text::lemma_first_index(below, '/', language.len() as int);
    assert(below.take(language.len() as int) =~= language);
    let file = stem + seq!['.'] + ext;
    let dot = stem.len() as int;
    assert forall|j: int| dot < j < file.len() implies file[j] != '.' by {
        assert(file[j] == ext[j - dot - 1]);
        assert(ext.contains(ext[j - dot - 1]));
    }
    assert(file[dot] == '.');
    crate::text::lemma_last_index(file, '.', dot);
    assert(file.skip(dot + 1) =~= ext);
}

/// What is embedded for a function tells its name, its type, what it does and where it is, and holds
/// the whole source of its file.
pub proof fn law_embedding_describes_the_function(
    sig: ExtractedSig,
    path: Seq<char>,
    source: Seq<char>,
)
    ensures
        has_prefix(
            embedding_input(sig, path, source),
            "Function: "@ + sig.name@ + "\nType: "@ + sig.type_text@ + "\nDescription: "@
                + sig.description@ + "\nFile: "@ + path,
        ),
        crate::text::has_suffix(embedding_input(sig, path, source), source),
{
    let text = embedding_input(sig, path, source);
    let start = "Function: "@ + sig.name@ + "\nType: "@ + sig.type_text@ + "\nDescription: "@
        + sig.description@ + "\nFile: "@ + path;
    assert(text.take(start.len() as int) =~= start);
    assert(text.skip(text.len() - source.len()) =~= source);
}

/// The language that each known extension stands for.
pub proof fn law_extensions_name_languages()
    ensures
        extension_language("rs"@) == "rust"@,
        extension_language("py"@) == "python"@,
        extension_language("go"@) == "go"@,
        extension_language("java"@) == "java"@,
        extension_language("swift"@) == "swift"@,
        extension_language("c"@) == "c"@,
        extension_language("hs"@) == "haskell"@,
        extension_language("rb"@) == "ruby"@,
        extension_language("zig"@) == "zig"@,
        extension_language("lua"@) == "lua"@,
        extension_language("scala"@) == "scala"@,
        extension_language("js"@) == "javascript"@ && extension_language("mjs"@) == "javascript"@
            && extension_language("cjs"@) == "javascript"@,
        extension_language("ts"@) == "typescript"@ && extension_language("mts"@) == "typescript"@
            && extension_language("cts"@) == "typescript"@,
        extension_language("kt"@) == "kotlin"@ && extension_language("kts"@) == "kotlin"@,
        extension_language("cpp"@) == "cpp"@ && extension_language("cc"@) == "cpp"@
            && extension_language("cxx"@) == "cpp"@,
        extension_language("ml"@) == "ocaml"@ && extension_language("mli"@) == "ocaml"@,
        extension_language("ex"@) == "elixir"@ && extension_language("exs"@) == "elixir"@,
{
    reveal_strlit("rs");
    reveal_strlit("py");
    reveal_strlit("js");
    reveal_strlit("mjs");
    reveal_strlit("cjs");
    reveal_strlit("ts");
    reveal_strlit("mts");
    reveal_strlit("cts");
    reveal_strlit("go");
    reveal_strlit("java");
    reveal_strlit("kt");
    reveal_strlit("kts");
    reveal_strlit("swift");
    reveal_strlit("c");
    reveal_strlit("cpp");
    reveal_strlit("cc");
    reveal_strlit("cxx");
    reveal_strlit("hs");
    reveal_strlit("ml");
    reveal_strlit("mli");
    reveal_strlit("ex");
    reveal_strlit("exs");
    reveal_strlit("rb");
    reveal_strlit("scala");
    reveal_strlit("zig");
    reveal_strlit("lua");
    let two = seq![
        "rs"@,
        "py"@,
        "js"@,
        "ts"@,
        "go"@,
        "kt"@,
        "cc"@,
        "hs"@,
        "ml"@,
        "ex"@,
        "rb"@,
    ];
    assert(forall|i: int| 0 <= i < two.len() ==> (#[trigger] two[i]).len() == 2);
    assert("rs"@[0] == 'r' && "rb"@[0] == 'r' && "rs"@[1] == 's' && "rb"@[1] == 'b');
    assert("py"@[0] == 'p' && "js"@[0] == 'j' && "ts"@[0] == 't' && "go"@[0] == 'g' && "kt"@[0]
        == 'k' && "cc"@[0] == 'c' && "hs"@[0] == 'h' && "ml"@[0] == 'm' && "ex"@[0] == 'e');
    assert("mjs"@[0] == 'm' && "mts"@[0] == 'm' && "mli"@[0] == 'm' && "mjs"@[1] == 'j' && "mts"@[1]
        == 't' && "mli"@[1] == 'l');
    assert("cjs"@[0] == 'c' && "cts"@[0] == 'c' && "cpp"@[0] == 'c' && "cxx"@[0] == 'c' && "cjs"@[1]
        == 'j' && "cts"@[1] == 't' && "cpp"@[1] == 'p' && "cxx"@[1] == 'x');
    assert("kts"@[0] == 'k' && "exs"@[0] == 'e' && "zig"@[0] == 'z' && "lua"@[0] == 'l');
    assert("java"@.len() == 4 && "swift"@.len() == 5 && "scala"@.len() == 5 && "swift"@[1] == 'w'
        && "scala"@[1] == 'c' && "c"@.len() == 1);
}

/// What a value says in contracts is what its fields say, each in its own place.
pub proof fn law_views_show_every_field(signature_row: SignatureRow, index_write: IndexWrite)
    ensures
        signature_row@.id == signature_row.id@,
        signature_row@.repo_id == signature_row.repo_id@,
        signature_row@.file_path == signature_row.file_path@,
        signature_row@.language == signature_row.language@,
        signature_row@.function_name == signature_row.function_name@,
        signature_row@.type_signature == signature_row.type_signature@,
        signature_row@.type_normalized == signature_row.type_normalized@,
        signature_row@.type_json == signature_row.type_json@,
        signature_row@.description == signature_row.description@,
        signature_row@.commit_sha == signature_row.commit_sha@,
        index_write@ == (match index_write {
            IndexWrite::DeleteSignatures { repo_id, file_path } => IndexWriteView::DeleteSignatures {
                repo_id: repo_id@,
                file_path: file_path@,
            },
            IndexWrite::InsertSignature(row) => IndexWriteView::InsertSignature(row@),
            IndexWrite::SetState { repo_id, commit, version } => IndexWriteView::SetState {
                repo_id: repo_id@,
                commit: commit@,
                version: version@,
            },
        }),
{
}

/// A list says in contracts what its items say, one for one and in their order, and a value that may
/// be missing what it says where it is there.
pub proof fn law_items_are_read_one_for_one(
    v0: Seq<IndexWrite>,
    v1: Seq<(String, String)>,
    x: &Vec<ExtractedSig>,
)
    ensures
        write_views(v0).len() == v0.len(),
        forall|i: int| 0 <= i < v0.len() ==> #[trigger] write_views(v0)[i] == v0[i]@,
        pair_views(v1).len() == v1.len(),
        forall|i: int| 0 <= i < v1.len() ==> #[trigger] pair_views(v1)[i] == (v1[i].0@, v1[i].1@),
        opt_sigs(Some(x)) == Some(x@),
        opt_sigs(None) is None,
{
}

} // verus!
