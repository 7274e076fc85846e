//! Which files a push changed.

use vstd::prelude::*;
use vstd::string::*;
use crate::text::{
    chars_of, find_char, first_index, head, lines, lines_of, same_chars, string_of, tail, texts, trim,
    trim_chars,
};

verus! {

/// A file that changed between two commits.
#[derive(Debug)]
pub struct ChangedFile {
    pub status: FileStatus,
    pub path: String,
}

#[derive(Debug, Clone, Copy, PartialEq, Eq, Structural)]
pub enum FileStatus {
    Added,
    Modified,
    Deleted,
}

/// What a changed file says.
#[verifier::ext_equal]
pub struct ChangedFileView {
    pub status: FileStatus,
    pub path: Seq<char>,
}

impl View for ChangedFile {
    type V = ChangedFileView;

    open spec fn view(&self) -> ChangedFileView {
        ChangedFileView { status: self.status, path: self.path@ }
    }
}

pub open spec fn file_views(v: Seq<ChangedFile>) -> Seq<ChangedFileView> {
    v.map_values(|f: ChangedFile| f@)
}

/// Whether a commit name stands for no commit.
pub open spec fn is_new_branch(old_sha: Seq<char>) -> bool {
    forall|i: int| 0 <= i < old_sha.len() ==> #[trigger] old_sha[i] == '0'
}

/// The name that git has for the tree that holds no file.
pub const EMPTY_TREE: &'static str = "4b825dc642cb6eb9a060e54bf8d69288fbee4904";

/// The arguments with which git lists the changed files: those in which the trees of the two
/// commits differ. A new branch is held against the tree without files, so that every file at
/// `new_sha` is listed, however many commits lead to it.
pub open spec fn diff_tree_args(old_sha: Seq<char>, new_sha: Seq<char>) -> Seq<Seq<char>> {
    seq![
        "diff-tree"@,
        "-r"@,
        "--name-status"@,
        "--no-commit-id"@,
        if is_new_branch(old_sha) {
            EMPTY_TREE@
        } else {
            old_sha
        },
        new_sha,
    ]
}

/// The arguments with which git lists the files that changed between two commits.
///
/// If `old_sha` is all zeros (new branch), lists all files at `new_sha`.
pub fn changed_files_args(old_sha: &str, new_sha: &str) -> (r: Vec<String>)
    ensures
        texts(r@) == diff_tree_args(old_sha@, new_sha@),
{
    let chars = chars_of(old_sha);
    let mut new_branch = true;
    let mut i: usize = 0;
    while i < chars.len()
        invariant
            i <= chars@.len(),
            chars@ == old_sha@,
            new_branch <==> forall|j: int| 0 <= j < i ==> #[trigger] old_sha@[j] == '0',
        decreases chars@.len() - i,
    {
        if chars[i] != '0' {
            new_branch = false;
            proof {
                assert(old_sha@[i as int] != '0');
            }
        }
        i += 1;
    }
    let from = if new_branch {
        String::from_str(EMPTY_TREE)
    } else {
        String::from_str(old_sha)
    };
    let mut args: Vec<String> = Vec::new();
    args.push(String::from_str("diff-tree"));
    args.push(String::from_str("-r"));
    args.push(String::from_str("--name-status"));
    args.push(String::from_str("--no-commit-id"));
    args.push(from);
    args.push(String::from_str(new_sha));
    proof {
        assert(texts(args@) =~= diff_tree_args(old_sha@, new_sha@));
    }
    args
}

/// A line of git's list.
pub enum DiffLine {
    /// An empty line, or a change of a kind that is not indexed (a rename, a copy).
    Skip,
    File(ChangedFileView),
    /// A line without a tab.
    Malformed,
}

/// What a line says: a letter, a tab and a path, with white space around the line ignored.
pub open spec fn diff_line(line: Seq<char>) -> DiffLine {
    let s = trim(line);
    let i = first_index(s, '\t');
    if s.len() == 0 {
        DiffLine::Skip
    } else if !(0 <= i < s.len()) {
        DiffLine::Malformed
    } else {
        let path = s.skip(i + 1);
        let letter = s.take(i);
        if letter == seq!['A'] {
            DiffLine::File(ChangedFileView { status: FileStatus::Added, path })
        } else if letter == seq!['M'] {
            DiffLine::File(ChangedFileView { status: FileStatus::Modified, path })
        } else if letter == seq!['D'] {
            DiffLine::File(ChangedFileView { status: FileStatus::Deleted, path })
        } else {
            DiffLine::Skip
        }
    }
}

/// The files that the lines name, in order, or nothing where a line is malformed.
pub open spec fn diff_files(ls: Seq<Seq<char>>) -> Option<Seq<ChangedFileView>>
    decreases ls.len(),
{
    if ls.len() == 0 {
        Some(seq![])
    } else {
        match (diff_files(ls.drop_last()), diff_line(ls.last())) {
            (Some(fs), DiffLine::Skip) => Some(fs),
            (Some(fs), DiffLine::File(f)) => Some(fs.push(f)),
            _ => None,
        }
    }
}

/// A malformed line spoils the whole list.
proof fn lemma_malformed(ls: Seq<Seq<char>>, k: int)
    requires
        0 <= k <= ls.len(),
        diff_files(ls.take(k)) is None,
    ensures
        diff_files(ls) is None,
    decreases ls.len() - k,
{
    if k < ls.len() {
        assert(ls.take(k + 1).drop_last() =~= ls.take(k));
        lemma_malformed(ls, k + 1);
    } else {
        assert(ls.take(k) =~= ls);
    }
}

/// The files that git's list names.
pub fn changed_files(stdout: &str) -> (r: Result<Vec<ChangedFile>, String>)
    ensures
        match r {
            Ok(fs) => diff_files(lines(stdout@)) == Some(file_views(fs@)),
            Err(e) => diff_files(lines(stdout@)) is None && e@
                == "unexpected diff-tree line format"@,
        },
{
    let chars = chars_of(stdout);
    let ls = lines_of(chars.as_slice());
    let ghost all = texts(ls@);
    let mut files: Vec<ChangedFile> = Vec::new();
    let mut i: usize = 0;
    proof {
        assert(all.take(0) =~= seq![]);
        assert(file_views(files@) =~= seq![]);
    }
    while i < ls.len()
        invariant
            i <= ls@.len(),
            all == texts(ls@),
            all == lines(stdout@),
            diff_files(all.take(i as int)) == Some(file_views(files@)),
        decreases ls@.len() - i,
    {
        let line = chars_of(ls[i].as_str());
        let s = trim_chars(line.as_slice());
        let ghost before = files@;
        proof {
            assert(all.take(i as int + 1).drop_last() =~= all.take(i as int));
            assert(all.take(i as int + 1).last() == line@);
        }
        if s.len() > 0 {
            let t = find_char(s, '\t');
            if t >= s.len() {
                proof {
                    assert(diff_files(all.take(i as int + 1)) is None);
                    lemma_malformed(all, i as int + 1);
                }
                return Err(String::from_str("unexpected diff-tree line format"));
            }
            let letter = head(s, t);
            let path = tail(s, t + 1);
            let added: [char; 1] = ['A'];
            let modified: [char; 1] = ['M'];
            let deleted: [char; 1] = ['D'];
            proof {
                assert(added@ =~= seq!['A']);
                assert(modified@ =~= seq!['M']);
                assert(deleted@ =~= seq!['D']);
                assert('A' != 'M' && 'A' != 'D' && 'M' != 'D');
                assert(seq!['A'][0] != seq!['M'][0]);
            }
            if same_chars(letter, &added) {
                files.push(ChangedFile { status: FileStatus::Added, path: string_of(path) });
            } else if same_chars(letter, &modified) {
                files.push(ChangedFile { status: FileStatus::Modified, path: string_of(path) });
            } else if same_chars(letter, &deleted) {
                files.push(ChangedFile { status: FileStatus::Deleted, path: string_of(path) });
            }
            proof {
                if files@.len() > before.len() {
                    assert(file_views(files@) =~= file_views(before).push(files@.last()@));
                }
            }
        }
        i += 1;
    }
    proof {
        assert(all.take(i as int) =~= all);
    }
    Ok(files)
}

/// The name by which git shows a file of a commit.
pub fn object_name(commit: &str, file_path: &str) -> (r: String)
    ensures
        r@ == commit@ + ":"@ + file_path@,
{
    let mut s = String::from_str(commit);
    s.append(":");
    s.append(file_path);
    s
}

proof fn lemma_diff_line(letter: char, path: Seq<char>)
    requires
        !crate::text::is_space(letter),
        path.len() > 0,
        !crate::text::is_space(path.last()),
    ensures
        ({
            let line = seq![letter, '\t'] + path;
            &&& trim(line) == line
            &&& first_index(line, '\t') == 1
            &&& line.take(1) == seq![letter]
            &&& line.skip(2) == path
        }),
{
    let line = seq![letter, '\t'] + path;
    assert(line[0] == letter && line[1] == '\t');
    assert(line.last() == path.last());
    assert(crate::text::trim_start(line) == line);
    assert(crate::text::trim_end(line) == line);
    assert(letter != '\t');
    crate::text::lemma_first_index(line, '\t', 1);
    assert(line.take(1) =~= seq![letter]);
    assert(line.skip(2) =~= path);
}

/// A line of git's list tells what happened to a file: `A` that it was added, `M` that it was
/// modified, `D` that it was deleted; the file is all that stands behind the tab. Other letters are
/// passed over, and so are empty lines; a line without a tab is malformed.
pub proof fn law_letters_tell_what_happened(letter: char, path: Seq<char>, word: Seq<char>)
    requires
        !crate::text::is_space(letter),
        path.len() > 0,
        !crate::text::is_space(path.last()),
        word.len() > 0,
        trim(word) == word,
        !word.contains('\t'),
    ensures
        diff_line(seq![letter, '\t'] + path) == (if letter == 'A' {
            DiffLine::File(ChangedFileView { status: FileStatus::Added, path })
        } else if letter == 'M' {
            DiffLine::File(ChangedFileView { status: FileStatus::Modified, path })
        } else if letter == 'D' {
            DiffLine::File(ChangedFileView { status: FileStatus::Deleted, path })
        } else {
            DiffLine::Skip
        }),
        diff_line(word) is Malformed,
        diff_line(seq![]) is Skip,
{
    lemma_diff_line(letter, path);
    assert(seq![letter][0] == letter);
    assert(seq!['A'][0] == 'A' && seq!['M'][0] == 'M' && seq!['D'][0] == 'D');
    assert forall|j: int| 0 <= j < word.len() implies word[j] != '\t' by {
        assert(word.contains(word[j]));
    }
    crate::text::lemma_first_index(word, '\t', word.len() as int);
    assert(crate::text::trim_start(Seq::<char>::empty()) == Seq::<char>::empty());
}

/// All lines of git's list count, in their order: the files of two lists together are those of the
/// first and then those of the second, and a malformed line anywhere spoils the whole.
pub proof fn law_all_lines_of_a_diff_count(a: Seq<Seq<char>>, b: Seq<Seq<char>>, one: Seq<char>)
    ensures
        diff_files(a + b) is Some <==> diff_files(a) is Some && diff_files(b) is Some,
        diff_files(a + b) is Some ==> diff_files(a + b).unwrap() == diff_files(a).unwrap()
            + diff_files(b).unwrap(),
        diff_files(seq![one]) == (match diff_line(one) {
            DiffLine::File(f) => Some(seq![f]),
            DiffLine::Skip => Some(Seq::<ChangedFileView>::empty()),
            DiffLine::Malformed => None,
        }),
    decreases b.len(),
{
    assert(seq![one].drop_last() =~= seq![]);
    reveal_with_fuel(diff_files, 2);
    match diff_line(one) {
        DiffLine::File(f) => {
            assert(Seq::<ChangedFileView>::empty().push(f) =~= seq![f]);
        },
        _ => {},
    }
    if b.len() == 0 {
        assert(a + b =~= a);
        if diff_files(a) is Some {
            assert(diff_files(a).unwrap() + diff_files(b).unwrap() =~= diff_files(a).unwrap());
        }
    } else {
        law_all_lines_of_a_diff_count(a, b.drop_last(), one);
        assert((a + b).drop_last() =~= a + b.drop_last());
        if diff_files(a + b) is Some {
            assert(diff_files(a + b).unwrap() =~= diff_files(a).unwrap() + diff_files(b).unwrap());
        }
    }
}

/// The trees of the old and the new commit are compared, in this order; a name of nothing but zeros
/// stands for no commit, and then the new tree is compared with the empty one.
pub proof fn law_diff_goes_from_old_to_new(old_sha: Seq<char>, new_sha: Seq<char>, n: nat)
    ensures
        (exists|i: int| 0 <= i < old_sha.len() && #[trigger] old_sha[i] != '0') ==> diff_tree_args(
            old_sha,
            new_sha,
        )[4] == old_sha,
        diff_tree_args(Seq::new(n, |i: int| '0'), new_sha)[4]
            == "4b825dc642cb6eb9a060e54bf8d69288fbee4904"@,
        diff_tree_args(old_sha, new_sha)[5] == new_sha,
        diff_tree_args(old_sha, new_sha).len() == 6,
        diff_tree_args(old_sha, new_sha)[0] == "diff-tree"@,
        diff_tree_args(old_sha, new_sha).contains("-r"@),
        diff_tree_args(old_sha, new_sha).contains("--name-status"@),
{
    let args = diff_tree_args(old_sha, new_sha);
    assert(args[1] == "-r"@ && args[2] == "--name-status"@);
}

/// What a value says in contracts is what its fields say, each in its own place.
pub proof fn law_views_show_every_field(changed_file: ChangedFile)
    ensures
        changed_file@.status == changed_file.status,
        changed_file@.path == changed_file.path@,
{
}

/// A list says in contracts what its items say, one for one and in their order.
pub proof fn law_items_are_read_one_for_one(v: Seq<ChangedFile>)
    ensures
        file_views(v).len() == v.len(),
        forall|i: int| 0 <= i < v.len() ==> #[trigger] file_views(v)[i] == v[i]@,
{
}

} // verus!
