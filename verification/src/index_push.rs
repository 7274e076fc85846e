//! The course of indexing a push: which file is read next, whether the push is held to its version,
//! which functions are compared, and how it ends.

use vstd::prelude::*;
use vstd::string::*;
use crate::index::{
    apply_states, conclude_push, deletions, embedding_input, file_writes, functions_seen, indexable,
    indexes, lemma_push_writes_set_no_state, lemma_states_stay, opt_sigs, pair_views, paths_left,
    paths_with, push_writes, removals, to_assess, write_views, ExtractedSig, FileOutcome, IndexState,
    IndexWrite, IndexWriteView, PushIndex, PushIndexView, StateTable,
};
use crate::git::zero_sha;
use crate::index_git::{file_views, ChangedFile, FileStatus};
use crate::text::{opt_str, opt_text, texts};

verus! {

/// A push that is being indexed.
#[derive(Debug)]
pub struct IndexPush {
    repo_id: String,
    new_sha: String,
    version: Option<String>,
    had_version: bool,
    previous_sigs: usize,
    files: Vec<String>,
    index: PushIndex,
    compares: bool,
    functions: Vec<(String, String)>,
    breaking: Vec<(String, String)>,
    verdict: Option<Result<(), String>>,
}

/// How far a push has been indexed.
#[verifier::ext_equal]
pub struct IndexPushView {
    pub repo_id: Seq<char>,
    pub new_sha: Seq<char>,
    /// The version in the manifest of the new commit.
    pub version: Option<Seq<char>>,
    /// Whether an earlier push had a version.
    pub had_version: bool,
    /// How many functions were known before.
    pub previous_sigs: nat,
    /// The files that are still to be indexed.
    pub files: Seq<Seq<char>>,
    pub index: PushIndexView,
    /// Whether the functions before and after the push are known to differ where they do.
    pub compares: bool,
    /// The functions that are still to be assessed, with the files they are in.
    pub functions: Seq<(Seq<char>, Seq<char>)>,
    /// The functions whose behaviour was found to break, with the reasons.
    pub breaking: Seq<(Seq<char>, Seq<char>)>,
    /// Whether the version was found to be enough, or why it was not.
    pub verdict: Option<Result<(), Seq<char>>>,
}

pub open spec fn verdict_view(v: Option<Result<(), String>>) -> Option<Result<(), Seq<char>>> {
    match v {
        Some(Ok(u)) => Some(Ok(u)),
        Some(Err(e)) => Some(Err(e@)),
        None => None,
    }
}

impl View for IndexPush {
    type V = IndexPushView;

    closed spec fn view(&self) -> IndexPushView {
        IndexPushView {
            repo_id: self.repo_id@,
            new_sha: self.new_sha@,
            version: opt_text(self.version),
            had_version: self.had_version,
            previous_sigs: self.previous_sigs as nat,
            files: texts(self.files@),
            index: self.index@,
            compares: self.compares,
            functions: pair_views(self.functions@),
            breaking: pair_views(self.breaking@),
            verdict: verdict_view(self.verdict),
        }
    }
}

/// What is to be done next.
#[derive(Debug)]
pub enum IndexStep {
    /// Read a file at the new commit, and extract its signatures where it is source.
    IndexFile(String),
    /// Compare the functions before and after the push.
    Compare,
    /// Read both versions of a file, and ask the model about a function where they differ.
    Assess { name: String, path: String },
    /// Hold the new version against the changes.
    Validate,
    Conclude,
}

pub enum IndexStepView {
    IndexFile(Seq<char>),
    Compare,
    Assess { name: Seq<char>, path: Seq<char> },
    Validate,
    Conclude,
}

impl View for IndexStep {
    type V = IndexStepView;

    open spec fn view(&self) -> IndexStepView {
        match self {
            IndexStep::IndexFile(path) => IndexStepView::IndexFile(path@),
            IndexStep::Compare => IndexStepView::Compare,
            IndexStep::Assess { name, path } => IndexStepView::Assess { name: name@, path: path@ },
            IndexStep::Validate => IndexStepView::Validate,
            IndexStep::Conclude => IndexStepView::Conclude,
        }
    }
}

/// Whether a push is held to its version: it has a manifest, an earlier push had a version, and there
/// are functions to compare.
pub open spec fn held_to_version(v: IndexPushView) -> bool {
    v.version is Some && v.had_version && (v.previous_sigs > 0 || v.index.extracted)
}

/// What is to be done next: all files are indexed first; where the push is held to its version the
/// functions are compared, those that need it assessed, and the version judged.
pub open spec fn step_of(v: IndexPushView) -> IndexStepView {
    if v.files.len() > 0 {
        IndexStepView::IndexFile(v.files[0])
    } else if !held_to_version(v) || v.verdict is Some {
        IndexStepView::Conclude
    } else if !v.compares {
        IndexStepView::Compare
    } else if v.functions.len() > 0 {
        IndexStepView::Assess { name: v.functions[0].0, path: v.functions[0].1 }
    } else {
        IndexStepView::Validate
    }
}

/// A push before any of its files were indexed.
pub open spec fn started(
    v: IndexPushView,
    repo_id: Seq<char>,
    old_sha: Seq<char>,
    new_sha: Seq<char>,
    version: Option<Seq<char>>,
    had_version: bool,
    previous_sigs: nat,
    changed: Seq<ChangedFile>,
) -> bool {
    &&& v.repo_id == repo_id
    &&& v.new_sha == new_sha
    &&& v.version == version
    &&& v.had_version == had_version
    &&& v.previous_sigs == previous_sigs
    &&& v.files == paths_left(file_views(changed))
    &&& v.index == (PushIndexView {
        initial: old_sha == zero_sha(),
        modified: paths_with(file_views(changed), FileStatus::Modified).to_set(),
        functions: Map::empty(),
        extracted: false,
    })
    &&& !v.compares
    &&& v.functions.len() == 0
    &&& v.breaking.len() == 0
    &&& v.verdict is None
}

/// Start indexing a push. The signatures of the files that it deleted are removed first.
pub fn index_push(
    repo_id: &str,
    old_sha: &str,
    new_sha: &str,
    version: Option<String>,
    had_version: bool,
    previous_sigs: usize,
    changed: &Vec<ChangedFile>,
) -> (r: (IndexPush, Vec<IndexWrite>))
    ensures
        started(
            r.0@,
            repo_id@,
            old_sha@,
            new_sha@,
            opt_text(version),
            had_version,
            previous_sigs as nat,
            changed@,
        ),
        write_views(r.1@) == removals(
            repo_id@,
            paths_with(file_views(changed@), FileStatus::Deleted),
        ),
        in_order(r.0@),
        r.0@.repo_id == repo_id@,
        r.0@.new_sha == new_sha@,
        r.0@.version == opt_text(version),
        r.0@.had_version == had_version,
        r.0@.previous_sigs == previous_sigs,
        r.0@.breaking.len() == 0,
        r.0@.verdict is None,
{
    let writes = deletions(repo_id, changed);
    let run = IndexPush {
        repo_id: String::from_str(repo_id),
        new_sha: String::from_str(new_sha),
        version,
        had_version,
        previous_sigs,
        files: indexable(changed),
        index: PushIndex::new(old_sha, changed),
        compares: false,
        functions: Vec::new(),
        breaking: Vec::new(),
        verdict: None,
    };
    (run, writes)
}

impl IndexPush {
    /// What is to be done next.
    pub fn next(&self) -> (r: IndexStep)
        ensures
            r@ == step_of(self@),
    {
        if self.files.len() > 0 {
            proof {
                assert(texts(self.files@)[0] == self.files@[0]@);
            }
            return IndexStep::IndexFile(self.files[0].clone());
        }
        let held = self.index.checks_version(
            self.version.is_some(),
            self.had_version,
            self.previous_sigs,
        );
        if !held || self.verdict.is_some() {
            IndexStep::Conclude
        } else if !self.compares {
            IndexStep::Compare
        } else if self.functions.len() > 0 {
            proof {
                assert(pair_views(self.functions@)[0] == (
                    self.functions@[0].0@,
                    self.functions@[0].1@,
                ));
            }
            IndexStep::Assess {
                name: self.functions[0].0.clone(),
                path: self.functions[0].1.clone(),
            }
        } else {
            IndexStep::Validate
        }
    }

    /// Go on after a file was read and its signatures were extracted, as far as they could be: what is
    /// written for the file, and the texts to embed.
    pub fn file_read(
        &mut self,
        content: Option<&str>,
        sigs: Option<&Vec<ExtractedSig>>,
        ids: &Vec<String>,
    ) -> (r: (Vec<IndexWrite>, Vec<String>))
        requires
            step_of(old(self)@) is IndexFile,
            sigs matches Some(v) ==> ids@.len() == v@.len(),
        ensures
            write_views(r.0@) == file_writes(
                old(self)@.repo_id,
                old(self)@.new_sha,
                old(self)@.files[0],
                opt_str(content),
                opt_sigs(sigs),
                texts(ids@),
            ),
            final(self)@ == (IndexPushView {
                files: old(self)@.files.drop_first(),
                index: if indexes(opt_str(content), opt_sigs(sigs)) {
                    PushIndexView {
                        functions: functions_seen(
                            old(self)@.index.functions,
                            old(self)@.files[0],
                            sigs.unwrap()@,
                        ),
                        extracted: old(self)@.index.extracted || sigs.unwrap()@.len() > 0,
                        ..old(self)@.index
                    }
                } else {
                    old(self)@.index
                },
                ..old(self)@
            }),
            if indexes(opt_str(content), opt_sigs(sigs)) {
                &&& r.1@.len() == sigs.unwrap()@.len()
                &&& forall|i: int|
                    0 <= i < r.1@.len() ==> (#[trigger] r.1@[i])@ == embedding_input(
                        sigs.unwrap()@[i],
                        old(self)@.files[0],
                        content.unwrap()@,
                    )
            } else {
                r.1@.len() == 0
            },
    {
        let ghost before = self@;
        proof {
            assert(before.files[0] == self.files@[0]@);
        }
        let path = self.files.remove(0);
        let r = self.index.index_file(
            self.repo_id.as_str(),
            self.new_sha.as_str(),
            path.as_str(),
            content,
            sigs,
            ids,
        );
        proof {
            assert(self@.files =~= before.files.drop_first());
        }
        r
    }

    /// Go on knowing which functions there were or are, and whether the type of each is unchanged.
    pub fn compared(&mut self, changes: &Vec<(String, bool)>)
        requires
            step_of(old(self)@) is Compare,
        ensures
            final(self)@ == (IndexPushView {
                compares: true,
                functions: to_assess(old(self)@.index, changes@),
                ..old(self)@
            }),
    {
        self.functions = self.index.assessments(changes);
        self.compares = true;
    }

    /// Go on after a function was assessed, with the reason why its change breaks, where it does.
    pub fn assessed(&mut self, reason: Option<String>)
        requires
            step_of(old(self)@) is Assess,
        ensures
            final(self)@ == (IndexPushView {
                functions: old(self)@.functions.drop_first(),
                breaking: match reason {
                    Some(why) => old(self)@.breaking.push((old(self)@.functions[0].0, why@)),
                    None => old(self)@.breaking,
                },
                ..old(self)@
            }),
    {
        let ghost before = self@;
        let ghost found = self.breaking@;
        proof {
            assert(before.functions[0] == (self.functions@[0].0@, self.functions@[0].1@));
        }
        let (name, _) = self.functions.remove(0);
        match reason {
            Some(why) => {
                self.breaking.push((name, why));
                proof {
                    assert(pair_views(self.breaking@) =~= pair_views(found).push((name@, why@)));
                }
            },
            None => {},
        }
        proof {
            assert(self@.functions =~= before.functions.drop_first());
        }
    }

    /// The functions whose behaviour was found to break, with the reasons.
    pub fn breaking(&self) -> (r: &Vec<(String, String)>)
        ensures
            pair_views(r@) == self@.breaking,
    {
        &self.breaking
    }

    /// Go on after the version was judged.
    pub fn judged(&mut self, verdict: Result<(), String>)
        requires
            step_of(old(self)@) is Validate,
        ensures
            final(self)@ == (IndexPushView {
                verdict: verdict_view(Some(verdict)),
                ..old(self)@
            }),
    {
        self.verdict = Some(verdict);
    }

    /// How the push ends. One whose version is not enough is refused and leaves the index state as it
    /// was; any other sets it to the new commit and the manifest's version.
    pub fn conclude(self) -> (r: Result<IndexWrite, String>)
        requires
            step_of(self@) is Conclude,
        ensures
            match concluded(self@) {
                Err(why) => r matches Err(e) && e@ == why,
                Ok(w) => r matches Ok(x) && x@ == w,
            },
    {
        let verdict = match self.verdict {
            Some(v) => v,
            None => Ok(()),
        };
        conclude_push(self.repo_id.as_str(), self.new_sha.as_str(), self.version, verdict)
    }
}

/// How a push ends.
pub open spec fn concluded(v: IndexPushView) -> Result<IndexWriteView, Seq<char>> {
    match v.verdict {
        Some(Err(why)) => Err("semver violation: "@ + why),
        _ => Ok(
            IndexWriteView::SetState {
                repo_id: v.repo_id,
                commit: v.new_sha,
                version: match v.version {
                    Some(version) => version,
                    None => seq![],
                },
            },
        ),
    }
}

/// Everything that a push writes: the signatures of deleted files are removed, those of the other
/// files are replaced, and in the end the state is set unless the push is refused.
pub open spec fn all_writes(
    v: IndexPushView,
    deleted: Seq<Seq<char>>,
    files: Seq<FileOutcome>,
) -> Seq<IndexWriteView> {
    removals(v.repo_id, deleted) + push_writes(v.repo_id, v.new_sha, files) + (match concluded(v) {
        Ok(w) => seq![w],
        Err(_) => seq![],
    })
}

/// Whether a push can have come this far: its version is judged only where it is held to one, and
/// functions are assessed only once they have been compared.
pub open spec fn in_order(v: IndexPushView) -> bool {
    &&& v.verdict is Some ==> held_to_version(v) && v.files.len() == 0
    &&& v.compares ==> held_to_version(v) && v.files.len() == 0
    &&& v.functions.len() > 0 ==> v.compares
    &&& v.breaking.len() > 0 ==> v.compares
}

/// A push without a manifest, or into a repository that never had a version, is never refused.
pub proof fn law_push_without_versions_is_accepted(v: IndexPushView)
    requires
        in_order(v),
        v.version is None || !v.had_version,
    ensures
        v.files.len() == 0 ==> step_of(v) is Conclude,
        v.verdict is None,
{
}

/// Nothing is judged before all files are indexed, and a push that is held to its version does not
/// end before it was judged.
pub proof fn law_version_is_judged_last(v: IndexPushView)
    requires
        in_order(v),
    ensures
        step_of(v) is Validate ==> v.files.len() == 0 && v.compares && v.functions.len() == 0,
        step_of(v) is Conclude && held_to_version(v) ==> v.verdict is Some,
{
}

/// A push that is accepted sets the state of its repository to the new commit and the version in its
/// manifest, and that of no other repository. A push that is refused leaves every state as it was,
/// so that the next push is held to the version that was accepted last.
pub proof fn law_state_follows_accepted_pushes(
    s: StateTable,
    v: IndexPushView,
    deleted: Seq<Seq<char>>,
    files: Seq<FileOutcome>,
)
    requires
        in_order(v),
        step_of(v) is Conclude,
    ensures
        concluded(v) is Err <==> v.verdict matches Some(Err(_)),
        concluded(v) is Ok ==> apply_states(s, all_writes(v, deleted, files)) == s.insert(
            v.repo_id,
            IndexState {
                commit: v.new_sha,
                version: match v.version {
                    Some(version) => version,
                    None => seq![],
                },
            },
        ),
        concluded(v) is Err ==> apply_states(s, all_writes(v, deleted, files)) == s,
{
    let first = removals(v.repo_id, deleted);
    let second = push_writes(v.repo_id, v.new_sha, files);
    let before = first + second;
    lemma_push_writes_set_no_state(v.repo_id, v.new_sha, files);
    assert forall|i: int| 0 <= i < before.len() implies !(#[trigger] before[i] is SetState) by {
        if i < first.len() {
            assert(before[i] == first[i]);
        } else {
            assert(before[i] == second[i - first.len()]);
        }
    }
    lemma_states_stay(s, before);
    let all = all_writes(v, deleted, files);
    if concluded(v) is Ok {
        assert(all.drop_last() =~= before);
    } else {
        assert(all =~= before);
    }
}

/// How much is left to do: files to index, functions to compare and to assess, and the verdict.
pub open spec fn left(v: IndexPushView) -> (nat, nat) {
    (
        v.files.len(),
        v.functions.len() + (if v.compares {
            0nat
        } else {
            2nat
        }) + (if v.verdict is Some {
            0nat
        } else {
            1nat
        }),
    )
}

/// Every step keeps the order and leaves less to do, but for the functions that are first found when
/// they are compared: so that indexing ends.
pub proof fn law_indexing_goes_on(
    v: IndexPushView,
    index: PushIndexView,
    functions: Seq<(Seq<char>, Seq<char>)>,
    reason: Option<Seq<char>>,
    verdict: Result<(), Seq<char>>,
)
    requires
        in_order(v),
    ensures
        step_of(v) is IndexFile ==> ({
            let w = IndexPushView { files: v.files.drop_first(), index, ..v };
            in_order(w) && left(w).0 < left(v).0
        }),
        step_of(v) is Compare ==> ({
            let w = IndexPushView { compares: true, functions, ..v };
            in_order(w) && left(w).1 == functions.len() + 1
        }),
        step_of(v) is Assess ==> ({
            let w = IndexPushView {
                functions: v.functions.drop_first(),
                breaking: match reason {
                    Some(why) => v.breaking.push((v.functions[0].0, why)),
                    None => v.breaking,
                },
                ..v
            };
            in_order(w) && left(w).1 < left(v).1
        }),
        step_of(v) is Validate ==> ({
            let w = IndexPushView { verdict: Some(verdict), ..v };
            in_order(w) && left(w).1 < left(v).1 && step_of(w) is Conclude
        }),
{
}

/// A version is enforced: a push with a manifest, into a repository that had a version before, where
/// there are functions to compare, does not come to its end without a verdict; and a verdict against
/// it is its end, with the reason told.
pub proof fn law_versions_are_enforced(v: IndexPushView, why: Seq<char>)
    requires
        v.version is Some,
        v.had_version,
        v.previous_sigs > 0 || v.index.extracted,
    ensures
        v.verdict is None ==> !(step_of(v) is Conclude),
        v.verdict == Some(Err::<(), Seq<char>>(why)) ==> concluded(v) is Err && concluded(v)->Err_0
            == "semver violation: "@ + why,
        v.verdict matches Some(Ok(_)) ==> concluded(v) is Ok,
        v.files.len() == 0 && v.verdict is None && !v.compares ==> step_of(v) is Compare,
        v.files.len() == 0 && v.verdict is None && v.compares && v.functions.len() == 0 ==> step_of(
            v,
        ) is Validate,
{
}

/// Files are indexed first, in their order, and then functions are assessed in theirs, each in the
/// file that stands beside it.
pub proof fn law_files_and_functions_are_taken_in_order(v: IndexPushView)
    ensures
        v.files.len() > 0 ==> step_of(v) == IndexStepView::IndexFile(v.files.first()),
        v.files.len() == 0 && v.version is Some && v.had_version && v.previous_sigs > 0 && v.compares
            && v.verdict is None && v.functions.len() > 0 ==> step_of(v) == (IndexStepView::Assess {
            name: v.functions.first().0,
            path: v.functions.first().1,
        }),
{
}

/// What a value says in contracts is what its fields say, each in its own place.
pub proof fn law_views_show_every_field(index_step: IndexStep)
    ensures
        index_step@ == (match index_step {
            IndexStep::IndexFile(path) => IndexStepView::IndexFile(path@),
            IndexStep::Compare => IndexStepView::Compare,
            IndexStep::Assess { name, path } => IndexStepView::Assess { name: name@, path: path@ },
            IndexStep::Validate => IndexStepView::Validate,
            IndexStep::Conclude => IndexStepView::Conclude,
        }),
{
}

/// A push that was refused tells why, and one that was not leaves the commit and the version behind as
/// the state of the repository.
pub proof fn law_refused_push_tells_why(v: IndexPushView)
    ensures
        concluded(v) is Err <==> v.verdict is Some && v.verdict.unwrap() is Err,
        v.verdict matches Some(Err(why)) ==> concluded(v) == Err::<IndexWriteView, Seq<char>>(
            "semver violation: "@ + why,
        ),
{
}

} // verus!
