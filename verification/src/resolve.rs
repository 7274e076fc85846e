//! Resolving dependencies.
//!
//! A dependency names a repository and the versions of it that are acceptable. The resolver walks
//! the dependencies and, depth first, the dependencies of what it has chosen. What versions exist,
//! which of them are acceptable and what they depend on is looked up by the caller.

use vstd::prelude::*;
use vstd::string::*;
use crate::format::{can_shorten, shorten, shortened, TextFormat};
use crate::status::Status;
use crate::table::Table;
use crate::text::{chars_of, same_text, splitn, splitn_chars, texts};

verus! {

// ---------------------------------------------------------------------------
// Types
// ---------------------------------------------------------------------------

#[derive(Debug)]
pub struct ResolveRequest {
    pub dependencies: Table<DepSpec>,
}

#[derive(Debug)]
pub struct DepSpec {
    /// The repository, as "owner/repo".
    pub repo: String,
    /// The acceptable versions, such as "^1.0".
    pub version: String,
}

#[derive(Debug)]
pub struct ResolvedDep {
    pub repo: String,
    pub version: String,
    pub commit_sha: String,
    pub transitive: bool,
}

/// What a resolved dependency says.
#[verifier::ext_equal]
pub struct ResolvedDepView {
    pub repo: Seq<char>,
    pub version: Seq<char>,
    pub commit_sha: Seq<char>,
    pub transitive: bool,
}

impl View for ResolvedDep {
    type V = ResolvedDepView;

    open spec fn view(&self) -> ResolvedDepView {
        ResolvedDepView {
            repo: self.repo@,
            version: self.version@,
            commit_sha: self.commit_sha@,
            transitive: self.transitive,
        }
    }
}

pub struct ResolveResponse {
    pub resolved: Table<ResolvedDep>,
    pub flake_inputs: Table<String>,
}

/// The line that shows what a dependency was resolved to.
pub open spec fn resolved_line(name: Seq<char>, d: ResolvedDepView) -> Seq<char> {
    name + ": "@ + d.repo + " v"@ + d.version + " @ "@ + shortened(d.commit_sha) + (
    if d.transitive {
        " (transitive)"@
    } else {
        ""@
    }) + "\n"@
}

pub open spec fn resolved_lines(names: Seq<Seq<char>>, m: Map<Seq<char>, ResolvedDep>) -> Seq<char>
    decreases names.len(),
{
    if names.len() == 0 {
        seq![]
    } else {
        resolved_lines(names.drop_last(), m) + resolved_line(names.last(), m[names.last()]@)
    }
}

/// The lines of a nix flake's inputs.
pub open spec fn input_lines(names: Seq<Seq<char>>, m: Map<Seq<char>, String>) -> Seq<char>
    decreases names.len(),
{
    if names.len() == 0 {
        seq![]
    } else {
        input_lines(names.drop_last(), m) + "  "@ + names.last() + " = \""@ + m[names.last()]@
            + "\"\n"@
    }
}

impl TextFormat for ResolveResponse {
    open spec fn text(&self) -> Seq<char> {
        resolved_lines(self.resolved.order(), self.resolved@) + (if self.flake_inputs@.dom().len()
            == 0 {
            seq![]
        } else {
            "\nnix flake inputs:\n"@ + input_lines(self.flake_inputs.order(), self.flake_inputs@)
        })
    }

    open spec fn renders(&self) -> bool {
        forall|k: Seq<char>| #[trigger]
            self.resolved@.dom().contains(k) ==> can_shorten(self.resolved@[k].commit_sha@)
    }

    fn to_text(&self) -> (r: String) {
        let mut s = String::new();
        let names = self.resolved.keys();
        let ghost t = texts(names@);
        let mut i: usize = 0;
        proof {
            assert(t.take(0) =~= seq![]);
        }
        while i < names.len()
            invariant
                i <= names@.len(),
                t == texts(names@),
                t.to_set() == self.resolved@.dom(),
                self.renders(),
                s@ == resolved_lines(t.take(i as int), self.resolved@),
            decreases names@.len() - i,
        {
            proof {
                assert(t.take(i as int + 1).drop_last() =~= t.take(i as int));
                assert(t[i as int] == names@[i as int]@);
                assert(t.to_set().contains(t[i as int]));
            }
            match self.resolved.get(names[i].as_str()) {
                Some(d) => {
                    s.append(names[i].as_str());
                    s.append(": ");
                    s.append(d.repo.as_str());
                    s.append(" v");
                    s.append(d.version.as_str());
                    s.append(" @ ");
                    s.append(shorten(d.commit_sha.as_str()));
                    s.append(
                        if d.transitive {
                            " (transitive)"
                        } else {
                            ""
                        },
                    );
                    s.append("\n");
                    proof {
                        let l = resolved_line(t[i as int], d@);
                        assert(s@ =~= resolved_lines(t.take(i as int), self.resolved@) + l);
                    }
                },
                None => {},
            }
            i += 1;
        }
        proof {
            assert(t.take(i as int) =~= t);
        }
        let ghost shown = s@;
        if self.flake_inputs.len() == 0 {
            proof {
                assert(s@ + Seq::<char>::empty() =~= s@);
            }
            return s;
        }
        let names = self.flake_inputs.keys();
        let ghost t = texts(names@);
        let mut inputs = String::from_str("\nnix flake inputs:\n");
        let ghost heading = inputs@;
        let mut i: usize = 0;
        proof {
            assert(t.take(0) =~= seq![]);
            assert(heading + Seq::<char>::empty() =~= heading);
        }
        while i < names.len()
            invariant
                i <= names@.len(),
                t == texts(names@),
                t.to_set() == self.flake_inputs@.dom(),
                inputs@ == heading + input_lines(t.take(i as int), self.flake_inputs@),
            decreases names@.len() - i,
        {
            proof {
                assert(t.take(i as int + 1).drop_last() =~= t.take(i as int));
                assert(t[i as int] == names@[i as int]@);
                assert(t.to_set().contains(t[i as int]));
            }
            let ghost before = inputs@;
            match self.flake_inputs.get(names[i].as_str()) {
                Some(url) => {
                    inputs.append("  ");
                    inputs.append(names[i].as_str());
                    inputs.append(" = \"");
                    inputs.append(url.as_str());
                    inputs.append("\"\n");
                    proof {
                        let above = input_lines(t.take(i as int), self.flake_inputs@);
                        assert(inputs@ =~= heading + (above + "  "@ + t[i as int] + " = \""@ + url@
                            + "\"\n"@));
                    }
                },
                None => {},
            }
            i += 1;
        }
        proof {
            assert(t.take(i as int) =~= t);
        }
        s.append(inputs.as_str());
        s
    }
}

// ---------------------------------------------------------------------------
// Choosing a version
// ---------------------------------------------------------------------------

/// A version that was published, and whether a dependency accepts it.
#[derive(Debug)]
pub struct Candidate {
    pub version: String,
    pub commit_sha: String,
    pub yanked: bool,
    /// Of two versions the newer one has the greater rank.
    pub rank: usize,
    pub satisfies: bool,
}

pub open spec fn usable(c: Candidate) -> bool {
    c.satisfies && !c.yanked
}

/// The newest version that can be used, and the first of those that are equally new.
pub open spec fn is_newest(cs: Seq<Candidate>, i: int) -> bool {
    &&& 0 <= i < cs.len()
    &&& usable(cs[i])
    &&& forall|j: int| 0 <= j < cs.len() && usable(#[trigger] cs[j]) ==> cs[j].rank <= cs[i].rank
    &&& forall|j: int| 0 <= j < i && usable(#[trigger] cs[j]) ==> cs[j].rank < cs[i].rank
}

/// The version that is chosen, if there is one.
pub open spec fn chosen(cs: Seq<Candidate>) -> Option<Candidate> {
    if exists|i: int| is_newest(cs, i) {
        Some(cs[choose|i: int| is_newest(cs, i)])
    } else {
        None
    }
}

proof fn lemma_chosen(cs: Seq<Candidate>, i: int)
    requires
        is_newest(cs, i),
    ensures
        chosen(cs) == Some(cs[i]),
{
    let k = choose|k: int| is_newest(cs, k);
    assert(is_newest(cs, k));
    if k < i {
        assert(usable(cs[k]));
    } else if i < k {
        assert(usable(cs[i]));
    }
}

/// The version to use.
pub fn newest(cs: &Vec<Candidate>) -> (r: Option<usize>)
    ensures
        match r {
            Some(i) => is_newest(cs@, i as int),
            None => forall|j: int| 0 <= j < cs@.len() ==> !usable(#[trigger] cs@[j]),
        },
{
    let mut best: Option<usize> = None;
    let mut i: usize = 0;
    while i < cs.len()
        invariant
            i <= cs@.len(),
            match best {
                Some(b) => is_newest(cs@.take(i as int), b as int),
                None => forall|j: int| 0 <= j < i ==> !usable(#[trigger] cs@[j]),
            },
        decreases cs@.len() - i,
    {
        proof {
            assert(forall|j: int| 0 <= j < i ==> cs@.take(i as int)[j] == cs@[j]);
            assert(forall|j: int| 0 <= j <= i ==> cs@.take(i as int + 1)[j] == cs@[j]);
        }
        if cs[i].satisfies && !cs[i].yanked {
            match best {
                Some(b) => {
                    if cs[i].rank > cs[b].rank {
                        best = Some(i);
                    }
                },
                None => {
                    best = Some(i);
                },
            }
        }
        i += 1;
    }
    proof {
        assert(cs@.take(i as int) =~= cs@);
    }
    best
}

// ---------------------------------------------------------------------------
// Resolver
// ---------------------------------------------------------------------------

/// A dependency that is to be resolved.
#[derive(Debug)]
pub struct Dependency {
    pub name: String,
    pub repo: String,
    pub requirement: String,
    pub transitive: bool,
}

#[verifier::ext_equal]
pub struct DependencyView {
    pub name: Seq<char>,
    pub repo: Seq<char>,
    pub requirement: Seq<char>,
    pub transitive: bool,
}

impl View for Dependency {
    type V = DependencyView;

    open spec fn view(&self) -> DependencyView {
        DependencyView {
            name: self.name@,
            repo: self.repo@,
            requirement: self.requirement@,
            transitive: self.transitive,
        }
    }
}

pub open spec fn dependency_views(v: Seq<Dependency>) -> Seq<DependencyView> {
    v.map_values(|d: Dependency| d@)
}

/// A dependency that a version declares, with its requirement where that can be read.
#[derive(Debug)]
pub struct DependencyRow {
    pub name: String,
    pub owner: String,
    pub repo: String,
    pub requirement: Option<String>,
}

/// The dependencies without those of a name.
pub open spec fn without(ds: Seq<DependencyView>, name: Seq<char>) -> Seq<DependencyView> {
    ds.filter(|d: DependencyView| d.name != name)
}

/// The dependencies that rows declare. A row whose requirement cannot be read declares none, and a
/// later row takes the place of an earlier one of the same name.
pub open spec fn declared(rows: Seq<DependencyRow>, transitive: bool) -> Seq<DependencyView>
    decreases rows.len(),
{
    if rows.len() == 0 {
        seq![]
    } else {
        let above = declared(rows.drop_last(), transitive);
        let row = rows.last();
        match row.requirement {
            Some(requirement) => without(above, row.name@).push(
                DependencyView {
                    name: row.name@,
                    repo: row.owner@ + "/"@ + row.repo@,
                    requirement: requirement@,
                    transitive,
                },
            ),
            None => above,
        }
    }
}

/// Take the dependencies of a name out.
fn remove_named(ds: &mut Vec<Dependency>, name: &str)
    ensures
        dependency_views(final(ds)@) == without(dependency_views(old(ds)@), name@),
{
    let ghost all = dependency_views(ds@);
    let ghost keep = |d: DependencyView| d.name != name@;
    let mut kept: Vec<Dependency> = Vec::new();
    let mut rest: Vec<Dependency> = Vec::new();
    std::mem::swap(ds, &mut rest);
    proof {
        assert(all.take(0) =~= seq![]);
        reveal(Seq::filter);
        assert(dependency_views(kept@) =~= all.take(0).filter(keep));
    }
    let total: usize = rest.len();
    let ghost given = rest@;
    let mut i: usize = 0;
    while i < total
        invariant
            i <= total,
            total == given.len(),
            rest@ == given.skip(i as int),
            all == dependency_views(given),
            keep == (|d: DependencyView| d.name != name@),
            dependency_views(kept@) == all.take(i as int).filter(keep),
        decreases total - i,
    {
        let d = rest.remove(0);
        proof {
            assert(given.skip(i as int)[0] == given[i as int]);
            assert(given.skip(i as int).remove(0) =~= given.skip(i as int + 1));
            assert(all[i as int] == d@);
            assert(all.take(i as int + 1).drop_last() =~= all.take(i as int));
            assert(all.take(i as int + 1).last() == d@);
            reveal(Seq::filter);
        }
        if !same_text(d.name.as_str(), name) {
            let ghost before = kept@;
            kept.push(d);
            proof {
                assert(dependency_views(kept@) =~= dependency_views(before).push(d@));
            }
        }
        i += 1;
    }
    proof {
        assert(all.take(i as int) =~= all);
    }
    *ds = kept;
}

/// Read the dependencies that rows declare.
pub fn read_declared(rows: &Vec<DependencyRow>, transitive: bool) -> (r: Vec<Dependency>)
    ensures
        dependency_views(r@) == declared(rows@, transitive),
        forall|i: int|
            last_of_its_name(rows@, i) ==> exists|k: int|
                0 <= k < r@.len() && (#[trigger] r@[k])@ == row_dependency(rows@[i], transitive),
        forall|k: int, m: int|
            0 <= k < m < r@.len() ==> (#[trigger] r@[k]).name@ != (#[trigger] r@[m]).name@,
{
    let mut out: Vec<Dependency> = Vec::new();
    let mut i: usize = 0;
    proof {
        assert(rows@.take(0) =~= seq![]);
        assert(dependency_views(out@) =~= declared(rows@.take(0), transitive));
    }
    while i < rows.len()
        invariant
            i <= rows@.len(),
            dependency_views(out@) == declared(rows@.take(i as int), transitive),
        decreases rows@.len() - i,
    {
        proof {
            assert(rows@.take(i as int + 1).drop_last() =~= rows@.take(i as int));
            assert(rows@.take(i as int + 1).last() == rows@[i as int]);
        }
        match &rows[i].requirement {
            Some(requirement) => {
                remove_named(&mut out, rows[i].name.as_str());
                let ghost before = out@;
                let mut repo = rows[i].owner.clone();
                repo.append("/");
                repo.append(rows[i].repo.as_str());
                out.push(
                    Dependency {
                        name: rows[i].name.clone(),
                        repo,
                        requirement: requirement.clone(),
                        transitive,
                    },
                );
                proof {
                    assert(dependency_views(out@) =~= dependency_views(before).push(out@.last()@));
                }
            },
            None => {},
        }
        i += 1;
    }
    proof {
        assert(rows@.take(i as int) =~= rows@);
        law_every_readable_row_is_declared(rows@, transitive);
        let all = dependency_views(out@);
        assert forall|i: int| last_of_its_name(rows@, i) implies exists|k: int|
            0 <= k < out@.len() && (#[trigger] out@[k])@ == row_dependency(rows@[i], transitive) by {
            let want = row_dependency(rows@[i], transitive);
            assert(all.contains(want));
            let k = choose|k: int| 0 <= k < all.len() && all[k] == want;
            assert(all[k] == out@[k]@);
        }
        assert forall|k: int, m: int| 0 <= k < m < out@.len() implies (#[trigger] out@[k]).name@ != (
        #[trigger] out@[m]).name@ by {
            assert(all[k] == out@[k]@ && all[m] == out@[m]@);
        }
    }
    out
}

/// Whether a row is one whose requirement can be read, and the last such row of its name.
pub open spec fn last_of_its_name(rows: Seq<DependencyRow>, i: int) -> bool {
    &&& 0 <= i < rows.len()
    &&& rows[i].requirement is Some
    &&& forall|j: int|
        i < j < rows.len() && (#[trigger] rows[j]).requirement is Some ==> rows[j].name@
            != rows[i].name@
}

/// What a row with a requirement that can be read declares.
pub open spec fn row_dependency(row: DependencyRow, transitive: bool) -> DependencyView {
    DependencyView {
        name: row.name@,
        repo: row.owner@ + "/"@ + row.repo@,
        requirement: row.requirement.unwrap()@,
        transitive,
    }
}

proof fn lemma_without(ds: Seq<DependencyView>, name: Seq<char>)
    requires
        forall|a: int, b: int|
            0 <= a < b < ds.len() ==> (#[trigger] ds[a]).name != (#[trigger] ds[b]).name,
    ensures
        forall|d: DependencyView| #[trigger]
            without(ds, name).contains(d) <==> ds.contains(d) && d.name != name,
        forall|a: int, b: int|
            0 <= a < b < without(ds, name).len() ==> (#[trigger] without(ds, name)[a]).name != (
            #[trigger] without(ds, name)[b]).name,
    decreases ds.len(),
{
    reveal(Seq::filter);
    let kept = without(ds, name);
    if ds.len() == 0 {
        assert(kept =~= seq![]);
    } else {
        let front = ds.drop_last();
        let last = ds.last();
        assert forall|a: int, b: int| 0 <= a < b < front.len() implies (#[trigger] front[a]).name != (
        #[trigger] front[b]).name by {
            assert(ds[a].name != ds[b].name);
        }
        lemma_without(front, name);
        let above = without(front, name);
        assert(kept == (if last.name != name {
            above.push(last)
        } else {
            above
        }));
        assert forall|d: DependencyView| #[trigger] kept.contains(d) <==> ds.contains(d) && d.name
            != name by {
            assert(ds.contains(d) <==> front.contains(d) || d == last) by {
                if front.contains(d) {
                    let j = choose|j: int| 0 <= j < front.len() && front[j] == d;
                    assert(ds[j] == d);
                }
                if ds.contains(d) {
                    let j = choose|j: int| 0 <= j < ds.len() && ds[j] == d;
                    if j < front.len() {
                        assert(front[j] == d);
                    }
                }
                assert(ds[ds.len() - 1] == last);
            }
            assert(above.contains(d) <==> front.contains(d) && d.name != name);
            if kept.contains(d) {
                let j = choose|j: int| 0 <= j < kept.len() && kept[j] == d;
                if j < above.len() {
                    assert(above[j] == d);
                }
            }
            if above.contains(d) {
                let j = choose|j: int| 0 <= j < above.len() && above[j] == d;
                assert(kept[j] == d);
            }
            if last.name != name {
                assert(kept[kept.len() - 1] == last);
            }
        }
        assert forall|a: int, b: int| 0 <= a < b < kept.len() implies (#[trigger] kept[a]).name != (
        #[trigger] kept[b]).name by {
            assert(above[a] == kept[a]);
            if b < above.len() {
                assert(above[b] == kept[b]);
            } else {
                assert(above.contains(kept[a]));
                assert(front.contains(kept[a]));
                let j = choose|j: int| 0 <= j < front.len() && front[j] == kept[a];
                assert(ds[j].name != ds[ds.len() - 1].name);
            }
        }
    }
}

/// Every name among the rows whose requirement can be read is declared, once, and as the last such
/// row of the name says it: with the repository as owner and name, its requirement, and the mark that
/// was given. Nothing else is declared.
pub proof fn law_every_readable_row_is_declared(rows: Seq<DependencyRow>, transitive: bool)
    ensures
        forall|i: int| #[trigger]
            last_of_its_name(rows, i) ==> declared(rows, transitive).contains(
                row_dependency(rows[i], transitive),
            ),
        forall|i: int|
            0 <= i < rows.len() && (#[trigger] rows[i]).requirement is Some ==> exists|k: int|
                0 <= k < declared(rows, transitive).len() && (#[trigger] declared(
                    rows,
                    transitive,
                )[k]).name == rows[i].name@,
        forall|k: int, m: int|
            0 <= k < m < declared(rows, transitive).len() ==> (#[trigger] declared(
                rows,
                transitive,
            )[k]).name != (#[trigger] declared(rows, transitive)[m]).name,
        forall|d: DependencyView| #[trigger]
            declared(rows, transitive).contains(d) ==> exists|i: int| #[trigger]
                last_of_its_name(rows, i) && d == row_dependency(rows[i], transitive),
    decreases rows.len(),
{
    if rows.len() > 0 {
        let front = rows.drop_last();
        let n = rows.len() - 1;
        let above = declared(front, transitive);
        let all = declared(rows, transitive);
        let last = rows[n];
        law_every_readable_row_is_declared(front, transitive);
        assert(forall|i: int| 0 <= i < n ==> front[i] == rows[i]);
        lemma_without(above, last.name@);
        let kept = without(above, last.name@);
        assert forall|i: int| #[trigger] last_of_its_name(rows, i) implies all.contains(
            row_dependency(rows[i], transitive),
        ) by {
            let want = row_dependency(rows[i], transitive);
            if i < n {
                assert(last_of_its_name(front, i)) by {
                    assert forall|j: int|
                        i < j < front.len() && (#[trigger] front[j]).requirement is Some implies front[j].name@
                        != front[i].name@ by {
                        assert(rows[j] == front[j]);
                    }
                }
                assert(above.contains(want));
                if last.requirement is Some {
                    assert(rows[n].name@ != rows[i].name@);
                    assert(kept.contains(want));
                    let k = choose|k: int| 0 <= k < kept.len() && kept[k] == want;
                    assert(all[k] == want);
                }
            } else {
                assert(all[all.len() - 1] == want);
            }
        }
        assert forall|k: int, m: int| 0 <= k < m < all.len() implies (#[trigger] all[k]).name != (
        #[trigger] all[m]).name by {
            if last.requirement is Some {
                assert(all[k] == kept[k]);
                if m < kept.len() {
                    assert(all[m] == kept[m]);
                } else {
                    assert(kept.contains(kept[k]));
                }
            }
        }
        assert forall|d: DependencyView| #[trigger] all.contains(d) implies exists|i: int| #[trigger]
            last_of_its_name(rows, i) && d == row_dependency(rows[i], transitive) by {
            let k = choose|k: int| 0 <= k < all.len() && all[k] == d;
            if last.requirement is Some && k == kept.len() {
                assert(last_of_its_name(rows, n));
            } else {
                if last.requirement is Some {
                    assert(kept[k] == d);
                    assert(kept.contains(d));
                }
                assert(above.contains(d));
                let i = choose|i: int| #[trigger]
                    last_of_its_name(front, i) && d == row_dependency(front[i], transitive);
                assert(front[i] == rows[i]);
                assert(last_of_its_name(rows, i)) by {
                    assert forall|j: int|
                        i < j < rows.len() && (#[trigger] rows[j]).requirement is Some implies rows[j].name@
                        != rows[i].name@ by {
                        if j < n {
                            assert(front[j] == rows[j]);
                        }
                    }
                }
            }
        }
        assert forall|i: int|
            0 <= i < rows.len() && (#[trigger] rows[i]).requirement is Some implies exists|k: int|
            0 <= k < all.len() && (#[trigger] all[k]).name == rows[i].name@ by {
            if last.requirement is Some && rows[i].name@ == last.name@ {
                assert(all[all.len() - 1].name == rows[i].name@);
            } else {
                assert(front[i] == rows[i]);
                let k = choose|k: int|
                    0 <= k < above.len() && (#[trigger] above[k]).name == front[i].name@;
                if last.requirement is Some {
                    assert(above.contains(above[k]));
                    assert(kept.contains(above[k]));
                    let m = choose|m: int| 0 <= m < kept.len() && kept[m] == above[k];
                    assert(all[m] == above[k]);
                } else {
                    assert(all[k] == above[k]);
                }
            }
        }
    }
}

/// What is to be resolved, in the order in which it is, and what has been.
#[derive(Debug)]
pub struct Resolver {
    pub pending: Vec<Dependency>,
    pub resolved: Table<ResolvedDep>,
}

#[verifier::ext_equal]
pub struct ResolverView {
    pub pending: Seq<DependencyView>,
    pub resolved: Map<Seq<char>, ResolvedDepView>,
}

pub open spec fn resolved_views(m: Map<Seq<char>, ResolvedDep>) -> Map<Seq<char>, ResolvedDepView> {
    m.map_values(|d: ResolvedDep| d@)
}

impl View for Resolver {
    type V = ResolverView;

    open spec fn view(&self) -> ResolverView {
        ResolverView {
            pending: dependency_views(self.pending@),
            resolved: resolved_views(self.resolved@),
        }
    }
}

/// What the resolver has to know next.
#[derive(Debug)]
pub enum ResolveStep {
    /// Everything is resolved.
    Finished,
    /// Whether a requirement accepts a version that was chosen before.
    Compare { requirement: String, version: String },
    /// Which versions of a repository there are, and whether a requirement accepts them.
    Versions { owner: String, repo: String, requirement: String },
}

pub type Refusal = (Status, String);

/// A refusal and its message.
pub open spec fn refusal(e: Refusal) -> (Status, Seq<char>) {
    (e.0, e.1@)
}

/// Whether the next dependency is one whose name has been resolved.
pub open spec fn repeats(v: ResolverView) -> bool {
    v.pending.len() > 0 && v.resolved.dom().contains(v.pending[0].name)
}

/// Whether the next dependency is one whose name has not been resolved.
pub open spec fn asks_new(v: ResolverView) -> bool {
    v.pending.len() > 0 && !v.resolved.dom().contains(v.pending[0].name)
}

/// The state after it was told whether the version that was chosen before is acceptable too; nothing
/// where that version cannot be read.
pub open spec fn after_compared(v: ResolverView, accepts: Option<bool>) -> Result<
    ResolverView,
    (Status, Seq<char>),
> {
    let d = v.pending[0];
    let version = v.resolved[d.name].version;
    match accepts {
        None => Err((Status::InternalServerError, "invalid version in resolved: "@ + version)),
        Some(true) => Ok(ResolverView { pending: v.pending.drop_first(), ..v }),
        Some(false) => Err(
            (
                Status::Conflict,
                "conflict: "@ + d.name + " requires "@ + d.requirement + " but "@ + version
                    + " already resolved"@,
            ),
        ),
    }
}

/// The state after it was told which versions there are; nothing where there is no such repository.
pub open spec fn after_versions(v: ResolverView, found: Option<Seq<Candidate>>) -> Result<
    ResolverView,
    (Status, Seq<char>),
> {
    let d = v.pending[0];
    match found {
        None => Err((Status::NotFound, "repo not found: "@ + d.repo)),
        Some(cs) => match chosen(cs) {
            None => Err(
                (
                    Status::NotFound,
                    "no version of "@ + d.repo + " satisfies "@ + d.requirement,
                ),
            ),
            Some(c) => Ok(
                ResolverView {
                    pending: v.pending.drop_first(),
                    resolved: v.resolved.insert(
                        d.name,
                        ResolvedDepView {
                            repo: d.repo,
                            version: c.version@,
                            commit_sha: c.commit_sha@,
                            transitive: d.transitive,
                        },
                    ),
                },
            ),
        },
    }
}

/// The state after it was told what the chosen version depends on: that is resolved before anything
/// else.
pub open spec fn after_dependencies(v: ResolverView, rows: Seq<DependencyRow>) -> ResolverView {
    ResolverView { pending: declared(rows, true) + v.pending, ..v }
}

impl Resolver {
    /// A resolver for the dependencies that a repository declares.
    pub fn declared(rows: &Vec<DependencyRow>) -> (r: Self)
        ensures
            r@ == (ResolverView { pending: declared(rows@, false), resolved: Map::empty() }),
    {
        let r = Resolver { pending: read_declared(rows, false), resolved: Table::new() };
        proof {
            assert(r@.resolved =~= Map::empty());
        }
        r
    }

    /// What has to be known next. A dependency that is not on a repository of some owner is refused.
    pub fn next(&self) -> (r: Result<ResolveStep, Refusal>)
        ensures
            if self@.pending.len() == 0 {
                r matches Ok(s) && s is Finished
            } else {
                let d = self@.pending[0];
                if repeats(self@) {
                    r matches Ok(s) && s matches ResolveStep::Compare { requirement, version }
                        && requirement@ == d.requirement && version@
                        == self@.resolved[d.name].version
                } else {
                    let parts = splitn(d.repo, 2, '/');
                    if parts.len() != 2 {
                        r matches Err(e) && refusal(e) == (
                            Status::BadRequest,
                            "invalid repo ref: "@ + d.repo,
                        )
                    } else {
                        r matches Ok(s) && s matches ResolveStep::Versions {
                            owner,
                            repo,
                            requirement,
                        } && owner@ == parts[0] && repo@ == parts[1] && requirement@
                            == d.requirement
                    }
                }
            },
    {
        if self.pending.len() == 0 {
            return Ok(ResolveStep::Finished);
        }
        let d = &self.pending[0];
        proof {
            assert(self@.pending[0] == d@);
        }
        match self.resolved.get(d.name.as_str()) {
            Some(existing) => {
                proof {
                    assert(self@.resolved[d.name@] == existing@);
                }
                Ok(
                    ResolveStep::Compare {
                        requirement: d.requirement.clone(),
                        version: existing.version.clone(),
                    },
                )
            },
            None => {
                let chars = chars_of(d.repo.as_str());
                let mut parts = splitn_chars(chars.as_slice(), 2, '/');
                let ghost p = texts(parts@);
                if parts.len() != 2 {
                    let mut message = String::from_str("invalid repo ref: ");
                    message.append(d.repo.as_str());
                    return Err((Status::BadRequest, message));
                }
                proof {
                    assert(p[0] == parts@[0]@ && p[1] == parts@[1]@);
                }
                let repo = parts.pop().unwrap();
                let owner = parts.pop().unwrap();
                Ok(ResolveStep::Versions { owner, repo, requirement: d.requirement.clone() })
            },
        }
    }

    /// Go on, knowing whether the requirement accepts the version that was chosen before.
    pub fn compared(&mut self, accepts: Option<bool>) -> (r: Result<(), Refusal>)
        requires
            repeats(old(self)@),
        ensures
            match after_compared(old(self)@, accepts) {
                Ok(v) => r is Ok && final(self)@ == v,
                Err(e) => r matches Err(f) && refusal(f) == e && final(self)@ == old(self)@,
            },
    {
        let ghost before = self@;
        let ghost deps = self.pending@;
        proof {
            assert(before.pending[0] == self.pending@[0]@);
        }
        match self.resolved.get(self.pending[0].name.as_str()) {
            Some(existing) => {
                proof {
                    assert(before.resolved[before.pending[0].name] == existing@);
                }
                match accepts {
                    None => {
                        let mut message = String::from_str("invalid version in resolved: ");
                        message.append(existing.version.as_str());
                        return Err((Status::InternalServerError, message));
                    },
                    Some(false) => {
                        let mut message = String::from_str("conflict: ");
                        message.append(self.pending[0].name.as_str());
                        message.append(" requires ");
                        message.append(self.pending[0].requirement.as_str());
                        message.append(" but ");
                        message.append(existing.version.as_str());
                        message.append(" already resolved");
                        return Err((Status::Conflict, message));
                    },
                    Some(true) => {},
                }
            },
            None => {},
        }
        self.pending.remove(0);
        proof {
            assert(self@.pending =~= before.pending.drop_first());
        }
        Ok(())
    }

    /// Go on, knowing the versions of the repository. What the chosen commit depends on has to be
    /// looked up then.
    pub fn versions(&mut self, found: Option<Vec<Candidate>>) -> (r: Result<String, Refusal>)
        requires
            asks_new(old(self)@),
        ensures
            match after_versions(
                old(self)@,
                match found {
                    Some(cs) => Some(cs@),
                    None => None,
                },
            ) {
                Ok(v) => {
                    &&& r matches Ok(commit)
                    &&& final(self)@ == v
                    &&& commit@ == v.resolved[old(self)@.pending[0].name].commit_sha
                },
                Err(e) => r matches Err(f) && refusal(f) == e && final(self)@ == old(self)@,
            },
    {
        let ghost before = self@;
        let ghost entries = self.resolved@;
        proof {
            assert(before.pending[0] == self.pending@[0]@);
        }
        match found {
            None => {
                let mut message = String::from_str("repo not found: ");
                message.append(self.pending[0].repo.as_str());
                Err((Status::NotFound, message))
            },
            Some(cs) => {
                match newest(&cs) {
                    None => {
                        let mut message = String::from_str("no version of ");
                        message.append(self.pending[0].repo.as_str());
                        message.append(" satisfies ");
                        message.append(self.pending[0].requirement.as_str());
                        Err((Status::NotFound, message))
                    },
                    Some(i) => {
                        proof {
                            lemma_chosen(cs@, i as int);
                        }
                        let d = self.pending.remove(0);
                        let commit_sha = cs[i].commit_sha.clone();
                        let dep = ResolvedDep {
                            repo: d.repo,
                            version: cs[i].version.clone(),
                            commit_sha: cs[i].commit_sha.clone(),
                            transitive: d.transitive,
                        };
                        let ghost dep_view = dep@;
                        self.resolved.insert(d.name, dep);
                        proof {
                            assert(self@.pending =~= before.pending.drop_first());
                            assert(self@.resolved =~= before.resolved.insert(d.name@, dep_view));
                        }
                        Ok(commit_sha)
                    },
                }
            },
        }
    }

    /// Go on, knowing what the chosen commit depends on.
    pub fn dependencies(&mut self, rows: &Vec<DependencyRow>)
        ensures
            final(self)@ == after_dependencies(old(self)@, rows@),
    {
        let ghost before = self@;
        let ghost rest = self.pending@;
        let mut deps = read_declared(rows, true);
        let ghost new = deps@;
        deps.append(&mut self.pending);
        proof {
            assert(dependency_views(deps@) =~= dependency_views(new) + dependency_views(rest));
        }
        self.pending = deps;
    }
}

// ---------------------------------------------------------------------------
// Laws
// ---------------------------------------------------------------------------

/// The newest acceptable version is chosen, and never one that was yanked.
pub proof fn law_newest_acceptable_version_is_chosen(cs: Seq<Candidate>, j: int)
    requires
        0 <= j < cs.len(),
        usable(cs[j]),
    ensures
        chosen(cs) matches Some(c) && c.satisfies && !c.yanked && cs.contains(c) && cs[j].rank
            <= c.rank,
    decreases cs.len(),
{
    lemma_newest_exists(cs, j);
    let i = choose|i: int| is_newest(cs, i);
    assert(is_newest(cs, i));
}

proof fn lemma_newest_exists(cs: Seq<Candidate>, j: int)
    requires
        0 <= j < cs.len(),
        usable(cs[j]),
    ensures
        exists|i: int| is_newest(cs, i),
    decreases cs.len(),
{
    let front = cs.drop_last();
    let last = cs.len() - 1;
    assert(forall|k: int| 0 <= k < last ==> front[k] == cs[k]);
    if exists|k: int| 0 <= k < last && usable(#[trigger] front[k]) {
        let k = choose|k: int| 0 <= k < last && usable(#[trigger] front[k]);
        lemma_newest_exists(front, k);
        let b = choose|b: int| is_newest(front, b);
        if usable(cs[last]) && cs[last].rank > cs[b].rank {
            assert forall|m: int| 0 <= m < last && usable(#[trigger] cs[m]) implies cs[m].rank
                < cs[last].rank by {
                assert(front[m] == cs[m]);
            }
            assert(is_newest(cs, last));
        } else {
            assert forall|m: int| 0 <= m < cs.len() && usable(#[trigger] cs[m]) implies cs[m].rank
                <= cs[b].rank by {
                if m < last {
                    assert(front[m] == cs[m]);
                }
            }
            assert forall|m: int| 0 <= m < b && usable(#[trigger] cs[m]) implies cs[m].rank
                < cs[b].rank by {
                assert(front[m] == cs[m]);
            }
            assert(is_newest(cs, b));
        }
    } else {
        assert forall|m: int| 0 <= m < last implies !usable(#[trigger] cs[m]) by {
            assert(front[m] == cs[m]);
        }
        assert(j == last);
        assert(is_newest(cs, last));
    }
}

/// Whether a name has been resolved or will be.
pub open spec fn wanted(v: ResolverView, name: Seq<char>) -> bool {
    v.resolved.dom().contains(name) || exists|i: int|
        0 <= i < v.pending.len() && (#[trigger] v.pending[i]).name == name
}

/// What has been chosen is never changed, and no dependency is dropped: a name that is wanted stays
/// wanted, so that it has been resolved when nothing is pending.
pub proof fn law_no_dependency_is_dropped(
    v: ResolverView,
    name: Seq<char>,
    accepts: Option<bool>,
    found: Option<Seq<Candidate>>,
    rows: Seq<DependencyRow>,
)
    requires
        wanted(v, name),
    ensures
        repeats(v) ==> (after_compared(v, accepts) matches Ok(w) ==> {
            &&& wanted(w, name)
            &&& w.resolved == v.resolved
        }),
        asks_new(v) ==> (after_versions(v, found) matches Ok(w) ==> {
            &&& wanted(w, name)
            &&& v.resolved.submap_of(w.resolved)
        }),
        wanted(after_dependencies(v, rows), name),
        after_dependencies(v, rows).resolved == v.resolved,
        v.pending.len() == 0 ==> v.resolved.dom().contains(name),
{
    if !v.resolved.dom().contains(name) {
        let i = choose|i: int| 0 <= i < v.pending.len() && (#[trigger] v.pending[i]).name == name;
        if i > 0 {
            assert(v.pending.drop_first()[i - 1] == v.pending[i]);
            if repeats(v) {
                if let Ok(w) = after_compared(v, accepts) {
                    assert(w.pending[i - 1].name == name);
                }
            }
            if asks_new(v) {
                if let Ok(w) = after_versions(v, found) {
                    assert(w.pending[i - 1].name == name);
                }
            }
        }
        let w = after_dependencies(v, rows);
        assert(w.pending[declared(rows, true).len() + i] == v.pending[i]);
    }
}

/// A dependency on something that has been resolved is met by the version that was chosen for it, or
/// refused as a conflict: no name is ever resolved to two versions.
pub proof fn law_one_version_per_name(v: ResolverView, accepts: bool)
    requires
        repeats(v),
    ensures
        after_compared(v, Some(accepts)) is Ok <==> accepts,
        after_compared(v, Some(accepts)) matches Err(e) ==> e.0 == Status::Conflict,
{
}

/// Every step takes a dependency from what is pending or resolves a name for the first time, so that
/// resolving ends where there are finitely many names.
pub proof fn law_resolving_makes_progress(
    v: ResolverView,
    accepts: Option<bool>,
    found: Option<Seq<Candidate>>,
)
    requires
        v.resolved.dom().finite(),
    ensures
        repeats(v) ==> (after_compared(v, accepts) matches Ok(w) ==> w.pending.len()
            == v.pending.len() - 1),
        asks_new(v) ==> (after_versions(v, found) matches Ok(w) ==> w.resolved.dom().len()
            == v.resolved.dom().len() + 1),
{
    if asks_new(v) {
        if let Ok(w) = after_versions(v, found) {
            assert(w.resolved.dom() =~= v.resolved.dom().insert(v.pending[0].name));
        }
    }
}

// ---------------------------------------------------------------------------
// The whole run
// ---------------------------------------------------------------------------

/// What the resolver is told when it asks.
pub struct Registry {
    /// Whether a requirement accepts a version; nothing where the version cannot be read.
    pub accepts: spec_fn(Seq<char>, Seq<char>) -> Option<bool>,
    /// The versions of a repository, held against a requirement; nothing where there is no such
    /// repository.
    pub versions: spec_fn(Seq<char>, Seq<char>) -> Option<Seq<Candidate>>,
    /// What a commit of a repository declares.
    pub rows: spec_fn(Seq<char>, Seq<char>) -> Seq<DependencyRow>,
}

/// Whether a version that is listed as acceptable is one that the requirement accepts.
pub open spec fn consistent(reg: Registry) -> bool {
    forall|repo: Seq<char>, requirement: Seq<char>, i: int|
        #![trigger (reg.versions)(repo, requirement).unwrap()[i]]
        (reg.versions)(repo, requirement) is Some && 0 <= i < (reg.versions)(
            repo,
            requirement,
        ).unwrap().len() && (reg.versions)(repo, requirement).unwrap()[i].satisfies ==> (
        reg.accepts)(requirement, (reg.versions)(repo, requirement).unwrap()[i].version@) == Some(
            true,
        )
}

/// One dependency dealt with: the question that `next` asks is answered.
pub open spec fn resolve_one(reg: Registry, v: ResolverView) -> Result<
    ResolverView,
    (Status, Seq<char>),
> {
    let d = v.pending[0];
    if v.pending.len() == 0 {
        Ok(v)
    } else if repeats(v) {
        after_compared(v, (reg.accepts)(d.requirement, v.resolved[d.name].version))
    } else if splitn(d.repo, 2, '/').len() != 2 {
        Err((Status::BadRequest, "invalid repo ref: "@ + d.repo))
    } else {
        match after_versions(v, (reg.versions)(d.repo, d.requirement)) {
            Err(e) => Err(e),
            Ok(w) => Ok(
                after_dependencies(w, (reg.rows)(d.repo, w.resolved[d.name].commit_sha)),
            ),
        }
    }
}

/// Where the resolver stands once so many dependencies were dealt with.
pub open spec fn resolve_many(reg: Registry, v: ResolverView, steps: nat) -> Result<
    ResolverView,
    (Status, Seq<char>),
>
    decreases steps,
{
    if steps == 0 {
        Ok(v)
    } else {
        match resolve_many(reg, v, (steps - 1) as nat) {
            Ok(w) => resolve_one(reg, w),
            Err(e) => Err(e),
        }
    }
}

/// A resolver that has not begun.
pub open spec fn fresh(pending: Seq<DependencyView>) -> ResolverView {
    ResolverView { pending, resolved: Map::empty() }
}

/// Whether a dependency has been resolved to a version that its requirement accepts.
pub open spec fn met(reg: Registry, v: ResolverView, d: DependencyView) -> bool {
    v.resolved.dom().contains(d.name) && (reg.accepts)(
        d.requirement,
        v.resolved[d.name].version,
    ) == Some(true)
}

/// What a commit that was chosen declares.
pub open spec fn declared_by(reg: Registry, dep: ResolvedDepView) -> Seq<DependencyView> {
    declared((reg.rows)(dep.repo, dep.commit_sha), true)
}

/// Whether what was chosen is the newest version of its repository that some requirement accepts.
pub open spec fn is_newest_of_repo(reg: Registry, dep: ResolvedDepView) -> bool {
    exists|requirement: Seq<char>|
        {
            &&& (#[trigger] (reg.versions)(dep.repo, requirement)) matches Some(cs)
            &&& chosen(cs) matches Some(c)
            &&& c.version@ == dep.version
            &&& c.commit_sha@ == dep.commit_sha
        }
}

/// Whether a dependency has been dealt with or is still to be.
spec fn owed(reg: Registry, v: ResolverView, d: DependencyView) -> bool {
    met(reg, v, d) || v.pending.contains(d)
}

/// What holds of a resolver all the time.
spec fn sound_run(reg: Registry, wanted: Seq<DependencyView>, v: ResolverView) -> bool {
    &&& forall|d: DependencyView| #[trigger] wanted.contains(d) ==> owed(reg, v, d)
    &&& forall|name: Seq<char>, d: DependencyView|
        v.resolved.dom().contains(name) && #[trigger] declared_by(
            reg,
            v.resolved[name],
        ).contains(d) ==> owed(reg, v, d)
    &&& forall|name: Seq<char>|
        #[trigger] v.resolved.dom().contains(name) ==> is_newest_of_repo(reg, v.resolved[name])
}

proof fn lemma_owed_stays(reg: Registry, v: ResolverView, w: ResolverView, d: DependencyView)
    requires
        consistent(reg),
        resolve_one(reg, v) == Ok::<ResolverView, (Status, Seq<char>)>(w),
        owed(reg, v, d),
    ensures
        owed(reg, w, d),
{
    if v.pending.len() > 0 {
        let first = v.pending[0];
        let rest = v.pending.drop_first();
        if !met(reg, v, d) && d != first {
            let i = choose|i: int| 0 <= i < v.pending.len() && v.pending[i] == d;
            assert(rest[i - 1] == d);
            if asks_new(v) {
                let rows = (reg.rows)(first.repo, w.resolved[first.name].commit_sha);
                let new = declared(rows, true);
                assert(w.pending =~= new + rest);
                assert(w.pending[new.len() + i - 1] == d);
            }
        }
        if d == first && asks_new(v) {
            let cs = (reg.versions)(first.repo, first.requirement).unwrap();
            assert(chosen(cs) is Some);
            let k = choose|k: int| is_newest(cs, k);
            assert(is_newest(cs, k));
            assert(cs[k].satisfies);
            assert((reg.versions)(first.repo, first.requirement).unwrap()[k].satisfies);
        }
    }
}

proof fn lemma_run_stays_sound(
    reg: Registry,
    wanted: Seq<DependencyView>,
    v: ResolverView,
    w: ResolverView,
)
    requires
        consistent(reg),
        sound_run(reg, wanted, v),
        resolve_one(reg, v) == Ok::<ResolverView, (Status, Seq<char>)>(w),
    ensures
        sound_run(reg, wanted, w),
{
    assert forall|d: DependencyView| #[trigger] wanted.contains(d) implies owed(reg, w, d) by {
        lemma_owed_stays(reg, v, w, d);
    }
    assert forall|name: Seq<char>, d: DependencyView|
        w.resolved.dom().contains(name) && #[trigger] declared_by(
            reg,
            w.resolved[name],
        ).contains(d) implies owed(reg, w, d) by {
        if v.resolved.dom().contains(name) {
            assert(w.resolved[name] == v.resolved[name]);
            assert(declared_by(reg, v.resolved[name]).contains(d));
            lemma_owed_stays(reg, v, w, d);
        } else {
            let first = v.pending[0];
            let new = declared_by(reg, w.resolved[name]);
            assert(name == first.name);
            let i = choose|i: int| 0 <= i < new.len() && new[i] == d;
            assert(w.pending[i] == d);
        }
    }
    assert forall|name: Seq<char>| #[trigger]
        w.resolved.dom().contains(name) implies is_newest_of_repo(reg, w.resolved[name]) by {
        if v.resolved.dom().contains(name) {
            assert(w.resolved[name] == v.resolved[name]);
        } else {
            let first = v.pending[0];
            assert(name == first.name);
            assert((reg.versions)(first.repo, first.requirement) is Some);
        }
    }
}

proof fn lemma_run_is_sound(
    reg: Registry,
    wanted: Seq<DependencyView>,
    steps: nat,
    w: ResolverView,
)
    requires
        consistent(reg),
        resolve_many(reg, fresh(wanted), steps) == Ok::<ResolverView, (Status, Seq<char>)>(w),
    ensures
        sound_run(reg, wanted, w),
    decreases steps,
{
    if steps > 0 {
        match resolve_many(reg, fresh(wanted), (steps - 1) as nat) {
            Ok(v) => {
                lemma_run_is_sound(reg, wanted, (steps - 1) as nat, v);
                lemma_run_stays_sound(reg, wanted, v, w);
            },
            Err(_) => {},
        }
    }
}

/// When a resolver that began with some dependencies has nothing left to do, every one of them is
/// resolved at a version that its requirement accepts, and so is everything that a commit which was
/// chosen declares. Each version is the newest that its repository had for some requirement.
pub proof fn law_finished_run_meets_every_dependency(
    reg: Registry,
    wanted: Seq<DependencyView>,
    steps: nat,
    w: ResolverView,
)
    requires
        consistent(reg),
        resolve_many(reg, fresh(wanted), steps) == Ok::<ResolverView, (Status, Seq<char>)>(w),
        w.pending.len() == 0,
    ensures
        forall|d: DependencyView| #[trigger] wanted.contains(d) ==> met(reg, w, d),
        forall|name: Seq<char>, d: DependencyView|
            w.resolved.dom().contains(name) && #[trigger] declared_by(
                reg,
                w.resolved[name],
            ).contains(d) ==> met(reg, w, d),
        forall|name: Seq<char>|
            #[trigger] w.resolved.dom().contains(name) ==> is_newest_of_repo(
                reg,
                w.resolved[name],
            ),
{
    lemma_run_is_sound(reg, wanted, steps, w);
    assert forall|d: DependencyView| #[trigger] wanted.contains(d) implies met(reg, w, d) by {
        assert(owed(reg, w, d));
    }
    assert forall|name: Seq<char>, d: DependencyView|
        w.resolved.dom().contains(name) && #[trigger] declared_by(
            reg,
            w.resolved[name],
        ).contains(d) implies met(reg, w, d) by {
        assert(owed(reg, w, d));
    }
}

/// Whether a dependency is declared by a commit that was chosen.
pub open spec fn declared_in(reg: Registry, v: ResolverView, d: DependencyView) -> bool {
    exists|name: Seq<char>|
        v.resolved.dom().contains(name) && #[trigger] declared_by(
            reg,
            v.resolved[name],
        ).contains(d)
}

/// Whether what was chosen is what a dependency asked for: the newest acceptable version of its
/// repository, marked as transitive where the dependency is.
pub open spec fn chosen_for(reg: Registry, d: DependencyView, dep: ResolvedDepView) -> bool {
    &&& dep.repo == d.repo
    &&& dep.transitive == d.transitive
    &&& (reg.versions)(d.repo, d.requirement) matches Some(cs)
    &&& chosen(cs) matches Some(c)
    &&& c.version@ == dep.version
    &&& c.commit_sha@ == dep.commit_sha
}

/// Whether a dependency is one of those that were wanted, or is declared by a commit that was chosen.
pub open spec fn has_origin(
    reg: Registry,
    wanted: Seq<DependencyView>,
    v: ResolverView,
    d: DependencyView,
) -> bool {
    wanted.contains(d) || declared_in(reg, v, d)
}

/// Whether a name was resolved for a dependency that was wanted or declared.
pub open spec fn resolved_for(
    reg: Registry,
    wanted: Seq<DependencyView>,
    v: ResolverView,
    name: Seq<char>,
) -> bool {
    exists|d: DependencyView|
        #[trigger] has_origin(reg, wanted, v, d) && d.name == name && chosen_for(
            reg,
            d,
            v.resolved[name],
        )
}

/// What holds of the origin of everything that a resolver has or will come to.
spec fn all_have_origin(reg: Registry, wanted: Seq<DependencyView>, v: ResolverView) -> bool {
    &&& forall|i: int|
        0 <= i < v.pending.len() ==> has_origin(reg, wanted, v, #[trigger] v.pending[i])
    &&& forall|name: Seq<char>| #[trigger]
        v.resolved.dom().contains(name) ==> resolved_for(reg, wanted, v, name)
}

proof fn lemma_origin_stays(
    reg: Registry,
    wanted: Seq<DependencyView>,
    v: ResolverView,
    w: ResolverView,
    d: DependencyView,
)
    requires
        resolve_one(reg, v) == Ok::<ResolverView, (Status, Seq<char>)>(w),
        has_origin(reg, wanted, v, d),
    ensures
        has_origin(reg, wanted, w, d),
{
    if !wanted.contains(d) {
        let name = choose|name: Seq<char>|
            v.resolved.dom().contains(name) && #[trigger] declared_by(
                reg,
                v.resolved[name],
            ).contains(d);
        assert(w.resolved[name] == v.resolved[name]);
        assert(declared_by(reg, w.resolved[name]).contains(d));
    }
}

proof fn lemma_all_keep_origin(
    reg: Registry,
    wanted: Seq<DependencyView>,
    v: ResolverView,
    w: ResolverView,
)
    requires
        all_have_origin(reg, wanted, v),
        resolve_one(reg, v) == Ok::<ResolverView, (Status, Seq<char>)>(w),
    ensures
        all_have_origin(reg, wanted, w),
{
    if v.pending.len() > 0 {
        let first = v.pending[0];
        let rest = v.pending.drop_first();
        let new = if repeats(v) {
            seq![]
        } else {
            declared_by(reg, w.resolved[first.name])
        };
        assert(w.pending =~= new + rest);
        assert forall|i: int| 0 <= i < w.pending.len() implies has_origin(
            reg,
            wanted,
            w,
            #[trigger] w.pending[i],
        ) by {
            if i < new.len() {
                assert(w.pending[i] == new[i]);
                assert(declared_by(reg, w.resolved[first.name]).contains(w.pending[i]));
            } else {
                assert(w.pending[i] == v.pending[i - new.len() + 1]);
                lemma_origin_stays(reg, wanted, v, w, w.pending[i]);
            }
        }
        assert forall|name: Seq<char>| #[trigger] w.resolved.dom().contains(name) implies resolved_for(
            reg,
            wanted,
            w,
            name,
        ) by {
            if v.resolved.dom().contains(name) {
                assert(resolved_for(reg, wanted, v, name));
                let d = choose|d: DependencyView|
                    #[trigger] has_origin(reg, wanted, v, d) && d.name == name && chosen_for(
                        reg,
                        d,
                        v.resolved[name],
                    );
                lemma_origin_stays(reg, wanted, v, w, d);
                assert(w.resolved[name] == v.resolved[name]);
            } else {
                assert(name == first.name);
                assert(has_origin(reg, wanted, v, first));
                lemma_origin_stays(reg, wanted, v, w, first);
                assert(chosen_for(reg, first, w.resolved[name]));
            }
        }
    }
}

proof fn lemma_run_has_origins(
    reg: Registry,
    wanted: Seq<DependencyView>,
    steps: nat,
    w: ResolverView,
)
    requires
        resolve_many(reg, fresh(wanted), steps) == Ok::<ResolverView, (Status, Seq<char>)>(w),
    ensures
        all_have_origin(reg, wanted, w),
    decreases steps,
{
    if steps == 0 {
        assert forall|i: int| 0 <= i < w.pending.len() implies has_origin(
            reg,
            wanted,
            w,
            #[trigger] w.pending[i],
        ) by {
            assert(wanted.contains(wanted[i]));
        }
    } else {
        match resolve_many(reg, fresh(wanted), (steps - 1) as nat) {
            Ok(v) => {
                lemma_run_has_origins(reg, wanted, (steps - 1) as nat, v);
                lemma_all_keep_origin(reg, wanted, v, w);
            },
            Err(_) => {},
        }
    }
}

proof fn lemma_declared_are_marked(rows: Seq<DependencyRow>, transitive: bool, d: DependencyView)
    requires
        declared(rows, transitive).contains(d),
    ensures
        d.transitive == transitive,
    decreases rows.len(),
{
    let ds = declared(rows, transitive);
    let i = choose|i: int| 0 <= i < ds.len() && ds[i] == d;
    if rows.len() > 0 {
        let above = declared(rows.drop_last(), transitive);
        let row = rows.last();
        if row.requirement is Some {
            let kept = without(above, row.name@);
            if i < kept.len() {
                above.lemma_filter_contains_rev(|x: DependencyView| x.name != row.name@, d);
                lemma_declared_are_marked(rows.drop_last(), transitive, d);
            }
        } else {
            lemma_declared_are_marked(rows.drop_last(), transitive, d);
        }
    }
}

/// A resolver resolves nothing but what was wanted and what is declared by a commit that was chosen,
/// each at the newest version that the dependency accepts. A name that no one wanted is marked as
/// transitive, and one that is not so marked was wanted.
pub proof fn law_only_wanted_names_are_not_transitive(
    reg: Registry,
    wanted: Seq<DependencyView>,
    steps: nat,
    w: ResolverView,
)
    requires
        resolve_many(reg, fresh(wanted), steps) == Ok::<ResolverView, (Status, Seq<char>)>(w),
    ensures
        forall|name: Seq<char>| #[trigger]
            w.resolved.dom().contains(name) ==> resolved_for(reg, wanted, w, name),
        forall|name: Seq<char>| #[trigger]
            w.resolved.dom().contains(name) && (forall|d: DependencyView| #[trigger]
                wanted.contains(d) ==> d.name != name) ==> w.resolved[name].transitive,
{
    lemma_run_has_origins(reg, wanted, steps, w);
    assert forall|name: Seq<char>| #[trigger]
        w.resolved.dom().contains(name) && (forall|d: DependencyView| #[trigger]
            wanted.contains(d) ==> d.name != name) implies w.resolved[name].transitive by {
        assert(resolved_for(reg, wanted, w, name));
        let d = choose|d: DependencyView|
            #[trigger] has_origin(reg, wanted, w, d) && d.name == name && chosen_for(
                reg,
                d,
                w.resolved[name],
            );
        assert(declared_in(reg, w, d));
        let by = choose|by: Seq<char>|
            w.resolved.dom().contains(by) && #[trigger] declared_by(
                reg,
                w.resolved[by],
            ).contains(d);
        let dep = w.resolved[by];
        lemma_declared_are_marked((reg.rows)(dep.repo, dep.commit_sha), true, d);
    }
}

/// Whether all the names that a resolver can come upon are among some.
pub open spec fn names_within(reg: Registry, v: ResolverView, names: Set<Seq<char>>) -> bool {
    &&& forall|i: int| 0 <= i < v.pending.len() ==> names.contains((#[trigger] v.pending[i]).name)
    &&& forall|repo: Seq<char>, commit: Seq<char>, i: int|
        #![trigger declared((reg.rows)(repo, commit), true)[i]]
        0 <= i < declared((reg.rows)(repo, commit), true).len() ==> names.contains(
            declared((reg.rows)(repo, commit), true)[i].name,
        )
}

/// Whether a resolver has nothing left to do.
pub open spec fn has_ended(r: Result<ResolverView, (Status, Seq<char>)>) -> bool {
    match r {
        Ok(v) => v.pending.len() == 0,
        Err(_) => true,
    }
}

proof fn lemma_one_more_step(reg: Registry, v: ResolverView, w: ResolverView, steps: nat)
    requires
        resolve_one(reg, v) == Ok::<ResolverView, (Status, Seq<char>)>(w),
    ensures
        resolve_many(reg, v, steps + 1) == resolve_many(reg, w, steps),
    decreases steps,
{
    if steps == 0 {
        assert(resolve_many(reg, v, 0) == Ok::<ResolverView, (Status, Seq<char>)>(v));
    } else {
        lemma_one_more_step(reg, v, w, (steps - 1) as nat);
    }
}

/// The run is bounded by the graph: where the dependencies have finitely many names, resolving ends,
/// with everything resolved or with a refusal. Dependencies that go round in a circle do not keep it
/// from that.
pub proof fn law_resolving_ends(reg: Registry, v: ResolverView, names: Set<Seq<char>>)
    requires
        names.finite(),
        names_within(reg, v, names),
    ensures
        exists|steps: nat| has_ended(#[trigger] resolve_many(reg, v, steps)),
    decreases names.difference(v.resolved.dom()).len(), v.pending.len(),
{
    if v.pending.len() == 0 {
        assert(has_ended(resolve_many(reg, v, 0)));
    } else {
        match resolve_one(reg, v) {
            Err(e) => {
                assert(resolve_many(reg, v, 0) == Ok::<ResolverView, (Status, Seq<char>)>(v));
                assert(has_ended(resolve_many(reg, v, 1)));
            },
            Ok(w) => {
                let first = v.pending[0];
                let rest = v.pending.drop_first();
                assert(forall|i: int| 0 <= i < rest.len() ==> rest[i] == v.pending[i + 1]);
                if repeats(v) {
                    assert(w.pending == rest && w.resolved == v.resolved);
                } else {
                    let new = declared(
                        (reg.rows)(first.repo, w.resolved[first.name].commit_sha),
                        true,
                    );
                    assert(w.pending =~= new + rest);
                    assert forall|i: int| 0 <= i < w.pending.len() implies names.contains(
                        (#[trigger] w.pending[i]).name,
                    ) by {
                        if i < new.len() {
                            assert(w.pending[i] == new[i]);
                        } else {
                            assert(w.pending[i] == v.pending[i - new.len() + 1]);
                        }
                    }
                    let left = names.difference(v.resolved.dom());
                    assert(left.contains(first.name));
                    assert(names.difference(w.resolved.dom()) =~= left.remove(first.name));
                }
                law_resolving_ends(reg, w, names);
                let steps = choose|steps: nat| has_ended(#[trigger] resolve_many(reg, w, steps));
                lemma_one_more_step(reg, v, w, steps);
                assert(has_ended(resolve_many(reg, v, steps + 1)));
            },
        }
    }
}

// ---------------------------------------------------------------------------
// Handlers
// ---------------------------------------------------------------------------

/// The dependencies that are asked for, in the order in which the request holds their names. A
/// requirement is given as it was read, where it could be.
pub open spec fn requested(
    names: Seq<Seq<char>>,
    m: Map<Seq<char>, DepSpec>,
    read: Seq<Option<String>>,
) -> Seq<DependencyView> {
    Seq::new(
        names.len(),
        |i: int|
            DependencyView {
                name: names[i],
                repo: m[names[i]].repo@,
                requirement: read[i].unwrap()@,
                transitive: false,
            },
    )
}

/// The first requirement that cannot be read.
pub open spec fn first_unread(read: Seq<Option<String>>, i: int) -> bool {
    0 <= i < read.len() && read[i] is None && forall|j: int|
        0 <= j < i ==> (#[trigger] read[j]) is Some
}

/// Start resolving what is asked for. Every requirement has to be one that can be read; they are
/// given in the order in which the request holds the names.
pub fn resolve_deps(body: &ResolveRequest, read: &Vec<Option<String>>) -> (r: Result<Resolver, Refusal>)
    requires
        read@.len() == body.dependencies.order().len(),
    ensures
        match r {
            Ok(v) => {
                &&& forall|i: int| 0 <= i < read@.len() ==> (#[trigger] read@[i]) is Some
                &&& v@ == (ResolverView {
                    pending: requested(body.dependencies.order(), body.dependencies@, read@),
                    resolved: Map::empty(),
                })
            },
            Err(e) => exists|i: int| #[trigger]
                first_unread(read@, i) && refusal(e) == (
                    Status::BadRequest,
                    "invalid version requirement: "@
                        + body.dependencies@[body.dependencies.order()[i]].version@,
                ),
        },
{
    let names = body.dependencies.keys();
    let ghost t = texts(names@);
    let mut pending: Vec<Dependency> = Vec::new();
    let mut i: usize = 0;
    while i < names.len()
        invariant
            i <= names@.len(),
            t == texts(names@),
            t == body.dependencies.order(),
            t.to_set() == body.dependencies@.dom(),
            read@.len() == t.len(),
            pending@.len() == i,
            forall|j: int| 0 <= j < i ==> (#[trigger] read@[j]) is Some,
            forall|j: int|
                0 <= j < i ==> (#[trigger] pending@[j])@ == requested(
                    t,
                    body.dependencies@,
                    read@,
                )[j],
        decreases names@.len() - i,
    {
        proof {
            assert(t[i as int] == names@[i as int]@);
            assert(t.to_set().contains(t[i as int]));
        }
        match body.dependencies.get(names[i].as_str()) {
            Some(spec) => {
                match &read[i] {
                    Some(requirement) => {
                        pending.push(
                            Dependency {
                                name: names[i].clone(),
                                repo: spec.repo.clone(),
                                requirement: requirement.clone(),
                                transitive: false,
                            },
                        );
                    },
                    None => {
                        let mut message = String::from_str("invalid version requirement: ");
                        message.append(spec.version.as_str());
                        proof {
                            assert(first_unread(read@, i as int));
                        }
                        return Err((Status::BadRequest, message));
                    },
                }
            },
            None => {},
        }
        i += 1;
    }
    let r = Resolver { pending, resolved: Table::new() };
    proof {
        assert(r@.pending =~= requested(t, body.dependencies@, read@));
        assert(r@.resolved =~= Map::empty());
    }
    Ok(r)
}

/// The commit whose declared dependencies are resolved for a repository: the one that was indexed
/// last, by the repository's id.
pub fn resolve_repo_deps(owner: &str, repo: &str, row: Option<(String, String)>) -> (r: Result<
    (String, String),
    Refusal,
>)
    ensures
        match row {
            None => r matches Err(e) && refusal(e) == (
                Status::NotFound,
                "repo not found: "@ + owner@ + "/"@ + repo@,
            ),
            Some(p) => if p.1@.len() == 0 {
                r matches Err(e) && refusal(e) == (
                    Status::NotFound,
                    "repo has not been indexed yet"@,
                )
            } else {
                r matches Ok(q) && q == p
            },
        },
{
    match row {
        None => {
            let mut message = String::from_str("repo not found: ");
            message.append(owner);
            message.append("/");
            message.append(repo);
            Err((Status::NotFound, message))
        },
        Some((repo_id, commit)) => {
            if commit.as_str().is_empty() {
                Err((Status::NotFound, String::from_str("repo has not been indexed yet")))
            } else {
                Ok((repo_id, commit))
            }
        },
    }
}

/// The address of the server where none is configured.
pub const DEFAULT_BASE_URL: &'static str = "https://agentcoderepo.fly.dev";

pub fn base_url(configured: Option<&str>) -> (r: String)
    ensures
        r@ == match configured {
            Some(u) => u@,
            None => DEFAULT_BASE_URL@,
        },
{
    match configured {
        Some(u) => String::from_str(u),
        None => String::from_str(DEFAULT_BASE_URL),
    }
}

/// The nix flake input for a commit of a repository.
pub open spec fn flake_input(base_url: Seq<char>, d: ResolvedDepView) -> Seq<char> {
    let parts = splitn(d.repo, 2, '/');
    "git+"@ + base_url + "/git/"@ + parts[0] + "/"@ + parts[1] + "?rev="@ + d.commit_sha
}

/// The flake inputs for what was resolved.
pub open spec fn flake_inputs(
    base_url: Seq<char>,
    resolved: Map<Seq<char>, ResolvedDepView>,
) -> Map<Seq<char>, Seq<char>> {
    Map::new(
        |k: Seq<char>| resolved.dom().contains(k) && splitn(resolved[k].repo, 2, '/').len() == 2,
        |k: Seq<char>| flake_input(base_url, resolved[k]),
    )
}

pub open spec fn table_texts(m: Map<Seq<char>, String>) -> Map<Seq<char>, Seq<char>> {
    m.map_values(|s: String| s@)
}

/// The flake inputs for the first so many names.
spec fn inputs_for(
    names: Seq<Seq<char>>,
    base_url: Seq<char>,
    resolved: Map<Seq<char>, ResolvedDepView>,
) -> Map<Seq<char>, Seq<char>> {
    Map::new(
        |k: Seq<char>|
            names.contains(k) && splitn(resolved[k].repo, 2, '/').len() == 2,
        |k: Seq<char>| flake_input(base_url, resolved[k]),
    )
}

impl Resolver {
    /// The answer, once everything is resolved.
    pub fn response(self, base_url: &str) -> (r: ResolveResponse)
        ensures
            r.resolved == self.resolved,
            table_texts(r.flake_inputs@) == flake_inputs(base_url@, self@.resolved),
    {
        let mut inputs: Table<String> = Table::new();
        let names = self.resolved.keys();
        let ghost t = texts(names@);
        let ghost m = self@.resolved;
        let mut i: usize = 0;
        proof {
            assert(table_texts(inputs@) =~= inputs_for(t.take(0), base_url@, m));
        }
        while i < names.len()
            invariant
                i <= names@.len(),
                t == texts(names@),
                t.to_set() == self.resolved@.dom(),
                m == resolved_views(self.resolved@),
                table_texts(inputs@) == inputs_for(t.take(i as int), base_url@, m),
            decreases names@.len() - i,
        {
            let ghost before = inputs@;
            proof {
                assert(t[i as int] == names@[i as int]@);
                assert(t.to_set().contains(t[i as int]));
                assert(t.take(i as int + 1) =~= t.take(i as int).push(t[i as int]));
                assert forall|k: Seq<char>| #![trigger t.take(i as int + 1).contains(k)]
                    t.take(i as int + 1).contains(k) == (t.take(i as int).contains(k) || k
                        == t[i as int]) by {
                    let front = t.take(i as int);
                    let longer = front.push(t[i as int]);
                    if front.contains(k) {
                        let j = choose|j: int| 0 <= j < front.len() && front[j] == k;
                        assert(longer[j] == k);
                    }
                    if k == t[i as int] {
                        assert(longer[i as int] == k);
                    }
                }
            }
            match self.resolved.get(names[i].as_str()) {
                Some(d) => {
                    proof {
                        assert(m[t[i as int]] == d@);
                    }
                    let chars = chars_of(d.repo.as_str());
                    let parts = splitn_chars(chars.as_slice(), 2, '/');
                    let ghost p = texts(parts@);
                    if parts.len() == 2 {
                        proof {
                            assert(p[0] == parts@[0]@ && p[1] == parts@[1]@);
                        }
                        let mut url = String::from_str("git+");
                        url.append(base_url);
                        url.append("/git/");
                        url.append(parts[0].as_str());
                        url.append("/");
                        url.append(parts[1].as_str());
                        url.append("?rev=");
                        url.append(d.commit_sha.as_str());
                        let ghost u = url@;
                        inputs.insert(names[i].clone(), url);
                        proof {
                            assert(u == flake_input(base_url@, m[t[i as int]]));
                            assert(table_texts(inputs@) =~= table_texts(before).insert(
                                t[i as int],
                                u,
                            ));
                        }
                    }
                },
                None => {},
            }
            proof {
                assert(table_texts(inputs@) =~= inputs_for(t.take(i as int + 1), base_url@, m));
            }
            i += 1;
        }
        proof {
            assert(t.take(i as int) =~= t);
            assert(forall|k: Seq<char>| t.contains(k) == t.to_set().contains(k));
            assert(table_texts(inputs@) =~= flake_inputs(base_url@, m));
        }
        ResolveResponse { resolved: self.resolved, flake_inputs: inputs }
    }
}

// ---------------------------------------------------------------------------
// What is asked for and what is answered
// ---------------------------------------------------------------------------

/// Everything that is asked for is to be resolved: each name once, with the repository that the
/// request names for it and the requirement that was read for it, and not as transitive.
pub proof fn law_everything_asked_for_is_pending(
    names: Seq<Seq<char>>,
    m: Map<Seq<char>, DepSpec>,
    read: Seq<Option<String>>,
)
    requires
        names.len() == read.len(),
    ensures
        requested(names, m, read).len() == names.len(),
        forall|i: int|
            0 <= i < names.len() ==> {
                let d = #[trigger] requested(names, m, read)[i];
                &&& d.name == names[i]
                &&& d.repo == m[names[i]].repo@
                &&& read[i] matches Some(r) ==> d.requirement == r@
                &&& !d.transitive
            },
{
}

proof fn lemma_repo_in_two_parts(repo: Seq<char>)
    requires
        splitn(repo, 2, '/').len() == 2,
    ensures
        splitn(repo, 2, '/')[0] + seq!['/'] + splitn(repo, 2, '/')[1] == repo,
{
    crate::text::lemma_first_index_props(repo, '/');
    let i = crate::text::first_index(repo, '/');
    reveal_with_fuel(splitn, 3);
    assert(splitn(repo, 2, '/')[0] == repo.take(i));
    assert(splitn(repo, 2, '/')[1] == repo.skip(i + 1));
    assert(repo.take(i) + seq!['/'] + repo.skip(i + 1) =~= repo);
}

/// A flake input fetches the repository that was resolved, from this server, at the commit that was
/// chosen for it; and every name that was resolved to a repository of some owner has one.
pub proof fn law_flake_inputs_fetch_what_was_resolved(
    base_url: Seq<char>,
    resolved: Map<Seq<char>, ResolvedDepView>,
    name: Seq<char>,
)
    ensures
        flake_inputs(base_url, resolved).dom().contains(name) <==> resolved.dom().contains(name)
            && resolved[name].repo.contains('/'),
        flake_inputs(base_url, resolved).dom().contains(name) ==> flake_inputs(
            base_url,
            resolved,
        )[name] == "git+"@ + base_url + "/git/"@ + resolved[name].repo + "?rev="@
            + resolved[name].commit_sha,
{
    reveal_strlit("/");
    let d = resolved[name];
    let parts = splitn(d.repo, 2, '/');
    crate::text::lemma_first_index_props(d.repo, '/');
    let i = crate::text::first_index(d.repo, '/');
    reveal_with_fuel(splitn, 3);
    if d.repo.contains('/') {
        let j = choose|j: int| 0 <= j < d.repo.len() && d.repo[j] == '/';
        assert(i <= j);
        assert(parts.len() == 2);
    }
    if parts.len() == 2 {
        assert(i < d.repo.len());
        assert(d.repo[i] == '/');
        assert(d.repo.contains('/'));
        lemma_repo_in_two_parts(d.repo);
        assert(flake_input(base_url, d) =~= "git+"@ + base_url + "/git/"@ + (parts[0] + seq!['/']
            + parts[1]) + "?rev="@ + d.commit_sha);
    }
}

/// Every name is shown with what it was resolved to, and every input with its address, one line each
/// and in the order of the names.
pub proof fn law_all_that_was_resolved_is_shown(
    a: Seq<Seq<char>>,
    b: Seq<Seq<char>>,
    m: Map<Seq<char>, ResolvedDep>,
    inputs: Map<Seq<char>, String>,
    name: Seq<char>,
)
    ensures
        resolved_lines(a + b, m) == resolved_lines(a, m) + resolved_lines(b, m),
        input_lines(a + b, inputs) == input_lines(a, inputs) + input_lines(b, inputs),
        crate::text::has_prefix(
            resolved_lines(seq![name], m),
            name + ": "@ + m[name].repo@ + " v"@ + m[name].version@ + " @ "@ + shortened(
                m[name].commit_sha@,
            ),
        ),
        input_lines(seq![name], inputs) == "  "@ + name + " = \""@ + inputs[name]@ + "\"\n"@,
{
    lemma_resolved_lines(a, b, m);
    lemma_input_lines(a, b, inputs);
    lemma_one_line(m, inputs, name);
}

proof fn lemma_one_line(
    m: Map<Seq<char>, ResolvedDep>,
    inputs: Map<Seq<char>, String>,
    name: Seq<char>,
)
    ensures
        crate::text::has_prefix(
            resolved_lines(seq![name], m),
            name + ": "@ + m[name].repo@ + " v"@ + m[name].version@ + " @ "@ + shortened(
                m[name].commit_sha@,
            ),
        ),
        input_lines(seq![name], inputs) == "  "@ + name + " = \""@ + inputs[name]@ + "\"\n"@,
{
    let one = seq![name];
    assert(one.drop_last() =~= seq![]);
    assert(one.last() == name);
    assert(resolved_lines(one.drop_last(), m) == Seq::<char>::empty());
    let line = resolved_line(name, m[name]@);
    assert(resolved_lines(one, m) =~= line);
    let start = name + ": "@ + m[name].repo@ + " v"@ + m[name].version@ + " @ "@ + shortened(
        m[name].commit_sha@,
    );
    assert(line.take(start.len() as int) =~= start);
    assert(input_lines(one.drop_last(), inputs) == Seq::<char>::empty());
    assert(input_lines(one, inputs) =~= "  "@ + name + " = \""@ + inputs[name]@ + "\"\n"@);
}

proof fn lemma_resolved_lines(
    a: Seq<Seq<char>>,
    b: Seq<Seq<char>>,
    m: Map<Seq<char>, ResolvedDep>,
)
    ensures
        resolved_lines(a + b, m) == resolved_lines(a, m) + resolved_lines(b, m),
    decreases b.len(),
{
    if b.len() == 0 {
        assert(a + b =~= a);
        assert(resolved_lines(a, m) + resolved_lines(b, m) =~= resolved_lines(a, m));
    } else {
        let front = b.drop_last();
        lemma_resolved_lines(a, front, m);
        assert((a + b).drop_last() =~= a + front);
        assert((a + b).last() == b.last());
        let line = resolved_line(b.last(), m[b.last()]@);
        lemma_joined(resolved_lines(a, m), resolved_lines(front, m), line);
    }
}

proof fn lemma_input_lines(a: Seq<Seq<char>>, b: Seq<Seq<char>>, m: Map<Seq<char>, String>)
    ensures
        input_lines(a + b, m) == input_lines(a, m) + input_lines(b, m),
    decreases b.len(),
{
    if b.len() == 0 {
        assert(a + b =~= a);
        assert(input_lines(a, m) + input_lines(b, m) =~= input_lines(a, m));
    } else {
        let front = b.drop_last();
        lemma_input_lines(a, front, m);
        assert((a + b).drop_last() =~= a + front);
        assert((a + b).last() == b.last());
        lemma_input_line(input_lines(a + front, m), b.last(), m[b.last()]@);
        lemma_input_line(input_lines(front, m), b.last(), m[b.last()]@);
        let line = "  "@ + b.last() + " = \""@ + m[b.last()]@ + "\"\n"@;
        lemma_joined(input_lines(a, m), input_lines(front, m), line);
    }
}

proof fn lemma_input_line(above: Seq<char>, name: Seq<char>, url: Seq<char>)
    ensures
        above + "  "@ + name + " = \""@ + url + "\"\n"@ == above + ("  "@ + name + " = \""@ + url
            + "\"\n"@),
{
    assert(above + "  "@ + name + " = \""@ + url + "\"\n"@ =~= above + ("  "@ + name + " = \""@ + url
        + "\"\n"@));
}

proof fn lemma_joined(a: Seq<char>, b: Seq<char>, c: Seq<char>)
    ensures
        (a + b) + c == a + (b + c),
{
    assert((a + b) + c =~= a + (b + c));
}

/// Dependencies of what was chosen come before what was pending, and none of either is lost; a
/// repository that is not there, or has no version that can be used, is not found.
pub proof fn law_missing_versions_are_not_found(
    v: ResolverView,
    cs: Seq<Candidate>,
    rows: Seq<DependencyRow>,
)
    requires
        v.pending.len() > 0,
        forall|i: int| 0 <= i < cs.len() ==> (#[trigger] cs[i]).yanked || !cs[i].satisfies,
    ensures
        after_versions(v, None) matches Err(e) && e.0 == Status::NotFound,
        after_versions(v, Some(cs)) matches Err(e) && e.0 == Status::NotFound,
        after_dependencies(v, rows).pending.len() == declared(rows, true).len() + v.pending.len(),
        after_dependencies(v, rows).pending.take(declared(rows, true).len() as int) == declared(
            rows,
            true,
        ),
        after_dependencies(v, rows).pending.skip(declared(rows, true).len() as int) == v.pending,
{
    if exists|i: int| is_newest(cs, i) {
        let i = choose|i: int| is_newest(cs, i);
        assert(cs[i].yanked || !cs[i].satisfies);
    }
    let all = after_dependencies(v, rows).pending;
    let n = declared(rows, true).len() as int;
    assert(all.take(n) =~= declared(rows, true));
    assert(all.skip(n) =~= v.pending);
}

/// What a value says in contracts is what its fields say, each in its own place.
pub proof fn law_views_show_every_field(
    resolved_dep: ResolvedDep,
    dependency: Dependency,
    resolver: Resolver,
)
    ensures
        resolved_dep@.repo == resolved_dep.repo@,
        resolved_dep@.version == resolved_dep.version@,
        resolved_dep@.commit_sha == resolved_dep.commit_sha@,
        resolved_dep@.transitive == resolved_dep.transitive,
        dependency@.name == dependency.name@,
        dependency@.repo == dependency.repo@,
        dependency@.requirement == dependency.requirement@,
        dependency@.transitive == dependency.transitive,
        resolver@.pending == dependency_views(resolver.pending@),
        resolver@.resolved == resolved_views(resolver.resolved@),
{
}

/// What was resolved is shown first, and below it the flake inputs, where there are some; what came in
/// through another dependency is marked.
pub proof fn law_resolution_is_shown_before_its_inputs(
    r: ResolveResponse,
    m: Map<Seq<char>, ResolvedDep>,
    name: Seq<char>,
)
    ensures
        crate::text::has_prefix(r.text(), resolved_lines(r.resolved.order(), r.resolved@)),
        r.flake_inputs@.dom().len() == 0 ==> r.text() == resolved_lines(
            r.resolved.order(),
            r.resolved@,
        ),
        r.flake_inputs@.dom().len() > 0 ==> crate::text::has_suffix(
            r.text(),
            "\nnix flake inputs:\n"@ + input_lines(r.flake_inputs.order(), r.flake_inputs@),
        ),
        m[name].transitive ==> crate::text::has_suffix(
            resolved_lines(seq![name], m),
            shortened(m[name].commit_sha@) + " (transitive)\n"@,
        ),
        !m[name].transitive ==> crate::text::has_suffix(
            resolved_lines(seq![name], m),
            shortened(m[name].commit_sha@) + "\n"@,
        ),
{
    let front = resolved_lines(r.resolved.order(), r.resolved@);
    let inputs = "\nnix flake inputs:\n"@ + input_lines(r.flake_inputs.order(), r.flake_inputs@);
    assert(r.text().take(front.len() as int) =~= front);
    if r.flake_inputs@.dom().len() == 0 {
        assert(r.text() =~= front);
    } else {
        assert(r.text().skip(r.text().len() - inputs.len()) =~= inputs);
    }
    reveal_strlit("");
    reveal_strlit("\n");
    reveal_strlit(" (transitive)");
    reveal_strlit(" (transitive)\n");
    let one = seq![name];
    assert(one.drop_last() =~= seq![]);
    assert(resolved_lines(one.drop_last(), m) == Seq::<char>::empty());
    let t = resolved_lines(one, m);
    let marked = shortened(m[name].commit_sha@) + " (transitive)\n"@;
    let plain = shortened(m[name].commit_sha@) + "\n"@;
    if m[name].transitive {
        assert(t.skip(t.len() - marked.len()) =~= marked);
    } else {
        assert(t.skip(t.len() - plain.len()) =~= plain);
    }
}

/// A list says in contracts what its items say, one for one and in their order.
pub proof fn law_items_are_read_one_for_one(v: Seq<Dependency>)
    ensures
        dependency_views(v).len() == v.len(),
        forall|i: int| 0 <= i < v.len() ==> #[trigger] dependency_views(v)[i] == v[i]@,
{
}

/// A refusal names what it is about: the repository that does not exist, the requirement that no version
/// meets, the version that cannot be read, or the two that do not agree.
pub proof fn law_refusals_name_what_they_are_about(v: ResolverView, cs: Seq<Candidate>)
    requires
        v.pending.len() > 0,
        forall|i: int| 0 <= i < cs.len() ==> (#[trigger] cs[i]).yanked || !cs[i].satisfies,
    ensures
        ({
            let d = v.pending[0];
            let version = v.resolved[d.name].version;
            &&& after_versions(v, None) == Err::<ResolverView, (Status, Seq<char>)>(
                (Status::NotFound, "repo not found: "@ + d.repo),
            )
            &&& after_versions(v, Some(cs)) == Err::<ResolverView, (Status, Seq<char>)>(
                (Status::NotFound, "no version of "@ + d.repo + " satisfies "@ + d.requirement),
            )
            &&& after_compared(v, None) == Err::<ResolverView, (Status, Seq<char>)>(
                (Status::InternalServerError, "invalid version in resolved: "@ + version),
            )
            &&& after_compared(v, Some(false)) == Err::<ResolverView, (Status, Seq<char>)>(
                (
                    Status::Conflict,
                    "conflict: "@ + d.name + " requires "@ + d.requirement + " but "@ + version
                        + " already resolved"@,
                ),
            )
        }),
        after_compared(v, Some(true)) matches Ok(w) && w.resolved == v.resolved && seq![v.pending[0]]
            + w.pending == v.pending,
        asks_new(v) <==> !v.resolved.dom().contains(v.pending[0].name),
{
    if exists|i: int| is_newest(cs, i) {
        let i = choose|i: int| is_newest(cs, i);
        assert(cs[i].yanked || !cs[i].satisfies);
    }
    assert(seq![v.pending[0]] + v.pending.drop_first() =~= v.pending);
}

/// Nothing is asked about once nothing is pending.
pub proof fn law_nothing_is_asked_at_the_end(v: ResolverView)
    requires
        v.pending.len() == 0,
    ensures
        !asks_new(v),
        !repeats(v),
{
}

} // verus!
