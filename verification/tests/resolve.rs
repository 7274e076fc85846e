use agentcoderepo::format::TextFormat;
use agentcoderepo::resolve::{
    base_url, newest, resolve_deps, resolve_repo_deps, Candidate, DepSpec, DependencyRow,
    ResolveRequest, ResolveResponse, ResolveStep, Resolver,
};
use agentcoderepo::status::Status;
use agentcoderepo::table::Table;

fn s(x: &str) -> String {
    x.to_string()
}

type Version = (u64, u64, u64);

fn version(text: &str) -> Option<Version> {
    let parts: Vec<u64> = text.split('.').map_while(|p| p.parse().ok()).collect();
    match parts[..] {
        [a, b, c] => Some((a, b, c)),
        _ => None,
    }
}

/// A caret requirement.
fn accepts(requirement: &str, v: Version) -> bool {
    let at_least = version(&requirement[1..]).unwrap();
    v.0 == at_least.0 && v >= at_least
}

/// What is published: repository, version, commit, whether it was yanked, and what it depends on.
struct Published {
    repo: &'static str,
    version: &'static str,
    commit: &'static str,
    yanked: bool,
    dependencies: Vec<(&'static str, &'static str)>,
}

fn published(
    repo: &'static str,
    version: &'static str,
    commit: &'static str,
    dependencies: Vec<(&'static str, &'static str)>,
) -> Published {
    Published { repo, version, commit, yanked: false, dependencies }
}

fn row(name: &str, requirement: Option<&str>) -> DependencyRow {
    DependencyRow {
        name: s(name),
        owner: s("me"),
        repo: s(name),
        requirement: requirement.map(s),
    }
}

fn run(mut r: Resolver, world: &[Published]) -> Result<ResolveResponse, (Status, String)> {
    loop {
        match r.next()? {
            ResolveStep::Finished => return Ok(r.response("https://x")),
            ResolveStep::Compare { requirement, version: v } => {
                r.compared(version(&v).map(|v| accepts(&requirement, v)))?
            }
            ResolveStep::Versions { owner, repo, requirement } => {
                let all: Vec<&Published> =
                    world.iter().filter(|p| format!("me/{}", p.repo) == format!("{owner}/{repo}")).collect();
                if all.is_empty() {
                    r.versions(None)?;
                    continue;
                }
                let mut ordered: Vec<Version> = all.iter().map(|p| version(p.version).unwrap()).collect();
                ordered.sort();
                let candidates = all
                    .iter()
                    .map(|p| {
                        let v = version(p.version).unwrap();
                        Candidate {
                            version: s(p.version),
                            commit_sha: s(p.commit),
                            yanked: p.yanked,
                            rank: ordered.iter().position(|o| *o == v).unwrap(),
                            satisfies: accepts(&requirement, v),
                        }
                    })
                    .collect();
                let commit = r.versions(Some(candidates))?;
                let rows = world
                    .iter()
                    .find(|p| p.commit == commit)
                    .unwrap()
                    .dependencies
                    .iter()
                    .map(|d| row(d.0, Some(d.1)))
                    .collect();
                r.dependencies(&rows);
            }
        }
    }
}

fn ask(deps: &[(&str, &str)], world: &[Published]) -> Result<ResolveResponse, (Status, String)> {
    let mut dependencies = Table::new();
    let mut read = Vec::new();
    for (name, requirement) in deps {
        dependencies.insert(s(name), DepSpec { repo: format!("me/{name}"), version: s(requirement) });
        read.push(Some(s(requirement)));
    }
    run(resolve_deps(&ResolveRequest { dependencies }, &read)?, world)
}

#[test]
fn newest_compatible_version_is_resolved() {
    let world = [
        published("sort-lib", "1.0.0", "aaa111", vec![]),
        published("sort-lib", "1.1.0", "bbb222", vec![]),
        published("sort-lib", "2.0.0", "ccc333", vec![]),
    ];
    let r = ask(&[("sort-lib", "^1.0.0")], &world).unwrap();
    let dep = r.resolved.get("sort-lib").unwrap();
    assert_eq!(dep.version, "1.1.0");
    assert_eq!(dep.commit_sha, "bbb222");
    assert!(!dep.transitive);
    assert_eq!(
        r.flake_inputs.get("sort-lib").unwrap(),
        "git+https://x/git/me/sort-lib?rev=bbb222"
    );
    assert_eq!(
        r.to_text(),
        "sort-lib: me/sort-lib v1.1.0 @ bbb222\n\nnix flake inputs:\n  sort-lib = \"git+https://x/git/me/sort-lib?rev=bbb222\"\n"
    );
}

#[test]
fn yanked_version_is_passed_over() {
    let mut world = [
        published("my-lib", "1.0.0", "aaa", vec![]),
        published("my-lib", "1.1.0", "bbb", vec![]),
    ];
    world[1].yanked = true;
    let r = ask(&[("my-lib", "^1.0.0")], &world).unwrap();
    assert_eq!(r.resolved.get("my-lib").unwrap().version, "1.0.0");
}

#[test]
fn unknown_repos_and_versions_are_not_found() {
    let world = [published("old-lib", "0.9.0", "aaa", vec![])];
    assert_eq!(
        ask(&[("old-lib", "^1.0.0")], &world).err(),
        Some((Status::NotFound, s("no version of me/old-lib satisfies ^1.0.0")))
    );
    assert_eq!(
        ask(&[("no-lib", "^1.0.0")], &world).err(),
        Some((Status::NotFound, s("repo not found: me/no-lib")))
    );
}

#[test]
fn diamond_is_resolved_once() {
    let world = [
        published("lib-b", "1.0.0", "b100", vec![]),
        published("lib-b", "1.1.0", "b110", vec![]),
        published("lib-b", "1.2.0", "b120", vec![]),
        published("lib-c", "1.0.0", "c100", vec![("lib-b", "^1.1.0")]),
    ];
    for deps in [
        [("lib-b", "^1.0.0"), ("lib-c", "^1.0.0")],
        [("lib-c", "^1.0.0"), ("lib-b", "^1.0.0")],
    ] {
        let r = ask(&deps, &world).unwrap();
        assert_eq!(r.resolved.len(), 2);
        assert_eq!(r.resolved.get("lib-b").unwrap().version, "1.2.0");
        assert_eq!(r.resolved.get("lib-c").unwrap().version, "1.0.0");
    }
}

#[test]
fn transitive_dependency_is_marked() {
    let world = [
        published("a", "1.0.0", "a1", vec![("b", "^1.0.0")]),
        published("b", "1.0.0", "b1", vec![("a", "^1.0.0")]),
    ];
    let r = ask(&[("a", "^1.0.0")], &world).unwrap();
    assert!(r.resolved.get("b").unwrap().transitive);
    assert!(r.to_text().contains("b: me/b v1.0.0 @ b1 (transitive)\n"));
}

#[test]
fn dependencies_in_a_circle_are_resolved() {
    let world = [
        published("a", "1.0.0", "a1", vec![("b", "^1.0.0")]),
        published("b", "1.0.0", "b1", vec![("c", "^1.0.0")]),
        published("b", "1.2.0", "b2", vec![("c", "^1.1.0")]),
        published("c", "1.1.0", "c1", vec![("a", "^1.0.0"), ("b", "^1.1.0")]),
    ];
    let r = ask(&[("a", "^1.0.0")], &world).unwrap();
    assert_eq!(r.resolved.len(), 3);
    for (name, version) in [("a", "1.0.0"), ("b", "1.2.0"), ("c", "1.1.0")] {
        assert_eq!(r.resolved.get(name).unwrap().version, version);
    }
}

#[test]
fn conflicting_requirements_are_refused() {
    let world = [
        published("b", "1.0.0", "b1", vec![]),
        published("b", "2.0.0", "b2", vec![]),
        published("c", "1.0.0", "c1", vec![("b", "^2.0.0")]),
    ];
    assert_eq!(
        ask(&[("b", "^1.0.0"), ("c", "^1.0.0")], &world).err(),
        Some((Status::Conflict, s("conflict: b requires ^2.0.0 but 1.0.0 already resolved")))
    );
}

#[test]
fn malformed_requests_are_refused() {
    let mut dependencies = Table::new();
    dependencies.insert(s("a"), DepSpec { repo: s("me/a"), version: s("newest") });
    let body = ResolveRequest { dependencies };
    assert_eq!(
        resolve_deps(&body, &vec![None]).err(),
        Some((Status::BadRequest, s("invalid version requirement: newest")))
    );
    let mut dependencies = Table::new();
    dependencies.insert(s("a"), DepSpec { repo: s("nobody"), version: s("^1.0.0") });
    let body = ResolveRequest { dependencies };
    let r = resolve_deps(&body, &vec![Some(s("^1.0.0"))]).unwrap();
    assert_eq!(r.next().err(), Some((Status::BadRequest, s("invalid repo ref: nobody"))));
}

#[test]
fn unreadable_version_is_an_error() {
    let mut r = Resolver::declared(&vec![row("a", Some("^1.0.0")), row("a", Some("^1.1.0"))]);
    assert_eq!(r.pending.len(), 1);
    assert_eq!(r.pending[0].requirement, "^1.1.0");
    let candidate = Candidate {
        version: s("odd"),
        commit_sha: s("c"),
        yanked: false,
        rank: 0,
        satisfies: true,
    };
    r.versions(Some(vec![candidate])).unwrap();
    r.dependencies(&vec![row("a", Some("^1.0.0")), row("z", None)]);
    assert_eq!(r.pending.len(), 1);
    assert_eq!(
        r.compared(None).err(),
        Some((Status::InternalServerError, s("invalid version in resolved: odd")))
    );
}

#[test]
fn indexed_commit_is_resolved() {
    assert_eq!(
        resolve_repo_deps("me", "a", Some((s("r1"), s("c1")))),
        Ok((s("r1"), s("c1")))
    );
    assert_eq!(
        resolve_repo_deps("me", "a", Some((s("r1"), s("")))),
        Err((Status::NotFound, s("repo has not been indexed yet")))
    );
    assert_eq!(
        resolve_repo_deps("me", "a", None),
        Err((Status::NotFound, s("repo not found: me/a")))
    );
    assert_eq!(base_url(None), "https://agentcoderepo.fly.dev");
    assert_eq!(base_url(Some("https://y")), "https://y");
    let r = run(Resolver::declared(&vec![]), &[]).unwrap();
    assert_eq!(r.to_text(), "");
}

#[test]
fn first_of_equal_versions_is_chosen() {
    let c = |rank: usize, satisfies: bool| Candidate {
        version: s("v"),
        commit_sha: s("c"),
        yanked: false,
        rank,
        satisfies,
    };
    assert_eq!(newest(&vec![c(1, true), c(2, true), c(2, true), c(3, false)]), Some(1));
    assert_eq!(newest(&vec![c(1, false)]), None);
    assert_eq!(newest(&vec![]), None);
}
