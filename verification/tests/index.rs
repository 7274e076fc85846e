use agentcoderepo::index::{
    conclude_push, deletions, detect_language, embed_texts, embedding_rows, hex_sha256, indexable,
    is_source, replace_signatures, sources_differ, stored_version, ExtractedSig, IndexWrite,
    PushIndex,
};
use agentcoderepo::index_git::{
    changed_files, changed_files_args, object_name, ChangedFile, FileStatus,
};
use agentcoderepo::index_push::{index_push, IndexStep};
use agentcoderepo::llm::{keyword_hits, keywords_in, MockLlm, EMBED_DIM};

fn file(status: FileStatus, path: &str) -> ChangedFile {
    ChangedFile { status, path: path.to_string() }
}

fn sig(name: &str) -> ExtractedSig {
    ExtractedSig {
        name: name.to_string(),
        type_text: "Int -> Int".to_string(),
        type_normalized: "Int -> Int".to_string(),
        type_json: "{}".to_string(),
        description: "does".to_string(),
    }
}

fn push() -> Vec<ChangedFile> {
    vec![
        file(FileStatus::Added, "a.rs"),
        file(FileStatus::Modified, "m.rs"),
        file(FileStatus::Deleted, "d.rs"),
    ]
}

#[test]
fn languages_are_detected() {
    assert_eq!(detect_language("impl/haskell/Sort.hs"), "haskell");
    assert_eq!(detect_language("impl//Sort.hs"), "haskell");
    assert_eq!(detect_language("impl/sort.rs"), "rust");
    assert_eq!(detect_language("impl/python/"), "python");
    assert_eq!(detect_language("impl/README"), "");
    assert_eq!(detect_language("src/main.rs"), "rust");
    assert_eq!(detect_language("a.mjs"), "javascript");
    assert_eq!(detect_language("a.exs"), "elixir");
    assert_eq!(detect_language("README"), "");
    assert_eq!(detect_language("go"), "go");
    assert_eq!(detect_language("x.unknown"), "");
}

#[test]
fn hash_of_the_empty_text() {
    assert_eq!(
        hex_sha256(""),
        "e3b0c44298fc1c149afbf4c8996fb92427ae41e4649b934ca495991b7852b855"
    );
    assert_eq!(
        hex_sha256("abc"),
        "ba7816bf8f01cfea414140de5dae2223b00361a396177a9cb410ff61f20015ad"
    );
}

#[test]
fn diff_output_is_read() {
    let files = changed_files("A\ta.rs\nM\tb c.rs\n\nD\td.rs\n").unwrap();
    assert_eq!(files.len(), 3);
    assert_eq!(files[0].status, FileStatus::Added);
    assert_eq!(files[1].path, "b c.rs");
    assert_eq!(files[2].status, FileStatus::Deleted);
    assert!(changed_files("").unwrap().is_empty());
    assert_eq!(object_name("abc", "src/x.rs"), "abc:src/x.rs");
    let zeros = "0".repeat(40);
    let args = |old: &str| changed_files_args(old, "abc").join(" ");
    assert_eq!(
        args(&zeros),
        "diff-tree -r --name-status --no-commit-id 4b825dc642cb6eb9a060e54bf8d69288fbee4904 abc"
    );
    assert_eq!(args("def"), "diff-tree -r --name-status --no-commit-id def abc");
}

#[test]
fn deleted_files_lose_their_signatures() {
    let writes = deletions("r1", &push());
    assert_eq!(writes.len(), 1);
    assert!(matches!(&writes[0], IndexWrite::DeleteSignatures { repo_id, file_path }
        if repo_id == "r1" && file_path == "d.rs"));
    assert_eq!(indexable(&push()), vec!["a.rs".to_string(), "m.rs".to_string()]);
}

#[test]
fn binary_and_empty_files_are_skipped() {
    assert!(is_source(Some("fn a() {}")));
    assert!(!is_source(Some("")));
    assert!(!is_source(Some("a\0b")));
    assert!(!is_source(None));
}

#[test]
fn signatures_take_the_place_of_old_ones() {
    let ids = vec!["i1".to_string(), "i2".to_string()];
    let writes = replace_signatures("r1", "m.rs", "c0ffee", &vec![sig("f"), sig("g")], &ids);
    assert_eq!(writes.len(), 3);
    assert!(matches!(&writes[0], IndexWrite::DeleteSignatures { file_path, .. } if file_path == "m.rs"));
    match &writes[2] {
        IndexWrite::InsertSignature(row) => {
            assert_eq!(row.id, "i2");
            assert_eq!(row.function_name, "g");
            assert_eq!(row.language, "rust");
            assert_eq!(row.commit_sha, "c0ffee");
        }
        _ => panic!("a signature is inserted"),
    }
    // Even where no function is left.
    assert_eq!(replace_signatures("r1", "m.rs", "c0ffee", &vec![], &vec![]).len(), 1);
}

#[test]
fn push_is_indexed_file_by_file() {
    let mut index = PushIndex::new("1111111111111111111111111111111111111111", &push());
    let ids = vec!["i1".to_string()];
    let sigs = vec![sig("f")];
    let (writes, texts) =
        index.index_file("r1", "c0ffee", "m.rs", Some("fn f() {}"), Some(&sigs), &ids);
    assert_eq!(writes.len(), 2);
    assert_eq!(
        texts,
        vec!["Function: f\nType: Int -> Int\nDescription: does\nFile: m.rs\n\nSource:\nfn f() {}"]
    );
    let added = vec![sig("g")];
    index.index_file("r1", "c0ffee", "a.rs", Some("fn g() {}"), Some(&added), &ids);
    // A file that cannot be read, or whose signatures could not be extracted, is left alone.
    for (content, sigs) in [(None, Some(&sigs)), (Some("x"), None), (Some("\0"), Some(&sigs))] {
        let (writes, texts) = index.index_file("r1", "c0ffee", "m.rs", content, sigs, &ids);
        assert!(writes.is_empty() && texts.is_empty());
    }
    // Only the function of the modified file is compared.
    let changes = vec![
        ("g".to_string(), true),
        ("f".to_string(), true),
        ("f".to_string(), false),
        ("h".to_string(), true),
    ];
    assert_eq!(
        index.assessments(&changes),
        vec![("f".to_string(), "m.rs".to_string())]
    );
    assert_eq!(index.assesses("f", true).as_deref(), Some("m.rs"));
    assert!(index.checks_version(true, true, 0));
    assert!(!index.checks_version(false, true, 5));
    assert!(!index.checks_version(true, false, 5));
}

#[test]
fn first_push_is_not_compared() {
    let mut index = PushIndex::new(&"0".repeat(40), &push());
    assert!(!index.checks_version(true, true, 0));
    index.record("m.rs", &vec![sig("f")]);
    assert_eq!(index.assesses("f", true), None);
}

#[test]
fn embeddings_go_to_signatures_in_order() {
    let texts = embed_texts(&vec![sig("f"), sig("g")], "m.rs", "src");
    let ids = vec!["i1".to_string(), "i2".to_string()];
    let rows = embedding_rows(&ids, &texts, 5);
    assert_eq!(rows.len(), 2);
    assert_eq!((rows[1].signature_id.as_str(), rows[1].vector), ("i2", 1));
    assert_eq!(rows[1].source_hash, hex_sha256(&texts[0]));
    assert_eq!(embedding_rows(&ids, &texts, 1).len(), 1);
}

#[test]
fn refused_push_leaves_the_state() {
    assert_eq!(
        conclude_push("r1", "c1", Some("1.0.1".to_string()), Err("needs major".to_string())).err(),
        Some("semver violation: needs major".to_string())
    );
    assert!(matches!(conclude_push("r1", "c1", None, Ok(())),
        Ok(IndexWrite::SetState { version, commit, .. }) if version.is_empty() && commit == "c1"));
    assert!(sources_differ(Some("a"), Some("b")));
    assert!(!sources_differ(Some("a"), Some("a")));
    assert!(!sources_differ(None, Some("a")));
    assert_eq!(stored_version(Some(String::new())), None);
    assert_eq!(stored_version(Some("1.0.0".to_string())).as_deref(), Some("1.0.0"));
}

#[test]
fn keywords_are_found_in_any_case() {
    let hits = keyword_hits("SORT the List");
    assert_eq!(hits.len(), EMBED_DIM);
    assert_eq!(hits, keywords_in("sort the list"));
    assert!(hits.iter().any(|h| *h));
    assert!(keyword_hits("hello world").iter().all(|h| !h));
    assert_ne!(keyword_hits("sort"), keyword_hits("parse"));
    // Without folding the case nothing would be found.
    assert!(keywords_in("SORT").iter().all(|h| !h));
}

#[test]
fn mock_plays_its_script_in_order() {
    let mut llm = MockLlm::new();
    llm.queue_response("one".to_string());
    llm.queue_response("two".to_string());
    assert_eq!(llm.complete(vec![]).content, "one");
    assert_eq!(llm.complete(vec![]).content, "two");
    llm.record_embed(vec!["text".to_string()]);
    assert_eq!(llm.recorded_requests().len(), 2);
    assert_eq!(llm.recorded_embed_requests()[0][0], "text");
}

#[test]
fn push_with_versions_is_judged() {
    let version = || Some("1.1.0".to_string());
    let old = "1".repeat(40);
    let (mut run, writes) = index_push("r1", &old, "c2", version(), true, 3, &push());
    assert_eq!(writes.len(), 1);
    let sigs = vec![sig("f")];
    let ids = vec!["i1".to_string()];
    for expected in ["a.rs", "m.rs"] {
        assert!(matches!(run.next(), IndexStep::IndexFile(path) if path == expected));
        let (writes, texts) = run.file_read(Some("fn f() {}"), Some(&sigs), &ids);
        assert_eq!((writes.len(), texts.len()), (2, 1));
    }
    assert!(matches!(run.next(), IndexStep::Compare));
    run.compared(&vec![("f".to_string(), true), ("g".to_string(), false)]);
    assert!(matches!(run.next(), IndexStep::Assess { name, path } if name == "f" && path == "m.rs"));
    run.assessed(Some("sorts down".to_string()));
    assert_eq!(run.breaking(), &vec![("f".to_string(), "sorts down".to_string())]);
    assert!(matches!(run.next(), IndexStep::Validate));
    run.judged(Err("needs major".to_string()));
    assert!(matches!(run.next(), IndexStep::Conclude));
    assert_eq!(run.conclude().err().as_deref(), Some("semver violation: needs major"));
}

#[test]
fn push_without_versions_is_accepted() {
    for (version, had_version) in [(None, true), (Some("1.0.0".to_string()), false)] {
        let old = "1".repeat(40);
        let (mut run, _) = index_push("r1", &old, "c2", version.clone(), had_version, 3, &push());
        run.file_read(None, None, &vec![]);
        run.file_read(Some("fn f() {}"), Some(&vec![]), &vec![]);
        assert!(matches!(run.next(), IndexStep::Conclude));
        match run.conclude() {
            Ok(IndexWrite::SetState { commit, version: stored, .. }) => {
                assert_eq!(commit, "c2");
                assert_eq!(stored, version.unwrap_or_default());
            }
            _ => panic!("the push is accepted"),
        }
    }
}
