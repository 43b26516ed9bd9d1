use v8_runner::change_detection::analyzer::{
    commit_changes, detect_changes, rescan_and_commit, ChangeKind, FileChange,
};
use v8_runner::change_detection::file_state::FileState;
use v8_runner::change_detection::hash_storage::HashStorage;
use v8_runner::change_detection::partial_load::{
    decide_with, expand_files_with, list_file_content, object_dir, sibling_xml, strip_prefix,
    LoadDecision, PARTIAL_LOAD_THRESHOLD,
};

fn state(path: &str, mtime: u64, hash: &str) -> FileState {
    FileState::new(path.to_owned(), mtime, hash.to_owned())
}

#[test]
fn detect_changes_reports_deleted_files() {
    let deleted = "/tmp/deleted.bsl".to_owned();
    let mut storage = HashStorage::default();
    storage.insert(state(&deleted, 1, "old"));

    let changes = detect_changes(&[], &storage);

    assert_eq!(changes.len(), 1);
    assert_eq!(changes[0].path, deleted);
    assert_eq!(changes[0].kind, ChangeKind::Deleted);
    assert_eq!(changes[0].new_hash, None);
}

#[test]
fn commit_changes_removes_stale_entries() {
    let kept = state("/tmp/kept.bsl", 2, "new");
    let deleted = "/tmp/deleted.bsl".to_owned();
    let mut storage = HashStorage::default();
    storage.insert(state(&kept.path, 1, "old"));
    storage.insert(state(&deleted, 1, "old"));

    commit_changes(std::slice::from_ref(&kept), &mut storage);

    assert!(storage.get(&kept.path).is_some());
    assert!(storage.get(&deleted).is_none());
}

#[test]
fn detect_changes_reports_added_and_modified_files() {
    let mut storage = HashStorage::default();
    storage.insert(state("/src/a.bsl", 1, "h1"));
    storage.insert(state("/src/b.bsl", 1, "h2"));
    let current = vec![
        state("/src/a.bsl", 2, "h1"),
        state("/src/b.bsl", 2, "h3"),
        state("/src/c.bsl", 1, "h4"),
    ];

    let changes = detect_changes(&current, &storage);

    assert_eq!(changes.len(), 2);
    assert_eq!(changes[0].path, "/src/b.bsl");
    assert_eq!(changes[0].kind, ChangeKind::Modified);
    assert_eq!(changes[0].new_hash.as_deref(), Some("h3"));
    assert_eq!(changes[1].path, "/src/c.bsl");
    assert_eq!(changes[1].kind, ChangeKind::Added);
    assert_eq!(changes[1].new_hash.as_deref(), Some("h4"));
}

#[test]
fn commit_then_detect_reports_no_changes() {
    let mut storage = HashStorage::default();
    storage.insert(state("/src/old.bsl", 1, "x"));
    let current = vec![state("/src/a.bsl", 1, "h1"), state("/src/b.bsl", 3, "h2")];

    commit_changes(&current, &mut storage);

    assert!(detect_changes(&current, &storage).is_empty());
    assert_eq!(storage.len(), 2);
}

#[test]
fn storage_insert_replaces_entry_with_same_path() {
    let mut storage = HashStorage::default();
    storage.insert(state("/src/a.bsl", 1, "h1"));
    storage.insert(state("/src/a.bsl", 2, "h2"));

    assert_eq!(storage.len(), 1);
    let got = storage.get(&"/src/a.bsl".to_owned()).expect("entry");
    assert_eq!(got.hash, "h2");
    assert_eq!(got.mtime, 2);
}

#[test]
fn rescan_failure_leaves_storage_unchanged() {
    let mut storage = HashStorage::default();
    storage.insert(state("/src/a.bsl", 1, "h1"));

    let r = rescan_and_commit(Err("scan failed".to_owned()), &mut storage);

    assert_eq!(r, Err("scan failed".to_owned()));
    assert_eq!(storage.len(), 1);
    assert!(storage.get(&"/src/a.bsl".to_owned()).is_some());
}

#[test]
fn object_dir_uses_parent_for_top_level_modules() {
    let bsl = "/tmp/src/Catalogs.Items/ObjectModule.bsl";

    assert_eq!(object_dir(bsl), Some("/tmp/src/Catalogs.Items".to_owned()));
}

#[test]
fn object_dir_uses_owning_object_for_nested_modules() {
    let bsl = "/tmp/src/Catalogs.Items/Forms/Form1/Module.bsl";

    assert_eq!(object_dir(bsl), Some("/tmp/src/Catalogs.Items".to_owned()));
}

#[test]
fn sibling_xml_replaces_module_extension() {
    assert_eq!(
        sibling_xml("/tmp/src/Catalogs.Items/ObjectModule.bsl"),
        Some("/tmp/src/Catalogs.Items/ObjectModule.xml".to_owned())
    );
}

fn change(path: &str, kind: ChangeKind) -> FileChange {
    FileChange { path: path.to_owned(), kind, new_hash: None }
}

#[test]
fn expand_files_adds_existing_descriptors_of_modules() {
    let changes = vec![change("/src/Catalogs.Items/ObjectModule.bsl", ChangeKind::Modified)];
    let existing = vec!["/src/Catalogs.Items/ObjectModule.xml".to_owned()];

    let files = expand_files_with(&changes, &existing);

    assert_eq!(
        files,
        vec![
            "/src/Catalogs.Items/ObjectModule.bsl".to_owned(),
            "/src/Catalogs.Items/ObjectModule.xml".to_owned(),
        ]
    );

    let with_dir = vec!["/src/Catalogs.Items".to_owned()];
    let files = expand_files_with(&changes, &with_dir);
    assert_eq!(
        files,
        vec!["/src/Catalogs.Items".to_owned(), "/src/Catalogs.Items/ObjectModule.bsl".to_owned()]
    );
}

#[test]
fn decide_falls_back_to_full_load_on_deletion() {
    let changes = vec![change("/src/a.bsl", ChangeKind::Deleted)];

    assert_eq!(decide_with(&changes, &Vec::new(), PARTIAL_LOAD_THRESHOLD), LoadDecision::Full);
}

#[test]
fn decide_falls_back_to_full_load_over_threshold() {
    let changes: Vec<FileChange> = (0..=PARTIAL_LOAD_THRESHOLD)
        .map(|i| change(&format!("/src/file{i}.xml"), ChangeKind::Modified))
        .collect();

    assert_eq!(decide_with(&changes, &Vec::new(), PARTIAL_LOAD_THRESHOLD), LoadDecision::Full);
}

#[test]
fn decide_lists_few_modified_files() {
    let changes = vec![change("/src/b.xml", ChangeKind::Modified), change("/src/a.xml", ChangeKind::Added)];

    match decide_with(&changes, &Vec::new(), PARTIAL_LOAD_THRESHOLD) {
        LoadDecision::Partial(files) => {
            assert_eq!(files, vec!["/src/a.xml".to_owned(), "/src/b.xml".to_owned()]);
        }
        LoadDecision::Full => panic!("expected a partial load"),
    }
}

#[test]
fn strip_prefix_gives_relative_paths() {
    assert_eq!(strip_prefix("/src/a/b.xml", "/src"), Some("a/b.xml".to_owned()));
    assert_eq!(strip_prefix("/other/b.xml", "/src"), None);
}

#[test]
fn list_file_content_skips_empty_relative_paths() {
    let paths = vec!["/src".to_owned(), "/src/a.xml".to_owned(), "/src/b/c.xml".to_owned()];

    assert_eq!(list_file_content(&paths, "/src"), "a.xml\r\nb/c.xml\r\n");
    assert_eq!(list_file_content(&["/src".to_owned()], "/src"), "");
}

#[test]
fn configured_threshold_bounds_partial_loads() {
    let changes = vec![change("/src/b.xml", ChangeKind::Modified), change("/src/a.xml", ChangeKind::Added)];

    assert_eq!(decide_with(&changes, &Vec::new(), 1), LoadDecision::Full);
    assert_eq!(
        decide_with(&changes, &Vec::new(), 2),
        LoadDecision::Partial(vec!["/src/a.xml".to_owned(), "/src/b.xml".to_owned()])
    );
    let deleted = vec![change("/src/a.xml", ChangeKind::Deleted)];
    assert_eq!(decide_with(&deleted, &Vec::new(), 100), LoadDecision::Full);
}
