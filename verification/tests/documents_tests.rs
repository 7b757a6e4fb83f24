use shared_editor::documents::{
    document_path, is_document_file, normalize_name, DocumentStore, PendingWrite, StoreError,
    WriteKind, DOCUMENT_SUFFIX,
};

fn create(store: &mut DocumentStore, name: &str, durable: bool) -> Result<(), StoreError> {
    let write = store.plan_create(name)?;
    store.commit(write, durable)
}

fn update(store: &mut DocumentStore, name: &str, content: &str, durable: bool) -> Result<(), StoreError> {
    let write = store.plan_update(name, content)?;
    store.commit(write, durable)
}

#[test]
fn name_is_normalized_with_the_suffix() {
    assert_eq!(DOCUMENT_SUFFIX, ".txt");
    assert_eq!(normalize_name("notes"), "notes.txt");
    assert_eq!(normalize_name("notes.txt"), "notes.txt");
    assert_eq!(normalize_name(""), ".txt");
    assert_eq!(normalize_name("notes.TXT"), "notes.TXT.txt");
    assert_eq!(normalize_name("a.txt.bak"), "a.txt.bak.txt");
}

#[test]
fn document_files_end_in_the_suffix() {
    assert!(is_document_file("a.txt"));
    assert!(is_document_file("a.b.txt"));
    assert!(is_document_file("..txt"));
    assert!(!is_document_file(".txt"));
    assert!(!is_document_file("a.md"));
    assert!(!is_document_file("txt"));
    assert!(!is_document_file(""));
}

#[test]
fn durable_copy_lies_in_the_documents_directory() {
    assert_eq!(document_path("notes.txt"), "shared_documents/notes.txt");
}

#[test]
fn new_store_is_empty() {
    let store = DocumentStore::new();
    assert_eq!(store.len(), 0);
    assert!(store.list().is_empty());
    assert!(!store.contains("a.txt"));
    assert_eq!(store.get("a.txt"), Err(StoreError::NotFound));
}

#[test]
fn name_is_created_at_most_once() {
    let mut store = DocumentStore::new();
    assert_eq!(create(&mut store, "notes", true), Ok(()));
    assert_eq!(create(&mut store, "notes", true), Err(StoreError::AlreadyExists));
    assert_eq!(create(&mut store, "notes.txt", true), Err(StoreError::AlreadyExists));
    assert_eq!(create(&mut store, "other", true), Ok(()));
    assert_eq!(create(&mut store, "notes.txt", false), Err(StoreError::AlreadyExists));
    assert_eq!(store.list(), vec!["notes.txt", "other.txt"]);
    assert_eq!(store.get("notes.txt").unwrap().as_str(), "");
}

#[test]
fn creation_that_is_not_durable_leaves_no_document() {
    let mut store = DocumentStore::new();
    assert_eq!(create(&mut store, "notes", false), Err(StoreError::PersistFailed));
    assert_eq!(store.len(), 0);
    assert!(!store.contains("notes.txt"));
    assert_eq!(create(&mut store, "notes", true), Ok(()));
    assert_eq!(store.len(), 1);
}

#[test]
fn last_update_wins() {
    let mut store = DocumentStore::new();
    create(&mut store, "foo", true).unwrap();
    create(&mut store, "bar", true).unwrap();
    assert_eq!(update(&mut store, "foo.txt", "X", true), Ok(()));
    assert_eq!(update(&mut store, "foo.txt", "Y", true), Ok(()));
    assert_eq!(update(&mut store, "bar.txt", "Z", true), Ok(()));
    assert_eq!(update(&mut store, "foo.txt", "lost", false), Err(StoreError::PersistFailed));
    assert_eq!(store.get("foo.txt").unwrap().as_str(), "Y");
    assert_eq!(store.get("bar.txt").unwrap().as_str(), "Z");
    assert_eq!(store.list(), vec!["foo.txt", "bar.txt"]);
}

#[test]
fn update_needs_the_document() {
    let mut store = DocumentStore::new();
    assert_eq!(update(&mut store, "foo.txt", "X", true), Err(StoreError::NotFound));
    create(&mut store, "foo", true).unwrap();
    // An update takes the name as it is given: it is not normalized.
    assert_eq!(update(&mut store, "foo", "X", true), Err(StoreError::NotFound));
    assert_eq!(store.get("foo.txt").unwrap().as_str(), "");
}

#[test]
fn planned_writes_say_what_is_to_be_saved() {
    let mut store = DocumentStore::new();
    assert_eq!(
        store.plan_create("foo"),
        Ok(PendingWrite { kind: WriteKind::Create, name: "foo.txt".to_string(), content: String::new() })
    );
    create(&mut store, "foo", true).unwrap();
    assert_eq!(store.plan_create("foo"), Err(StoreError::AlreadyExists));
    assert_eq!(
        store.plan_update("foo.txt", "body\n"),
        Ok(PendingWrite {
            kind: WriteKind::Update,
            name: "foo.txt".to_string(),
            content: "body\n".to_string()
        })
    );
    assert_eq!(store.plan_update("nope.txt", "x"), Err(StoreError::NotFound));
}

#[test]
fn commit_checks_the_table_again() {
    let mut store = DocumentStore::new();
    let first = store.plan_create("foo").unwrap();
    let second = store.plan_create("foo").unwrap();
    assert_eq!(store.commit(first, true), Ok(()));
    assert_eq!(store.commit(second, true), Err(StoreError::AlreadyExists));
    let stray = PendingWrite { kind: WriteKind::Update, name: "gone.txt".to_string(), content: "x".to_string() };
    assert_eq!(store.commit(stray, true), Err(StoreError::NotFound));
    assert_eq!(store.len(), 1);
}

#[test]
fn loaded_documents_replace_or_add() {
    let mut store = DocumentStore::new();
    store.load("a.txt".to_string(), "one".to_string());
    store.load("b.txt".to_string(), "two".to_string());
    store.load("a.txt".to_string(), "three".to_string());
    assert_eq!(store.list(), vec!["a.txt", "b.txt"]);
    assert_eq!(store.get("a.txt").unwrap().as_str(), "three");
    assert_eq!(store.get("b.txt").unwrap().as_str(), "two");
}

#[test]
fn listing_twice_gives_the_same_names() {
    let mut store = DocumentStore::new();
    create(&mut store, "b", true).unwrap();
    create(&mut store, "a", true).unwrap();
    let first = store.list();
    let second = store.list();
    assert_eq!(first, second);
    assert_eq!(first, vec!["b.txt", "a.txt"]);
}
