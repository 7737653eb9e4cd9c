use proton_drive::cache::{CacheStore, CacheTable, RowKind, StoreWrite};

fn s(x: &str) -> String {
    x.to_string()
}

#[test]
fn upsert_existing_folder_overwrites_blob_and_keeps_count() {
    let mut store = CacheStore::new();
    store.upsert_folder(s("A"), s("A"), vec![1]);
    store.upsert_folder(s("A/B"), s("B"), vec![2]);
    assert_eq!(store.folder_count(), 2);
    store.upsert_folder(s("A"), s("A"), vec![9, 9]);
    assert_eq!(store.folder_count(), 2);
    let known = store.list_known_folders();
    let a = known.iter().find(|(p, _)| p == "A").unwrap();
    assert_eq!(a.1, vec![9, 9]);
}

#[test]
fn files_and_folders_are_separate_tables() {
    let mut store = CacheStore::new();
    store.upsert_file(s("A/C.txt"), s("C.txt"), vec![5]);
    assert!(store.exists_file(&s("A/C.txt")));
    assert!(!store.exists_folder(&s("A/C.txt")));
    assert_eq!(store.file_count(), 1);
    assert_eq!(store.folder_count(), 0);
    assert!(store.list_known_folders().is_empty());
}

#[test]
fn insert_if_absent_leaves_existing_rows() {
    let mut store = CacheStore::new();
    let w = StoreWrite { kind: RowKind::Folder, full_path: s("A"), name: s("A"), node: vec![1] };
    assert!(store.insert_if_absent(w));
    let w = StoreWrite { kind: RowKind::Folder, full_path: s("A"), name: s("A"), node: vec![2] };
    assert!(!store.insert_if_absent(w));
    assert_eq!(store.list_known_folders(), vec![(s("A"), vec![1])]);
}

#[test]
fn empty_table_has_no_rows() {
    let t = CacheTable::new();
    assert_eq!(t.len(), 0);
    assert!(!t.contains_path(&s("")));
    assert!(t.list().is_empty());
}

#[test]
fn table_upsert_then_insert_if_absent() {
    let mut t = CacheTable::new();
    t.upsert(s("x"), s("x"), vec![]);
    t.upsert(s("y"), s("y"), vec![1]);
    assert!(t.contains_path(&s("x")));
    assert!(!t.insert_if_absent(s("y"), s("y"), vec![7]));
    assert!(t.insert_if_absent(s("z"), s("z"), vec![7]));
    assert_eq!(t.len(), 3);
}

#[test]
fn apply_routes_write_to_its_table() {
    let mut store = CacheStore::new();
    store.apply(StoreWrite { kind: RowKind::File, full_path: s("f"), name: s("f"), node: vec![] });
    store.apply(StoreWrite { kind: RowKind::Folder, full_path: s("d"), name: s("d"), node: vec![] });
    assert!(store.exists_file(&s("f")));
    assert!(store.exists_folder(&s("d")));
    assert!(!store.exists_file(&s("d")));
}
