use proton_drive::cache::{CacheStore, RowKind};
use proton_drive::error::SyncError;
use proton_drive::node::{FileNode, FolderNode, NodeKind, NodeType};
use proton_drive::updater::{plan_children, update_folder, FolderQueue, UpdateWorker};

fn s(x: &str) -> String {
    x.to_string()
}

fn folder(name: &str) -> NodeType {
    NodeType {
        node_type: Some(NodeKind::FolderNode(FolderNode {
            name: s(name),
            node_identity: None,
            encoded: name.as_bytes().to_vec(),
        })),
    }
}

fn file(name: &str) -> NodeType {
    NodeType {
        node_type: Some(NodeKind::FileNode(FileNode {
            name: s(name),
            node_identity: None,
            encoded: name.as_bytes().to_vec(),
        })),
    }
}

/// The remote tree now: A holds B/ and the new C.txt; A/B holds the new D/,
/// and A/B/D holds E.txt.
fn listing(path: &str) -> Result<Vec<NodeType>, SyncError> {
    match path {
        "A" => Ok(vec![folder("B"), file("C.txt")]),
        "A/B" => Ok(vec![folder("D")]),
        "A/B/D" => Ok(vec![file("E.txt")]),
        _ => Ok(vec![]),
    }
}

fn run_worker(store: &mut CacheStore, queue: &mut FolderQueue, broken: &str) -> Vec<String> {
    let mut worker = UpdateWorker::new();
    let mut scanned = vec![];
    while let Some((path, node)) = worker.next_folder(queue) {
        let decoded = if path == broken || node.is_empty() { Err(SyncError::DecodeFailure) } else { Ok(()) };
        if let Err(e) = decoded {
            worker.fail(e);
            continue;
        }
        match listing(&path) {
            Ok(children) => {
                update_folder(store, &path, &children);
                scanned.push(path);
            }
            Err(e) => {
                worker.fail(e);
            }
        }
    }
    scanned
}

fn seeded() -> CacheStore {
    let mut store = CacheStore::new();
    store.upsert_folder(s("A"), s("A"), vec![1]);
    store.upsert_folder(s("A/B"), s("B"), vec![2]);
    store
}

#[test]
fn update_inserts_new_children_but_not_below_new_folders() {
    let mut store = seeded();
    let mut queue = FolderQueue::from_known_folders(&store);
    run_worker(&mut store, &mut queue, "");
    assert!(store.exists_file(&s("A/C.txt")));
    assert!(store.exists_folder(&s("A/B/D")));
    assert!(!store.exists_file(&s("A/B/D/E.txt")));
    assert_eq!(store.folder_count(), 3);
    assert_eq!(store.file_count(), 1);
}

#[test]
fn update_leaves_known_rows_untouched() {
    let mut store = seeded();
    let mut queue = FolderQueue::from_known_folders(&store);
    run_worker(&mut store, &mut queue, "");
    let known = store.list_known_folders();
    let b = known.iter().find(|(p, _)| p == "A/B").unwrap();
    assert_eq!(b.1, vec![2]);
}

#[test]
fn decode_failure_skips_only_that_folder() {
    let mut store = seeded();
    let mut queue = FolderQueue::from_known_folders(&store);
    let scanned = run_worker(&mut store, &mut queue, "A/B");
    assert_eq!(scanned, vec![s("A")]);
    assert!(store.exists_file(&s("A/C.txt")));
    assert!(!store.exists_folder(&s("A/B/D")));
    assert!(queue.is_empty());
}

#[test]
fn storage_failure_stops_the_worker() {
    let mut queue = FolderQueue::new(vec![(s("A"), vec![1]), (s("B"), vec![2])]).unwrap();
    let mut worker = UpdateWorker::new();
    assert!(worker.next_folder(&mut queue).is_some());
    assert!(!worker.fail(SyncError::StorageFailure));
    assert!(worker.next_folder(&mut queue).is_none());
    assert_eq!(queue.len(), 1);
}

#[test]
fn fetch_failure_and_decode_failure_keep_the_worker() {
    let mut worker = UpdateWorker::new();
    assert!(worker.fail(SyncError::RemoteFetchFailure));
    assert!(worker.fail(SyncError::DecodeFailure));
    assert!(!worker.fail(SyncError::Cancelled));
}

#[test]
fn queue_refuses_duplicate_paths() {
    assert!(FolderQueue::new(vec![(s("A"), vec![1]), (s("A"), vec![2])]).is_none());
    let q = FolderQueue::new(vec![(s("A"), vec![1]), (s("B"), vec![2])]).unwrap();
    assert_eq!(q.len(), 2);
}

#[test]
fn queue_pops_last_in_first_out() {
    let mut q = FolderQueue::new(vec![(s("A"), vec![1]), (s("B"), vec![2])]).unwrap();
    assert_eq!(q.pop(), Some((s("B"), vec![2])));
    assert_eq!(q.pop(), Some((s("A"), vec![1])));
    assert_eq!(q.pop(), None);
}

#[test]
fn disjoint_folders_plan_disjoint_paths() {
    let a = plan_children(&s("A"), &vec![folder("B"), file("x")]);
    let b = plan_children(&s("A/B"), &vec![file("x"), NodeType { node_type: None }]);
    assert_eq!(a.len(), 2);
    assert_eq!(b.len(), 1);
    assert_eq!(a[0].full_path, "A/B");
    assert!(matches!(a[0].kind, RowKind::Folder));
    assert_eq!(a[1].full_path, "A/x");
    assert_eq!(b[0].full_path, "A/B/x");
    for w in &a {
        assert!(b.iter().all(|v| v.full_path != w.full_path));
    }
}
