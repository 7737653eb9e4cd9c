use proton_drive::cache::CacheStore;
use proton_drive::indexer::{FullIndexer, IndexAction};
use proton_drive::node::{FileNode, FolderNode, NodeIdentity, NodeKind, NodeType};
use proton_drive::snapshot::{index_snapshot, Snapshot, SnapshotEntry};

fn ident(node: &str) -> NodeIdentity {
    NodeIdentity { node_id: Some(node.to_string()), share_id: None, volume_id: None }
}

fn folder(name: &str, node: &str) -> NodeType {
    NodeType {
        node_type: Some(NodeKind::FolderNode(FolderNode {
            name: name.to_string(),
            node_identity: Some(ident(node)),
            encoded: node.as_bytes().to_vec(),
        })),
    }
}

fn file(name: &str) -> NodeType {
    NodeType {
        node_type: Some(NodeKind::FileNode(FileNode {
            name: name.to_string(),
            node_identity: None,
            encoded: name.as_bytes().to_vec(),
        })),
    }
}

/// root: A/ (x.txt, B/ (y.txt), an unclassified entry), top.txt, Empty/
fn children_of(identity: &NodeIdentity) -> Vec<NodeType> {
    match identity.node_id.as_deref() {
        Some("root") => vec![folder("A", "a"), file("top.txt"), folder("Empty", "e")],
        Some("a") => vec![file("x.txt"), folder("B", "b"), NodeType { node_type: None }],
        Some("b") => vec![file("y.txt")],
        _ => vec![],
    }
}

struct Run {
    store: CacheStore,
    order: Vec<String>,
    progress: Vec<usize>,
    fetches: usize,
}

fn run_index(store: CacheStore) -> Run {
    let mut run = Run { store, order: vec![], progress: vec![], fetches: 0 };
    let mut ix = FullIndexer::new(ident("root"));
    loop {
        match ix.next_action() {
            IndexAction::Fetch(identity) => {
                run.fetches += 1;
                ix.children_fetched(children_of(&identity));
            }
            IndexAction::WriteFolder(w) => {
                run.order.push(w.full_path.clone());
                run.store.apply(w);
            }
            IndexAction::WriteFile(w, count) => {
                run.progress.push(count);
                run.order.push(w.full_path.clone());
                run.store.apply(w);
            }
            IndexAction::Step => {}
            IndexAction::Done => break,
            IndexAction::Cancelled => panic!("not cancelled"),
        }
    }
    assert_eq!(ix.file_count(), run.progress.len());
    run
}

fn sorted(mut v: Vec<String>) -> Vec<String> {
    v.sort();
    v
}

#[test]
fn full_index_records_every_node_once_with_joined_paths() {
    let run = run_index(CacheStore::new());
    assert_eq!(run.store.folder_count(), 3);
    assert_eq!(run.store.file_count(), 3);
    let folders: Vec<String> = run.store.list_known_folders().into_iter().map(|(p, _)| p).collect();
    assert_eq!(sorted(folders), vec!["A", "A/B", "Empty"]);
    for p in ["top.txt", "A/x.txt", "A/B/y.txt"] {
        assert!(run.store.exists_file(&p.to_string()));
    }
    assert!(!run.store.exists_folder(&"B".to_string()));
    assert_eq!(run.fetches, 4);
}

#[test]
fn full_index_walks_depth_first_in_pre_order() {
    let run = run_index(CacheStore::new());
    assert_eq!(run.order, vec!["A", "A/x.txt", "A/B", "A/B/y.txt", "top.txt", "Empty"]);
}

#[test]
fn full_index_reports_progress_once_per_file() {
    let run = run_index(CacheStore::new());
    assert_eq!(run.progress, vec![1, 2, 3]);
}

#[test]
fn full_index_rerun_is_idempotent() {
    let first = run_index(CacheStore::new());
    let folders_before = sorted(first.store.list_known_folders().into_iter().map(|(p, _)| p).collect());
    let second = run_index(first.store);
    assert_eq!(second.store.folder_count(), 3);
    assert_eq!(second.store.file_count(), 3);
    let folders_after = sorted(second.store.list_known_folders().into_iter().map(|(p, _)| p).collect());
    assert_eq!(folders_before, folders_after);
}

#[test]
fn full_index_stores_node_blob() {
    let run = run_index(CacheStore::new());
    let known = run.store.list_known_folders();
    let b = known.iter().find(|(p, _)| p == "A/B").unwrap();
    assert_eq!(b.1, b"b".to_vec());
}

#[test]
fn cancelled_index_stops_before_next_step() {
    let mut ix = FullIndexer::new(ident("root"));
    assert!(matches!(ix.next_action(), IndexAction::Fetch(_)));
    ix.cancel();
    assert!(matches!(ix.next_action(), IndexAction::Cancelled));
}

#[test]
fn index_of_empty_root_is_done_after_one_fetch() {
    let mut ix = FullIndexer::new(ident("nothing"));
    match ix.next_action() {
        IndexAction::Fetch(id) => ix.children_fetched(children_of(&id)),
        _ => panic!("expected a fetch"),
    }
    assert!(matches!(ix.next_action(), IndexAction::Step));
    assert!(matches!(ix.next_action(), IndexAction::Done));
    assert_eq!(ix.file_count(), 0);
}

fn snapshot() -> Snapshot {
    let fnode = |name: &str| FolderNode { name: name.to_string(), node_identity: None, encoded: name.as_bytes().to_vec() };
    let file_node = |name: &str| FileNode { name: name.to_string(), node_identity: None, encoded: vec![0] };
    Snapshot {
        listings: vec![
            vec![
                SnapshotEntry::Folder(fnode("A"), 1),
                SnapshotEntry::File(file_node("top.txt")),
                SnapshotEntry::Folder(fnode("Empty"), 3),
            ],
            vec![SnapshotEntry::File(file_node("x.txt")), SnapshotEntry::Folder(fnode("B"), 2), SnapshotEntry::Other],
            vec![SnapshotEntry::File(file_node("y.txt"))],
            vec![],
        ],
    }
}

#[test]
fn snapshot_index_has_one_row_per_node() {
    let mut store = CacheStore::new();
    let progress = index_snapshot(&snapshot(), &mut store);
    assert_eq!(progress, vec![1, 2, 3]);
    assert_eq!(store.folder_count(), 3);
    assert_eq!(store.file_count(), 3);
    let folders: Vec<String> = store.list_known_folders().into_iter().map(|(p, _)| p).collect();
    assert_eq!(sorted(folders), vec!["A", "A/B", "Empty"]);
    assert!(store.exists_file(&"A/B/y.txt".to_string()));
    assert!(store.exists_file(&"top.txt".to_string()));
}

#[test]
fn snapshot_index_twice_keeps_rows() {
    let mut store = CacheStore::new();
    index_snapshot(&snapshot(), &mut store);
    let before = sorted(store.list_known_folders().into_iter().map(|(p, _)| p).collect());
    let progress = index_snapshot(&snapshot(), &mut store);
    assert_eq!(progress, vec![1, 2, 3]);
    assert_eq!(store.folder_count(), 3);
    assert_eq!(store.file_count(), 3);
    let after = sorted(store.list_known_folders().into_iter().map(|(p, _)| p).collect());
    assert_eq!(before, after);
}

#[test]
fn snapshot_index_of_empty_root_writes_nothing() {
    let mut store = CacheStore::new();
    let progress = index_snapshot(&Snapshot { listings: vec![vec![]] }, &mut store);
    assert!(progress.is_empty());
    assert_eq!(store.folder_count(), 0);
    assert_eq!(store.file_count(), 0);
}
