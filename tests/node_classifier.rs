use proton_drive::node::{
    child_path, classify, inherit_identity, nested_path_exec, node_is_file, node_is_folder, Classified,
    FileNode, FolderNode, NodeIdentity, NodeKind, NodeType,
};

fn id(node: Option<&str>, share: Option<&str>, volume: Option<&str>) -> NodeIdentity {
    NodeIdentity {
        node_id: node.map(|s| s.to_string()),
        share_id: share.map(|s| s.to_string()),
        volume_id: volume.map(|s| s.to_string()),
    }
}

fn folder(name: &str) -> NodeType {
    NodeType {
        node_type: Some(NodeKind::FolderNode(FolderNode {
            name: name.to_string(),
            node_identity: None,
            encoded: vec![1, 2],
        })),
    }
}

fn file(name: &str) -> NodeType {
    NodeType {
        node_type: Some(NodeKind::FileNode(FileNode {
            name: name.to_string(),
            node_identity: None,
            encoded: vec![3],
        })),
    }
}

#[test]
fn folder_entry_is_classified_as_folder() {
    let (is_folder, f) = node_is_folder(folder("Docs"));
    assert!(is_folder);
    assert_eq!(f.unwrap().name, "Docs");
    let (is_file, f) = node_is_file(folder("Docs"));
    assert!(!is_file);
    assert!(f.is_none());
}

#[test]
fn file_entry_is_classified_as_file() {
    let (is_file, f) = node_is_file(file("a.txt"));
    assert!(is_file);
    assert_eq!(f.unwrap().encoded, vec![3]);
    let (is_folder, _) = node_is_folder(file("a.txt"));
    assert!(!is_folder);
}

#[test]
fn empty_entry_is_neither() {
    assert!(matches!(classify(NodeType { node_type: None }), Classified::Other));
    assert!(!node_is_folder(NodeType { node_type: None }).0);
    assert!(!node_is_file(NodeType { node_type: None }).0);
}

#[test]
fn identity_inherits_missing_fields() {
    let parent = id(Some("p"), Some("share"), Some("vol"));
    let own = Some(id(Some("c"), None, Some("vol2")));
    let r = inherit_identity(&own, &parent);
    assert_eq!(r.node_id.as_deref(), Some("c"));
    assert_eq!(r.share_id.as_deref(), Some("share"));
    assert_eq!(r.volume_id.as_deref(), Some("vol2"));
    let r = inherit_identity(&None, &parent);
    assert_eq!(r.node_id.as_deref(), Some("p"));
}

#[test]
fn paths_join_with_slash_except_at_root() {
    assert_eq!(child_path("", "A"), "A");
    assert_eq!(child_path("A", "B"), "A/B");
    assert_eq!(child_path("A/B", "c.txt"), "A/B/c.txt");
    assert_eq!(nested_path_exec("A", "C.txt"), "A/C.txt");
}
