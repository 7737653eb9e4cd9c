//! Remote tree entries, their classification, and the paths and identities
//! derived from them while walking the tree.
use vstd::prelude::*;

verus! {

/// The remote identity of a node. Any field may be missing in a response, in
/// which case it is inherited from the enclosing folder during traversal.
pub struct NodeIdentity {
    pub node_id: Option<String>,
    pub share_id: Option<String>,
    pub volume_id: Option<String>,
}

/// A folder entry as reported by the remote provider. `encoded` is the node's
/// serialized record, which the cache stores as the row's `node` blob.
pub struct FolderNode {
    pub name: String,
    pub node_identity: Option<NodeIdentity>,
    pub encoded: Vec<u8>,
}

/// A file entry as reported by the remote provider.
pub struct FileNode {
    pub name: String,
    pub node_identity: Option<NodeIdentity>,
    pub encoded: Vec<u8>,
}

/// The payload of a tree entry.
pub enum NodeKind {
    FolderNode(FolderNode),
    FileNode(FileNode),
}

/// One entry of a folder listing; an entry with no payload is neither a
/// folder nor a file.
pub struct NodeType {
    pub node_type: Option<NodeKind>,
}

/// What the classifier makes of an entry.
pub enum Classified {
    Folder(FolderNode),
    File(FileNode),
    Other,
}

pub open spec fn classify_spec(node: NodeType) -> Classified {
    match node.node_type {
        Some(NodeKind::FolderNode(f)) => Classified::Folder(f),
        Some(NodeKind::FileNode(f)) => Classified::File(f),
        None => Classified::Other,
    }
}

/// Takes the own value when present, else the inherited one.
pub open spec fn prefer(own: Option<String>, inherited: Option<String>) -> Option<String> {
    if own is Some {
        own
    } else {
        inherited
    }
}

/// The identity of a child: each of its own fields when present, else the
/// parent's corresponding field.
pub open spec fn inherit_spec(own: Option<NodeIdentity>, parent: NodeIdentity) -> NodeIdentity {
    match own {
        Some(o) => NodeIdentity {
            node_id: prefer(o.node_id, parent.node_id),
            share_id: prefer(o.share_id, parent.share_id),
            volume_id: prefer(o.volume_id, parent.volume_id),
        },
        None => parent,
    }
}

/// The full path of a child named `name` under the folder at `parent`; the
/// traversal root has the empty path, so its children's paths are their names.
pub open spec fn join_path(parent: Seq<char>, name: Seq<char>) -> Seq<char> {
    if parent.len() == 0 {
        name
    } else {
        parent + seq!['/'] + name
    }
}

/// The full path of a child under a folder whose path is known to the cache.
pub open spec fn nested_path(parent: Seq<char>, name: Seq<char>) -> Seq<char> {
    parent + seq!['/'] + name
}

fn clone_opt_string(s: &Option<String>) -> (r: Option<String>)
    ensures
        r == *s,
{
    match s {
        Some(v) => Some(v.clone()),
        None => None,
    }
}

fn prefer_exec(own: &Option<String>, inherited: &Option<String>) -> (r: Option<String>)
    ensures
        r == prefer(*own, *inherited),
{
    match own {
        Some(v) => Some(v.clone()),
        None => clone_opt_string(inherited),
    }
}

impl Clone for NodeIdentity {
    fn clone(&self) -> (r: Self)
        ensures
            r == *self,
    {
        NodeIdentity {
            node_id: clone_opt_string(&self.node_id),
            share_id: clone_opt_string(&self.share_id),
            volume_id: clone_opt_string(&self.volume_id),
        }
    }
}

/// Splits an entry into a folder payload, if it is a folder.
pub fn node_is_folder(node: NodeType) -> (r: (bool, Option<FolderNode>))
    ensures
        r.0 == (classify_spec(node) is Folder),
        r.0 ==> r.1 == Some(classify_spec(node)->Folder_0),
        !r.0 ==> r.1 is None,
{
    match node.node_type {
        Some(NodeKind::FolderNode(folder)) => (true, Some(folder)),
        _ => (false, None),
    }
}

/// Splits an entry into a file payload, if it is a file.
pub fn node_is_file(node: NodeType) -> (r: (bool, Option<FileNode>))
    ensures
        r.0 == (classify_spec(node) is File),
        r.0 ==> r.1 == Some(classify_spec(node)->File_0),
        !r.0 ==> r.1 is None,
{
    match node.node_type {
        Some(NodeKind::FileNode(file)) => (true, Some(file)),
        _ => (false, None),
    }
}

/// Classifies an entry as a folder, a file, or neither.
pub fn classify(node: NodeType) -> (r: Classified)
    ensures
        r == classify_spec(node),
{
    match node.node_type {
        Some(NodeKind::FolderNode(folder)) => Classified::Folder(folder),
        Some(NodeKind::FileNode(file)) => Classified::File(file),
        None => Classified::Other,
    }
}

/// Resolves a child's identity, inheriting each missing field from its parent.
pub fn inherit_identity(own: &Option<NodeIdentity>, parent: &NodeIdentity) -> (r: NodeIdentity)
    ensures
        r == inherit_spec(*own, *parent),
{
    match own {
        Some(o) => NodeIdentity {
            node_id: prefer_exec(&o.node_id, &parent.node_id),
            share_id: prefer_exec(&o.share_id, &parent.share_id),
            volume_id: prefer_exec(&o.volume_id, &parent.volume_id),
        },
        None => parent.clone(),
    }
}

/// The full path of `name` under the folder at `parent` (empty at the root).
pub fn child_path(parent: &str, name: &str) -> (r: String)
    ensures
        r@ == join_path(parent@, name@),
{
    if parent.is_empty() {
        name.to_owned()
    } else {
        nested_path_exec(parent, name)
    }
}

/// The full path `parent/name`.
pub fn nested_path_exec(parent: &str, name: &str) -> (r: String)
    ensures
        r@ == nested_path(parent@, name@),
{
    let mut p = parent.to_owned();
    proof {
        reveal_strlit("/");
    }
    p.append("/");
    p.append(name);
    p
}

} // verus!
