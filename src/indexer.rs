//! The full indexer: a depth-first, pre-order walk of the remote tree that
//! records every folder and file in the cache.
//!
//! The walk is a state machine driven by its caller. `next_action` says what
//! to do next: list a folder's children (answered with `children_fetched`),
//! persist a row, report progress, or stop. The pending folders sit on an
//! explicit stack, so the depth of the tree never grows the call stack.
use vstd::prelude::*;
use crate::cache::{RowKind, StoreWrite};
use crate::node::{
    child_path, classify, inherit_identity, inherit_spec, join_path, Classified, NodeIdentity,
    NodeType, classify_spec,
};

verus! {

/// A folder on the walk's stack. `children` is `None` until the folder has
/// been listed; after that it holds the children not yet visited, the next
/// one last.
pub struct Frame {
    pub path: String,
    pub identity: NodeIdentity,
    pub children: Option<Vec<NodeType>>,
}

/// What the caller is to do next.
pub enum IndexAction {
    /// List the children of this folder identity and hand them to
    /// `children_fetched`.
    Fetch(NodeIdentity),
    /// Persist this folder row, awaiting completion, before the next step.
    WriteFolder(StoreWrite),
    /// Report the cumulative file count, then persist this file row.
    WriteFile(StoreWrite, usize),
    /// Nothing to do outside; ask again.
    Step,
    /// The walk is complete.
    Done,
    /// The walk was cancelled.
    Cancelled,
}

/// The row written for a folder entry under a parent at `parent`.
pub open spec fn folder_write_ok(w: StoreWrite, parent: Seq<char>, name: Seq<char>, encoded: Seq<u8>) -> bool {
    &&& w.kind == RowKind::Folder
    &&& w.full_path@ == join_path(parent, name)
    &&& w.name@ == name
    &&& w.node@ == encoded
}

/// The row written for a file entry under a parent at `parent`.
pub open spec fn file_write_ok(w: StoreWrite, parent: Seq<char>, name: Seq<char>, encoded: Seq<u8>) -> bool {
    &&& w.kind == RowKind::File
    &&& w.full_path@ == join_path(parent, name)
    &&& w.name@ == name
    &&& w.node@ == encoded
}

/// The full indexer's state.
pub struct FullIndexer {
    stack: Vec<Frame>,
    file_count: usize,
    cancelled: bool,
    /// Every write handed out so far, in order.
    written: Ghost<Seq<StoreWrite>>,
    /// Every progress value handed out so far, in order.
    reported: Ghost<Seq<usize>>,
}

impl FullIndexer {
    pub closed spec fn frames(&self) -> Seq<Frame> {
        self.stack@
    }

    pub closed spec fn files_seen(&self) -> nat {
        self.file_count as nat
    }

    pub closed spec fn is_cancelled(&self) -> bool {
        self.cancelled
    }

    /// The writes handed out so far, in order.
    pub closed spec fn writes(&self) -> Seq<StoreWrite> {
        self.written@
    }

    /// The progress values handed out so far, in order.
    pub closed spec fn progress(&self) -> Seq<usize> {
        self.reported@
    }

    pub closed spec fn wf(&self) -> bool {
        &&& self.reported@.len() == self.file_count
        &&& forall|i: int| 0 <= i < self.reported@.len() ==> self.reported@[i] == i + 1
    }

    /// A walk that starts at the folder `root`, whose children get their
    /// names as paths.
    pub fn new(root: NodeIdentity) -> (r: Self)
        ensures
            r.wf(),
            r.frames().len() == 1,
            r.frames()[0].path@ == Seq::<char>::empty(),
            r.frames()[0].identity == root,
            r.frames()[0].children is None,
            r.files_seen() == 0,
            !r.is_cancelled(),
            r.writes() == Seq::<StoreWrite>::empty(),
            r.progress() == Seq::<usize>::empty(),
    {
        let mut stack: Vec<Frame> = Vec::new();
        stack.push(Frame { path: String::new(), identity: root, children: None });
        FullIndexer {
            stack,
            file_count: 0,
            cancelled: false,
            written: Ghost(Seq::empty()),
            reported: Ghost(Seq::empty()),
        }
    }

    /// The number of files met so far.
    pub fn file_count(&self) -> (r: usize)
        ensures
            r == self.files_seen(),
    {
        self.file_count
    }

    /// Asks the walk to stop before its next step.
    pub fn cancel(&mut self)
        ensures
            final(self).is_cancelled(),
            final(self).frames() == old(self).frames(),
            final(self).files_seen() == old(self).files_seen(),
            final(self).writes() == old(self).writes(),
            final(self).progress() == old(self).progress(),
            old(self).wf() ==> final(self).wf(),
    {
        self.cancelled = true;
    }

    /// Hands the walk the children of the folder it asked to list.
    pub fn children_fetched(&mut self, children: Vec<NodeType>)
        requires
            old(self).frames().len() > 0,
            old(self).frames().last().children is None,
        ensures
            final(self).frames().len() == old(self).frames().len(),
            forall|i: int|
                0 <= i < old(self).frames().len() - 1 ==> final(self).frames()[i] == old(
                    self,
                ).frames()[i],
            final(self).frames().last().path == old(self).frames().last().path,
            final(self).frames().last().identity == old(self).frames().last().identity,
            final(self).frames().last().children is Some,
            final(self).frames().last().children->Some_0@ == children@.reverse(),
            final(self).files_seen() == old(self).files_seen(),
            final(self).is_cancelled() == old(self).is_cancelled(),
            final(self).writes() == old(self).writes(),
            final(self).progress() == old(self).progress(),
            old(self).wf() ==> final(self).wf(),
    {
        let mut children = children;
        let ghost all = children@;
        let mut rev: Vec<NodeType> = Vec::new();
        while children.len() > 0
            invariant
                all.len() == children@.len() + rev@.len(),
                children@ == all.subrange(0, children@.len() as int),
                rev@ == all.subrange(children@.len() as int, all.len() as int).reverse(),
            decreases children@.len(),
        {
            let c = children.pop().unwrap();
            let ghost k = children@.len();
            rev.push(c);
            proof {
                assert(rev@ =~= all.subrange(k as int, all.len() as int).reverse());
                assert(children@ =~= all.subrange(0, k as int));
            }
        }
        assert(rev@ =~= all.reverse());
        let mut top = self.stack.pop().unwrap();
        top.children = Some(rev);
        self.stack.push(top);
        proof {
            assert(self.stack@.drop_last() =~= old(self).stack@.drop_last());
            assert forall|i: int| 0 <= i < old(self).frames().len() - 1 implies self.frames()[i]
                == old(self).frames()[i] by {
                assert(self.stack@.drop_last()[i] == self.stack@[i]);
                assert(old(self).stack@.drop_last()[i] == old(self).stack@[i]);
            }
        }
    }

    /// Takes one step of the walk and says what the caller is to do.
    ///
    /// A cancelled walk stops. With no folder left the walk is done. A folder
    /// not yet listed is to be fetched. A listed folder with no child left is
    /// dropped. Otherwise its next child is visited: a folder's row is written
    /// at `parent/name` (just `name` at the root) and the folder is entered
    /// before its siblings, with its identity completed from the parent's;
    /// a file raises the file count, which is reported before the file's row
    /// is written; any other entry is passed over.
    pub fn next_action(&mut self) -> (r: IndexAction)
        requires
            old(self).wf(),
            old(self).files_seen() < usize::MAX,
        ensures
            final(self).wf(),
            final(self).is_cancelled() == old(self).is_cancelled(),
            old(self).is_cancelled() ==> r is Cancelled && *final(self) == *old(self),
            !old(self).is_cancelled() && old(self).frames().len() == 0 ==> r is Done
                && *final(self) == *old(self),
            !old(self).is_cancelled() && old(self).frames().len() > 0
                && old(self).frames().last().children is None ==> r == IndexAction::Fetch(
                old(self).frames().last().identity,
            ) && *final(self) == *old(self),
            !old(self).is_cancelled() && old(self).frames().len() > 0
                && old(self).frames().last().children is Some ==> ({
                let top = old(self).frames().last();
                let pending = top.children->Some_0@;
                if pending.len() == 0 {
                    &&& r is Step
                    &&& final(self).frames() == old(self).frames().drop_last()
                    &&& final(self).files_seen() == old(self).files_seen()
                    &&& final(self).writes() == old(self).writes()
                    &&& final(self).progress() == old(self).progress()
                } else {
                    let child = pending.last();
                    let popped = Frame {
                        path: top.path,
                        identity: top.identity,
                        children: final(self).frames()[old(self).frames().len() - 1].children,
                    };
                    &&& final(self).frames().subrange(0, old(self).frames().len() - 1)
                        == old(self).frames().drop_last()
                    &&& final(self).frames()[old(self).frames().len() - 1] == popped
                    &&& popped.children is Some
                    &&& popped.children->Some_0@ == pending.drop_last()
                    &&& match classify_spec(child) {
                        Classified::Folder(f) => {
                            &&& r is WriteFolder
                            &&& folder_write_ok(r->WriteFolder_0, top.path@, f.name@, f.encoded@)
                            &&& final(self).frames().len() == old(self).frames().len() + 1
                            &&& final(self).frames().last().path@ == join_path(top.path@, f.name@)
                            &&& final(self).frames().last().identity == inherit_spec(
                                f.node_identity,
                                top.identity,
                            )
                            &&& final(self).frames().last().children is None
                            &&& final(self).files_seen() == old(self).files_seen()
                            &&& final(self).writes() == old(self).writes().push(r->WriteFolder_0)
                            &&& final(self).progress() == old(self).progress()
                        },
                        Classified::File(f) => {
                            &&& r is WriteFile
                            &&& file_write_ok(r->WriteFile_0, top.path@, f.name@, f.encoded@)
                            &&& r->WriteFile_1 == old(self).files_seen() + 1
                            &&& final(self).frames().len() == old(self).frames().len()
                            &&& final(self).files_seen() == old(self).files_seen() + 1
                            &&& final(self).writes() == old(self).writes().push(r->WriteFile_0)
                            &&& final(self).progress() == old(self).progress().push(r->WriteFile_1)
                        },
                        Classified::Other => {
                            &&& r is Step
                            &&& final(self).frames().len() == old(self).frames().len()
                            &&& final(self).files_seen() == old(self).files_seen()
                            &&& final(self).writes() == old(self).writes()
                            &&& final(self).progress() == old(self).progress()
                        },
                    }
                }
            }),
    {
        if self.cancelled {
            return IndexAction::Cancelled;
        }
        let n = self.stack.len();
        if n == 0 {
            return IndexAction::Done;
        }
        let fetched = self.stack[n - 1].children.is_some();
        if !fetched {
            return IndexAction::Fetch(self.stack[n - 1].identity.clone());
        }
        let mut top = self.stack.pop().unwrap();
        let mut pending = top.children.unwrap();
        let next = pending.pop();
        match next {
            None => {
                IndexAction::Step
            },
            Some(child) => {
                let parent_path = top.path;
                let parent_identity = top.identity;
                let kind = classify(child);
                top = Frame { path: parent_path, identity: parent_identity, children: Some(pending) };
                match kind {
                    Classified::Folder(folder) => {
                        let path = child_path(top.path.as_str(), folder.name.as_str());
                        let identity = inherit_identity(&folder.node_identity, &top.identity);
                        let w = StoreWrite {
                            kind: RowKind::Folder,
                            full_path: path.clone(),
                            name: folder.name,
                            node: folder.encoded,
                        };
                        self.stack.push(top);
                        self.stack.push(Frame { path, identity, children: None });
                        proof {
                            self.written@ = self.written@.push(w);
                            assert(self.stack@.subrange(0, n - 1) =~= old(self).stack@.drop_last());
                        }
                        IndexAction::WriteFolder(w)
                    },
                    Classified::File(file) => {
                        self.file_count = self.file_count + 1;
                        let path = child_path(top.path.as_str(), file.name.as_str());
                        let w = StoreWrite {
                            kind: RowKind::File,
                            full_path: path,
                            name: file.name,
                            node: file.encoded,
                        };
                        self.stack.push(top);
                        proof {
                            self.written@ = self.written@.push(w);
                            self.reported@ = self.reported@.push(self.file_count);
                            assert(self.stack@.subrange(0, n - 1) =~= old(self).stack@.drop_last());
                        }
                        IndexAction::WriteFile(w, self.file_count)
                    },
                    Classified::Other => {
                        self.stack.push(top);
                        proof {
                            assert(self.stack@.subrange(0, n - 1) =~= old(self).stack@.drop_last());
                        }
                        IndexAction::Step
                    },
                }
            },
        }
    }

    /// Every progress value handed out is the file count at that moment: the
    /// values run 1, 2, ..., one per file met, so they never decrease and the
    /// last one is the number of files met.
    pub proof fn progress_counts_files(&self)
        requires
            self.wf(),
        ensures
            self.progress().len() == self.files_seen(),
            forall|i: int, j: int|
                0 <= i <= j < self.progress().len() ==> self.progress()[i] <= self.progress()[j],
            forall|i: int| 0 <= i < self.progress().len() ==> self.progress()[i] == i + 1,
            self.progress().len() > 0 ==> self.progress().last() == self.files_seen(),
    {
    }
}

} // verus!
