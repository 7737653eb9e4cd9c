//! The incremental updater: re-scans the folders the cache already knows and
//! inserts the children it has not seen yet.
//!
//! Known folders go into one shared LIFO queue. Each worker pops a folder,
//! has its stored record decoded and its children listed, and inserts every
//! folder or file child whose path is absent. Folders found this way are not
//! queued again, so what lies below them waits for a later run.
use vstd::prelude::*;
use crate::cache::{write_view, CacheStore, RowKind, StoreView, StoreWrite, WriteView};
use crate::error::SyncError;
use crate::node::{classify_spec, nested_path, nested_path_exec, Classified, NodeKind, NodeType};

verus! {

/// The writes that listing `children` under the folder at `folder` calls
/// for, in listing order: one per folder or file child, at `folder/name`.
pub open spec fn plan_spec(folder: Seq<char>, children: Seq<NodeType>) -> Seq<WriteView>
    decreases children.len(),
{
    if children.len() == 0 {
        Seq::empty()
    } else {
        let rest = plan_spec(folder, children.drop_last());
        match classify_spec(children.last()) {
            Classified::Folder(f) => rest.push(
                (RowKind::Folder, nested_path(folder, f.name@), f.name@, f.encoded@),
            ),
            Classified::File(f) => rest.push(
                (RowKind::File, nested_path(folder, f.name@), f.name@, f.encoded@),
            ),
            Classified::Other => rest,
        }
    }
}

/// The table that a write of this kind goes to.
pub open spec fn table_of(v: StoreView, kind: RowKind) -> Map<Seq<char>, (Seq<char>, Seq<u8>, bool)> {
    match kind {
        RowKind::Folder => v.0,
        RowKind::File => v.1,
    }
}

/// The store after one insert-if-absent.
pub open spec fn insert_absent(v: StoreView, w: WriteView) -> StoreView {
    if table_of(v, w.0).dom().contains(w.1) {
        v
    } else {
        match w.0 {
            RowKind::Folder => (v.0.insert(w.1, (w.2, w.3, false)), v.1),
            RowKind::File => (v.0, v.1.insert(w.1, (w.2, w.3, false))),
        }
    }
}

/// The store after a sequence of inserts-if-absent, in order.
pub open spec fn insert_all_absent(v: StoreView, ws: Seq<WriteView>) -> StoreView
    decreases ws.len(),
{
    if ws.len() == 0 {
        v
    } else {
        insert_absent(insert_all_absent(v, ws.drop_last()), ws.last())
    }
}

/// The writes that a listing of a known folder calls for.
pub fn plan_children(folder_path: &String, children: &Vec<NodeType>) -> (r: Vec<StoreWrite>)
    ensures
        r@.map_values(|w: StoreWrite| write_view(w)) == plan_spec(folder_path@, children@),
{
    let mut out: Vec<StoreWrite> = Vec::new();
    let mut i: usize = 0;
    while i < children.len()
        invariant
            i <= children@.len(),
            out@.map_values(|w: StoreWrite| write_view(w)) == plan_spec(
                folder_path@,
                children@.subrange(0, i as int),
            ),
        decreases children@.len() - i,
    {
        let ghost prefix = children@.subrange(0, i as int);
        let ghost next = children@.subrange(0, i as int + 1);
        assert(next.drop_last() =~= prefix);
        assert(next.last() == children@[i as int]);
        match &children[i].node_type {
            Some(NodeKind::FolderNode(f)) => {
                let path = nested_path_exec(folder_path.as_str(), f.name.as_str());
                let node = f.encoded.clone();
                assert(node@ =~= f.encoded@);
                out.push(StoreWrite { kind: RowKind::Folder, full_path: path, name: f.name.clone(), node });
            },
            Some(NodeKind::FileNode(f)) => {
                let path = nested_path_exec(folder_path.as_str(), f.name.as_str());
                let node = f.encoded.clone();
                assert(node@ =~= f.encoded@);
                out.push(StoreWrite { kind: RowKind::File, full_path: path, name: f.name.clone(), node });
            },
            None => {},
        }
        assert(out@.map_values(|w: StoreWrite| write_view(w)) =~= plan_spec(folder_path@, next));
        i = i + 1;
    }
    assert(children@.subrange(0, children@.len() as int) =~= children@);
    out
}

/// Reconciles one known folder against its listing: inserts each folder or
/// file child whose path is not in the cache yet, leaving existing rows as
/// they are. Returns how many rows it inserted.
pub fn update_folder(store: &mut CacheStore, folder_path: &String, children: &Vec<NodeType>) -> (r: usize)
    requires
        old(store).wf(),
    ensures
        final(store).wf(),
        final(store).view() == insert_all_absent(old(store).view(), plan_spec(folder_path@, children@)),
        r <= children@.len(),
{
    let mut writes = plan_children(folder_path, children);
    let ghost plan = plan_spec(folder_path@, children@);
    proof {
        lemma_plan_len(folder_path@, children@);
    }
    let mut rev: Vec<StoreWrite> = Vec::new();
    while writes.len() > 0
        invariant
            writes@.len() + rev@.len() == plan.len(),
            writes@.map_values(|w: StoreWrite| write_view(w)) == plan.subrange(0, writes@.len() as int),
            forall|k: int| 0 <= k < rev@.len() ==> write_view(#[trigger] rev@[k]) == plan[plan.len() - 1 - k],
        decreases writes@.len(),
    {
        let ghost before = writes@;
        let w = writes.pop().unwrap();
        let ghost k = writes@.len();
        assert(before[k as int] == w);
        assert(before.map_values(|w: StoreWrite| write_view(w))[k as int] == write_view(w));
        rev.push(w);
        assert(writes@.map_values(|w: StoreWrite| write_view(w)) =~= plan.subrange(0, k as int));
    }
    let n = children.len();
    let mut inserted: usize = 0;
    let ghost start = store.view();
    let mut done: usize = 0;
    while rev.len() > 0
        invariant
            store.wf(),
            done + rev@.len() == plan.len(),
            forall|k: int| 0 <= k < rev@.len() ==> write_view(#[trigger] rev@[k]) == plan[plan.len() - 1 - k],
            store.view() == insert_all_absent(start, plan.subrange(0, done as int)),
            inserted <= done,
            plan.len() <= n,
            n == children@.len(),
        decreases rev@.len(),
    {
        let w = rev.pop().unwrap();
        let ghost wv = write_view(w);
        assert(wv == plan[done as int]);
        let ghost before = store.view();
        let added = store.insert_if_absent(w);
        assert(plan.subrange(0, done as int + 1).drop_last() =~= plan.subrange(0, done as int));
        assert(store.view() == insert_absent(before, wv));
        if added {
            inserted = inserted + 1;
        }
        done = done + 1;
    }
    assert(plan.subrange(0, plan.len() as int) =~= plan);
    inserted
}

proof fn lemma_plan_len(folder: Seq<char>, children: Seq<NodeType>)
    ensures
        plan_spec(folder, children).len() <= children.len(),
    decreases children.len(),
{
    if children.len() > 0 {
        lemma_plan_len(folder, children.drop_last());
    }
}

/// Every write that a listing calls for lies directly under the listed
/// folder, at its path, a '/', and the child's name. Folders found during a
/// run are not listed in it, so nothing below them is written by that run.
pub proof fn planned_writes_are_direct_children(folder: Seq<char>, children: Seq<NodeType>)
    ensures
        forall|i: int|
            0 <= i < plan_spec(folder, children).len() ==> #[trigger] plan_spec(folder, children)[i].1
                == nested_path(folder, plan_spec(folder, children)[i].2),
    decreases children.len(),
{
    if children.len() > 0 {
        planned_writes_are_direct_children(folder, children.drop_last());
        let rest = plan_spec(folder, children.drop_last());
        assert forall|i: int| 0 <= i < plan_spec(folder, children).len() implies #[trigger] plan_spec(
            folder,
            children,
        )[i].1 == nested_path(folder, plan_spec(folder, children)[i].2) by {
            if i < rest.len() {
                assert(plan_spec(folder, children)[i] == rest[i]);
            }
        }
    }
}

/// Two distinct folders never call for a write at the same path, as long as
/// child names hold no '/': the last '/' of a path separates the folder
/// from the name.
pub proof fn distinct_folders_write_distinct_paths(
    f1: Seq<char>,
    f2: Seq<char>,
    n1: Seq<char>,
    n2: Seq<char>,
)
    requires
        f1 != f2,
        !n1.contains('/'),
        !n2.contains('/'),
    ensures
        nested_path(f1, n1) != nested_path(f2, n2),
{
    let s1 = nested_path(f1, n1);
    let s2 = nested_path(f2, n2);
    if s1 == s2 {
        let a1 = f1 + seq!['/'];
        let a2 = f2 + seq!['/'];
        assert(s1 == a1 + n1);
        assert(s2 == a2 + n2);
        assert(s1.len() == f1.len() + 1 + n1.len());
        assert(s2.len() == f2.len() + 1 + n2.len());
        if f1.len() < f2.len() {
            let k: int = f2.len() - f1.len() - 1;
            assert(0 <= k < n1.len());
            assert(a2[f2.len() as int] == '/');
            assert(s2[f2.len() as int] == '/');
            assert(s1[f2.len() as int] == n1[k]);
            assert(n1.contains(n1[k]));
        } else if f2.len() < f1.len() {
            let k: int = f1.len() - f2.len() - 1;
            assert(0 <= k < n2.len());
            assert(a1[f1.len() as int] == '/');
            assert(s1[f1.len() as int] == '/');
            assert(s2[f1.len() as int] == n2[k]);
            assert(n2.contains(n2[k]));
        } else {
            assert(f1 =~= s1.subrange(0, f1.len() as int));
            assert(f2 =~= s2.subrange(0, f2.len() as int));
        }
    }
}

/// Whether a failure ends the worker that met it. A failed listing or an
/// undecodable record only skips that folder; a storage failure or a
/// cancellation ends the worker.
pub open spec fn stops_worker(e: SyncError) -> bool {
    match e {
        SyncError::RemoteFetchFailure => false,
        SyncError::DecodeFailure => false,
        SyncError::StorageFailure => true,
        SyncError::Cancelled => true,
    }
}

/// The shared work list of known folders, as (full path, node blob) pairs,
/// popped last-in first-out. No path occurs twice, so no two workers ever
/// scan the same folder.
pub struct FolderQueue {
    items: Vec<(String, Vec<u8>)>,
}

pub open spec fn item_view(item: (String, Vec<u8>)) -> (Seq<char>, Seq<u8>) {
    (item.0@, item.1@)
}

pub open spec fn distinct_paths(items: Seq<(Seq<char>, Seq<u8>)>) -> bool {
    forall|i: int, j: int|
        0 <= i < items.len() && 0 <= j < items.len() && i != j ==> items[i].0 != items[j].0
}

impl FolderQueue {
    /// The queued folders, the next one to be popped last.
    pub closed spec fn entries(&self) -> Seq<(Seq<char>, Seq<u8>)> {
        self.items@.map_values(|item: (String, Vec<u8>)| item_view(item))
    }

    pub open spec fn wf(&self) -> bool {
        distinct_paths(self.entries())
    }

    /// A queue of the given folders, or `None` where two of them share a path.
    pub fn new(items: Vec<(String, Vec<u8>)>) -> (r: Option<Self>)
        ensures
            r is Some <==> distinct_paths(items@.map_values(|item: (String, Vec<u8>)| item_view(item))),
            r is Some ==> r->Some_0.entries() == items@.map_values(
                |item: (String, Vec<u8>)| item_view(item),
            ),
    {
        let ghost v = items@.map_values(|item: (String, Vec<u8>)| item_view(item));
        let n = items.len();
        let mut i: usize = 0;
        while i < n
            invariant
                n == items@.len(),
                v == items@.map_values(|item: (String, Vec<u8>)| item_view(item)),
                i <= n,
                forall|a: int, b: int| 0 <= a < i && 0 <= b < n && a != b ==> v[a].0 != v[b].0,
            decreases n - i,
        {
            let mut j: usize = 0;
            while j < n
                invariant
                    n == items@.len(),
                    v == items@.map_values(|item: (String, Vec<u8>)| item_view(item)),
                    i < n,
                    j <= n,
                    forall|a: int, b: int| 0 <= a < i && 0 <= b < n && a != b ==> v[a].0 != v[b].0,
                    forall|b: int| 0 <= b < j && b != i ==> v[i as int].0 != v[b].0,
                decreases n - j,
            {
                if j != i && items[i].0 == items[j].0 {
                    assert(v[i as int].0 == v[j as int].0);
                    return None;
                }
                j = j + 1;
            }
            i = i + 1;
        }
        Some(FolderQueue { items })
    }

    /// A queue of every folder the store knows.
    pub fn from_known_folders(store: &CacheStore) -> (r: Self)
        requires
            store.wf(),
        ensures
            r.wf(),
            r.entries().len() == store.view().0.dom().len(),
            forall|i: int|
                0 <= i < r.entries().len() ==> store.view().0.dom().contains(#[trigger] r.entries()[i].0)
                    && store.view().0[r.entries()[i].0].1 == r.entries()[i].1,
            forall|p: Seq<char>|
                store.view().0.dom().contains(p) ==> exists|i: int|
                    0 <= i < r.entries().len() && #[trigger] r.entries()[i].0 == p,
    {
        let items = store.list_known_folders();
        let r = FolderQueue { items };
        proof {
            assert forall|p: Seq<char>| store.view().0.dom().contains(p) implies exists|i: int|
                0 <= i < r.entries().len() && #[trigger] r.entries()[i].0 == p by {
                let i = choose|i: int| 0 <= i < items@.len() && #[trigger] items@[i].0@ == p;
                assert(r.entries()[i].0 == p);
            }
        }
        r
    }

    /// The number of queued folders.
    pub fn len(&self) -> (r: usize)
        ensures
            r == self.entries().len(),
    {
        self.items.len()
    }

    /// Whether no folder is queued.
    pub fn is_empty(&self) -> (r: bool)
        ensures
            r == (self.entries().len() == 0),
    {
        self.items.len() == 0
    }

    /// Takes the most recently queued folder.
    pub fn pop(&mut self) -> (r: Option<(String, Vec<u8>)>)
        ensures
            old(self).entries().len() == 0 ==> r is None && final(self).entries() == old(self).entries(),
            old(self).entries().len() > 0 ==> r is Some && item_view(r->Some_0) == old(self).entries().last()
                && final(self).entries() == old(self).entries().drop_last(),
            old(self).wf() ==> final(self).wf(),
    {
        let r = self.items.pop();
        proof {
            assert(self.entries() =~= old(self).entries().subrange(0, self.items@.len() as int));
            if r is Some {
                assert(old(self).items@[self.items@.len() as int] == r->Some_0);
            }
        }
        r
    }
}

/// One worker of the updater. It pops folders until the queue is empty, it
/// meets a failure that ends it, or it is cancelled.
pub struct UpdateWorker {
    stopped: bool,
}

impl UpdateWorker {
    pub closed spec fn is_stopped(&self) -> bool {
        self.stopped
    }

    /// A worker ready to take folders.
    pub fn new() -> (r: Self)
        ensures
            !r.is_stopped(),
    {
        UpdateWorker { stopped: false }
    }

    /// The next folder to scan: none once the worker has stopped, else the
    /// queue's most recent entry.
    pub fn next_folder(&self, queue: &mut FolderQueue) -> (r: Option<(String, Vec<u8>)>)
        ensures
            self.is_stopped() ==> r is None && final(queue).entries() == old(queue).entries(),
            !self.is_stopped() && old(queue).entries().len() == 0 ==> r is None
                && final(queue).entries() == old(queue).entries(),
            !self.is_stopped() && old(queue).entries().len() > 0 ==> r is Some && item_view(
                r->Some_0,
            ) == old(queue).entries().last() && final(queue).entries() == old(
                queue,
            ).entries().drop_last(),
            old(queue).wf() ==> final(queue).wf(),
    {
        if self.stopped {
            None
        } else {
            queue.pop()
        }
    }

    /// Records a failure met on the current folder; returns whether the
    /// worker goes on.
    pub fn fail(&mut self, e: SyncError) -> (r: bool)
        ensures
            final(self).is_stopped() == stopped_after(old(self).is_stopped(), seq![e]),
            final(self).is_stopped() == (old(self).is_stopped() || stops_worker(e)),
            r == !final(self).is_stopped(),
    {
        match e {
            SyncError::RemoteFetchFailure => {},
            SyncError::DecodeFailure => {},
            SyncError::StorageFailure => {
                self.stopped = true;
            },
            SyncError::Cancelled => {
                self.stopped = true;
            },
        }
        proof {
            assert(seq![e].drop_last() =~= Seq::<SyncError>::empty());
            assert(stopped_after(old(self).stopped, Seq::<SyncError>::empty()) == old(self).stopped);
        }
        !self.stopped
    }
}

/// Whether a worker that met the failures `fs`, in order, has stopped.
pub open spec fn stopped_after(stopped: bool, fs: Seq<SyncError>) -> bool
    decreases fs.len(),
{
    if fs.len() == 0 {
        stopped
    } else {
        stopped_after(stopped, fs.drop_last()) || stops_worker(fs.last())
    }
}

/// However many queued folders a worker skips because their records cannot
/// be decoded or their listings fail, it keeps running, so its next request
/// still takes the next queued folder until the queue is empty.
pub proof fn skipped_folders_keep_worker_running(fs: Seq<SyncError>)
    requires
        forall|i: int|
            0 <= i < fs.len() ==> #[trigger] fs[i] == SyncError::DecodeFailure || fs[i]
                == SyncError::RemoteFetchFailure,
    ensures
        !stopped_after(false, fs),
    decreases fs.len(),
{
    if fs.len() > 0 {
        let init = fs.drop_last();
        assert forall|i: int| 0 <= i < init.len() implies #[trigger] init[i] == SyncError::DecodeFailure
            || init[i] == SyncError::RemoteFetchFailure by {
            assert(init[i] == fs[i]);
        }
        skipped_folders_keep_worker_running(init);
        assert(fs[fs.len() - 1] == fs.last());
    }
}

} // verus!
