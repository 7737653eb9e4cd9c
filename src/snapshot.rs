//! A full index run against a snapshot of the remote tree held in memory,
//! and what such a run leaves in the cache.
//!
//! A snapshot lists each folder's children; a folder entry names the listing
//! of its own children, always a later one, so the tree is finite. The run
//! drives the same state machine as a run against the remote provider.
use vstd::prelude::*;
use crate::cache::{
    apply_write, apply_writes, overlay, rewriting_same_writes_changes_nothing, write_view, CacheStore,
    RowKind, StoreView, WriteView,
};
use crate::indexer::{FullIndexer, IndexAction};
use crate::node::{
    classify_spec, join_path, FileNode, FolderNode, NodeIdentity, NodeKind, NodeType,
};

verus! {

/// An entry of a snapshot listing.
pub enum SnapshotEntry {
    /// A folder, with the index of the listing of its children.
    Folder(FolderNode, usize),
    File(FileNode),
    Other,
}

/// Listings of a remote tree; listing 0 holds the root's children.
pub struct Snapshot {
    pub listings: Vec<Vec<SnapshotEntry>>,
}

impl Snapshot {
    pub open spec fn lists(&self) -> Seq<Seq<SnapshotEntry>> {
        self.listings@.map_values(|v: Vec<SnapshotEntry>| v@)
    }

    /// There is a root listing, and every folder names a later listing.
    pub open spec fn wf(&self) -> bool {
        &&& self.lists().len() > 0
        &&& forall|i: int, k: int|
            0 <= i < self.lists().len() && 0 <= k < self.lists()[i].len() && (
            #[trigger] self.lists()[i][k]) is Folder ==> i < self.lists()[i][k]->Folder_1
                < self.lists().len()
    }
}

/// The writes of a pre-order walk over the entries `es` of listing `i`,
/// found under the folder at `path`: each folder's row, then everything
/// below it, then its next sibling; each file's row; nothing for others.
pub open spec fn walk_entries(
    l: Seq<Seq<SnapshotEntry>>,
    i: int,
    es: Seq<SnapshotEntry>,
    path: Seq<char>,
) -> Seq<WriteView>
    decreases l.len() - i, es.len(),
{
    if es.len() == 0 || !(0 <= i < l.len()) {
        Seq::empty()
    } else {
        let rest = walk_entries(l, i, es.subrange(1, es.len() as int), path);
        match es[0] {
            SnapshotEntry::Folder(f, j) => {
                let p = join_path(path, f.name@);
                let w = (RowKind::Folder, p, f.name@, f.encoded@);
                if i < j < l.len() {
                    seq![w] + walk_entries(l, j as int, l[j as int], p) + rest
                } else {
                    seq![w] + rest
                }
            },
            SnapshotEntry::File(f) => seq![(RowKind::File, join_path(path, f.name@), f.name@, f.encoded@)]
                + rest,
            SnapshotEntry::Other => rest,
        }
    }
}

/// The number of steps a run takes over the entries `es` of listing `i`.
pub open spec fn steps_entries(l: Seq<Seq<SnapshotEntry>>, i: int, es: Seq<SnapshotEntry>) -> nat
    decreases l.len() - i, es.len(),
{
    if es.len() == 0 || !(0 <= i < l.len()) {
        0
    } else {
        let rest = steps_entries(l, i, es.subrange(1, es.len() as int));
        match es[0] {
            SnapshotEntry::Folder(f, j) => {
                if i < j < l.len() {
                    3 + steps_entries(l, j as int, l[j as int]) + rest
                } else {
                    1 + rest
                }
            },
            _ => 1 + rest,
        }
    }
}

/// The writes of a whole run over the snapshot.
pub open spec fn snapshot_walk(s: Snapshot) -> Seq<WriteView> {
    walk_entries(s.lists(), 0, s.lists()[0], Seq::empty())
}

proof fn lemma_count_append(a: Seq<WriteView>, b: Seq<WriteView>, kind: RowKind)
    ensures
        count_kind(a + b, kind) == count_kind(a, kind) + count_kind(b, kind),
    decreases b.len(),
{
    if b.len() == 0 {
        assert(a + b =~= a);
    } else {
        lemma_count_append(a, b.drop_last(), kind);
        assert((a + b).drop_last() =~= a + b.drop_last());
    }
}

/// Whether a listing entry handed to the indexer stands for a snapshot entry.
pub open spec fn entry_matches(nt: NodeType, e: SnapshotEntry) -> bool {
    match e {
        SnapshotEntry::Folder(f, _) => classify_spec(nt) is Folder && classify_spec(nt)->Folder_0.name@
            == f.name@ && classify_spec(nt)->Folder_0.encoded@ == f.encoded@,
        SnapshotEntry::File(f) => classify_spec(nt) is File && classify_spec(nt)->File_0.name@ == f.name@
            && classify_spec(nt)->File_0.encoded@ == f.encoded@,
        SnapshotEntry::Other => classify_spec(nt) is Other,
    }
}

fn clone_identity(id: &Option<NodeIdentity>) -> (r: Option<NodeIdentity>)
    ensures
        r == *id,
{
    match id {
        Some(i) => Some(i.clone()),
        None => None,
    }
}

fn node_of(e: &SnapshotEntry) -> (r: NodeType)
    ensures
        entry_matches(r, *e),
{
    match e {
        SnapshotEntry::Folder(f, _) => {
            let encoded = f.encoded.clone();
            assert(encoded@ =~= f.encoded@);
            NodeType {
                node_type: Some(
                    NodeKind::FolderNode(
                        FolderNode {
                            name: f.name.clone(),
                            node_identity: clone_identity(&f.node_identity),
                            encoded,
                        },
                    ),
                ),
            }
        },
        SnapshotEntry::File(f) => {
            let encoded = f.encoded.clone();
            assert(encoded@ =~= f.encoded@);
            NodeType {
                node_type: Some(
                    NodeKind::FileNode(
                        FileNode {
                            name: f.name.clone(),
                            node_identity: clone_identity(&f.node_identity),
                            encoded,
                        },
                    ),
                ),
            }
        },
        SnapshotEntry::Other => NodeType { node_type: None },
    }
}

fn nodes_of(es: &Vec<SnapshotEntry>) -> (r: Vec<NodeType>)
    ensures
        r@.len() == es@.len(),
        forall|m: int| 0 <= m < es@.len() ==> entry_matches(#[trigger] r@[m], es@[m]),
{
    let mut out: Vec<NodeType> = Vec::new();
    let mut i: usize = 0;
    while i < es.len()
        invariant
            i <= es@.len(),
            out@.len() == i,
            forall|m: int| 0 <= m < i ==> entry_matches(#[trigger] out@[m], es@[m]),
        decreases es@.len() - i,
    {
        out.push(node_of(&es[i]));
        i = i + 1;
    }
    out
}

/// A folder on the run's stack: listing index, next entry, path, listed yet.
pub type StackEntry = (int, int, Seq<char>, bool);

/// The writes still owed by the folders on the stack, top first.
pub open spec fn pending(l: Seq<Seq<SnapshotEntry>>, st: Seq<StackEntry>) -> Seq<WriteView>
    decreases st.len(),
{
    if st.len() == 0 {
        Seq::empty()
    } else {
        let t = st.last();
        walk_entries(l, t.0, l[t.0].subrange(t.1, l[t.0].len() as int), t.2) + pending(l, st.drop_last())
    }
}

/// The steps still owed by the folders on the stack.
pub open spec fn remaining_steps(l: Seq<Seq<SnapshotEntry>>, st: Seq<StackEntry>) -> nat
    decreases st.len(),
{
    if st.len() == 0 {
        0
    } else {
        let t = st.last();
        steps_entries(l, t.0, l[t.0].subrange(t.1, l[t.0].len() as int)) + (if t.3 {
            1nat
        } else {
            2nat
        }) + remaining_steps(l, st.drop_last())
    }
}

proof fn lemma_suffix(l: Seq<Seq<SnapshotEntry>>, i: int, c: int)
    requires
        0 <= i < l.len(),
        0 <= c < l[i].len(),
    ensures
        l[i].subrange(c, l[i].len() as int).len() > 0,
        l[i].subrange(c, l[i].len() as int)[0] == l[i][c],
        l[i].subrange(c, l[i].len() as int).subrange(1, l[i].len() - c) == l[i].subrange(
            c + 1,
            l[i].len() as int,
        ),
{
    assert(l[i].subrange(c, l[i].len() as int).subrange(1, l[i].len() - c) =~= l[i].subrange(
        c + 1,
        l[i].len() as int,
    ));
}

/// Runs the full indexer over a snapshot and records its writes in `store`;
/// returns the progress values in the order they were reported.
#[verifier::rlimit(60)]
#[verifier::spinoff_prover]
pub fn index_snapshot(snap: &Snapshot, store: &mut CacheStore) -> (progress: Vec<usize>)
    requires
        snap.wf(),
        old(store).wf(),
        count_kind(snapshot_walk(*snap), RowKind::File) < usize::MAX,
    ensures
        final(store).wf(),
        final(store).view() == apply_writes(old(store).view(), snapshot_walk(*snap)),
        progress@.len() == count_kind(snapshot_walk(*snap), RowKind::File),
        forall|i: int| 0 <= i < progress@.len() ==> progress@[i] == i + 1,
        forall|i: int, j: int| 0 <= i <= j < progress@.len() ==> progress@[i] <= progress@[j],
        progress@.len() > 0 ==> progress@.last() == count_kind(snapshot_walk(*snap), RowKind::File),
{
    let ghost l = snap.lists();
    let ghost v0 = store.view();
    let ghost walk = snapshot_walk(*snap);
    let mut ix = FullIndexer::new(NodeIdentity { node_id: None, share_id: None, volume_id: None });
    let mut lids: Vec<usize> = Vec::new();
    let mut cursors: Vec<usize> = Vec::new();
    let mut fetched: Vec<bool> = Vec::new();
    let mut progress: Vec<usize> = Vec::new();
    lids.push(0);
    cursors.push(0);
    fetched.push(false);
    let ghost mut st: Seq<StackEntry> = seq![(0int, 0int, Seq::<char>::empty(), false)];
    proof {
        assert(l[0].subrange(0, l[0].len() as int) =~= l[0]);
        assert(st.drop_last() =~= Seq::<StackEntry>::empty());
        assert(ix.writes().map_values(|w| write_view(w)) =~= Seq::<WriteView>::empty());
        assert(pending(l, st.drop_last()) == Seq::<WriteView>::empty());
        assert(pending(l, st) =~= walk);
    }
    loop
        invariant
            snap.wf(),
            l == snap.lists(),
            walk == snapshot_walk(*snap),
            count_kind(walk, RowKind::File) < usize::MAX,
            ix.wf(),
            !ix.is_cancelled(),
            st.len() == ix.frames().len(),
            lids@.len() == st.len(),
            cursors@.len() == st.len(),
            fetched@.len() == st.len(),
            forall|k: int|
                0 <= k < st.len() ==> #[trigger] st[k] == (
                    lids@[k] as int,
                    cursors@[k] as int,
                    ix.frames()[k].path@,
                    fetched@[k],
                ),
            forall|k: int|
                0 <= k < st.len() ==> 0 <= #[trigger] lids@[k] < l.len() && cursors@[k] <= l[lids@[k] as int].len(),
            forall|k: int| 0 <= k < st.len() ==> #[trigger] fetched@[k] == ix.frames()[k].children is Some,
            forall|k: int| 0 <= k < st.len() && !#[trigger] fetched@[k] ==> cursors@[k] == 0,
            forall|k: int|
                0 <= k < st.len() && #[trigger] fetched@[k] ==> ({
                    let ch = ix.frames()[k].children->Some_0@;
                    let es = l[lids@[k] as int];
                    &&& ch.len() == es.len() - cursors@[k]
                    &&& forall|m: int| 0 <= m < ch.len() ==> entry_matches(#[trigger] ch[m], es[es.len() - 1 - m])
                }),
            ix.writes().map_values(|w| write_view(w)) + pending(l, st) == walk,
            store.wf(),
            store.view() == apply_writes(v0, ix.writes().map_values(|w| write_view(w))),
            ix.files_seen() == count_kind(ix.writes().map_values(|w| write_view(w)), RowKind::File),
            progress@ == ix.progress(),
        ensures
            st.len() == 0,
            ix.writes().map_values(|w| write_view(w)) + pending(l, st) == walk,
            store.wf(),
            store.view() == apply_writes(v0, ix.writes().map_values(|w| write_view(w))),
            ix.files_seen() == count_kind(ix.writes().map_values(|w| write_view(w)), RowKind::File),
            progress@ == ix.progress(),
            ix.wf(),
        decreases remaining_steps(l, st),
    {
        let ghost done = ix.writes().map_values(|w| write_view(w));
        let ghost st0 = st;
        let ghost n = st.len();
        proof {
            lemma_count_append(done, pending(l, st), RowKind::File);
        }
        let ghost ox = ix;
        let act = ix.next_action();
        match act {
            IndexAction::Done => {
                break;
            },
            IndexAction::Cancelled => {
                proof {
                    assert(false);
                }
                break;
            },
            IndexAction::Fetch(_) => {
                let top = lids.len() - 1;
                let lid = lids[top];
                let children = nodes_of(&snap.listings[lid]);
                let ghost chv = children@;
                ix.children_fetched(children);
                fetched.set(top, true);
                proof {
                    assert(!st0[top as int].3);
                    st = st.update(top as int, (lid as int, 0int, ix.frames()[top as int].path@, true));
                    assert(st.drop_last() =~= st0.drop_last());
                    assert(remaining_steps(l, st) < remaining_steps(l, st0));
                    assert(snap.listings@[lid as int]@ == l[lid as int]);
                    let ch = ix.frames()[top as int].children->Some_0@;
                    assert(ch == chv.reverse());
                    assert forall|m: int| 0 <= m < ch.len() implies entry_matches(
                        #[trigger] ch[m],
                        l[lid as int][l[lid as int].len() - 1 - m],
                    ) by {
                        assert(ch[m] == chv[chv.len() - 1 - m]);
                    }
                    assert forall|k: int| 0 <= k < st.len() implies #[trigger] st[k] == (
                        lids@[k] as int,
                        cursors@[k] as int,
                        ix.frames()[k].path@,
                        fetched@[k],
                    ) by {}
                }
            },
            IndexAction::Step => {
                let top = lids.len() - 1;
                let lid = lids[top];
                let c = cursors[top];
                let len = snap.listings[lid].len();
                proof {
                    assert forall|k: int| 0 <= k < top implies #[trigger] ix.frames()[k] == ox.frames()[k] by {
                        assert(ix.frames().subrange(0, top as int)[k] == ix.frames()[k]);
                        assert(ox.frames().drop_last()[k] == ox.frames()[k]);
                    }
                }
                proof {
                    assert(fetched@[top as int]);
                    assert(snap.listings@[lid as int]@ == l[lid as int]);
                }
                if c < len {
                    cursors.set(top, c + 1);
                    proof {
                        lemma_suffix(l, lid as int, c as int);
                        let ch = ox.frames()[top as int].children->Some_0@;
                        assert(entry_matches(ch.last(), l[lid as int][c as int]));
                        st = st.update(top as int, (lid as int, c as int + 1, st0[top as int].2, true));
                        assert(st.drop_last() =~= st0.drop_last());
                        let nch = ix.frames()[top as int].children->Some_0@;
                        assert forall|m: int| 0 <= m < nch.len() implies entry_matches(
                            #[trigger] nch[m],
                            l[lid as int][l[lid as int].len() - 1 - m],
                        ) by {
                            assert(nch[m] == ch[m]);
                        }
                        assert forall|k: int| 0 <= k < st.len() implies #[trigger] st[k] == (
                            lids@[k] as int,
                            cursors@[k] as int,
                            ix.frames()[k].path@,
                            fetched@[k],
                        ) by {
                            if k < top {
                                assert(ix.frames().subrange(0, top as int)[k] == ix.frames()[k]);
                                assert(ox.frames().drop_last()[k] == ox.frames()[k]);
                            }
                        }
                        assert(pending(l, st) =~= pending(l, st0));
                        assert(remaining_steps(l, st) < remaining_steps(l, st0));
                    }
                } else {
                    lids.pop();
                    cursors.pop();
                    fetched.pop();
                    proof {
                        st = st.drop_last();
                        assert(l[lid as int].subrange(c as int, l[lid as int].len() as int).len() == 0);
                        assert(pending(l, st0) =~= pending(l, st));
                        assert(remaining_steps(l, st) < remaining_steps(l, st0));
                        assert forall|k: int| 0 <= k < st.len() implies #[trigger] st[k] == (
                            lids@[k] as int,
                            cursors@[k] as int,
                            ix.frames()[k].path@,
                            fetched@[k],
                        ) by {
                            assert(ix.frames()[k] == ox.frames()[k]);
                        }
                    }
                }
            },
            IndexAction::WriteFile(w, _) => {
                let top = lids.len() - 1;
                let lid = lids[top];
                let c = cursors[top];
                let len = snap.listings[lid].len();
                proof {
                    assert forall|k: int| 0 <= k < top implies #[trigger] ix.frames()[k] == ox.frames()[k] by {
                        assert(ix.frames().subrange(0, top as int)[k] == ix.frames()[k]);
                        assert(ox.frames().drop_last()[k] == ox.frames()[k]);
                    }
                }
                proof {
                    assert(fetched@[top as int]);
                    assert(snap.listings@[lid as int]@ == l[lid as int]);
                    assert(ox.frames()[top as int].children->Some_0@.len() > 0);
                    lemma_suffix(l, lid as int, c as int);
                }
                cursors.set(top, c + 1);
                progress.push(ix.file_count());
                let ghost wv = write_view(w);
                store.apply(w);
                proof {
                    let ch = ox.frames()[top as int].children->Some_0@;
                    assert(entry_matches(ch.last(), l[lid as int][c as int]));
                    st = st.update(top as int, (lid as int, c as int + 1, st0[top as int].2, true));
                    assert(st.drop_last() =~= st0.drop_last());
                    let nch = ix.frames()[top as int].children->Some_0@;
                    assert forall|m: int| 0 <= m < nch.len() implies entry_matches(
                        #[trigger] nch[m],
                        l[lid as int][l[lid as int].len() - 1 - m],
                    ) by {
                        assert(nch[m] == ch[m]);
                    }
                    assert forall|k: int| 0 <= k < st.len() implies #[trigger] st[k] == (
                        lids@[k] as int,
                        cursors@[k] as int,
                        ix.frames()[k].path@,
                        fetched@[k],
                    ) by {
                        if k < top {
                            assert(ix.frames().subrange(0, top as int)[k] == ix.frames()[k]);
                            assert(ox.frames().drop_last()[k] == ox.frames()[k]);
                        }
                    }
                    let nd = ix.writes().map_values(|w| write_view(w));
                    assert(nd =~= done.push(wv));
                    assert(nd.drop_last() =~= done);
                    assert(nd + pending(l, st) =~= walk);
                    assert(remaining_steps(l, st) < remaining_steps(l, st0));
                }
            },
            IndexAction::WriteFolder(w) => {
                let top = lids.len() - 1;
                let lid = lids[top];
                let c = cursors[top];
                let len = snap.listings[lid].len();
                proof {
                    assert forall|k: int| 0 <= k < top implies #[trigger] ix.frames()[k] == ox.frames()[k] by {
                        assert(ix.frames().subrange(0, top as int)[k] == ix.frames()[k]);
                        assert(ox.frames().drop_last()[k] == ox.frames()[k]);
                    }
                }
                proof {
                    assert(fetched@[top as int]);
                    assert(snap.listings@[lid as int]@ == l[lid as int]);
                    assert(ox.frames()[top as int].children->Some_0@.len() > 0);
                    lemma_suffix(l, lid as int, c as int);
                }
                let entry = &snap.listings[lid][c];
                match entry {
                    SnapshotEntry::Folder(_, j) => {
                        let j = *j;
                        cursors.set(top, c + 1);
                        lids.push(j);
                        cursors.push(0);
                        fetched.push(false);
                        let ghost wv = write_view(w);
                        store.apply(w);
                        proof {
                            let ch = ox.frames()[top as int].children->Some_0@;
                            assert(entry_matches(ch.last(), l[lid as int][c as int]));
                            let p = ix.frames()[n as int].path@;
                            st = st.update(top as int, (lid as int, c as int + 1, st0[top as int].2, true)).push(
                                (j as int, 0int, p, false),
                            );
                            assert(l[j as int].subrange(0, l[j as int].len() as int) =~= l[j as int]);
                            assert(st.drop_last().drop_last() =~= st0.drop_last());
                            let nch = ix.frames()[top as int].children->Some_0@;
                            assert forall|m: int| 0 <= m < nch.len() implies entry_matches(
                                #[trigger] nch[m],
                                l[lid as int][l[lid as int].len() - 1 - m],
                            ) by {
                                assert(nch[m] == ch[m]);
                            }
                            assert forall|k: int| 0 <= k < st.len() implies #[trigger] st[k] == (
                                lids@[k] as int,
                                cursors@[k] as int,
                                ix.frames()[k].path@,
                                fetched@[k],
                            ) by {
                                if k < top {
                                    assert(ix.frames().subrange(0, top as int)[k] == ix.frames()[k]);
                                    assert(ox.frames().drop_last()[k] == ox.frames()[k]);
                                }
                            }
                            let nd = ix.writes().map_values(|w| write_view(w));
                            assert(nd =~= done.push(wv));
                            assert(nd.drop_last() =~= done);
                            let path = st0[top as int].2;
                            let e = l[lid as int][c as int];
                            assert(e is Folder);
                            let f = e->Folder_0;
                            assert(path == ox.frames()[top as int].path@);
                            assert(wv == (RowKind::Folder, join_path(path, f.name@), f.name@, f.encoded@));
                            assert(p == join_path(path, f.name@));
                            assert(e->Folder_1 == j);
                            assert(lid < j < l.len());
                            let sc = l[lid as int].subrange(c as int, l[lid as int].len() as int);
                            let sc1 = l[lid as int].subrange(c as int + 1, l[lid as int].len() as int);
                            assert(walk_entries(l, lid as int, sc, path) == seq![wv] + walk_entries(l, j as int, l[j as int], p)
                                + walk_entries(l, lid as int, sc1, path));
                            let p0 = pending(l, st0.drop_last());
                            assert(pending(l, st0) == walk_entries(l, lid as int, sc, path) + p0);
                            assert(pending(l, st.drop_last()) == walk_entries(l, lid as int, sc1, path) + p0);
                            assert(pending(l, st) == walk_entries(l, j as int, l[j as int], p) + pending(l, st.drop_last()));
                            assert(done + pending(l, st0) == walk);
                            assert(nd + pending(l, st) =~= walk);
                            assert(remaining_steps(l, st.drop_last()) == steps_entries(
                                l,
                                lid as int,
                                l[lid as int].subrange(c as int + 1, l[lid as int].len() as int),
                            ) + 1 + remaining_steps(l, st0.drop_last()));
                            assert(remaining_steps(l, st) < remaining_steps(l, st0));
                        }
                    },
                    _ => {
                        proof {
                            let ch = ox.frames()[top as int].children->Some_0@;
                            assert(entry_matches(ch.last(), l[lid as int][c as int]));
                            assert(false);
                        }
                    },
                }
            },
        }
    }
    proof {
        assert(st.len() == 0);
        assert(ix.writes().map_values(|w| write_view(w)) =~= walk);
        ix.progress_counts_files();
    }
    progress
}

/// Whether `p` is the path of a row of kind `kind` among `ws`.
pub open spec fn written_at(ws: Seq<WriteView>, kind: RowKind, p: Seq<char>) -> bool {
    exists|i: int| 0 <= i < ws.len() && ws[i].0 == kind && ws[i].1 == p
}

/// The number of writes of kind `kind` among `ws`.
pub open spec fn count_kind(ws: Seq<WriteView>, kind: RowKind) -> nat
    decreases ws.len(),
{
    if ws.len() == 0 {
        0
    } else {
        count_kind(ws.drop_last(), kind) + if ws.last().0 == kind {
            1nat
        } else {
            0nat
        }
    }
}

/// No two writes to the same table share a path.
pub open spec fn paths_distinct(ws: Seq<WriteView>) -> bool {
    forall|i: int, j: int|
        0 <= i < ws.len() && 0 <= j < ws.len() && i != j && ws[i].0 == ws[j].0 ==> ws[i].1 != ws[j].1
}

proof fn lemma_overlay_rows(ws: Seq<WriteView>)
    ensures
        overlay(ws).0.dom().finite(),
        overlay(ws).1.dom().finite(),
        forall|p: Seq<char>| overlay(ws).0.dom().contains(p) <==> written_at(ws, RowKind::Folder, p),
        forall|p: Seq<char>| overlay(ws).1.dom().contains(p) <==> written_at(ws, RowKind::File, p),
        paths_distinct(ws) ==> overlay(ws).0.dom().len() == count_kind(ws, RowKind::Folder),
        paths_distinct(ws) ==> overlay(ws).1.dom().len() == count_kind(ws, RowKind::File),
    decreases ws.len(),
{
    if ws.len() > 0 {
        let init = ws.drop_last();
        let w = ws.last();
        lemma_overlay_rows(init);
        assert(overlay(ws) == apply_write(overlay(init), w));
        assert forall|p: Seq<char>| overlay(ws).0.dom().contains(p) <==> written_at(ws, RowKind::Folder, p) by {
            if written_at(init, RowKind::Folder, p) {
                let i = choose|i: int| 0 <= i < init.len() && init[i].0 == RowKind::Folder && init[i].1 == p;
                assert(ws[i] == init[i]);
            }
            if written_at(ws, RowKind::Folder, p) {
                let i = choose|i: int| 0 <= i < ws.len() && ws[i].0 == RowKind::Folder && ws[i].1 == p;
                if i < init.len() {
                    assert(init[i] == ws[i]);
                }
            }
        }
        assert forall|p: Seq<char>| overlay(ws).1.dom().contains(p) <==> written_at(ws, RowKind::File, p) by {
            if written_at(init, RowKind::File, p) {
                let i = choose|i: int| 0 <= i < init.len() && init[i].0 == RowKind::File && init[i].1 == p;
                assert(ws[i] == init[i]);
            }
            if written_at(ws, RowKind::File, p) {
                let i = choose|i: int| 0 <= i < ws.len() && ws[i].0 == RowKind::File && ws[i].1 == p;
                if i < init.len() {
                    assert(init[i] == ws[i]);
                }
            }
        }
        if paths_distinct(ws) {
            assert(paths_distinct(init)) by {
                assert forall|i: int, j: int|
                    0 <= i < init.len() && 0 <= j < init.len() && i != j && init[i].0 == init[j].0 implies init[i].1
                    != init[j].1 by {
                    assert(init[i] == ws[i]);
                    assert(init[j] == ws[j]);
                }
            }
            assert(!written_at(init, w.0, w.1)) by {
                if written_at(init, w.0, w.1) {
                    let i = choose|i: int| 0 <= i < init.len() && init[i].0 == w.0 && init[i].1 == w.1;
                    assert(ws[i] == init[i]);
                }
            }
        }
    }
}

/// A full index run over a snapshot, into an empty cache, leaves a folder
/// row exactly at the path of each folder of the tree and a file row exactly
/// at the path of each file, where a path is the names from the root down
/// joined by '/'. Where no two folders and no two files of the tree share a
/// path, there is one row per folder and one per file.
pub proof fn full_index_rows_are_tree_nodes(s: Snapshot)
    ensures
        ({
            let ws = snapshot_walk(s);
            let rows = apply_writes((Map::empty(), Map::empty()), ws);
            &&& forall|p: Seq<char>| rows.0.dom().contains(p) <==> written_at(ws, RowKind::Folder, p)
            &&& forall|p: Seq<char>| rows.1.dom().contains(p) <==> written_at(ws, RowKind::File, p)
            &&& paths_distinct(ws) ==> rows.0.dom().len() == count_kind(ws, RowKind::Folder)
                && rows.1.dom().len() == count_kind(ws, RowKind::File)
        }),
{
    lemma_overlay_rows(snapshot_walk(s));
}

/// Re-running a full index over an unchanged tree leaves the cache as the
/// first run left it: the same rows, so the same paths and row counts.
pub proof fn full_index_rerun_changes_nothing(s: Snapshot, v: StoreView)
    ensures
        apply_writes(apply_writes(v, snapshot_walk(s)), snapshot_walk(s)) == apply_writes(v, snapshot_walk(s)),
{
    rewriting_same_writes_changes_nothing(v, snapshot_walk(s));
}

} // verus!
