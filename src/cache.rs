//! The cache store: two tables, folders and files, each keyed by full path,
//! with upsert-by-path semantics. Rows are never deleted.
use vstd::prelude::*;

verus! {

/// One row of a table.
pub struct CachedRow {
    pub full_path: String,
    pub name: String,
    /// Reserved reconciliation marker; every write resets it to false.
    pub checked: bool,
    /// The node's serialized record.
    pub node: Vec<u8>,
}

/// What a table holds for one path: name, node blob, checked flag.
pub type RowEntry = (Seq<char>, Seq<u8>, bool);

pub open spec fn entry_of(r: CachedRow) -> RowEntry {
    (r.name@, r.node@, r.checked)
}

/// The path-to-entry map of a sequence of rows; a later row wins.
pub open spec fn row_map(rows: Seq<CachedRow>) -> Map<Seq<char>, RowEntry>
    decreases rows.len(),
{
    if rows.len() == 0 {
        Map::empty()
    } else {
        row_map(rows.drop_last()).insert(rows.last().full_path@, entry_of(rows.last()))
    }
}

pub open spec fn paths_unique(rows: Seq<CachedRow>) -> bool {
    forall|i: int, j: int|
        0 <= i < rows.len() && 0 <= j < rows.len() && i != j ==> rows[i].full_path@
            != rows[j].full_path@
}

proof fn lemma_row_map_dom(rows: Seq<CachedRow>)
    ensures
        row_map(rows).dom().finite(),
        forall|p: Seq<char>|
            row_map(rows).dom().contains(p) <==> exists|i: int|
                0 <= i < rows.len() && rows[i].full_path@ == p,
    decreases rows.len(),
{
    if rows.len() > 0 {
        let init = rows.drop_last();
        lemma_row_map_dom(init);
        assert forall|p: Seq<char>|
            row_map(rows).dom().contains(p) <==> exists|i: int|
                0 <= i < rows.len() && rows[i].full_path@ == p by {
            if row_map(rows).dom().contains(p) && p != rows.last().full_path@ {
                let i = choose|i: int| 0 <= i < init.len() && init[i].full_path@ == p;
                assert(rows[i] == init[i]);
            }
            if exists|i: int| 0 <= i < rows.len() && rows[i].full_path@ == p {
                let i = choose|i: int| 0 <= i < rows.len() && rows[i].full_path@ == p;
                if i < rows.len() - 1 {
                    assert(init[i] == rows[i]);
                }
            }
        }
    }
}

proof fn lemma_row_map_get(rows: Seq<CachedRow>, i: int)
    requires
        paths_unique(rows),
        0 <= i < rows.len(),
    ensures
        row_map(rows).dom().contains(rows[i].full_path@),
        row_map(rows)[rows[i].full_path@] == entry_of(rows[i]),
    decreases rows.len(),
{
    lemma_row_map_dom(rows);
    if i < rows.len() - 1 {
        let init = rows.drop_last();
        assert(init[i] == rows[i]);
        lemma_row_map_get(init, i);
    }
}

proof fn lemma_row_map_len(rows: Seq<CachedRow>)
    requires
        paths_unique(rows),
    ensures
        row_map(rows).dom().len() == rows.len(),
    decreases rows.len(),
{
    if rows.len() > 0 {
        let init = rows.drop_last();
        lemma_row_map_len(init);
        lemma_row_map_dom(init);
        assert(!row_map(init).dom().contains(rows.last().full_path@)) by {
            if row_map(init).dom().contains(rows.last().full_path@) {
                let i = choose|i: int|
                    0 <= i < init.len() && init[i].full_path@ == rows.last().full_path@;
                assert(rows[i] == init[i]);
            }
        }
    }
}

proof fn lemma_row_map_update(rows: Seq<CachedRow>, i: int, r: CachedRow)
    requires
        paths_unique(rows),
        0 <= i < rows.len(),
        rows[i].full_path@ == r.full_path@,
    ensures
        paths_unique(rows.update(i, r)),
        row_map(rows.update(i, r)) == row_map(rows).insert(r.full_path@, entry_of(r)),
{
    let new_rows = rows.update(i, r);
    let m1 = row_map(new_rows);
    let m2 = row_map(rows).insert(r.full_path@, entry_of(r));
    lemma_row_map_dom(rows);
    lemma_row_map_dom(new_rows);
    assert(paths_unique(new_rows)) by {
        assert forall|a: int, b: int|
            0 <= a < new_rows.len() && 0 <= b < new_rows.len() && a != b implies new_rows[a].full_path@
                != new_rows[b].full_path@ by {
            assert(new_rows[a].full_path@ == rows[a].full_path@);
            assert(new_rows[b].full_path@ == rows[b].full_path@);
        }
    }
    assert forall|p: Seq<char>| m1.dom().contains(p) <==> m2.dom().contains(p) by {
        if m1.dom().contains(p) {
            let k = choose|k: int| 0 <= k < new_rows.len() && new_rows[k].full_path@ == p;
            assert(rows[k].full_path@ == p);
        }
        if m2.dom().contains(p) {
            if p == r.full_path@ {
                assert(new_rows[i].full_path@ == p);
            } else {
                let k = choose|k: int| 0 <= k < rows.len() && rows[k].full_path@ == p;
                assert(new_rows[k].full_path@ == p);
            }
        }
    }
    assert forall|p: Seq<char>| #[trigger] m1.dom().contains(p) implies m1[p] == m2[p] by {
        let k = choose|k: int| 0 <= k < new_rows.len() && new_rows[k].full_path@ == p;
        lemma_row_map_get(new_rows, k);
        if k != i {
            lemma_row_map_get(rows, k);
        }
    }
    assert(m1 =~= m2);
}

proof fn lemma_row_map_push(rows: Seq<CachedRow>, r: CachedRow)
    requires
        paths_unique(rows),
        !row_map(rows).dom().contains(r.full_path@),
    ensures
        paths_unique(rows.push(r)),
        row_map(rows.push(r)) == row_map(rows).insert(r.full_path@, entry_of(r)),
{
    let new_rows = rows.push(r);
    lemma_row_map_dom(rows);
    assert(new_rows.drop_last() =~= rows);
    assert(paths_unique(new_rows)) by {
        assert forall|a: int, b: int|
            0 <= a < new_rows.len() && 0 <= b < new_rows.len() && a != b implies new_rows[a].full_path@
                != new_rows[b].full_path@ by {
            if a == rows.len() {
                assert(new_rows[b] == rows[b]);
            } else if b == rows.len() {
                assert(new_rows[a] == rows[a]);
            } else {
                assert(new_rows[a] == rows[a]);
                assert(new_rows[b] == rows[b]);
            }
        }
    }
}

/// A table of rows keyed by full path.
pub struct CacheTable {
    rows: Vec<CachedRow>,
}

impl CacheTable {
    /// Every path occurs in at most one row.
    pub closed spec fn wf(&self) -> bool {
        paths_unique(self.rows@)
    }

    /// The table as a map from full path to (name, node blob, checked).
    pub closed spec fn view(&self) -> Map<Seq<char>, RowEntry> {
        row_map(self.rows@)
    }

    /// An empty table.
    pub fn new() -> (r: Self)
        ensures
            r.wf(),
            r.view() == Map::<Seq<char>, RowEntry>::empty(),
    {
        CacheTable { rows: Vec::new() }
    }

    /// The index of the row for `full_path`, if any.
    fn find(&self, full_path: &String) -> (r: Option<usize>)
        requires
            self.wf(),
        ensures
            self.view().dom().contains(full_path@) <==> r is Some,
            r is Some ==> r->Some_0 < self.rows@.len() && self.rows@[r->Some_0 as int].full_path@
                == full_path@,
    {
        proof {
            lemma_row_map_dom(self.rows@);
        }
        let mut i: usize = 0;
        while i < self.rows.len()
            invariant
                i <= self.rows@.len(),
                forall|k: int| 0 <= k < i ==> self.rows@[k].full_path@ != full_path@,
            decreases self.rows@.len() - i,
        {
            if self.rows[i].full_path == *full_path {
                proof {
                    lemma_row_map_dom(self.rows@);
                    assert(self.rows@[i as int].full_path@ == full_path@);
                }
                return Some(i);
            }
            i = i + 1;
        }
        None
    }

    /// Whether a row for `full_path` exists.
    pub fn contains_path(&self, full_path: &String) -> (r: bool)
        requires
            self.wf(),
        ensures
            r == self.view().dom().contains(full_path@),
    {
        self.find(full_path).is_some()
    }

    /// The number of rows.
    pub fn len(&self) -> (r: usize)
        requires
            self.wf(),
        ensures
            r == self.view().dom().len(),
    {
        proof {
            lemma_row_map_len(self.rows@);
        }
        self.rows.len()
    }

    /// Inserts a row, or on a path collision overwrites its name and node and
    /// resets its checked flag.
    pub fn upsert(&mut self, full_path: String, name: String, node: Vec<u8>)
        requires
            old(self).wf(),
        ensures
            final(self).wf(),
            final(self).view() == old(self).view().insert(full_path@, (name@, node@, false)),
    {
        let row = CachedRow { full_path, name, checked: false, node };
        match self.find(&row.full_path) {
            Some(i) => {
                proof {
                    lemma_row_map_update(self.rows@, i as int, row);
                }
                self.rows.set(i, row);
            },
            None => {
                proof {
                    lemma_row_map_push(self.rows@, row);
                }
                self.rows.push(row);
            },
        }
    }

    /// Inserts a row only where none exists for its path; returns whether it
    /// inserted.
    pub fn insert_if_absent(&mut self, full_path: String, name: String, node: Vec<u8>) -> (r: bool)
        requires
            old(self).wf(),
        ensures
            final(self).wf(),
            r == !old(self).view().dom().contains(full_path@),
            r ==> final(self).view() == old(self).view().insert(full_path@, (name@, node@, false)),
            !r ==> final(self).view() == old(self).view(),
    {
        if self.contains_path(&full_path) {
            false
        } else {
            self.upsert(full_path, name, node);
            true
        }
    }

    /// Every (full path, node blob) pair of the table.
    pub fn list(&self) -> (r: Vec<(String, Vec<u8>)>)
        requires
            self.wf(),
        ensures
            r@.len() == self.view().dom().len(),
            forall|i: int|
                0 <= i < r@.len() ==> self.view().dom().contains(#[trigger] r@[i].0@)
                    && self.view()[r@[i].0@].1 == r@[i].1@,
            forall|p: Seq<char>|
                self.view().dom().contains(p) ==> exists|i: int|
                    0 <= i < r@.len() && #[trigger] r@[i].0@ == p,
            forall|i: int, j: int|
                0 <= i < r@.len() && 0 <= j < r@.len() && i != j ==> r@[i].0@ != r@[j].0@,
    {
        proof {
            lemma_row_map_len(self.rows@);
            lemma_row_map_dom(self.rows@);
        }
        let mut out: Vec<(String, Vec<u8>)> = Vec::new();
        let mut i: usize = 0;
        while i < self.rows.len()
            invariant
                i <= self.rows@.len(),
                out@.len() == i,
                forall|k: int|
                    0 <= k < i ==> (#[trigger] out@[k]).0@ == self.rows@[k].full_path@
                        && out@[k].1@ == self.rows@[k].node@,
            decreases self.rows@.len() - i,
        {
            let path = self.rows[i].full_path.clone();
            let node = self.rows[i].node.clone();
            assert(node@ =~= self.rows@[i as int].node@);
            out.push((path, node));
            i = i + 1;
        }
        proof {
            assert forall|k: int| 0 <= k < out@.len() implies self.view().dom().contains(
                #[trigger] out@[k].0@,
            ) && self.view()[out@[k].0@].1 == out@[k].1@ by {
                lemma_row_map_get(self.rows@, k);
            }
            assert forall|p: Seq<char>| self.view().dom().contains(p) implies exists|k: int|
                0 <= k < out@.len() && #[trigger] out@[k].0@ == p by {
                let k = choose|k: int| 0 <= k < self.rows@.len() && self.rows@[k].full_path@ == p;
                assert(out@[k].0@ == p);
            }
        }
        out
    }
}

/// The table a row belongs to.
#[derive(Debug, Clone, Copy, PartialEq, Eq, Structural)]
pub enum RowKind {
    Folder,
    File,
}

/// One upsert to perform against the store.
pub struct StoreWrite {
    pub kind: RowKind,
    pub full_path: String,
    pub name: String,
    pub node: Vec<u8>,
}

/// A write as plain values: table, full path, name, node blob.
pub type WriteView = (RowKind, Seq<char>, Seq<char>, Seq<u8>);

pub open spec fn write_view(w: StoreWrite) -> WriteView {
    (w.kind, w.full_path@, w.name@, w.node@)
}

/// The two tables as maps: (folders, files).
pub type StoreView = (Map<Seq<char>, RowEntry>, Map<Seq<char>, RowEntry>);

/// The store after one upsert.
pub open spec fn apply_write(v: StoreView, w: WriteView) -> StoreView {
    let e = (w.2, w.3, false);
    match w.0 {
        RowKind::Folder => (v.0.insert(w.1, e), v.1),
        RowKind::File => (v.0, v.1.insert(w.1, e)),
    }
}

/// The store after a sequence of upserts, in order.
pub open spec fn apply_writes(v: StoreView, ws: Seq<WriteView>) -> StoreView
    decreases ws.len(),
{
    if ws.len() == 0 {
        v
    } else {
        apply_write(apply_writes(v, ws.drop_last()), ws.last())
    }
}

/// What a sequence of upserts leaves in an empty store.
pub open spec fn overlay(ws: Seq<WriteView>) -> StoreView {
    apply_writes((Map::empty(), Map::empty()), ws)
}

proof fn lemma_apply_is_overlay(v: StoreView, ws: Seq<WriteView>)
    ensures
        apply_writes(v, ws).0 == v.0.union_prefer_right(overlay(ws).0),
        apply_writes(v, ws).1 == v.1.union_prefer_right(overlay(ws).1),
    decreases ws.len(),
{
    if ws.len() == 0 {
        assert(v.0.union_prefer_right(overlay(ws).0) =~= v.0);
        assert(v.1.union_prefer_right(overlay(ws).1) =~= v.1);
    } else {
        let init = ws.drop_last();
        lemma_apply_is_overlay(v, init);
        lemma_apply_is_overlay((Map::empty(), Map::empty()), init);
        assert(apply_writes(v, ws).0 =~= v.0.union_prefer_right(overlay(ws).0));
        assert(apply_writes(v, ws).1 =~= v.1.union_prefer_right(overlay(ws).1));
    }
}

/// Upserts are idempotent as a batch: applying the same sequence of writes a
/// second time leaves the store as the first application left it, so a
/// re-run over an unchanged tree yields the same rows and row counts.
pub proof fn rewriting_same_writes_changes_nothing(v: StoreView, ws: Seq<WriteView>)
    ensures
        apply_writes(apply_writes(v, ws), ws) == apply_writes(v, ws),
        apply_writes(apply_writes(v, ws), ws).0.dom() == apply_writes(v, ws).0.dom(),
        apply_writes(apply_writes(v, ws), ws).1.dom() == apply_writes(v, ws).1.dom(),
{
    let once = apply_writes(v, ws);
    lemma_apply_is_overlay(v, ws);
    lemma_apply_is_overlay(once, ws);
    assert(apply_writes(once, ws).0 =~= once.0);
    assert(apply_writes(once, ws).1 =~= once.1);
}

/// Upserting at a path that a table already holds replaces that row's node
/// blob and leaves the table's row count unchanged.
pub proof fn upsert_existing_path_keeps_row_count(
    t: CacheTable,
    full_path: Seq<char>,
    name: Seq<char>,
    node: Seq<u8>,
)
    requires
        t.wf(),
        t.view().dom().contains(full_path),
    ensures
        t.view().insert(full_path, (name, node, false)).dom().len() == t.view().dom().len(),
        t.view().insert(full_path, (name, node, false))[full_path].1 == node,
{
    lemma_row_map_dom(t.rows@);
    assert(t.view().insert(full_path, (name, node, false)).dom() =~= t.view().dom());
}

/// The cache: a folders table and a files table.
pub struct CacheStore {
    pub folders: CacheTable,
    pub files: CacheTable,
}

impl CacheStore {
    pub open spec fn wf(&self) -> bool {
        self.folders.wf() && self.files.wf()
    }

    pub open spec fn view(&self) -> StoreView {
        (self.folders.view(), self.files.view())
    }

    /// An empty store.
    pub fn new() -> (r: Self)
        ensures
            r.wf(),
            r.view() == (Map::<Seq<char>, RowEntry>::empty(), Map::<Seq<char>, RowEntry>::empty()),
    {
        CacheStore { folders: CacheTable::new(), files: CacheTable::new() }
    }

    /// Inserts or overwrites the folder row at `full_path`.
    pub fn upsert_folder(&mut self, full_path: String, name: String, node: Vec<u8>)
        requires
            old(self).wf(),
        ensures
            final(self).wf(),
            final(self).view() == (
                old(self).view().0.insert(full_path@, (name@, node@, false)),
                old(self).view().1,
            ),
    {
        self.folders.upsert(full_path, name, node);
    }

    /// Inserts or overwrites the file row at `full_path`.
    pub fn upsert_file(&mut self, full_path: String, name: String, node: Vec<u8>)
        requires
            old(self).wf(),
        ensures
            final(self).wf(),
            final(self).view() == (
                old(self).view().0,
                old(self).view().1.insert(full_path@, (name@, node@, false)),
            ),
    {
        self.files.upsert(full_path, name, node);
    }

    /// Performs one write.
    pub fn apply(&mut self, w: StoreWrite)
        requires
            old(self).wf(),
        ensures
            final(self).wf(),
            final(self).view() == apply_write(old(self).view(), write_view(w)),
    {
        match w.kind {
            RowKind::Folder => self.upsert_folder(w.full_path, w.name, w.node),
            RowKind::File => self.upsert_file(w.full_path, w.name, w.node),
        }
    }

    /// Whether a folder row exists at `full_path`.
    pub fn exists_folder(&self, full_path: &String) -> (r: bool)
        requires
            self.wf(),
        ensures
            r == self.view().0.dom().contains(full_path@),
    {
        self.folders.contains_path(full_path)
    }

    /// Whether a file row exists at `full_path`.
    pub fn exists_file(&self, full_path: &String) -> (r: bool)
        requires
            self.wf(),
        ensures
            r == self.view().1.dom().contains(full_path@),
    {
        self.files.contains_path(full_path)
    }

    /// Inserts a row of the write's table only where its path is absent;
    /// returns whether it inserted.
    pub fn insert_if_absent(&mut self, w: StoreWrite) -> (r: bool)
        requires
            old(self).wf(),
        ensures
            final(self).wf(),
            r == !(match w.kind {
                RowKind::Folder => old(self).view().0,
                RowKind::File => old(self).view().1,
            }).dom().contains(w.full_path@),
            final(self).view() == if r {
                apply_write(old(self).view(), write_view(w))
            } else {
                old(self).view()
            },
    {
        match w.kind {
            RowKind::Folder => self.folders.insert_if_absent(w.full_path, w.name, w.node),
            RowKind::File => self.files.insert_if_absent(w.full_path, w.name, w.node),
        }
    }

    /// Every known folder as (full path, node blob).
    pub fn list_known_folders(&self) -> (r: Vec<(String, Vec<u8>)>)
        requires
            self.wf(),
        ensures
            r@.len() == self.view().0.dom().len(),
            forall|i: int|
                0 <= i < r@.len() ==> self.view().0.dom().contains(#[trigger] r@[i].0@)
                    && self.view().0[r@[i].0@].1 == r@[i].1@,
            forall|p: Seq<char>|
                self.view().0.dom().contains(p) ==> exists|i: int|
                    0 <= i < r@.len() && #[trigger] r@[i].0@ == p,
            forall|i: int, j: int|
                0 <= i < r@.len() && 0 <= j < r@.len() && i != j ==> r@[i].0@ != r@[j].0@,
    {
        self.folders.list()
    }

    /// The number of folder rows.
    pub fn folder_count(&self) -> (r: usize)
        requires
            self.wf(),
        ensures
            r == self.view().0.dom().len(),
    {
        self.folders.len()
    }

    /// The number of file rows.
    pub fn file_count(&self) -> (r: usize)
        requires
            self.wf(),
        ensures
            r == self.view().1.dom().len(),
    {
        self.files.len()
    }
}

} // verus!
