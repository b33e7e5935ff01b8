//! The spatial grid: a matrix of cells, each with the ids of the units standing
//! in it and the ids of the units watching it, both in the order they came.

use vstd::prelude::*;

verus! {

/// A list of ids with `id` in it: appended at the end unless it is there already.
pub open spec fn list_with(s: Seq<u32>, id: u32) -> Seq<u32> {
    if s.contains(id) {
        s
    } else {
        s.push(id)
    }
}

/// A list of distinct ids without `id`; the others keep their order.
pub open spec fn list_without(s: Seq<u32>, id: u32) -> Seq<u32> {
    if s.contains(id) {
        s.remove(s.index_of(id))
    } else {
        s
    }
}

/// Adding an id keeps the ids distinct and adds nothing else.
pub proof fn lemma_list_with(s: Seq<u32>, id: u32)
    requires
        s.no_duplicates(),
    ensures
        list_with(s, id).no_duplicates(),
        list_with(s, id).contains(id),
        forall|x: u32| #[trigger] list_with(s, id).contains(x) <==> (s.contains(x) || x == id),
{
    let r = list_with(s, id);
    if !s.contains(id) {
        assert(r[s.len() as int] == id);
        assert forall|x: u32| #[trigger] r.contains(x) <==> (s.contains(x) || x == id) by {
            if s.contains(x) {
                let k = s.index_of(x);
                assert(r[k] == x);
            }
        }
    }
}

/// Removing an id keeps the ids distinct and removes nothing else.
pub proof fn lemma_list_without(s: Seq<u32>, id: u32)
    requires
        s.no_duplicates(),
    ensures
        list_without(s, id).no_duplicates(),
        !list_without(s, id).contains(id),
        forall|x: u32| #[trigger] list_without(s, id).contains(x) <==> (s.contains(x) && x != id),
{
    let r = list_without(s, id);
    if s.contains(id) {
        let k = s.index_of(id);
        assert(s[k] == id);
        assert forall|a: int, b: int| 0 <= a < r.len() && 0 <= b < r.len() && a != b implies r[a]
            != r[b] by {
            let a0 = if a < k { a } else { a + 1 };
            let b0 = if b < k { b } else { b + 1 };
            assert(r[a] == s[a0] && r[b] == s[b0]);
        }
        assert forall|x: u32| #[trigger] r.contains(x) <==> (s.contains(x) && x != id) by {
            if r.contains(x) {
                let a = r.index_of(x);
                let a0 = if a < k { a } else { a + 1 };
                assert(r[a] == s[a0]);
                assert(s.contains(x));
                assert(a0 != k);
            }
            if s.contains(x) && x != id {
                let a0 = s.index_of(x);
                let a = if a0 < k { a0 } else { a0 - 1 };
                assert(r[a] == s[a0]);
            }
        }
    }
}

/// The place of `id` in `v`, if it is there.
fn list_find(v: &Vec<u32>, id: u32) -> (at: Option<usize>)
    ensures
        match at {
            Some(k) => k < v@.len() && v@[k as int] == id,
            None => !v@.contains(id),
        },
{
    let mut k: usize = 0;
    while k < v.len()
        invariant
            k <= v@.len(),
            forall|a: int| 0 <= a < k ==> v@[a] != id,
        decreases v@.len() - k,
    {
        if v[k] == id {
            return Some(k);
        }
        k += 1;
    }
    None
}

/// Puts `id` into `v` unless it is there.
fn list_insert(v: &mut Vec<u32>, id: u32)
    ensures
        final(v)@ == list_with(old(v)@, id),
{
    match list_find(v, id) {
        Some(_) => {
            assert(v@.contains(id));
        },
        None => {
            v.push(id);
        },
    }
}

/// Takes `id` out of `v` if it is there.
fn list_remove(v: &mut Vec<u32>, id: u32)
    requires
        old(v)@.no_duplicates(),
    ensures
        final(v)@ == list_without(old(v)@, id),
{
    match list_find(v, id) {
        Some(k) => {
            assert(v@.contains(id));
            assert(v@.index_of(id) == k as int);
            v.remove(k);
        },
        None => {},
    }
}

/// What a cell holds: the ids of the units standing in it and of the units
/// watching it.
pub struct CellView {
    pub units: Seq<u32>,
    pub viewers: Seq<u32>,
}

/// The grid as a value: `cols` columns along x, each of `rows` cells along y.
pub struct GridView {
    pub cols: nat,
    pub rows: nat,
    pub cells: Seq<Seq<CellView>>,
}

impl GridView {
    /// Whether `(i, j)` is a cell of the grid.
    pub open spec fn has(self, i: int, j: int) -> bool {
        0 <= i < self.cols && 0 <= j < self.rows
    }

    /// The grid is a full matrix, and no cell lists an id twice.
    pub open spec fn wf(self) -> bool {
        &&& self.cells.len() == self.cols
        &&& forall|i: int| 0 <= i < self.cols ==> (#[trigger] self.cells[i]).len() == self.rows
        &&& forall|i: int, j: int|
            self.has(i, j) ==> (#[trigger] self.cells[i][j]).units.no_duplicates()
                && self.cells[i][j].viewers.no_duplicates()
    }

    /// The ids of the units standing in cell `(i, j)`, oldest first.
    pub open spec fn units_at(self, i: int, j: int) -> Seq<u32> {
        self.cells[i][j].units
    }

    /// The ids of the units watching cell `(i, j)`, oldest first.
    pub open spec fn viewers_at(self, i: int, j: int) -> Seq<u32> {
        self.cells[i][j].viewers
    }

    /// The grid of the given size with nothing in it.
    pub open spec fn empty(cols: nat, rows: nat) -> GridView {
        GridView {
            cols,
            rows,
            cells: Seq::new(
                cols,
                |i: int| Seq::new(rows, |j: int| CellView { units: Seq::empty(), viewers: Seq::empty() }),
            ),
        }
    }

    /// The grid with cell `(i, j)` replaced.
    pub open spec fn with_cell(self, i: int, j: int, c: CellView) -> GridView {
        GridView { cells: self.cells.update(i, self.cells[i].update(j, c)), ..self }
    }

    /// The grid after unit `id` has been put into cell `(i, j)`.
    pub open spec fn with_unit(self, i: int, j: int, id: u32) -> GridView {
        self.with_cell(
            i,
            j,
            CellView { units: list_with(self.units_at(i, j), id), viewers: self.viewers_at(i, j) },
        )
    }

    /// The grid after unit `id` has been taken out of cell `(i, j)`.
    pub open spec fn without_unit(self, i: int, j: int, id: u32) -> GridView {
        self.with_cell(
            i,
            j,
            CellView { units: list_without(self.units_at(i, j), id), viewers: self.viewers_at(i, j) },
        )
    }

    /// The grid after unit `id` has begun to watch cell `(i, j)`.
    pub open spec fn with_viewer(self, i: int, j: int, id: u32) -> GridView {
        self.with_cell(
            i,
            j,
            CellView { units: self.units_at(i, j), viewers: list_with(self.viewers_at(i, j), id) },
        )
    }

    /// The grid after unit `id` has ceased to watch cell `(i, j)`.
    pub open spec fn without_viewer(self, i: int, j: int, id: u32) -> GridView {
        self.with_cell(
            i,
            j,
            CellView { units: self.units_at(i, j), viewers: list_without(self.viewers_at(i, j), id) },
        )
    }

    /// The grid after unit `id` has gone from cell `(i0, j0)` to cell `(i, j)`.
    pub open spec fn moved(self, i0: int, j0: int, i: int, j: int, id: u32) -> GridView {
        self.without_unit(i0, j0, id).with_unit(i, j, id)
    }
}

/// Taking a unit out of a cell twice is taking it out once.
pub proof fn lemma_without_unit_twice(g: GridView, i: int, j: int, id: u32)
    requires
        g.wf(),
        g.has(i, j),
    ensures
        g.without_unit(i, j, id).without_unit(i, j, id) == g.without_unit(i, j, id),
{
    lemma_list_without(g.units_at(i, j), id);
    let h = g.without_unit(i, j, id);
    assert(h.units_at(i, j) == list_without(g.units_at(i, j), id));
    assert(h.without_unit(i, j, id).cells =~~= h.cells);
}

/// Ending a subscription twice is ending it once.
pub proof fn lemma_without_viewer_twice(g: GridView, i: int, j: int, id: u32)
    requires
        g.wf(),
        g.has(i, j),
    ensures
        g.without_viewer(i, j, id).without_viewer(i, j, id) == g.without_viewer(i, j, id),
{
    lemma_list_without(g.viewers_at(i, j), id);
    let h = g.without_viewer(i, j, id);
    assert(h.viewers_at(i, j) == list_without(g.viewers_at(i, j), id));
    assert(h.without_viewer(i, j, id).cells =~~= h.cells);
}

/// One cell of the grid.
pub struct Cell {
    units: Vec<u32>,
    viewers: Vec<u32>,
}

impl View for Cell {
    type V = CellView;

    closed spec fn view(&self) -> CellView {
        CellView { units: self.units@, viewers: self.viewers@ }
    }
}

/// A matrix of cells, `cols` wide and `rows` high.
pub struct Grid {
    cols: u32,
    rows: u32,
    cells: Vec<Vec<Cell>>,
}

impl View for Grid {
    type V = GridView;

    closed spec fn view(&self) -> GridView {
        GridView {
            cols: self.cols as nat,
            rows: self.rows as nat,
            cells: Seq::new(
                self.cells@.len(),
                |i: int| Seq::new(self.cells@[i]@.len(), |j: int| self.cells@[i]@[j]@),
            ),
        }
    }
}

impl Grid {
    /// The grid is a full matrix, and no cell lists an id twice.
    pub closed spec fn wf(&self) -> bool {
        self@.wf()
    }

    /// A grid that is well formed has a well-formed value.
    pub proof fn lemma_wf(&self)
        requires
            self.wf(),
        ensures
            self@.wf(),
    {
    }

    /// An empty grid of `rows` rows and `cols` columns.
    pub fn new(rows: u32, cols: u32) -> (g: Grid)
        ensures
            g.wf(),
            g@ == GridView::empty(cols as nat, rows as nat),
    {
        let mut cells: Vec<Vec<Cell>> = Vec::new();
        let mut i: u32 = 0;
        while i < cols
            invariant
                i <= cols,
                cells@.len() == i,
                forall|a: int| 0 <= a < i ==> (#[trigger] cells@[a])@.len() == rows,
                forall|a: int, b: int|
                    0 <= a < i && 0 <= b < rows ==> (#[trigger] cells@[a]@[b])@ == (CellView {
                        units: Seq::empty(),
                        viewers: Seq::empty(),
                    }),
            decreases cols - i,
        {
            let mut col: Vec<Cell> = Vec::new();
            let mut j: u32 = 0;
            while j < rows
                invariant
                    j <= rows,
                    col@.len() == j,
                    forall|b: int|
                        0 <= b < j ==> (#[trigger] col@[b])@ == (CellView {
                            units: Seq::empty(),
                            viewers: Seq::empty(),
                        }),
                decreases rows - j,
            {
                col.push(Cell { units: Vec::new(), viewers: Vec::new() });
                j += 1;
            }
            cells.push(col);
            i += 1;
        }
        let g = Grid { cols, rows, cells };
        proof {
            assert(g@.cells =~~= GridView::empty(cols as nat, rows as nat).cells);
        }
        g
    }

    /// The number of columns.
    pub fn cols(&self) -> (n: u32)
        ensures
            n == self@.cols,
    {
        self.cols
    }

    /// The number of rows.
    pub fn rows(&self) -> (n: u32)
        ensures
            n == self@.rows,
    {
        self.rows
    }

    /// Puts unit `id` into cell `(i, j)`. A unit that stands there already stays
    /// where it is in the cell's order.
    pub fn add(&mut self, i: u32, j: u32, id: u32)
        requires
            old(self).wf(),
            old(self)@.has(i as int, j as int),
        ensures
            final(self).wf(),
            final(self)@ == old(self)@.with_unit(i as int, j as int, id),
    {
        proof {
            lemma_list_with(self@.units_at(i as int, j as int), id);
        }
        list_insert(&mut self.cells[i as usize][j as usize].units, id);
        proof {
            assert(self@.cells =~~= old(self)@.with_unit(i as int, j as int, id).cells);
        }
    }

    /// Takes unit `id` out of cell `(i, j)`; nothing happens if it is not there.
    pub fn remove(&mut self, i: u32, j: u32, id: u32)
        requires
            old(self).wf(),
            old(self)@.has(i as int, j as int),
        ensures
            final(self).wf(),
            final(self)@ == old(self)@.without_unit(i as int, j as int, id),
    {
        proof {
            lemma_list_without(self@.units_at(i as int, j as int), id);
        }
        list_remove(&mut self.cells[i as usize][j as usize].units, id);
        proof {
            assert(self@.cells =~~= old(self)@.without_unit(i as int, j as int, id).cells);
        }
    }

    /// Subscribes unit `id` to cell `(i, j)`.
    pub fn add_viewer(&mut self, i: u32, j: u32, id: u32)
        requires
            old(self).wf(),
            old(self)@.has(i as int, j as int),
        ensures
            final(self).wf(),
            final(self)@ == old(self)@.with_viewer(i as int, j as int, id),
    {
        proof {
            lemma_list_with(self@.viewers_at(i as int, j as int), id);
        }
        list_insert(&mut self.cells[i as usize][j as usize].viewers, id);
        proof {
            assert(self@.cells =~~= old(self)@.with_viewer(i as int, j as int, id).cells);
        }
    }

    /// Ends the subscription of unit `id` to cell `(i, j)`; nothing happens if it
    /// has none.
    pub fn remove_viewer(&mut self, i: u32, j: u32, id: u32)
        requires
            old(self).wf(),
            old(self)@.has(i as int, j as int),
        ensures
            final(self).wf(),
            final(self)@ == old(self)@.without_viewer(i as int, j as int, id),
    {
        proof {
            lemma_list_without(self@.viewers_at(i as int, j as int), id);
        }
        list_remove(&mut self.cells[i as usize][j as usize].viewers, id);
        proof {
            assert(self@.cells =~~= old(self)@.without_viewer(i as int, j as int, id).cells);
        }
    }

    /// Takes unit `id`, which stands in cell `(i0, j0)`, out of it and puts it into
    /// cell `(i, j)`.
    pub fn unit_moved(&mut self, i0: u32, j0: u32, i: u32, j: u32, id: u32)
        requires
            old(self).wf(),
            old(self)@.has(i0 as int, j0 as int),
            old(self)@.has(i as int, j as int),
            old(self)@.units_at(i0 as int, j0 as int).contains(id),
        ensures
            final(self).wf(),
            final(self)@ == old(self)@.moved(i0 as int, j0 as int, i as int, j as int, id),
    {
        self.remove(i0, j0, id);
        self.add(i, j, id);
    }

    /// The ids of the units standing in cell `(i, j)`, oldest first.
    pub fn for_each(&self, i: u32, j: u32) -> (ids: Vec<u32>)
        requires
            self.wf(),
            self@.has(i as int, j as int),
        ensures
            ids@ == self@.units_at(i as int, j as int),
    {
        proof {
            assert(self@.cells[i as int].len() == self@.rows);
        }
        copy_list(&self.cells[i as usize][j as usize].units)
    }

    /// The ids of the units watching cell `(i, j)`, oldest first.
    pub fn viewers(&self, i: u32, j: u32) -> (ids: Vec<u32>)
        requires
            self.wf(),
            self@.has(i as int, j as int),
        ensures
            ids@ == self@.viewers_at(i as int, j as int),
    {
        proof {
            assert(self@.cells[i as int].len() == self@.rows);
        }
        copy_list(&self.cells[i as usize][j as usize].viewers)
    }
}

/// A copy of `v`.
fn copy_list(v: &Vec<u32>) -> (w: Vec<u32>)
    ensures
        w@ == v@,
{
    let mut w: Vec<u32> = Vec::new();
    let mut k: usize = 0;
    while k < v.len()
        invariant
            k <= v@.len(),
            w@ == v@.subrange(0, k as int),
        decreases v@.len() - k,
    {
        w.push(v[k]);
        proof {
            assert(w@ =~= v@.subrange(0, k + 1));
        }
        k += 1;
    }
    proof {
        assert(v@.subrange(0, v@.len() as int) =~= v@);
    }
    w
}

} // verus!
