//! What holds of the map whatever is done to it: which cells list a unit after
//! it has been added, moved or removed, and that the other units stay where
//! they were.

use crate::grid::{lemma_list_with, lemma_list_without, list_with, list_without, GridView};
use crate::map::{cell_of, rect_within, subscribed, unsubscribed, MapView};
use crate::unit::{CellRect, Unit};
use vstd::prelude::*;

verus! {

impl MapView {
    /// Whether the map holds `u` as `u` itself has it cached: the cells that list
    /// `u` as standing in them are exactly its cached cell, and the cells that
    /// list it as a viewer are exactly those of the rectangle it has recorded.
    pub open spec fn holds(self, u: Unit) -> bool {
        &&& self.fits(u)
        &&& forall|i: int, j: int|
            self.grid.has(i, j) ==> ((#[trigger] self.grid.units_at(i, j)).contains(u.id()) <==> (i
                == u.map_cell().i && j == u.map_cell().j))
        &&& forall|i: int, j: int|
            self.grid.has(i, j) ==> ((#[trigger] self.grid.viewers_at(i, j)).contains(u.id())
                <==> u.watched().covers(i, j))
    }

    /// Whether no cell of the map lists unit `id`, neither as standing in it nor
    /// as watching it.
    pub open spec fn lacks(self, id: u32) -> bool {
        &&& forall|i: int, j: int|
            self.grid.has(i, j) ==> !(#[trigger] self.grid.units_at(i, j)).contains(id)
        &&& forall|i: int, j: int|
            self.grid.has(i, j) ==> !(#[trigger] self.grid.viewers_at(i, j)).contains(id)
    }

    /// Whether the two maps have the same size and list unit `id` in the same
    /// cells.
    pub open spec fn agrees_on(self, other: MapView, id: u32) -> bool {
        &&& self.cfg == other.cfg
        &&& self.grid.cols == other.grid.cols
        &&& self.grid.rows == other.grid.rows
        &&& forall|i: int, j: int|
            self.grid.has(i, j) ==> ((#[trigger] self.grid.units_at(i, j)).contains(id)
                <==> other.grid.units_at(i, j).contains(id))
        &&& forall|i: int, j: int|
            self.grid.has(i, j) ==> ((#[trigger] self.grid.viewers_at(i, j)).contains(id)
                <==> other.grid.viewers_at(i, j).contains(id))
    }
}

/// What the list lemmas say, for every cell of a well-formed grid at once.
proof fn lemma_lists(g: GridView, id: u32)
    requires
        g.wf(),
    ensures
        forall|i: int, j: int, x: u32|
            g.has(i, j) ==> (#[trigger] list_with(g.units_at(i, j), id).contains(x) <==> (
            g.units_at(i, j).contains(x) || x == id)),
        forall|i: int, j: int, x: u32|
            g.has(i, j) ==> (#[trigger] list_without(g.units_at(i, j), id).contains(x) <==> (
            g.units_at(i, j).contains(x) && x != id)),
        forall|i: int, j: int, x: u32|
            g.has(i, j) ==> (#[trigger] list_with(g.viewers_at(i, j), id).contains(x) <==> (
            g.viewers_at(i, j).contains(x) || x == id)),
        forall|i: int, j: int, x: u32|
            g.has(i, j) ==> (#[trigger] list_without(g.viewers_at(i, j), id).contains(x) <==> (
            g.viewers_at(i, j).contains(x) && x != id)),
        forall|i: int, j: int|
            g.has(i, j) ==> (#[trigger] list_with(g.units_at(i, j), id)).no_duplicates(),
        forall|i: int, j: int|
            g.has(i, j) ==> (#[trigger] list_without(g.units_at(i, j), id)).no_duplicates(),
        forall|i: int, j: int|
            g.has(i, j) ==> (#[trigger] list_with(g.viewers_at(i, j), id)).no_duplicates(),
        forall|i: int, j: int|
            g.has(i, j) ==> (#[trigger] list_without(g.viewers_at(i, j), id)).no_duplicates(),
{
    assert forall|i: int, j: int| g.has(i, j) implies {
        &&& (#[trigger] g.cells[i][j]).units.no_duplicates()
        &&& forall|x: u32| #[trigger]
            list_with(g.units_at(i, j), id).contains(x) <==> (g.units_at(i, j).contains(x) || x
                == id)
        &&& forall|x: u32| #[trigger]
            list_without(g.units_at(i, j), id).contains(x) <==> (g.units_at(i, j).contains(x) && x
                != id)
        &&& forall|x: u32| #[trigger]
            list_with(g.viewers_at(i, j), id).contains(x) <==> (g.viewers_at(i, j).contains(x) || x
                == id)
        &&& forall|x: u32| #[trigger]
            list_without(g.viewers_at(i, j), id).contains(x) <==> (g.viewers_at(i, j).contains(x)
                && x != id)
        &&& list_with(g.units_at(i, j), id).no_duplicates()
        &&& list_without(g.units_at(i, j), id).no_duplicates()
        &&& list_with(g.viewers_at(i, j), id).no_duplicates()
        &&& list_without(g.viewers_at(i, j), id).no_duplicates()
    } by {
        lemma_list_with(g.units_at(i, j), id);
        lemma_list_without(g.units_at(i, j), id);
        lemma_list_with(g.viewers_at(i, j), id);
        lemma_list_without(g.viewers_at(i, j), id);
    }
}

/// Cell by cell, what the grid functions of one unit do to a well-formed grid.
proof fn lemma_cells(g: GridView, i0: int, j0: int, id: u32, r: CellRect, e: CellRect)
    requires
        g.wf(),
    ensures
        subscribed(g, id, r, e).wf(),
        unsubscribed(g, id, r, e).wf(),
        forall|i: int, j: int|
            g.has(i, j) ==> #[trigger] subscribed(g, id, r, e).units_at(i, j) == g.units_at(i, j),
        forall|i: int, j: int|
            g.has(i, j) ==> #[trigger] subscribed(g, id, r, e).viewers_at(i, j) == if r.covers(i, j)
                && !e.covers(i, j) {
                list_with(g.viewers_at(i, j), id)
            } else {
                g.viewers_at(i, j)
            },
        forall|i: int, j: int|
            g.has(i, j) ==> #[trigger] unsubscribed(g, id, r, e).units_at(i, j) == g.units_at(i, j),
        forall|i: int, j: int|
            g.has(i, j) ==> #[trigger] unsubscribed(g, id, r, e).viewers_at(i, j) == if r.covers(
                i,
                j,
            ) && !e.covers(i, j) {
                list_without(g.viewers_at(i, j), id)
            } else {
                g.viewers_at(i, j)
            },
        g.has(i0, j0) ==> g.with_unit(i0, j0, id).wf() && g.without_unit(i0, j0, id).wf(),
        forall|i: int, j: int|
            g.has(i0, j0) && g.has(i, j) ==> #[trigger] g.with_unit(i0, j0, id).units_at(i, j)
                == if i == i0 && j == j0 {
                list_with(g.units_at(i, j), id)
            } else {
                g.units_at(i, j)
            },
        forall|i: int, j: int|
            g.has(i0, j0) && g.has(i, j) ==> #[trigger] g.with_unit(i0, j0, id).viewers_at(i, j)
                == g.viewers_at(i, j),
        forall|i: int, j: int|
            g.has(i0, j0) && g.has(i, j) ==> #[trigger] g.without_unit(i0, j0, id).units_at(i, j)
                == if i == i0 && j == j0 {
                list_without(g.units_at(i, j), id)
            } else {
                g.units_at(i, j)
            },
        forall|i: int, j: int|
            g.has(i0, j0) && g.has(i, j) ==> #[trigger] g.without_unit(i0, j0, id).viewers_at(i, j)
                == g.viewers_at(i, j),
{
    lemma_lists(g, id);
    assert forall|i: int, j: int| g.has(i, j) implies (#[trigger] subscribed(
        g,
        id,
        r,
        e,
    ).cells[i][j]).units.no_duplicates() && subscribed(
        g,
        id,
        r,
        e,
    ).cells[i][j].viewers.no_duplicates() by {
        let a = g.cells[i][j];
        let b = list_with(g.viewers_at(i, j), id);
    }
    assert forall|i: int, j: int| g.has(i, j) implies (#[trigger] unsubscribed(
        g,
        id,
        r,
        e,
    ).cells[i][j]).units.no_duplicates() && unsubscribed(
        g,
        id,
        r,
        e,
    ).cells[i][j].viewers.no_duplicates() by {
        let a = g.cells[i][j];
        let b = list_without(g.viewers_at(i, j), id);
    }
    if g.has(i0, j0) {
        let w = g.with_unit(i0, j0, id);
        assert forall|i: int, j: int| w.has(i, j) implies (#[trigger] w.cells[i][j]).units.no_duplicates()
            && w.cells[i][j].viewers.no_duplicates() by {
            let a = g.cells[i][j];
            let b = list_with(g.units_at(i, j), id);
        }
        let v = g.without_unit(i0, j0, id);
        assert forall|i: int, j: int| v.has(i, j) implies (#[trigger] v.cells[i][j]).units.no_duplicates()
            && v.cells[i][j].viewers.no_duplicates() by {
            let a = g.cells[i][j];
            let b = list_without(g.units_at(i, j), id);
        }
    }
}

/// The rectangle that a unit watches from a position on the map lies inside the
/// grid.
pub proof fn lemma_sight_within(m: MapView, u: Unit)
    requires
        m.wf(),
    ensures
        m.sight(u).i2 <= m.grid.cols,
        m.sight(u).j2 <= m.grid.rows,
        rect_within(m.sight(u), m.grid.cols, m.grid.rows),
{
}

/// A unit that the map lacked is, once added, held by the map exactly as the
/// unit has it cached: it stands in the cell of its position and in no other,
/// and it watches the cells of its sight and no others. The other units are
/// listed where they were.
pub proof fn lemma_added(m: MapView, u: Unit)
    requires
        m.wf(),
        m.covers(u.position().0, u.position().1),
        m.lacks(u.id()),
    ensures
        m.added(u).wf(),
        m.added(u).holds(m.placed(u)),
        m.placed(u).map_cell() == cell_of(u.position().0, u.position().1),
        m.placed(u).watched() == m.sight(u),
        forall|x: u32| x != u.id() ==> #[trigger] m.added(u).agrees_on(m, x),
{
    let c = cell_of(u.position().0, u.position().1);
    let id = u.id();
    let g1 = m.grid.with_unit(c.i as int, c.j as int, id);
    lemma_lists(m.grid, id);
    lemma_cells(m.grid, c.i as int, c.j as int, id, CellRect::empty(), CellRect::empty());
    lemma_lists(g1, id);
    lemma_cells(g1, 0, 0, id, m.sight(u), CellRect::empty());
    lemma_sight_within(m, u);
    assert forall|x: u32| x != id implies #[trigger] m.added(u).agrees_on(m, x) by {}
}

/// A unit that the map held is, once removed, listed nowhere. The other units
/// are listed where they were.
pub proof fn lemma_removed(m: MapView, u: Unit)
    requires
        m.wf(),
        m.fits(u),
    ensures
        m.removed(u).wf(),
        m.holds(u) ==> m.removed(u).lacks(u.id()),
        m.lacks(u.id()) ==> m.removed(u) == m,
        forall|x: u32| x != u.id() ==> #[trigger] m.removed(u).agrees_on(m, x),
{
    let id = u.id();
    let g1 = m.grid.without_unit(u.map_cell().i as int, u.map_cell().j as int, id);
    lemma_lists(m.grid, id);
    lemma_cells(
        m.grid,
        u.map_cell().i as int,
        u.map_cell().j as int,
        id,
        CellRect::empty(),
        CellRect::empty(),
    );
    lemma_lists(g1, id);
    lemma_cells(g1, 0, 0, id, u.watched(), CellRect::empty());
    assert forall|x: u32| x != id implies #[trigger] m.removed(u).agrees_on(m, x) by {}
    if m.lacks(id) {
        assert forall|i: int, j: int| m.grid.has(i, j) implies #[trigger] m.removed(u).grid.cells[i][j]
            == m.grid.cells[i][j] by {
            let a = m.removed(u).grid.units_at(i, j);
            let b = m.removed(u).grid.viewers_at(i, j);
            let c = g1.viewers_at(i, j);
        }
        assert(m.removed(u).grid.cells =~~= m.grid.cells);
    }
}

/// Removing a unit a second time changes nothing.
pub proof fn lemma_removed_twice(m: MapView, u: Unit)
    requires
        m.wf(),
        m.fits(u),
    ensures
        m.removed(u).fits(u),
        m.removed(u).removed(u) == m.removed(u),
{
    lemma_removed(m, u);
    let m1 = m.removed(u);
    let id = u.id();
    let g1 = m.grid.without_unit(u.map_cell().i as int, u.map_cell().j as int, id);
    lemma_lists(m.grid, id);
    lemma_cells(
        m.grid,
        u.map_cell().i as int,
        u.map_cell().j as int,
        id,
        CellRect::empty(),
        CellRect::empty(),
    );
    lemma_lists(g1, id);
    lemma_cells(g1, 0, 0, id, u.watched(), CellRect::empty());
    let h1 = m1.grid.without_unit(u.map_cell().i as int, u.map_cell().j as int, id);
    lemma_lists(m1.grid, id);
    lemma_cells(
        m1.grid,
        u.map_cell().i as int,
        u.map_cell().j as int,
        id,
        CellRect::empty(),
        CellRect::empty(),
    );
    lemma_lists(h1, id);
    lemma_cells(h1, 0, 0, id, u.watched(), CellRect::empty());
    assert forall|i: int, j: int| m.grid.has(i, j) implies #[trigger] m1.removed(u).grid.cells[i][j]
        == m1.grid.cells[i][j] by {
        let a = m1.removed(u).grid.units_at(i, j);
        let b = m1.removed(u).grid.viewers_at(i, j);
        let c = h1.viewers_at(i, j);
        let d = m1.grid.units_at(i, j);
        let e = m1.grid.viewers_at(i, j);
        let f = g1.viewers_at(i, j);
        let g = g1.units_at(i, j);
    }
    assert(m1.removed(u).grid.cells =~~= m1.grid.cells);
}

/// A unit that the map held and that has left its cell is, once filed anew,
/// held by the map exactly as the unit has it cached: it stands in the cell of
/// its position and in no other, and it watches the cells of its sight and no
/// others. The other units are listed where they were.
pub proof fn lemma_refiled(m: MapView, u: Unit)
    requires
        m.wf(),
        m.holds(u),
        m.covers(u.position().0, u.position().1),
    ensures
        m.refiled(u).wf(),
        m.refiled(u).holds(m.placed(u)),
        m.placed(u).map_cell() == cell_of(u.position().0, u.position().1),
        m.placed(u).watched() == m.sight(u),
        forall|x: u32| x != u.id() ==> #[trigger] m.refiled(u).agrees_on(m, x),
{
    let c = cell_of(u.position().0, u.position().1);
    let id = u.id();
    let nothing = CellRect::empty();
    let g1 = m.grid.without_unit(u.map_cell().i as int, u.map_cell().j as int, id);
    lemma_lists(m.grid, id);
    lemma_cells(m.grid, u.map_cell().i as int, u.map_cell().j as int, id, nothing, nothing);
    lemma_lists(g1, id);
    lemma_cells(g1, c.i as int, c.j as int, id, nothing, nothing);
    let g2 = g1.with_unit(c.i as int, c.j as int, id);
    lemma_lists(g2, id);
    lemma_sight_within(m, u);
    let to = if u.view() is Some {
        m.sight(u)
    } else {
        u.watched()
    };
    lemma_cells(g2, 0, 0, id, u.watched(), to);
    let g3 = unsubscribed(g2, id, u.watched(), to);
    lemma_lists(g3, id);
    lemma_cells(g3, 0, 0, id, to, u.watched());
    assert forall|x: u32| x != id implies #[trigger] m.refiled(u).agrees_on(m, x) by {}
}

} // verus!
