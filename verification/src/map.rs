//! The map: it owns the grid and keeps, for every unit it is told about, the
//! unit's cell and the cells the unit watches in step with the unit's position.

use crate::grid::{list_with, list_without, CellView, Grid, GridView};
use crate::unit::{CellRect, MapCell, Unit};
use crate::util::{div_ceil, div_ceil_spec, is_inside_rectangle};
use vstd::prelude::*;

verus! {

/// The side of a grid cell in world units.
pub const CELL_SIZE: u32 = 128;

/// The size of the map in world units and the layout of its tiles.
#[derive(Clone, Copy, Debug, PartialEq, Eq, Structural)]
pub struct MapCfg {
    pub width: u32,
    pub height: u32,
    pub tile_size: u32,
    pub tile_cols: u32,
    pub tile_rows: u32,
}

impl MapCfg {
    /// The settings describe a map with some extent and tiles with some extent.
    pub open spec fn wf(self) -> bool {
        self.width >= 1 && self.height >= 1 && self.tile_size >= 1
    }
}

/// The cell that the world position `(x, y)` falls into.
pub open spec fn cell_of(x: u32, y: u32) -> MapCell {
    MapCell { i: x / CELL_SIZE, j: y / CELL_SIZE }
}

/// The first cell index that the interval starting at `lo - range`, cut off at 0,
/// reaches.
pub open spec fn rect_lo(lo: u32, range: u32) -> u32 {
    (if lo >= range {
        (lo - range) / (CELL_SIZE as int)
    } else {
        0
    }) as u32
}

/// One past the last cell index that the interval ending at `hi + range`, cut off
/// at `limit`, reaches.
pub open spec fn rect_hi(hi: u32, range: u32, limit: u32) -> u32 {
    (if hi + range <= limit {
        div_ceil_spec(hi + range, CELL_SIZE as int)
    } else {
        div_ceil_spec(limit as int, CELL_SIZE as int)
    }) as u32
}

/// The cells that a unit at `(x, y)` with the given range watches on a map of the
/// given size: the cells that meet the square `[x - range, x + range] x
/// [y - range, y + range]` cut off at the map's borders.
pub open spec fn view_rect(cfg: MapCfg, x: u32, y: u32, range: u32) -> CellRect {
    CellRect {
        i1: rect_lo(x, range),
        i2: rect_hi(x, range, cfg.width),
        j1: rect_lo(y, range),
        j2: rect_hi(y, range, cfg.height),
    }
}

/// Whether a rectangle with cells in it lies inside a grid of the given size.
pub open spec fn rect_within(r: CellRect, cols: nat, rows: nat) -> bool {
    r.i1 < r.i2 && r.j1 < r.j2 ==> r.i2 <= cols && r.j2 <= rows
}

/// The grid after unit `id` has subscribed to the cells of `r` that are not in `e`.
pub open spec fn subscribed(g: GridView, id: u32, r: CellRect, e: CellRect) -> GridView {
    GridView {
        cells: Seq::new(
            g.cols,
            |i: int|
                Seq::new(
                    g.rows,
                    |j: int|
                        CellView {
                            units: g.units_at(i, j),
                            viewers: if r.covers(i, j) && !e.covers(i, j) {
                                list_with(g.viewers_at(i, j), id)
                            } else {
                                g.viewers_at(i, j)
                            },
                        },
                ),
        ),
        ..g
    }
}

/// The grid after unit `id` has given up the cells of `r` that are not in `e`.
pub open spec fn unsubscribed(g: GridView, id: u32, r: CellRect, e: CellRect) -> GridView {
    GridView {
        cells: Seq::new(
            g.cols,
            |i: int|
                Seq::new(
                    g.rows,
                    |j: int|
                        CellView {
                            units: g.units_at(i, j),
                            viewers: if r.covers(i, j) && !e.covers(i, j) {
                                list_without(g.viewers_at(i, j), id)
                            } else {
                                g.viewers_at(i, j)
                            },
                        },
                ),
        ),
        ..g
    }
}

/// The grid after unit `id` has exchanged its subscription to `from` for one to
/// `to`: it leaves the cells of `from` that `to` does not cover, enters the cells
/// of `to` that `from` did not cover, and stays untouched in the rest.
pub open spec fn resubscribed(g: GridView, id: u32, from: CellRect, to: CellRect) -> GridView {
    subscribed(unsubscribed(g, id, from, to), id, to, from)
}

/// Whether `(a, b)` comes before `(i, j)` when the cells are walked column by
/// column.
spec fn before(a: int, b: int, i: int, j: int) -> bool {
    a < i || (a == i && b < j)
}

/// `subscribed`, done only for the cells that come before `(i, j)`.
spec fn subscribed_upto(
    g: GridView,
    id: u32,
    r: CellRect,
    e: CellRect,
    i: int,
    j: int,
) -> GridView {
    GridView {
        cells: Seq::new(
            g.cols,
            |a: int|
                Seq::new(
                    g.rows,
                    |b: int|
                        CellView {
                            units: g.units_at(a, b),
                            viewers: if r.covers(a, b) && !e.covers(a, b) && before(a, b, i, j) {
                                list_with(g.viewers_at(a, b), id)
                            } else {
                                g.viewers_at(a, b)
                            },
                        },
                ),
        ),
        ..g
    }
}

/// `unsubscribed`, done only for the cells that come before `(i, j)`.
spec fn unsubscribed_upto(
    g: GridView,
    id: u32,
    r: CellRect,
    e: CellRect,
    i: int,
    j: int,
) -> GridView {
    GridView {
        cells: Seq::new(
            g.cols,
            |a: int|
                Seq::new(
                    g.rows,
                    |b: int|
                        CellView {
                            units: g.units_at(a, b),
                            viewers: if r.covers(a, b) && !e.covers(a, b) && before(a, b, i, j) {
                                list_without(g.viewers_at(a, b), id)
                            } else {
                                g.viewers_at(a, b)
                            },
                        },
                ),
        ),
        ..g
    }
}

/// The map as a value: its settings and its grid.
pub struct MapView {
    pub cfg: MapCfg,
    pub grid: GridView,
}

impl MapView {
    /// The grid is well formed and just covers the map.
    pub open spec fn wf(self) -> bool {
        &&& self.cfg.wf()
        &&& self.grid.wf()
        &&& self.grid.cols == div_ceil_spec(self.cfg.width as int, CELL_SIZE as int)
        &&& self.grid.rows == div_ceil_spec(self.cfg.height as int, CELL_SIZE as int)
    }

    /// Whether the world position `(x, y)` falls into a cell of the grid.
    pub open spec fn covers(self, x: u32, y: u32) -> bool {
        self.grid.has(cell_of(x, y).i as int, cell_of(x, y).j as int)
    }

    /// Whether what `u` has cached, its cell and the rectangle it watches, lies
    /// inside the grid.
    pub open spec fn fits(self, u: Unit) -> bool {
        &&& self.grid.has(u.map_cell().i as int, u.map_cell().j as int)
        &&& rect_within(u.watched(), self.grid.cols, self.grid.rows)
    }

    /// Whether `u` stands in the cell it has cached.
    pub open spec fn files(self, u: Unit) -> bool {
        self.grid.units_at(u.map_cell().i as int, u.map_cell().j as int).contains(u.id())
    }

    /// The rectangle that `u` watches from where it stands; empty if it does not
    /// see.
    pub open spec fn sight(self, u: Unit) -> CellRect {
        match u.view() {
            Some(v) => view_rect(self.cfg, u.position().0, u.position().1, v.range),
            None => CellRect::empty(),
        }
    }

    /// The unit `u` as the map leaves it when it files it where it stands.
    pub open spec fn placed(self, u: Unit) -> Unit {
        u.filed(cell_of(u.position().0, u.position().1)).watching(self.sight(u))
    }

    /// The map after `u` has been added where it stands.
    pub open spec fn added(self, u: Unit) -> MapView {
        let c = cell_of(u.position().0, u.position().1);
        MapView {
            grid: subscribed(
                self.grid.with_unit(c.i as int, c.j as int, u.id()),
                u.id(),
                self.sight(u),
                CellRect::empty(),
            ),
            ..self
        }
    }

    /// The map after `u` has been removed from its cached cell and from the cells
    /// it watches.
    pub open spec fn removed(self, u: Unit) -> MapView {
        MapView {
            grid: unsubscribed(
                self.grid.without_unit(u.map_cell().i as int, u.map_cell().j as int, u.id()),
                u.id(),
                u.watched(),
                CellRect::empty(),
            ),
            ..self
        }
    }

    /// The map after `u`, which has left its cached cell, has been filed where
    /// it stands now.
    pub open spec fn refiled(self, u: Unit) -> MapView {
        let c = cell_of(u.position().0, u.position().1);
        MapView {
            grid: resubscribed(
                self.grid.moved(
                    u.map_cell().i as int,
                    u.map_cell().j as int,
                    c.i as int,
                    c.j as int,
                    u.id(),
                ),
                u.id(),
                u.watched(),
                if u.view() is Some {
                    self.sight(u)
                } else {
                    u.watched()
                },
            ),
            ..self
        }
    }
}

/// The map: settings and grid.
pub struct SceneMap {
    cfg: MapCfg,
    grid: Grid,
}

impl View for SceneMap {
    type V = MapView;

    closed spec fn view(&self) -> MapView {
        MapView { cfg: self.cfg, grid: self.grid@ }
    }
}

impl SceneMap {
    /// The grid is well formed and just covers the map.
    pub closed spec fn wf(&self) -> bool {
        self.grid.wf() && self@.wf()
    }

    /// A map that is well formed has a well-formed value.
    pub proof fn lemma_wf(&self)
        requires
            self.wf(),
        ensures
            self@.wf(),
    {
    }

    /// An empty map of the size that `cfg` gives, cut into cells of `CELL_SIZE`.
    pub fn new(cfg: MapCfg) -> (m: SceneMap)
        requires
            cfg.wf(),
        ensures
            m.wf(),
            m@.cfg == cfg,
            m@.grid == GridView::empty(
                div_ceil_spec(cfg.width as int, CELL_SIZE as int) as nat,
                div_ceil_spec(cfg.height as int, CELL_SIZE as int) as nat,
            ),
    {
        let rows: u32 = div_ceil(cfg.height, CELL_SIZE);
        let cols: u32 = div_ceil(cfg.width, CELL_SIZE);
        let grid = Grid::new(rows, cols);
        proof {
            grid.lemma_wf();
        }
        SceneMap { cfg, grid }
    }

    /// The map's width and height in world units.
    pub fn size(&self) -> (s: (u32, u32))
        ensures
            s == (self@.cfg.width, self@.cfg.height),
    {
        (self.cfg.width, self.cfg.height)
    }

    /// The map's settings.
    pub fn cfg(&self) -> (c: MapCfg)
        ensures
            c == self@.cfg,
    {
        self.cfg
    }

    /// The number of columns and of rows of the grid.
    pub fn dims(&self) -> (d: (u32, u32))
        ensures
            d.0 == self@.grid.cols,
            d.1 == self@.grid.rows,
    {
        (self.grid.cols(), self.grid.rows())
    }

    /// The cells that a unit at `(x, y)` with the given range watches.
    pub fn view_rect(&self, x: u32, y: u32, range: u32) -> (r: CellRect)
        requires
            self.wf(),
        ensures
            r == view_rect(self@.cfg, x, y, range),
            r.i2 <= self@.grid.cols,
            r.j2 <= self@.grid.rows,
    {
        let x1: u32 = x.saturating_sub(range);
        let x2: u32 = x.saturating_add(range).min(self.cfg.width);
        let y1: u32 = y.saturating_sub(range);
        let y2: u32 = y.saturating_add(range).min(self.cfg.height);
        let i1: u32 = x1 / CELL_SIZE;
        let i2: u32 = div_ceil(x2, CELL_SIZE);
        let j1: u32 = y1 / CELL_SIZE;
        let j2: u32 = div_ceil(y2, CELL_SIZE);
        CellRect { i1, i2, j1, j2 }
    }

    /// Subscribes unit `id` to the cells of `r` that are not in `e`.
    fn subscribe(&mut self, id: u32, r: CellRect, e: CellRect)
        requires
            old(self).wf(),
            rect_within(r, old(self)@.grid.cols, old(self)@.grid.rows),
        ensures
            final(self).wf(),
            final(self)@ == (MapView { grid: subscribed(old(self)@.grid, id, r, e), ..old(self)@ }),
    {
        let ghost g0 = self.grid@;
        proof {
            self.grid.lemma_wf();
            assert(g0.cells =~~= subscribed_upto(g0, id, r, e, r.i1 as int, r.j1 as int).cells);
        }
        let mut i: u32 = r.i1;
        while i < r.i2
            invariant
                r.i1 <= i,
                self.grid.wf(),
                g0.wf(),
                self.cfg == old(self).cfg,
                rect_within(r, g0.cols, g0.rows),
                self.grid@ == subscribed_upto(g0, id, r, e, i as int, r.j1 as int),
            decreases r.i2 - i,
        {
            let mut j: u32 = r.j1;
            while j < r.j2
                invariant
                    r.i1 <= i < r.i2,
                    r.j1 <= j,
                    self.grid.wf(),
                    g0.wf(),
                    self.cfg == old(self).cfg,
                    rect_within(r, g0.cols, g0.rows),
                    self.grid@ == subscribed_upto(g0, id, r, e, i as int, j as int),
                decreases r.j2 - j,
            {
                if !is_inside_rectangle(e.i1, e.i2, e.j1, e.j2, i, j) {
                    self.grid.add_viewer(i, j, id);
                }
                proof {
                    assert(self.grid@.cells =~~= subscribed_upto(
                        g0,
                        id,
                        r,
                        e,
                        i as int,
                        j + 1,
                    ).cells);
                }
                j += 1;
            }
            proof {
                assert(self.grid@.cells =~~= subscribed_upto(
                    g0,
                    id,
                    r,
                    e,
                    i + 1,
                    r.j1 as int,
                ).cells);
            }
            i += 1;
        }
        proof {
            assert(self.grid@.cells =~~= subscribed(g0, id, r, e).cells);
        }
    }

    /// Ends the subscription of unit `id` to the cells of `r` that are not in `e`.
    fn unsubscribe(&mut self, id: u32, r: CellRect, e: CellRect)
        requires
            old(self).wf(),
            rect_within(r, old(self)@.grid.cols, old(self)@.grid.rows),
        ensures
            final(self).wf(),
            final(self)@ == (MapView { grid: unsubscribed(old(self)@.grid, id, r, e), ..old(self)@ }),
    {
        let ghost g0 = self.grid@;
        proof {
            self.grid.lemma_wf();
            assert(g0.cells =~~= unsubscribed_upto(g0, id, r, e, r.i1 as int, r.j1 as int).cells);
        }
        let mut i: u32 = r.i1;
        while i < r.i2
            invariant
                r.i1 <= i,
                self.grid.wf(),
                g0.wf(),
                self.cfg == old(self).cfg,
                rect_within(r, g0.cols, g0.rows),
                self.grid@ == unsubscribed_upto(g0, id, r, e, i as int, r.j1 as int),
            decreases r.i2 - i,
        {
            let mut j: u32 = r.j1;
            while j < r.j2
                invariant
                    r.i1 <= i < r.i2,
                    r.j1 <= j,
                    self.grid.wf(),
                    g0.wf(),
                    self.cfg == old(self).cfg,
                    rect_within(r, g0.cols, g0.rows),
                    self.grid@ == unsubscribed_upto(g0, id, r, e, i as int, j as int),
                decreases r.j2 - j,
            {
                if !is_inside_rectangle(e.i1, e.i2, e.j1, e.j2, i, j) {
                    self.grid.remove_viewer(i, j, id);
                }
                proof {
                    assert(self.grid@.cells =~~= unsubscribed_upto(
                        g0,
                        id,
                        r,
                        e,
                        i as int,
                        j + 1,
                    ).cells);
                }
                j += 1;
            }
            proof {
                assert(self.grid@.cells =~~= unsubscribed_upto(
                    g0,
                    id,
                    r,
                    e,
                    i + 1,
                    r.j1 as int,
                ).cells);
            }
            i += 1;
        }
        proof {
            assert(self.grid@.cells =~~= unsubscribed(g0, id, r, e).cells);
        }
    }

    /// Files `unit` under the cell it stands in and, if it sees, subscribes it to
    /// the cells it watches from there. The unit takes note of both.
    pub fn add(&mut self, unit: &mut Unit)
        requires
            old(self).wf(),
            old(self)@.covers(old(unit).position().0, old(unit).position().1),
        ensures
            final(self).wf(),
            final(self)@ == old(self)@.added(*old(unit)),
            *final(unit) == old(self)@.placed(*old(unit)),
    {
        let (x, y) = unit.position();
        let i: u32 = x / CELL_SIZE;
        let j: u32 = y / CELL_SIZE;
        self.grid.add(i, j, unit.id());
        unit.set_map_cell(i, j);
        match unit.view() {
            Some(v) => {
                let r = self.view_rect(x, y, v.range);
                self.subscribe(unit.id(), r, CellRect { i1: 0, i2: 0, j1: 0, j2: 0 });
                unit.set_watched(r.i1, r.i2, r.j1, r.j2);
            },
            None => {
                proof {
                    self.grid.lemma_wf();
                    assert(self.grid@.cells =~~= subscribed(
                        self.grid@,
                        unit.id(),
                        CellRect::empty(),
                        CellRect::empty(),
                    ).cells);
                }
            },
        }
    }

    /// Takes `unit` out of the cell it is filed under and ends its subscriptions.
    /// A unit that the map does not hold leaves the map as it is.
    pub fn remove(&mut self, unit: &Unit)
        requires
            old(self).wf(),
            old(self)@.fits(*unit),
        ensures
            final(self).wf(),
            final(self)@ == old(self)@.removed(*unit),
    {
        let (i, j) = unit.map_cell().get();
        self.grid.remove(i, j, unit.id());
        match unit.view() {
            Some(v) => {
                self.unsubscribe(unit.id(), v.current, CellRect { i1: 0, i2: 0, j1: 0, j2: 0 });
            },
            None => {
                proof {
                    self.grid.lemma_wf();
                    assert(self.grid@.cells =~~= unsubscribed(
                        self.grid@,
                        unit.id(),
                        CellRect::empty(),
                        CellRect::empty(),
                    ).cells);
                }
            },
        }
    }

    /// Tells the map that `unit` has moved. While the unit stays in its cell
    /// nothing happens at all. Once it has left it, the map files it under the
    /// new cell and, if the unit sees and the cells it watches have changed,
    /// exchanges its subscriptions: it leaves the cells it watches no longer and
    /// enters those it did not watch before.
    pub fn unit_moved(&mut self, unit: &mut Unit)
        requires
            old(self).wf(),
            old(self)@.covers(old(unit).position().0, old(unit).position().1),
            old(self)@.fits(*old(unit)),
            old(self)@.files(*old(unit)),
        ensures
            final(self).wf(),
            cell_of(old(unit).position().0, old(unit).position().1) == old(unit).map_cell() ==> {
                &&& final(self)@ == old(self)@
                &&& *final(unit) == *old(unit)
            },
            cell_of(old(unit).position().0, old(unit).position().1) != old(unit).map_cell() ==> {
                &&& final(self)@ == old(self)@.refiled(*old(unit))
                &&& *final(unit) == old(self)@.placed(*old(unit))
            },
    {
        let (x, y) = unit.position();
        let i: u32 = x / CELL_SIZE;
        let j: u32 = y / CELL_SIZE;
        let (li, lj) = unit.map_cell().get();
        if li == i && lj == j {
            return ;
        }
        self.grid.unit_moved(li, lj, i, j, unit.id());
        unit.set_map_cell(i, j);
        match unit.view() {
            Some(v) => {
                let r = self.view_rect(x, y, v.range);
                let (a1, a2, b1, b2) = v.current();
                if a1 == r.i1 && a2 == r.i2 && b1 == r.j1 && b2 == r.j2 {
                    proof {
                        self.grid.lemma_wf();
                        assert(self.grid@.cells =~~= resubscribed(
                            self.grid@,
                            unit.id(),
                            r,
                            r,
                        ).cells);
                    }
                    return ;
                }
                self.unsubscribe(unit.id(), v.current, r);
                self.subscribe(unit.id(), r, v.current);
                unit.set_watched(r.i1, r.i2, r.j1, r.j2);
            },
            None => {
                proof {
                    self.grid.lemma_wf();
                    assert(self.grid@.cells =~~= resubscribed(
                        self.grid@,
                        unit.id(),
                        CellRect::empty(),
                        CellRect::empty(),
                    ).cells);
                }
            },
        }
    }

    /// The ids of the units that stand in the cell `unit` is filed under, oldest
    /// first: the candidates for anything that happens at close range.
    pub fn for_each(&self, unit: &Unit) -> (ids: Vec<u32>)
        requires
            self.wf(),
            self@.grid.has(unit.map_cell().i as int, unit.map_cell().j as int),
        ensures
            ids@ == self@.grid.units_at(unit.map_cell().i as int, unit.map_cell().j as int),
    {
        let (i, j) = unit.map_cell().get();
        self.grid.for_each(i, j)
    }

    /// The ids of the units that watch cell `(i, j)`, oldest first.
    pub fn viewers(&self, i: u32, j: u32) -> (ids: Vec<u32>)
        requires
            self.wf(),
            self@.grid.has(i as int, j as int),
        ensures
            ids@ == self@.grid.viewers_at(i as int, j as int),
    {
        self.grid.viewers(i, j)
    }

    /// The ids of the units that stand in cell `(i, j)`, oldest first.
    pub fn units(&self, i: u32, j: u32) -> (ids: Vec<u32>)
        requires
            self.wf(),
            self@.grid.has(i as int, j as int),
        ensures
            ids@ == self@.grid.units_at(i as int, j as int),
    {
        self.grid.for_each(i, j)
    }
}

} // verus!
