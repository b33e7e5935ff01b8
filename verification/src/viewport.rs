//! What a player sees: the cells and tiles that the view meets, where things lie
//! as seen from its corner, and which units are to be drawn.

use crate::grid::GridView;
use crate::map::{SceneMap, CELL_SIZE};
use crate::unit::CellRect;
use crate::util::div_ceil_spec;
use vstd::prelude::*;

verus! {

/// The part of the world a player looks at, in world units.
#[derive(Clone, Copy, Debug, PartialEq, Eq, Structural)]
pub struct PlayerView {
    pub x: u32,
    pub y: u32,
    pub width: u32,
    pub height: u32,
}

/// One past the last index of the pieces of length `size` that the interval of
/// length `len` from `start` reaches, but no more than `limit`.
pub open spec fn span_hi(start: u32, len: u32, size: u32, limit: u32) -> u32 {
    let n = div_ceil_spec(start + len, size as int);
    (if n <= limit {
        n
    } else {
        limit as int
    }) as u32
}

/// The rectangle of pieces of side `size` that `view` meets, in a layout of
/// `cols` by `rows` pieces.
pub open spec fn visible(view: PlayerView, size: u32, cols: u32, rows: u32) -> CellRect {
    CellRect {
        i1: view.x / size,
        i2: span_hi(view.x, view.width, size, cols),
        j1: view.y / size,
        j2: span_hi(view.y, view.height, size, rows),
    }
}

/// The ids of the units that stand in the cells `(i, j1), .., (i, j2 - 1)`, cell
/// after cell.
pub open spec fn column_units(g: GridView, i: int, j1: int, j2: int) -> Seq<u32>
    decreases j2 - j1,
{
    if j1 >= j2 {
        Seq::empty()
    } else {
        column_units(g, i, j1, j2 - 1) + g.units_at(i, j2 - 1)
    }
}

/// The ids of the units that stand in the cells of `[i1, i2) x [j1, j2)`, column
/// after column.
pub open spec fn rect_units(g: GridView, i1: int, i2: int, j1: int, j2: int) -> Seq<u32>
    decreases i2 - i1,
{
    if i1 >= i2 {
        Seq::empty()
    } else {
        rect_units(g, i1, i2 - 1, j1, j2) + column_units(g, i2 - 1, j1, j2)
    }
}

/// Computes `span_hi`.
fn span_end(start: u32, len: u32, size: u32, limit: u32) -> (n: u32)
    requires
        size >= 1,
    ensures
        n == span_hi(start, len, size, limit),
{
    let end: u64 = start as u64 + len as u64;
    let n: u64 = (end + (size as u64 - 1)) / size as u64;
    if n <= limit as u64 {
        n as u32
    } else {
        limit
    }
}

impl PlayerView {
    /// Where the world position `(x, y)` lies as seen from the view's corner.
    pub fn offset(&self, x: u32, y: u32) -> (d: (i64, i64))
        ensures
            d.0 == x - self.x,
            d.1 == y - self.y,
    {
        (x as i64 - self.x as i64, y as i64 - self.y as i64)
    }
}

impl SceneMap {
    /// The rectangle of grid cells that `view` meets.
    pub fn visible_cells(&self, view: &PlayerView) -> (r: CellRect)
        ensures
            r == visible(*view, CELL_SIZE, self@.grid.cols as u32, self@.grid.rows as u32),
    {
        CellRect {
            i1: view.x / CELL_SIZE,
            i2: span_end(view.x, view.width, CELL_SIZE, self.dims().0),
            j1: view.y / CELL_SIZE,
            j2: span_end(view.y, view.height, CELL_SIZE, self.dims().1),
        }
    }

    /// The rectangle of tiles that `view` meets.
    pub fn visible_tiles(&self, view: &PlayerView) -> (r: CellRect)
        requires
            self.wf(),
        ensures
            r == visible(*view, self@.cfg.tile_size, self@.cfg.tile_cols, self@.cfg.tile_rows),
    {
        proof {
            self.lemma_wf();
        }
        let size: u32 = self.cfg().tile_size;
        CellRect {
            i1: view.x / size,
            i2: span_end(view.x, view.width, size, self.cfg().tile_cols),
            j1: view.y / size,
            j2: span_end(view.y, view.height, size, self.cfg().tile_rows),
        }
    }

    /// Where tile `(i, j)` is to be drawn as seen from the corner of `view`.
    pub fn tile_offset(&self, view: &PlayerView, i: u32, j: u32) -> (d: (i64, i64))
        requires
            i * self@.cfg.tile_size <= u32::MAX,
            j * self@.cfg.tile_size <= u32::MAX,
        ensures
            d.0 == i * self@.cfg.tile_size - view.x,
            d.1 == j * self@.cfg.tile_size - view.y,
    {
        let size: u32 = self.cfg().tile_size;
        ((i * size) as i64 - view.x as i64, (j * size) as i64 - view.y as i64)
    }

    /// The ids of the units to draw for `view`: those that stand in the grid
    /// cells that `view` meets, column after column and cell after cell.
    pub fn draw(&self, view: &PlayerView) -> (ids: Vec<u32>)
        requires
            self.wf(),
        ensures
            ids@ == ({
                let r = visible(*view, CELL_SIZE, self@.grid.cols as u32, self@.grid.rows as u32);
                rect_units(self@.grid, r.i1 as int, r.i2 as int, r.j1 as int, r.j2 as int)
            }),
    {
        let r = self.visible_cells(view);
        let mut ids: Vec<u32> = Vec::new();
        let mut i: u32 = r.i1;
        while i < r.i2
            invariant
                r.i1 <= i,
                i <= r.i2 || i == r.i1,
                self.wf(),
                r.i2 <= self@.grid.cols,
                r.j2 <= self@.grid.rows,
                ids@ == rect_units(self@.grid, r.i1 as int, i as int, r.j1 as int, r.j2 as int),
            decreases r.i2 - i,
        {
            let ghost before = ids@;
            let mut j: u32 = r.j1;
            while j < r.j2
                invariant
                    r.i1 <= i < r.i2,
                    r.j1 <= j,
                    j <= r.j2 || j == r.j1,
                    self.wf(),
                    r.i2 <= self@.grid.cols,
                    r.j2 <= self@.grid.rows,
                    ids@ == before + column_units(self@.grid, i as int, r.j1 as int, j as int),
                decreases r.j2 - j,
            {
                let mut cell = self.units(i, j);
                ids.append(&mut cell);
                proof {
                    assert(ids@ =~= before + column_units(
                        self@.grid,
                        i as int,
                        r.j1 as int,
                        j + 1,
                    ));
                }
                j += 1;
            }
            proof {
                lemma_column_units_empty(self@.grid, i as int, r.j1 as int, j as int, r.j2 as int);
            }
            i += 1;
        }
        proof {
            lemma_rect_units_empty(
                self@.grid,
                r.i1 as int,
                i as int,
                r.i2 as int,
                r.j1 as int,
                r.j2 as int,
            );
        }
        ids
    }
}

/// A column walked from `j1` to anything at or below `j1` holds no cell.
proof fn lemma_column_units_empty(g: GridView, i: int, j1: int, j: int, j2: int)
    requires
        j == j2 || (j1 >= j2 && j == j1),
    ensures
        column_units(g, i, j1, j) == column_units(g, i, j1, j2),
{
}

/// A rectangle walked from `i1` to anything at or below `i1` holds no cell.
proof fn lemma_rect_units_empty(g: GridView, i1: int, i: int, i2: int, j1: int, j2: int)
    requires
        i == i2 || (i1 >= i2 && i == i1),
    ensures
        rect_units(g, i1, i, j1, j2) == rect_units(g, i1, i2, j1, j2),
{
}

} // verus!
