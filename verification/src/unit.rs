//! The units that stand on the map: tanks, which watch their surroundings, and
//! bullets, which fly. A unit carries, besides its position, the cell that the
//! map last filed it under and, if it can see, the rectangle of cells it is
//! subscribed to.

use vstd::prelude::*;

verus! {

/// The grid cell a unit is filed under: column `i` along x, row `j` along y.
///
/// This is a cached key. The grid decides where a unit is; the map keeps this
/// value in step with it.
#[derive(Clone, Copy, Debug, PartialEq, Eq, Structural)]
pub struct MapCell {
    pub i: u32,
    pub j: u32,
}

impl MapCell {
    /// The cell `(0, 0)`, which a unit holds before it is placed.
    pub fn new() -> (c: MapCell)
        ensures
            c == (MapCell { i: 0, j: 0 }),
    {
        MapCell { i: 0, j: 0 }
    }

    /// The cached coordinate as `(i, j)`.
    pub fn get(&self) -> (c: (u32, u32))
        ensures
            c == (self.i, self.j),
    {
        (self.i, self.j)
    }

    /// Records a new coordinate.
    pub fn set(&mut self, i: u32, j: u32)
        ensures
            *final(self) == (MapCell { i, j }),
    {
        self.i = i;
        self.j = j;
    }
}

/// A half-open rectangle of cells, `[i1, i2) x [j1, j2)`.
#[derive(Clone, Copy, Debug, PartialEq, Eq, Structural)]
pub struct CellRect {
    pub i1: u32,
    pub i2: u32,
    pub j1: u32,
    pub j2: u32,
}

impl CellRect {
    /// Whether cell `(i, j)` lies in the rectangle.
    pub open spec fn covers(self, i: int, j: int) -> bool {
        crate::util::inside_rectangle(
            self.i1 as int,
            self.i2 as int,
            self.j1 as int,
            self.j2 as int,
            i,
            j,
        )
    }

    /// The rectangle without cells.
    pub open spec fn empty() -> CellRect {
        CellRect { i1: 0, i2: 0, j1: 0, j2: 0 }
    }
}

/// What a unit sees: a fixed range in world units and the rectangle of cells it
/// is currently subscribed to.
#[derive(Clone, Copy, Debug, PartialEq, Eq, Structural)]
pub struct View {
    pub range: u32,
    pub current: CellRect,
}

impl View {
    /// A view of the given range that is subscribed to no cell yet.
    pub fn new(range: u32) -> (v: View)
        ensures
            v == (View { range, current: CellRect::empty() }),
    {
        View { range, current: CellRect { i1: 0, i2: 0, j1: 0, j2: 0 } }
    }

    /// The subscribed rectangle as `(i1, i2, j1, j2)`.
    pub fn current(&self) -> (r: (u32, u32, u32, u32))
        ensures
            r == (self.current.i1, self.current.i2, self.current.j1, self.current.j2),
    {
        (self.current.i1, self.current.i2, self.current.j1, self.current.j2)
    }

    /// Records a new subscribed rectangle. The grid is not touched: whoever calls
    /// this answers for the subscriptions themselves.
    pub fn current_update(&mut self, i1: u32, i2: u32, j1: u32, j2: u32)
        ensures
            *final(self) == (View { range: old(self).range, current: CellRect { i1, i2, j1, j2 } }),
    {
        self.current = CellRect { i1, i2, j1, j2 };
    }
}

/// Settings shared by all bullets.
#[derive(Clone, Copy, Debug, PartialEq, Eq, Structural)]
pub struct BulletCfg {
    pub speed: u32,
}

impl BulletCfg {
    /// Settings for bullets that fly `speed` world units per second.
    pub fn new(speed: u32) -> (c: BulletCfg)
        requires
            speed >= 1,
        ensures
            c == (BulletCfg { speed }),
    {
        BulletCfg { speed }
    }
}

/// A tank: it stands at a position and watches the cells within its range.
#[derive(Clone, Copy, Debug, PartialEq, Eq, Structural)]
pub struct Tank {
    pub id: u32,
    pub x: u32,
    pub y: u32,
    pub view: View,
    pub map_cell: MapCell,
    pub destroyed: bool,
}

impl Tank {
    /// A tank at `(x, y)` that sees `range` world units far and is not placed on a
    /// map yet.
    pub fn new(id: u32, x: u32, y: u32, range: u32) -> (t: Tank)
        ensures
            t == (Tank {
                id,
                x,
                y,
                view: View { range, current: CellRect::empty() },
                map_cell: MapCell { i: 0, j: 0 },
                destroyed: false,
            }),
    {
        Tank { id, x, y, view: View::new(range), map_cell: MapCell::new(), destroyed: false }
    }
}

/// A bullet: fired from `(x0, y0)` by the tank `tank`, now at `(x, y)`.
#[derive(Clone, Copy, Debug, PartialEq, Eq, Structural)]
pub struct Bullet {
    pub id: u32,
    pub x0: u32,
    pub y0: u32,
    pub x: u32,
    pub y: u32,
    pub cfg: BulletCfg,
    pub tank: u32,
    pub map_cell: MapCell,
    pub destroyed: bool,
}

impl Bullet {
    /// A bullet that the tank `tank` fires from `(x, y)`. It starts where it was
    /// fired, alive and not placed on a map yet.
    pub fn new(id: u32, x: u32, y: u32, cfg: BulletCfg, tank: u32) -> (b: Bullet)
        ensures
            b == (Bullet {
                id,
                x0: x,
                y0: y,
                x,
                y,
                cfg,
                tank,
                map_cell: MapCell { i: 0, j: 0 },
                destroyed: false,
            }),
    {
        Bullet { id, x0: x, y0: y, x, y, cfg, tank, map_cell: MapCell::new(), destroyed: false }
    }
}

/// Anything that can stand on the map.
#[derive(Clone, Copy, Debug, PartialEq, Eq, Structural)]
pub enum Unit {
    Tank(Tank),
    Bullet(Bullet),
}

impl Unit {
    /// The unit's id.
    pub open spec fn spec_id(&self) -> u32 {
        match *self {
            Unit::Tank(t) => t.id,
            Unit::Bullet(b) => b.id,
        }
    }

    /// The unit's position in world units.
    pub open spec fn spec_position(&self) -> (u32, u32) {
        match *self {
            Unit::Tank(t) => (t.x, t.y),
            Unit::Bullet(b) => (b.x, b.y),
        }
    }

    /// The unit's view, if it sees at all.
    pub open spec fn spec_view(&self) -> Option<View> {
        match *self {
            Unit::Tank(t) => Some(t.view),
            Unit::Bullet(_) => None,
        }
    }

    /// The cell the unit is filed under.
    pub open spec fn spec_map_cell(&self) -> MapCell {
        match *self {
            Unit::Tank(t) => t.map_cell,
            Unit::Bullet(b) => b.map_cell,
        }
    }

    /// Whether the unit has been destroyed.
    pub open spec fn spec_is_destroyed(&self) -> bool {
        match *self {
            Unit::Tank(t) => t.destroyed,
            Unit::Bullet(b) => b.destroyed,
        }
    }

    /// The side the unit fights on: a tank is its own side, a bullet belongs to
    /// the tank that fired it.
    pub open spec fn spec_side(&self) -> u32 {
        match *self {
            Unit::Tank(t) => t.id,
            Unit::Bullet(b) => b.tank,
        }
    }

    /// Whether `bullet` may destroy this unit: never itself, and never a unit of
    /// its own side.
    pub open spec fn spec_can_be_destroyed(&self, bullet: &Bullet) -> bool {
        self.spec_id() != bullet.id && self.spec_side() != bullet.tank
    }

    /// The rectangle of cells the unit is subscribed to; empty for a unit that
    /// does not see.
    pub open spec fn watched(&self) -> CellRect {
        match self.spec_view() {
            Some(v) => v.current,
            None => CellRect::empty(),
        }
    }

    /// The unit's id, unique among all units of a scene.
    #[verifier::when_used_as_spec(spec_id)]
    pub fn id(&self) -> (id: u32)
        ensures
            id == self.spec_id(),
    {
        match self {
            Unit::Tank(t) => t.id,
            Unit::Bullet(b) => b.id,
        }
    }

    /// The unit's position in world units.
    #[verifier::when_used_as_spec(spec_position)]
    pub fn position(&self) -> (p: (u32, u32))
        ensures
            p == self.spec_position(),
    {
        match self {
            Unit::Tank(t) => (t.x, t.y),
            Unit::Bullet(b) => (b.x, b.y),
        }
    }

    /// The unit's view, if it sees at all: a tank does, a bullet does not.
    #[verifier::when_used_as_spec(spec_view)]
    pub fn view(&self) -> (v: Option<View>)
        ensures
            v == self.spec_view(),
    {
        match self {
            Unit::Tank(t) => Some(t.view),
            Unit::Bullet(_) => None,
        }
    }

    /// The cell the unit is filed under.
    #[verifier::when_used_as_spec(spec_map_cell)]
    pub fn map_cell(&self) -> (c: MapCell)
        ensures
            c == self.spec_map_cell(),
    {
        match self {
            Unit::Tank(t) => t.map_cell,
            Unit::Bullet(b) => b.map_cell,
        }
    }

    /// Whether the unit has been destroyed.
    #[verifier::when_used_as_spec(spec_is_destroyed)]
    pub fn is_destroyed(&self) -> (d: bool)
        ensures
            d == self.spec_is_destroyed(),
    {
        match self {
            Unit::Tank(t) => t.destroyed,
            Unit::Bullet(b) => b.destroyed,
        }
    }

    /// The side the unit fights on: a tank is its own side, a bullet belongs to
    /// the tank that fired it.
    #[verifier::when_used_as_spec(spec_side)]
    pub fn side(&self) -> (s: u32)
        ensures
            s == self.spec_side(),
    {
        match self {
            Unit::Tank(t) => t.id,
            Unit::Bullet(b) => b.tank,
        }
    }

    /// What kind of unit this is, in a word.
    pub fn name(&self) -> (s: &'static str)
        ensures
            s == if *self is Tank {
                "tank"
            } else {
                "bullet"
            },
    {
        match self {
            Unit::Tank(_) => "tank",
            Unit::Bullet(_) => "bullet",
        }
    }

    /// Whether `bullet` may destroy this unit: never itself, and never a unit of
    /// its own side.
    #[verifier::when_used_as_spec(spec_can_be_destroyed)]
    pub fn can_be_destroyed(&self, bullet: &Bullet) -> (b: bool)
        ensures
            b == self.spec_can_be_destroyed(bullet),
    {
        self.id() != bullet.id && self.side() != bullet.tank
    }

    /// The same unit at another position.
    pub open spec fn at(self, x: u32, y: u32) -> Unit {
        match self {
            Unit::Tank(t) => Unit::Tank(Tank { x, y, ..t }),
            Unit::Bullet(b) => Unit::Bullet(Bullet { x, y, ..b }),
        }
    }

    /// The same unit filed under another cell.
    pub open spec fn filed(self, c: MapCell) -> Unit {
        match self {
            Unit::Tank(t) => Unit::Tank(Tank { map_cell: c, ..t }),
            Unit::Bullet(b) => Unit::Bullet(Bullet { map_cell: c, ..b }),
        }
    }

    /// The same unit subscribed to another rectangle; a unit that does not see
    /// stays as it is.
    pub open spec fn watching(self, r: CellRect) -> Unit {
        match self {
            Unit::Tank(t) => Unit::Tank(Tank { view: View { range: t.view.range, current: r }, ..t }),
            Unit::Bullet(b) => Unit::Bullet(b),
        }
    }

    /// The same unit, destroyed.
    pub open spec fn wrecked(self) -> Unit {
        match self {
            Unit::Tank(t) => Unit::Tank(Tank { destroyed: true, ..t }),
            Unit::Bullet(b) => Unit::Bullet(Bullet { destroyed: true, ..b }),
        }
    }

    /// Moves the unit to `(x, y)`. The map learns of it through `Map::unit_moved`.
    pub fn set_position(&mut self, x: u32, y: u32)
        ensures
            *final(self) == old(self).at(x, y),
    {
        let moved: Unit = match *self {
            Unit::Tank(t) => Unit::Tank(Tank { x, y, ..t }),
            Unit::Bullet(b) => Unit::Bullet(Bullet { x, y, ..b }),
        };
        *self = moved;
    }

    /// Files the unit under cell `(i, j)`.
    pub fn set_map_cell(&mut self, i: u32, j: u32)
        ensures
            *final(self) == old(self).filed(MapCell { i, j }),
    {
        let c = MapCell { i, j };
        let filed: Unit = match *self {
            Unit::Tank(t) => Unit::Tank(Tank { map_cell: c, ..t }),
            Unit::Bullet(b) => Unit::Bullet(Bullet { map_cell: c, ..b }),
        };
        *self = filed;
    }

    /// Records the rectangle the unit is subscribed to, if it sees at all.
    pub fn set_watched(&mut self, i1: u32, i2: u32, j1: u32, j2: u32)
        ensures
            *final(self) == old(self).watching(CellRect { i1, i2, j1, j2 }),
    {
        let watching: Unit = match *self {
            Unit::Tank(t) => {
                let mut v = t.view;
                v.current_update(i1, i2, j1, j2);
                Unit::Tank(Tank { view: v, ..t })
            },
            Unit::Bullet(b) => Unit::Bullet(b),
        };
        *self = watching;
    }

    /// Marks the unit as destroyed. Marking it again changes nothing.
    pub fn destroy(&mut self)
        ensures
            *final(self) == old(self).wrecked(),
    {
        let wrecked: Unit = match *self {
            Unit::Tank(t) => Unit::Tank(Tank { destroyed: true, ..t }),
            Unit::Bullet(b) => Unit::Bullet(Bullet { destroyed: true, ..b }),
        };
        *self = wrecked;
    }
}

} // verus!
