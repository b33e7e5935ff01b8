//! The scene: the map together with the record of every unit that has been
//! spawned. A unit that is destroyed leaves the map at once; its record stays,
//! marked, until it is forgotten.

use crate::map::{cell_of, MapCfg, MapView, SceneMap, CELL_SIZE};
use crate::map_laws::{lemma_added, lemma_refiled, lemma_removed};
use crate::unit::{Bullet, Unit};
use crate::util::div_ceil_spec;
use std::collections::HashMap;
use vstd::prelude::*;

verus! {

/// The scene as a value: the map and the units by id.
pub struct SceneView {
    pub map: MapView,
    pub units: Map<u32, Unit>,
}

impl SceneView {
    /// Whether unit `id` is known and not destroyed.
    pub open spec fn live(self, id: u32) -> bool {
        self.units.contains_key(id) && !self.units[id].is_destroyed()
    }

    /// Whether map and records agree about unit `id`. A live unit is recorded
    /// under its own id, its cached cell is the cell of its position, and the
    /// map lists it in just that cell and as a viewer of just the cells it has
    /// recorded. Any other id is listed nowhere on the map.
    pub open spec fn settled(self, id: u32) -> bool {
        &&& self.units.contains_key(id) ==> self.units[id].id() == id
        &&& if self.live(id) {
            &&& self.map.holds(self.units[id])
            &&& self.units[id].map_cell() == cell_of(
                self.units[id].position().0,
                self.units[id].position().1,
            )
        } else {
            self.map.lacks(id)
        }
    }

    /// The map is well formed, and map and records agree about every unit.
    pub open spec fn wf(self) -> bool {
        &&& self.map.wf()
        &&& forall|id: u32| #[trigger] self.settled(id)
    }

    /// Whether `u` can be spawned: its id is free, it is not destroyed, and it
    /// stands on the map.
    pub open spec fn admits(self, u: Unit) -> bool {
        &&& !self.units.contains_key(u.id())
        &&& !u.is_destroyed()
        &&& self.map.covers(u.position().0, u.position().1)
    }

    /// The scene after `u` has been spawned.
    pub open spec fn spawned(self, u: Unit) -> SceneView {
        SceneView { map: self.map.added(u), units: self.units.insert(u.id(), self.map.placed(u)) }
    }

    /// The scene after the live unit `id` has moved to `(x, y)`.
    pub open spec fn moved(self, id: u32, x: u32, y: u32) -> SceneView {
        let u = self.units[id].at(x, y);
        if cell_of(x, y) == u.map_cell() {
            SceneView { units: self.units.insert(id, u), ..self }
        } else {
            SceneView { map: self.map.refiled(u), units: self.units.insert(id, self.map.placed(u)) }
        }
    }

    /// The scene after unit `id` has been destroyed: a live unit leaves the map
    /// and is marked; for any other id nothing changes.
    pub open spec fn destroyed(self, id: u32) -> SceneView {
        if self.live(id) {
            SceneView {
                map: self.map.removed(self.units[id]),
                units: self.units.insert(id, self.units[id].wrecked()),
            }
        } else {
            self
        }
    }

    /// The scene after the record of unit `id` has been dropped, which happens
    /// only to a destroyed unit.
    pub open spec fn forgotten(self, id: u32) -> SceneView {
        if self.units.contains_key(id) && self.units[id].is_destroyed() {
            SceneView { units: self.units.remove(id), ..self }
        } else {
            self
        }
    }

    /// The ids of the units that stand in the cell of the live unit `id`, oldest
    /// first; none for any other id.
    pub open spec fn neighbours(self, id: u32) -> Seq<u32> {
        if self.live(id) {
            self.map.grid.units_at(
                self.units[id].map_cell().i as int,
                self.units[id].map_cell().j as int,
            )
        } else {
            Seq::empty()
        }
    }
}

/// A position inside the map's extent falls into a cell of the grid.
pub proof fn lemma_inside_is_covered(m: MapView, x: u32, y: u32)
    requires
        m.wf(),
        x < m.cfg.width,
        y < m.cfg.height,
    ensures
        m.covers(x, y),
{
}

/// Spawning a unit that the scene admits leaves map and records in agreement.
pub proof fn lemma_spawned(s: SceneView, u: Unit)
    requires
        s.wf(),
        s.admits(u),
    ensures
        s.spawned(u).wf(),
{
    let t = s.spawned(u);
    assert(s.settled(u.id()));
    lemma_added(s.map, u);
    assert forall|id: u32| #[trigger] t.settled(id) by {
        assert(s.settled(id));
        if id != u.id() {
            assert(t.map.agrees_on(s.map, id));
        }
    }
}

/// Moving a live unit to a place on the map leaves map and records in
/// agreement.
pub proof fn lemma_moved(s: SceneView, id: u32, x: u32, y: u32)
    requires
        s.wf(),
        s.live(id),
        s.map.covers(x, y),
    ensures
        s.moved(id, x, y).wf(),
{
    let t = s.moved(id, x, y);
    let u = s.units[id].at(x, y);
    assert(s.settled(id));
    assert(s.map.holds(u));
    if cell_of(x, y) != u.map_cell() {
        lemma_refiled(s.map, u);
    }
    assert forall|x: u32| #[trigger] t.settled(x) by {
        assert(s.settled(x));
        if x != id && cell_of(x, y) != u.map_cell() {
            assert(t.map.agrees_on(s.map, x));
        }
    }
}

/// Destroying a unit leaves map and records in agreement.
pub proof fn lemma_destroyed(s: SceneView, id: u32)
    requires
        s.wf(),
    ensures
        s.destroyed(id).wf(),
{
    let t = s.destroyed(id);
    if s.live(id) {
        let u = s.units[id];
        assert(s.settled(id));
        lemma_removed(s.map, u);
        assert forall|x: u32| #[trigger] t.settled(x) by {
            assert(s.settled(x));
            if x != id {
                assert(t.map.agrees_on(s.map, x));
            }
        }
    }
}

/// Destroying a unit a second time changes nothing.
pub proof fn lemma_destroyed_twice(s: SceneView, id: u32)
    ensures
        s.destroyed(id).destroyed(id) == s.destroyed(id),
{
}

/// Dropping the record of a destroyed unit leaves map and records in agreement.
pub proof fn lemma_forgotten(s: SceneView, id: u32)
    requires
        s.wf(),
    ensures
        s.forgotten(id).wf(),
{
    let t = s.forgotten(id);
    assert forall|x: u32| #[trigger] t.settled(x) by {
        assert(s.settled(x));
    }
}

/// A live unit is listed as standing in the cell of its position and in no
/// other cell, and as watching the cells of the rectangle it has recorded and no
/// other cell.
pub proof fn lemma_live_unit_is_filed(s: SceneView, id: u32, i: int, j: int)
    requires
        s.wf(),
        s.live(id),
        s.map.grid.has(i, j),
    ensures
        s.units[id].id() == id,
        s.units[id].map_cell() == cell_of(s.units[id].position().0, s.units[id].position().1),
        s.map.grid.has(s.units[id].map_cell().i as int, s.units[id].map_cell().j as int),
        s.map.grid.units_at(i, j).contains(id) <==> (i == s.units[id].map_cell().i && j
            == s.units[id].map_cell().j),
        s.map.grid.viewers_at(i, j).contains(id) <==> s.units[id].watched().covers(i, j),
{
    assert(s.settled(id));
}

/// Whoever a cell lists, as standing in it or as watching it, is a live unit.
pub proof fn lemma_listed_unit_is_live(s: SceneView, id: u32, i: int, j: int)
    requires
        s.wf(),
        s.map.grid.has(i, j),
        s.map.grid.units_at(i, j).contains(id) || s.map.grid.viewers_at(i, j).contains(id),
    ensures
        s.live(id),
{
    assert(s.settled(id));
}

/// A unit that has just been spawned watches the cells of its sight: the cells
/// that meet the square of its range around its position, cut off at the map's
/// borders.
pub proof fn lemma_spawned_sight(s: SceneView, u: Unit)
    requires
        s.wf(),
        s.admits(u),
    ensures
        s.spawned(u).live(u.id()),
        s.spawned(u).units[u.id()].position() == u.position(),
        s.spawned(u).units[u.id()].watched() == s.map.sight(u),
        s.spawned(u).map.sight(s.spawned(u).units[u.id()]) == s.map.sight(u),
{
}

/// A unit that has moved into another cell watches the cells of its sight from
/// where it stands now. So does a unit that has moved inside its cell, as long
/// as its sight from there is the rectangle it has recorded.
pub proof fn lemma_moved_sight(s: SceneView, id: u32, x: u32, y: u32)
    requires
        s.wf(),
        s.live(id),
        s.map.covers(x, y),
        cell_of(x, y) != s.units[id].map_cell() || s.map.sight(s.units[id].at(x, y))
            == s.units[id].watched(),
    ensures
        s.moved(id, x, y).live(id),
        s.moved(id, x, y).units[id].position() == (x, y),
        s.moved(id, x, y).units[id].watched() == s.map.sight(s.units[id].at(x, y)),
        s.moved(id, x, y).map.sight(s.moved(id, x, y).units[id]) == s.map.sight(
            s.units[id].at(x, y),
        ),
{
}

/// A unit that moves inside its cell leaves the map untouched, and nothing
/// changes for the unit but its position.
pub proof fn lemma_moved_inside_cell(s: SceneView, id: u32, x: u32, y: u32)
    requires
        s.live(id),
        cell_of(x, y) == s.units[id].map_cell(),
    ensures
        s.moved(id, x, y).map == s.map,
        s.moved(id, x, y).units == s.units.insert(id, s.units[id].at(x, y)),
{
}

/// The map and the record of every unit spawned on it.
pub struct Scene {
    map: SceneMap,
    units: HashMap<u32, Unit>,
}

impl View for Scene {
    type V = SceneView;

    closed spec fn view(&self) -> SceneView {
        SceneView { map: self.map@, units: self.units@ }
    }
}

impl Scene {
    /// The map is well formed, and map and records agree about every unit.
    pub closed spec fn wf(&self) -> bool {
        self.map.wf() && self@.wf()
    }

    /// A scene that is well formed has a well-formed value.
    pub proof fn lemma_wf(&self)
        requires
            self.wf(),
        ensures
            self@.wf(),
    {
    }

    /// A scene with an empty map of the size that `cfg` gives and no unit.
    pub fn new(cfg: MapCfg) -> (s: Scene)
        requires
            cfg.wf(),
        ensures
            s.wf(),
            s@.units == Map::<u32, Unit>::empty(),
            s@.map.cfg == cfg,
            s@.map.grid == crate::grid::GridView::empty(
                div_ceil_spec(cfg.width as int, CELL_SIZE as int) as nat,
                div_ceil_spec(cfg.height as int, CELL_SIZE as int) as nat,
            ),
    {
        let map = SceneMap::new(cfg);
        let s = Scene { map, units: HashMap::new() };
        proof {
            s.map.lemma_wf();
            assert forall|id: u32| #[trigger] s@.settled(id) by {
                assert(s@.map.lacks(id));
            }
        }
        s
    }

    /// The map's width and height in world units.
    pub fn size(&self) -> (s: (u32, u32))
        ensures
            s == (self@.map.cfg.width, self@.map.cfg.height),
    {
        self.map.size()
    }

    /// The map.
    pub fn map(&self) -> (m: &SceneMap)
        ensures
            m@ == self@.map,
            self.wf() ==> m.wf(),
    {
        &self.map
    }

    /// The record of unit `id`, if there is one.
    pub fn unit(&self, id: u32) -> (u: Option<Unit>)
        ensures
            u == if self@.units.contains_key(id) {
                Some(self@.units[id])
            } else {
                None
            },
    {
        match self.units.get(&id) {
            Some(u) => Some(*u),
            None => None,
        }
    }

    /// Spawns `unit`: records it and adds it to the map where it stands. A unit
    /// whose id is taken, that is destroyed, or that stands off the map is
    /// turned away, and the scene stays as it is.
    pub fn spawn(&mut self, unit: Unit) -> (ok: bool)
        requires
            old(self).wf(),
        ensures
            final(self).wf(),
            ok == old(self)@.admits(unit),
            final(self)@ == if ok {
                old(self)@.spawned(unit)
            } else {
                old(self)@
            },
    {
        let (x, y) = unit.position();
        let (cols, rows) = self.map.dims();
        if self.units.contains_key(&unit.id()) || unit.is_destroyed() || x / CELL_SIZE >= cols || y
            / CELL_SIZE >= rows {
            return false;
        }
        proof {
            self.map.lemma_wf();
            lemma_spawned(self@, unit);
        }
        let mut u = unit;
        self.map.add(&mut u);
        self.units.insert(u.id(), u);
        true
    }

    /// Moves unit `id` to `(x, y)` and tells the map. A unit that is not live, or
    /// a place off the map, leaves the scene as it is.
    pub fn move_unit(&mut self, id: u32, x: u32, y: u32) -> (ok: bool)
        requires
            old(self).wf(),
        ensures
            final(self).wf(),
            ok == (old(self)@.live(id) && old(self)@.map.covers(x, y)),
            final(self)@ == if ok {
                old(self)@.moved(id, x, y)
            } else {
                old(self)@
            },
    {
        let (cols, rows) = self.map.dims();
        let mut u = match self.unit(id) {
            Some(u) => u,
            None => {
                return false;
            },
        };
        if u.is_destroyed() || x / CELL_SIZE >= cols || y / CELL_SIZE >= rows {
            return false;
        }
        proof {
            self.map.lemma_wf();
            assert(self@.settled(id));
            lemma_moved(self@, id, x, y);
        }
        u.set_position(x, y);
        self.map.unit_moved(&mut u);
        self.units.insert(id, u);
        true
    }

    /// Destroys unit `id`: takes it off the map and marks it. Nothing happens to
    /// a unit that is destroyed already, nor for an id that is not known.
    pub fn destroy(&mut self, id: u32)
        requires
            old(self).wf(),
        ensures
            final(self).wf(),
            final(self)@ == old(self)@.destroyed(id),
    {
        let mut u = match self.unit(id) {
            Some(u) => u,
            None => {
                return ;
            },
        };
        if u.is_destroyed() {
            return ;
        }
        proof {
            self.map.lemma_wf();
            assert(self@.settled(id));
            lemma_destroyed(self@, id);
        }
        self.map.remove(&u);
        u.destroy();
        self.units.insert(id, u);
    }

    /// Drops the record of unit `id` if the unit is destroyed.
    pub fn forget(&mut self, id: u32)
        requires
            old(self).wf(),
        ensures
            final(self).wf(),
            final(self)@ == old(self)@.forgotten(id),
    {
        let u = match self.unit(id) {
            Some(u) => u,
            None => {
                return ;
            },
        };
        if !u.is_destroyed() {
            return ;
        }
        proof {
            lemma_forgotten(self@, id);
        }
        self.units.remove(&id);
    }

    /// The ids of the units that stand in the cell of the live unit `id`, oldest
    /// first, the unit itself among them; none for any other id.
    pub fn neighbours(&self, id: u32) -> (ids: Vec<u32>)
        requires
            self.wf(),
        ensures
            ids@ == self@.neighbours(id),
    {
        match self.unit(id) {
            Some(u) => {
                if u.is_destroyed() {
                    Vec::new()
                } else {
                    proof {
                        assert(self@.settled(id));
                    }
                    self.map.for_each(&u)
                }
            },
            None => Vec::new(),
        }
    }
}

} // verus!
