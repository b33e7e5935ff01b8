//! The flight of a bullet: where it is, whether it has left the battlefield, and
//! what it hits.

use crate::scene::{lemma_destroyed, lemma_inside_is_covered, lemma_moved, Scene, SceneView};
use crate::unit::{Bullet, Unit};
use vstd::prelude::*;

verus! {

/// How close a bullet has to come to a unit to hit it, in world units.
pub const HIT_RANGE: u32 = 50;

/// Whether the positions `p` and `q` are no more than `HIT_RANGE` apart.
pub open spec fn in_reach(p: (u32, u32), q: (u32, u32)) -> bool {
    (p.0 - q.0) * (p.0 - q.0) + (p.1 - q.1) * (p.1 - q.1) <= HIT_RANGE * HIT_RANGE
}

/// A bullet reaches no further than a cell is wide.
pub proof fn lemma_reach_fits_cell()
    ensures
        HIT_RANGE <= crate::map::CELL_SIZE,
{
}

/// The distance between `a` and `b`.
fn gap(a: u32, b: u32) -> (d: u32)
    ensures
        d == if a >= b {
            a - b
        } else {
            b - a
        },
{
    if a >= b {
        a - b
    } else {
        b - a
    }
}

/// Tells whether the positions `p` and `q` are no more than `HIT_RANGE` apart.
pub fn is_in_reach(p: (u32, u32), q: (u32, u32)) -> (b: bool)
    ensures
        b == in_reach(p, q),
{
    let dx: u32 = gap(p.0, q.0);
    let dy: u32 = gap(p.1, q.1);
    proof {
        let ex = p.0 - q.0;
        let ey = p.1 - q.1;
        assert(ex * ex == dx * dx) by (nonlinear_arith)
            requires
                ex == dx || ex == -dx,
        ;
        assert(ey * ey == dy * dy) by (nonlinear_arith)
            requires
                ey == dy || ey == -dy,
        ;
        assert(dx * dx >= 0 && dy * dy >= 0) by (nonlinear_arith);
        assert(dx > 50 ==> dx * dx > 2500) by (nonlinear_arith);
        assert(dy > 50 ==> dy * dy > 2500) by (nonlinear_arith);
        assert(dx <= 50 ==> dx * dx <= 2500) by (nonlinear_arith);
        assert(dy <= 50 ==> dy * dy <= 2500) by (nonlinear_arith);
    }
    if dx > HIT_RANGE || dy > HIT_RANGE {
        return false;
    }
    dx * dx + dy * dy <= HIT_RANGE * HIT_RANGE
}

impl SceneView {
    /// Whether the bullet `b`, standing where it does, hits unit `id`: the unit
    /// is live, it is neither the bullet itself nor of the bullet's side, and it
    /// is in reach.
    pub open spec fn hit(self, b: Bullet, id: u32) -> bool {
        &&& self.live(id)
        &&& self.units[id].can_be_destroyed(&b)
        &&& in_reach((b.x, b.y), self.units[id].position())
    }

    /// The scene after the bullet `b` has been tried on the candidates `ids` in
    /// turn, each one it hits being destroyed, and whether it has hit any.
    pub open spec fn struck(self, b: Bullet, ids: Seq<u32>) -> (SceneView, bool)
        decreases ids.len(),
    {
        if ids.len() == 0 {
            (self, false)
        } else if self.hit(b, ids[0]) {
            (self.destroyed(ids[0]).struck(b, ids.drop_first()).0, true)
        } else {
            self.struck(b, ids.drop_first())
        }
    }

    /// Whether unit `id` is a live bullet.
    pub open spec fn flying(self, id: u32) -> bool {
        self.live(id) && self.units[id] is Bullet
    }

    /// Whether `(x, y)` lies outside the map.
    pub open spec fn outside(self, x: int, y: int) -> bool {
        x < 0 || y < 0 || x >= self.map.cfg.width || y >= self.map.cfg.height
    }

    /// The scene after the bullet `id` has been found at `(x, y)`.
    ///
    /// Nothing happens unless `id` is a live bullet. A bullet that has left the
    /// map is destroyed. Any other bullet moves to `(x, y)`, is tried on the units
    /// that stand in its cell, and is destroyed itself if it has hit any.
    pub open spec fn updated(self, id: u32, x: int, y: int) -> SceneView {
        if !self.flying(id) {
            self
        } else if self.outside(x, y) {
            self.destroyed(id)
        } else {
            let s = self.moved(id, x as u32, y as u32);
            let (t, any) = s.struck(s.units[id]->Bullet_0, s.neighbours(id));
            if any {
                t.destroyed(id)
            } else {
                t
            }
        }
    }
}

/// Trying a bullet on a list of candidates leaves map and records in agreement.
pub proof fn lemma_struck_wf(s: SceneView, b: Bullet, ids: Seq<u32>)
    requires
        s.wf(),
    ensures
        s.struck(b, ids).0.wf(),
    decreases ids.len(),
{
    if ids.len() > 0 {
        if s.hit(b, ids[0]) {
            lemma_destroyed(s, ids[0]);
            lemma_struck_wf(s.destroyed(ids[0]), b, ids.drop_first());
        } else {
            lemma_struck_wf(s, b, ids.drop_first());
        }
    }
}

/// Who is destroyed when a bullet is tried on a list of candidates: each
/// candidate that it hits, and nobody else. The bullet has hit some unit just
/// when it hits one of the candidates.
pub proof fn lemma_struck(s: SceneView, b: Bullet, ids: Seq<u32>)
    ensures
        s.struck(b, ids).0.units.dom() == s.units.dom(),
        forall|u: u32| #[trigger]
            s.units.contains_key(u) ==> s.struck(b, ids).0.units[u] == if ids.contains(u) && s.hit(
                b,
                u,
            ) {
                s.units[u].wrecked()
            } else {
                s.units[u]
            },
        s.struck(b, ids).1 <==> exists|u: u32| ids.contains(u) && #[trigger] s.hit(b, u),
    decreases ids.len(),
{
    if ids.len() > 0 {
        let head = ids[0];
        let rest = ids.drop_first();
        let s1 = if s.hit(b, head) {
            s.destroyed(head)
        } else {
            s
        };
        lemma_struck(s1, b, rest);
        assert(s1.units.dom() =~= s.units.dom());
        assert forall|u: u32| ids.contains(u) <==> (u == head || rest.contains(u)) by {
            if ids.contains(u) {
                let k = ids.index_of(u);
                if k > 0 {
                    assert(rest[k - 1] == u);
                }
            }
            if rest.contains(u) {
                let k = rest.index_of(u);
                assert(ids[k + 1] == u);
            }
        }
        assert forall|u: u32| u != head implies s1.hit(b, u) == s.hit(b, u) by {}
        let t = s.struck(b, ids);
        assert(t.0 == s1.struck(b, rest).0);
        assert forall|u: u32| #[trigger] s.units.contains_key(u) implies t.0.units[u] == if ids.contains(
            u,
        ) && s.hit(b, u) {
            s.units[u].wrecked()
        } else {
            s.units[u]
        } by {
            assert(s1.units.contains_key(u));
        }
        if t.1 {
            if s.hit(b, head) {
                assert(ids.contains(head) && s.hit(b, head));
            } else {
                let u = choose|u: u32| rest.contains(u) && #[trigger] s1.hit(b, u);
                assert(ids.contains(u) && s.hit(b, u));
            }
        }
        if exists|u: u32| ids.contains(u) && #[trigger] s.hit(b, u) {
            let u = choose|u: u32| ids.contains(u) && #[trigger] s.hit(b, u);
            if !s.hit(b, head) {
                assert(rest.contains(u) && s1.hit(b, u));
            }
        }
    } else {
        assert(forall|u: u32| !ids.contains(u));
    }
}

/// Bringing up to date what is not a live bullet changes nothing: a bullet that
/// is destroyed, a tank, an id that is not known.
pub proof fn lemma_updated_idle(s: SceneView, id: u32, x: int, y: int)
    requires
        !s.flying(id),
    ensures
        s.updated(id, x, y) == s,
{
}

/// Bringing a bullet up to date a second time, once the first has destroyed it,
/// changes nothing.
pub proof fn lemma_updated_wreck(s: SceneView, id: u32, x: int, y: int, x2: int, y2: int)
    requires
        s.updated(id, x, y).units.contains_key(id),
        s.updated(id, x, y).units[id].is_destroyed(),
    ensures
        s.updated(id, x, y).updated(id, x2, y2) == s.updated(id, x, y),
{
}

/// What bringing a live bullet on the map up to date does to the units. The
/// bullet stands at the place given, whatever went before. A unit other than
/// the bullet is destroyed just when it stands in the bullet's cell and the
/// bullet hits it, and is otherwise as it was: so a unit of the bullet's own
/// side, or one out of reach, is never harmed. The bullet is destroyed just
/// when it has hit some unit.
pub proof fn lemma_updated_units(s: SceneView, id: u32, x: int, y: int)
    requires
        s.wf(),
        s.flying(id),
        !s.outside(x, y),
    ensures
        s.updated(id, x, y).wf(),
        s.updated(id, x, y).units.dom() == s.units.dom(),
        s.updated(id, x, y).units[id].position() == (x as u32, y as u32),
        ({
            let m = s.moved(id, x as u32, y as u32);
            let b = m.units[id]->Bullet_0;
            &&& b.id == id
            &&& (b.x, b.y) == (x as u32, y as u32)
            &&& b.tank == s.units[id].side()
            &&& forall|u: u32| #[trigger]
                s.units.contains_key(u) && u != id ==> s.updated(id, x, y).units[u] == if m.neighbours(
                    id,
                ).contains(u) && m.hit(b, u) {
                    s.units[u].wrecked()
                } else {
                    s.units[u]
                }
            &&& s.updated(id, x, y).units[id].is_destroyed() <==> exists|u: u32|
                m.neighbours(id).contains(u) && #[trigger] m.hit(b, u)
        }),
{
    let m = s.moved(id, x as u32, y as u32);
    lemma_inside_is_covered(s.map, x as u32, y as u32);
    lemma_moved(s, id, x as u32, y as u32);
    assert(s.settled(id));
    let b = m.units[id]->Bullet_0;
    let ids = m.neighbours(id);
    lemma_struck(m, b, ids);
    lemma_struck_wf(m, b, ids);
    let t = m.struck(b, ids).0;
    lemma_destroyed(t, id);
    assert(!m.hit(b, id));
    assert(m.units.dom() =~= s.units.dom());
    assert(t.destroyed(id).units.dom() =~= s.units.dom());
    assert forall|u: u32| #[trigger] s.units.contains_key(u) && u != id implies m.units[u]
        == s.units[u] by {}
}

impl Scene {
    /// Tells whether the bullet `b`, standing where it does, hits unit `id`.
    pub fn hits(&self, b: &Bullet, id: u32) -> (h: bool)
        ensures
            h == self@.hit(*b, id),
    {
        match self.unit(id) {
            Some(u) => !u.is_destroyed() && u.can_be_destroyed(b) && is_in_reach(
                (b.x, b.y),
                u.position(),
            ),
            None => false,
        }
    }
}

impl Bullet {
    /// Brings the bullet `id` of `scene` up to date, given the place `(x, y)`
    /// where it is now: the point of its flight path for the current time, each
    /// coordinate rounded down to whole world units.
    ///
    /// Nothing happens unless `id` is a live bullet. A bullet that has left the
    /// map is destroyed. Any other bullet moves to `(x, y)`, which the map
    /// learns, and is tried on every unit that stands in its cell: each unit it
    /// hits is destroyed, and so is, once all have been tried, the bullet itself
    /// if it has hit any.
    pub fn update(scene: &mut Scene, id: u32, x: i64, y: i64)
        requires
            old(scene).wf(),
        ensures
            final(scene).wf(),
            final(scene)@ == old(scene)@.updated(id, x as int, y as int),
    {
        match scene.unit(id) {
            Some(Unit::Bullet(b)) => {
                if b.destroyed {
                    return ;
                }
            },
            _ => {
                return ;
            },
        }
        let (width, height) = scene.size();
        if x < 0 || y < 0 || x >= width as i64 || y >= height as i64 {
            scene.destroy(id);
            return ;
        }
        proof {
            scene.lemma_wf();
            lemma_inside_is_covered(scene@.map, x as u32, y as u32);
        }
        scene.move_unit(id, x as u32, y as u32);
        let b = match scene.unit(id) {
            Some(Unit::Bullet(b)) => b,
            _ => {
                return ;
            },
        };
        let ids = scene.neighbours(id);
        let ghost s = scene@;
        proof {
            assert(ids@.subrange(0, ids@.len() as int) =~= ids@);
        }
        let mut any = false;
        let mut k: usize = 0;
        while k < ids.len()
            invariant
                k <= ids@.len(),
                scene.wf(),
                s.struck(b, ids@).0 == scene@.struck(b, ids@.subrange(k as int, ids@.len() as int)).0,
                s.struck(b, ids@).1 == (any || scene@.struck(
                    b,
                    ids@.subrange(k as int, ids@.len() as int),
                ).1),
            decreases ids@.len() - k,
        {
            proof {
                let rest = ids@.subrange(k as int, ids@.len() as int);
                assert(rest[0] == ids@[k as int]);
                assert(rest.drop_first() =~= ids@.subrange(k + 1, ids@.len() as int));
            }
            if scene.hits(&b, ids[k]) {
                scene.destroy(ids[k]);
                any = true;
            }
            k += 1;
        }
        if any {
            scene.destroy(id);
        }
    }
}

} // verus!
