//! The grid world: machines, grid objects, and the operations that place,
//! remove and look them up.
//!
//! The two collections are unordered and keyed by position: no two
//! machines share a cell and no two objects share a cell (a machine and
//! an object may share one).  Every record carries an opaque handle,
//! `entity`, to the visual representation owned by the rendering
//! collaborator; removal hands that handle back so the caller can
//! despawn the visual exactly once.

use vstd::prelude::*;
use crate::grid::{dir_wf, GridPos};
use crate::timer::{TickTimer, TICK_PERIOD_MS};

verus! {

/// The kinds of stationary machine a player can place.
#[derive(Clone, Copy, PartialEq, Eq, Structural, Debug, Hash)]
pub enum MachineType {
    /// Pushes the object on its cell one cell in its facing direction.
    ConveyorBelt,
    /// Consumes any object on its cell.
    Target,
    /// Placeholder for future object production; inert.
    Cow,
    /// Placeholder for future object production; inert.
    Milker,
    /// Turns cheese on its cell into grated cheese and pushes it one
    /// cell in its facing direction.
    Grater,
}

/// The kinds of movable object that can sit on the grid.
#[derive(Clone, Copy, PartialEq, Eq, Structural, Debug, Hash)]
pub enum GridObjectType {
    Cheese,
    Milk,
    GratedCheese,
}

/// A stationary, player-placed machine.
#[derive(Clone, Copy, PartialEq, Eq, Structural, Debug)]
pub struct Machine {
    /// Facing direction, encoded `0..4` (see the grid module).
    pub dir: u8,
    pub kind: MachineType,
    pub pos: GridPos,
    /// Opaque handle to the machine's visual entity.
    pub entity: u64,
}

/// A movable item on the grid.
#[derive(Clone, Copy, PartialEq, Eq, Structural, Debug)]
pub struct GridObject {
    pub kind: GridObjectType,
    /// Opaque handle to the object's visual entity.
    pub entity: u64,
    pub pos: GridPos,
}

impl Machine {
    /// The facing is a valid encoding and the position is on the grid.
    pub open spec fn wf(self) -> bool {
        dir_wf(self.dir) && self.pos.in_bounds()
    }
}

impl GridObject {
    /// The position is on the grid.
    pub open spec fn wf(self) -> bool {
        self.pos.in_bounds()
    }
}

/// No two machines in `ms` share a position.
pub open spec fn machines_distinct(ms: Seq<Machine>) -> bool {
    forall|i: int, j: int|
        0 <= i < j < ms.len() ==> (#[trigger] ms[i]).pos != (#[trigger] ms[j]).pos
}

/// Every machine in `ms` is well-formed.
pub open spec fn machines_wf(ms: Seq<Machine>) -> bool {
    forall|i: int| 0 <= i < ms.len() ==> (#[trigger] ms[i]).wf()
}

/// Some machine in `ms` stands at `p`.
pub open spec fn has_machine_at(ms: Seq<Machine>, p: GridPos) -> bool {
    exists|i: int| 0 <= i < ms.len() && (#[trigger] ms[i]).pos == p
}

/// Index of the machine at `p` (meaningful only when one exists).
pub open spec fn machine_index_at(ms: Seq<Machine>, p: GridPos) -> int {
    choose|i: int| 0 <= i < ms.len() && (#[trigger] ms[i]).pos == p
}

/// The machine standing at `p`, if any.
pub open spec fn machine_lookup(ms: Seq<Machine>, p: GridPos) -> Option<Machine> {
    if has_machine_at(ms, p) {
        Some(ms[machine_index_at(ms, p)])
    } else {
        None
    }
}

/// No two objects in `objs` share a position.
pub open spec fn objects_distinct(objs: Seq<GridObject>) -> bool {
    forall|i: int, j: int|
        0 <= i < j < objs.len() ==> (#[trigger] objs[i]).pos != (#[trigger] objs[j]).pos
}

/// Every object in `objs` is well-formed.
pub open spec fn objects_wf(objs: Seq<GridObject>) -> bool {
    forall|i: int| 0 <= i < objs.len() ==> (#[trigger] objs[i]).wf()
}

/// Some object in `objs` sits at `p`.
pub open spec fn has_object_at(objs: Seq<GridObject>, p: GridPos) -> bool {
    exists|i: int| 0 <= i < objs.len() && (#[trigger] objs[i]).pos == p
}

/// Index of the object at `p` (meaningful only when one exists).
pub open spec fn object_index_at(objs: Seq<GridObject>, p: GridPos) -> int {
    choose|i: int| 0 <= i < objs.len() && (#[trigger] objs[i]).pos == p
}

/// The object sitting at `p`, if any.
pub open spec fn object_lookup(objs: Seq<GridObject>, p: GridPos) -> Option<GridObject> {
    if has_object_at(objs, p) {
        Some(objs[object_index_at(objs, p)])
    } else {
        None
    }
}

/// When machines are distinct by position, the lookup at the position of
/// the machine at index `i` yields exactly that machine.
pub proof fn lemma_machine_lookup_at_index(ms: Seq<Machine>, i: int)
    requires
        machines_distinct(ms),
        0 <= i < ms.len(),
    ensures
        machine_lookup(ms, ms[i].pos) == Some(ms[i]),
{
    assert(has_machine_at(ms, ms[i].pos));
    let j = machine_index_at(ms, ms[i].pos);
    if i != j {
        assert(ms[i].pos != ms[j].pos);
    }
}

/// When objects are distinct by position, the lookup at the position of
/// the object at index `i` yields exactly that object.
pub proof fn lemma_object_lookup_at_index(objs: Seq<GridObject>, i: int)
    requires
        objects_distinct(objs),
        0 <= i < objs.len(),
    ensures
        object_lookup(objs, objs[i].pos) == Some(objs[i]),
{
    assert(has_object_at(objs, objs[i].pos));
    let j = object_index_at(objs, objs[i].pos);
    if i != j {
        assert(objs[i].pos != objs[j].pos);
    }
}

/// The sequence `s` with the element at index `i` taken out by
/// swap-and-pop: the last element moves into slot `i` and the length
/// shrinks by one.  Order is not preserved, which is acceptable for an
/// unordered collection.
pub open spec fn swap_removed<T>(s: Seq<T>, i: int) -> Seq<T> {
    s.update(i, s.last()).drop_last()
}

/// Law (placement): pushing a machine `m` onto a list with no machine at
/// `m.pos` makes the lookup at `m.pos` yield exactly `m`, leaves the
/// lookup at every other cell unchanged, and preserves distinctness and
/// well-formedness.
pub proof fn lemma_machine_push(ms: Seq<Machine>, m: Machine)
    requires
        machines_distinct(ms),
        !has_machine_at(ms, m.pos),
    ensures
        machines_distinct(ms.push(m)),
        machines_wf(ms) && m.wf() ==> machines_wf(ms.push(m)),
        machine_lookup(ms.push(m), m.pos) == Some(m),
        forall|q: GridPos|
            q != m.pos ==> machine_lookup(ms.push(m), q) == machine_lookup(ms, q),
{
    let post = ms.push(m);
    assert forall|i: int, j: int| 0 <= i < j < post.len() implies (#[trigger] post[i]).pos != (
    #[trigger] post[j]).pos by {
        if j == ms.len() {
            assert(post[i] == ms[i]);
        } else {
            assert(post[i] == ms[i] && post[j] == ms[j]);
        }
    }
    lemma_machine_lookup_at_index(post, ms.len() as int);
    assert forall|q: GridPos| q != m.pos implies machine_lookup(post, q) == machine_lookup(
        ms,
        q,
    ) by {
        if has_machine_at(post, q) {
            let i = machine_index_at(post, q);
            assert(0 <= i < post.len() && post[i].pos == q);
            assert(i < ms.len());
            assert(ms[i].pos == q);
            lemma_machine_lookup_at_index(ms, i);
            lemma_machine_lookup_at_index(post, i);
        } else {
            if has_machine_at(ms, q) {
                let i = machine_index_at(ms, q);
                assert(post[i].pos == q);
                assert(has_machine_at(post, q));
            }
        }
    }
}

/// Law (placement): pushing an object `o` onto a list with no object at
/// `o.pos` makes the lookup at `o.pos` yield exactly `o`, leaves the
/// lookup at every other cell unchanged, and preserves distinctness and
/// well-formedness.
pub proof fn lemma_object_push(objs: Seq<GridObject>, o: GridObject)
    requires
        objects_distinct(objs),
        !has_object_at(objs, o.pos),
    ensures
        objects_distinct(objs.push(o)),
        objects_wf(objs) && o.wf() ==> objects_wf(objs.push(o)),
        object_lookup(objs.push(o), o.pos) == Some(o),
        forall|q: GridPos|
            q != o.pos ==> object_lookup(objs.push(o), q) == object_lookup(objs, q),
{
    let post = objs.push(o);
    assert forall|i: int, j: int| 0 <= i < j < post.len() implies (#[trigger] post[i]).pos != (
    #[trigger] post[j]).pos by {
        if j == objs.len() {
            assert(post[i] == objs[i]);
        } else {
            assert(post[i] == objs[i] && post[j] == objs[j]);
        }
    }
    lemma_object_lookup_at_index(post, objs.len() as int);
    assert forall|q: GridPos| q != o.pos implies object_lookup(post, q) == object_lookup(
        objs,
        q,
    ) by {
        if has_object_at(post, q) {
            let i = object_index_at(post, q);
            assert(0 <= i < post.len() && post[i].pos == q);
            assert(i < objs.len());
            assert(objs[i].pos == q);
            lemma_object_lookup_at_index(objs, i);
            lemma_object_lookup_at_index(post, i);
        } else {
            if has_object_at(objs, q) {
                let i = object_index_at(objs, q);
                assert(post[i].pos == q);
                assert(has_object_at(objs.push(o), q));
            }
        }
    }
}

/// Law (removal): taking the machine at index `i` out by swap-and-pop
/// empties the lookup at its cell, leaves the lookup at every other cell
/// unchanged, and preserves distinctness and well-formedness.
pub proof fn lemma_machine_swap_remove(ms: Seq<Machine>, i: int)
    requires
        machines_distinct(ms),
        0 <= i < ms.len(),
    ensures
        machines_distinct(swap_removed(ms, i)),
        machines_wf(ms) ==> machines_wf(swap_removed(ms, i)),
        machine_lookup(swap_removed(ms, i), ms[i].pos) is None,
        forall|q: GridPos|
            q != ms[i].pos ==> machine_lookup(swap_removed(ms, i), q) == machine_lookup(ms, q),
{
    let post = swap_removed(ms, i);
    let n = ms.len() as int;
    assert(post.len() == n - 1);
    assert forall|j: int| 0 <= j < n - 1 implies post[j] == (if j == i {
        ms[n - 1]
    } else {
        ms[j]
    }) by {}
    assert forall|j: int, k: int| 0 <= j < k < post.len() implies (#[trigger] post[j]).pos != (
    #[trigger] post[k]).pos by {
        let j0 = if j == i { n - 1 } else { j };
        let k0 = if k == i { n - 1 } else { k };
        assert(post[j] == ms[j0] && post[k] == ms[k0]);
        assert(j0 != k0);
    }
    assert(machine_lookup(post, ms[i].pos) is None) by {
        if has_machine_at(post, ms[i].pos) {
            let j = machine_index_at(post, ms[i].pos);
            let j0 = if j == i { n - 1 } else { j };
            assert(post[j] == ms[j0]);
            assert(j0 != i);
            assert(ms[j0].pos == ms[i].pos);
        }
    }
    assert forall|q: GridPos| q != ms[i].pos implies machine_lookup(post, q) == machine_lookup(
        ms,
        q,
    ) by {
        if has_machine_at(post, q) {
            let j = machine_index_at(post, q);
            let j0 = if j == i { n - 1 } else { j };
            assert(post[j] == ms[j0]);
            lemma_machine_lookup_at_index(post, j);
            lemma_machine_lookup_at_index(ms, j0);
        } else {
            if has_machine_at(ms, q) {
                let j0 = machine_index_at(ms, q);
                assert(j0 != i);
                if j0 == n - 1 {
                    assert(i < n - 1);
                    assert(post[i] == ms[n - 1]);
                    assert(has_machine_at(post, q));
                } else {
                    assert(post[j0] == ms[j0]);
                    assert(has_machine_at(post, q));
                }
            }
        }
    }
}

/// Law (removal): taking the object at index `i` out by swap-and-pop
/// empties the lookup at its cell, leaves the lookup at every other cell
/// unchanged, and preserves distinctness and well-formedness.
pub proof fn lemma_object_swap_remove(objs: Seq<GridObject>, i: int)
    requires
        objects_distinct(objs),
        0 <= i < objs.len(),
    ensures
        objects_distinct(swap_removed(objs, i)),
        objects_wf(objs) ==> objects_wf(swap_removed(objs, i)),
        object_lookup(swap_removed(objs, i), objs[i].pos) is None,
        forall|q: GridPos|
            q != objs[i].pos ==> object_lookup(swap_removed(objs, i), q) == object_lookup(objs, q),
{
    let post = swap_removed(objs, i);
    let n = objs.len() as int;
    assert(post.len() == n - 1);
    assert forall|j: int| 0 <= j < n - 1 implies post[j] == (if j == i {
        objs[n - 1]
    } else {
        objs[j]
    }) by {}
    assert forall|j: int, k: int| 0 <= j < k < post.len() implies (#[trigger] post[j]).pos != (
    #[trigger] post[k]).pos by {
        let j0 = if j == i { n - 1 } else { j };
        let k0 = if k == i { n - 1 } else { k };
        assert(post[j] == objs[j0] && post[k] == objs[k0]);
        assert(j0 != k0);
    }
    assert(object_lookup(post, objs[i].pos) is None) by {
        if has_object_at(post, objs[i].pos) {
            let j = object_index_at(post, objs[i].pos);
            let j0 = if j == i { n - 1 } else { j };
            assert(post[j] == objs[j0]);
            assert(j0 != i);
            assert(objs[j0].pos == objs[i].pos);
        }
    }
    assert forall|q: GridPos| q != objs[i].pos implies object_lookup(post, q) == object_lookup(
        objs,
        q,
    ) by {
        if has_object_at(post, q) {
            let j = object_index_at(post, q);
            let j0 = if j == i { n - 1 } else { j };
            assert(post[j] == objs[j0]);
            lemma_object_lookup_at_index(post, j);
            lemma_object_lookup_at_index(objs, j0);
        } else {
            if has_object_at(objs, q) {
                let j0 = object_index_at(objs, q);
                assert(j0 != i);
                if j0 == n - 1 {
                    assert(i < n - 1);
                    assert(post[i] == objs[n - 1]);
                    assert(has_object_at(post, q));
                } else {
                    assert(post[j0] == objs[j0]);
                    assert(has_object_at(post, q));
                }
            }
        }
    }
}

/// Law: a removal hands the removed object's visual handle out exactly
/// once.  A removal at `p` returns the handle of the object that sat
/// there and leaves the cell empty, so a second removal at `p` on the
/// world the first one left returns no handle.  The hypotheses are the
/// two removals' outcomes exactly as `GridWorld::remove_object` ensures
/// them.
pub proof fn lemma_object_handle_despawned_once(
    pre: GridWorld,
    mid: GridWorld,
    r1: Option<u64>,
    r2: Option<u64>,
    p: GridPos,
)
    requires
        r1 == (match pre.spec_object_at(p) {
            Some(o) => Some(o.entity),
            None => None::<u64>,
        }),
        mid.spec_object_at(p) is None,
        r2 == (match mid.spec_object_at(p) {
            Some(o) => Some(o.entity),
            None => None::<u64>,
        }),
    ensures
        pre.spec_object_at(p) matches Some(o) ==> r1 == Some(o.entity),
        r2 is None,
{
}

/// The grid world: the authoritative record of what occupies the grid
/// and when the next simulation step occurs.
pub struct GridWorld {
    /// The repeating timer that schedules simulation steps.
    pub tick_timer: TickTimer,
    /// The machines on the grid, unordered, at most one per cell.
    pub machines: Vec<Machine>,
    /// The objects on the grid, unordered, at most one per cell.
    pub objects: Vec<GridObject>,
}

impl GridWorld {
    /// Both collections hold only well-formed records, each keyed by a
    /// distinct position, and the timer is well-formed.
    pub open spec fn wf(self) -> bool {
        &&& machines_wf(self.machines@)
        &&& machines_distinct(self.machines@)
        &&& objects_wf(self.objects@)
        &&& objects_distinct(self.objects@)
        &&& self.tick_timer.wf()
    }

    /// The machine standing at `p`, if any, as the lookup sees it.
    pub open spec fn spec_machine_at(self, p: GridPos) -> Option<Machine> {
        machine_lookup(self.machines@, p)
    }

    /// The object sitting at `p`, if any, as the lookup sees it.
    pub open spec fn spec_object_at(self, p: GridPos) -> Option<GridObject> {
        object_lookup(self.objects@, p)
    }

    /// Places a machine of the given kind and facing at `location`,
    /// recording `entity` as the handle of its visual representation.
    /// Fails, changing nothing, when a machine already occupies the
    /// cell; the first machine placed at a cell stays intact.
    pub fn create_machine(&mut self, kind: MachineType, location: GridPos, dir: u8, entity: u64)
        -> (ok: bool)
        requires
            old(self).wf(),
            location.in_bounds(),
            dir_wf(dir),
        ensures
            final(self).wf(),
            ok == (old(self).spec_machine_at(location) is None),
            final(self).objects == old(self).objects,
            final(self).tick_timer == old(self).tick_timer,
            !ok ==> final(self).machines == old(self).machines,
            ok ==> final(self).machines@ == old(self).machines@.push(
                Machine { dir, kind, pos: location, entity },
            ),
            final(self).spec_machine_at(location) == (if ok {
                Some(Machine { dir, kind, pos: location, entity })
            } else {
                old(self).spec_machine_at(location)
            }),
            forall|q: GridPos|
                q != location ==> final(self).spec_machine_at(q) == old(self).spec_machine_at(q),
    {
        if self.get_machine_at(location).is_some() {
            return false;
        }
        let m = Machine { dir, kind, pos: location, entity };
        proof {
            lemma_machine_push(self.machines@, m);
        }
        self.machines.push(m);
        true
    }

    /// Places an object of the given kind at `location`, recording
    /// `entity` as the handle of its visual representation.  Fails,
    /// changing nothing, when an object already occupies the cell.
    pub fn create_object(&mut self, kind: GridObjectType, location: GridPos, entity: u64) -> (ok:
        bool)
        requires
            old(self).wf(),
            location.in_bounds(),
        ensures
            final(self).wf(),
            ok == (old(self).spec_object_at(location) is None),
            final(self).machines == old(self).machines,
            final(self).tick_timer == old(self).tick_timer,
            !ok ==> final(self).objects == old(self).objects,
            ok ==> final(self).objects@ == old(self).objects@.push(
                GridObject { kind, entity, pos: location },
            ),
            final(self).spec_object_at(location) == (if ok {
                Some(GridObject { kind, entity, pos: location })
            } else {
                old(self).spec_object_at(location)
            }),
            forall|q: GridPos|
                q != location ==> final(self).spec_object_at(q) == old(self).spec_object_at(q),
    {
        if self.get_object_at(location).is_some() {
            return false;
        }
        let o = GridObject { kind, entity, pos: location };
        proof {
            lemma_object_push(self.objects@, o);
        }
        self.objects.push(o);
        true
    }

    /// Removes the machine at `location`, if one stands there, and
    /// returns the handle of its visual representation so the caller can
    /// despawn it; a no-op returning `None` when the cell has no
    /// machine.  Removal is by swap-and-pop; order is not preserved.
    pub fn remove_machine(&mut self, location: GridPos) -> (removed: Option<u64>)
        requires
            old(self).wf(),
        ensures
            final(self).wf(),
            removed == (match old(self).spec_machine_at(location) {
                Some(m) => Some(m.entity),
                None => None::<u64>,
            }),
            final(self).objects == old(self).objects,
            final(self).tick_timer == old(self).tick_timer,
            final(self).spec_machine_at(location) is None,
            forall|q: GridPos|
                q != location ==> final(self).spec_machine_at(q) == old(self).spec_machine_at(q),
            old(self).spec_machine_at(location) is None ==> final(self).machines == old(
                self,
            ).machines,
            old(self).spec_machine_at(location) is Some ==> final(self).machines@.len() == old(
                self,
            ).machines@.len() - 1,
    {
        let n = self.machines.len();
        let mut i: usize = 0;
        while i < n
            invariant
                *self == *old(self),
                n == self.machines@.len(),
                i <= n,
                self.wf(),
                forall|j: int| 0 <= j < i ==> (#[trigger] self.machines@[j]).pos != location,
            decreases n - i,
        {
            if self.machines[i].pos == location {
                let entity = self.machines[i].entity;
                proof {
                    lemma_machine_lookup_at_index(self.machines@, i as int);
                    lemma_machine_swap_remove(self.machines@, i as int);
                }
                self.machines.swap_remove(i);
                return Some(entity);
            }
            i += 1;
        }
        proof {
            assert(!has_machine_at(self.machines@, location));
        }
        None
    }

    /// Removes the object at `location`, if one sits there, and returns
    /// the handle of its visual representation so the caller can despawn
    /// it; a no-op returning `None` when the cell has no object.
    /// Removal is by swap-and-pop; order is not preserved.
    pub fn remove_object(&mut self, location: GridPos) -> (removed: Option<u64>)
        requires
            old(self).wf(),
        ensures
            final(self).wf(),
            removed == (match old(self).spec_object_at(location) {
                Some(o) => Some(o.entity),
                None => None::<u64>,
            }),
            final(self).machines == old(self).machines,
            final(self).tick_timer == old(self).tick_timer,
            final(self).spec_object_at(location) is None,
            forall|q: GridPos|
                q != location ==> final(self).spec_object_at(q) == old(self).spec_object_at(q),
            old(self).spec_object_at(location) is None ==> final(self).objects == old(
                self,
            ).objects,
            old(self).spec_object_at(location) is Some ==> final(self).objects@.len() == old(
                self,
            ).objects@.len() - 1,
    {
        let n = self.objects.len();
        let mut i: usize = 0;
        while i < n
            invariant
                *self == *old(self),
                n == self.objects@.len(),
                i <= n,
                self.wf(),
                forall|j: int| 0 <= j < i ==> (#[trigger] self.objects@[j]).pos != location,
            decreases n - i,
        {
            if self.objects[i].pos == location {
                let entity = self.objects[i].entity;
                proof {
                    lemma_object_lookup_at_index(self.objects@, i as int);
                    lemma_object_swap_remove(self.objects@, i as int);
                }
                self.objects.swap_remove(i);
                return Some(entity);
            }
            i += 1;
        }
        proof {
            assert(!has_object_at(self.objects@, location));
        }
        None
    }

    /// Returns a mutable borrow of the object sitting at `location`,
    /// if any; the caller's writes through it land at that object's
    /// slot, and the rest of the world is untouched.
    pub fn get_object_at_mut(&mut self, location: GridPos) -> (r: Option<&mut GridObject>)
        requires
            objects_distinct(old(self).objects@),
        ensures
            r is Some <==> has_object_at(old(self).objects@, location),
            r is None ==> *final(self) == *old(self),
            r matches Some(obj) ==> {
                &&& *obj == old(self).objects@[object_index_at(old(self).objects@, location)]
                &&& final(self).machines == old(self).machines
                &&& final(self).tick_timer == old(self).tick_timer
                &&& final(self).objects@ == old(self).objects@.update(
                    object_index_at(old(self).objects@, location),
                    *final(obj),
                )
            },
    {
        let n = self.objects.len();
        let mut i: usize = 0;
        while i < n
            invariant
                *self == *old(self),
                n == self.objects@.len(),
                i <= n,
                objects_distinct(self.objects@),
                forall|j: int| 0 <= j < i ==> (#[trigger] self.objects@[j]).pos != location,
            decreases n - i,
        {
            if self.objects[i].pos == location {
                proof {
                    assert(has_object_at(self.objects@, location));
                    let j = object_index_at(self.objects@, location);
                    if j != i {
                        assert(self.objects@[j as int].pos != self.objects@[i as int].pos);
                    }
                }
                return Some(&mut self.objects[i]);
            }
            i += 1;
        }
        proof {
            assert(!has_object_at(self.objects@, location));
        }
        None
    }

    /// Returns the machine standing at `location`, if any.
    pub fn get_machine_at(&self, location: GridPos) -> (r: Option<Machine>)
        requires
            machines_distinct(self.machines@),
        ensures
            r == self.spec_machine_at(location),
    {
        let n = self.machines.len();
        let mut i: usize = 0;
        while i < n
            invariant
                n == self.machines@.len(),
                i <= n,
                machines_distinct(self.machines@),
                forall|j: int| 0 <= j < i ==> (#[trigger] self.machines@[j]).pos != location,
            decreases n - i,
        {
            if self.machines[i].pos == location {
                proof {
                    lemma_machine_lookup_at_index(self.machines@, i as int);
                }
                return Some(self.machines[i]);
            }
            i += 1;
        }
        proof {
            assert(!has_machine_at(self.machines@, location));
        }
        None
    }

    /// Index into the object list of the object sitting at `location`,
    /// if any.
    pub(crate) fn find_object_index(&self, location: GridPos) -> (r: Option<usize>)
        requires
            objects_distinct(self.objects@),
        ensures
            match r {
                Some(i) => {
                    &&& i < self.objects@.len()
                    &&& self.objects@[i as int].pos == location
                    &&& object_index_at(self.objects@, location) == i
                    &&& has_object_at(self.objects@, location)
                },
                None => !has_object_at(self.objects@, location),
            },
    {
        let n = self.objects.len();
        let mut i: usize = 0;
        while i < n
            invariant
                n == self.objects@.len(),
                i <= n,
                objects_distinct(self.objects@),
                forall|j: int| 0 <= j < i ==> (#[trigger] self.objects@[j]).pos != location,
            decreases n - i,
        {
            if self.objects[i].pos == location {
                proof {
                    assert(has_object_at(self.objects@, location));
                    let j = object_index_at(self.objects@, location);
                    if j != i {
                        assert(self.objects@[j as int].pos != self.objects@[i as int].pos);
                    }
                }
                return Some(i);
            }
            i += 1;
        }
        proof {
            assert(!has_object_at(self.objects@, location));
        }
        None
    }

    /// Returns the object sitting at `location`, if any.
    pub fn get_object_at(&self, location: GridPos) -> (r: Option<GridObject>)
        requires
            objects_distinct(self.objects@),
        ensures
            r == self.spec_object_at(location),
    {
        let n = self.objects.len();
        let mut i: usize = 0;
        while i < n
            invariant
                n == self.objects@.len(),
                i <= n,
                objects_distinct(self.objects@),
                forall|j: int| 0 <= j < i ==> (#[trigger] self.objects@[j]).pos != location,
            decreases n - i,
        {
            if self.objects[i].pos == location {
                proof {
                    lemma_object_lookup_at_index(self.objects@, i as int);
                }
                return Some(self.objects[i]);
            }
            i += 1;
        }
        proof {
            assert(!has_object_at(self.objects@, location));
        }
        None
    }
}

impl Default for GridWorld {
    /// An empty world with a fresh one-second tick timer.
    fn default() -> (w: GridWorld)
        ensures
            w.wf(),
            w.machines@.len() == 0,
            w.objects@.len() == 0,
            w.tick_timer == (TickTimer { elapsed_ms: 0, period_ms: TICK_PERIOD_MS }),
    {
        GridWorld {
            tick_timer: TickTimer::new(TICK_PERIOD_MS),
            machines: Vec::new(),
            objects: Vec::new(),
        }
    }
}

} // verus!
