//! The tick engine: one discrete simulation step, and the timer-driven
//! entry point that fires it.
//!
//! A step runs in two passes.  Pass one reads the current layout only
//! and decides, for every object, what the machine on its cell does to
//! it: a conveyor belt moves it one cell along the belt's facing; a
//! target consumes it; a grater turns cheese into grated cheese and
//! also moves it along its facing; cows and milkers are inert.  Pass
//! two applies the decisions in a fixed order: first all transmutations,
//! then all removals, then all moves.  Moves are applied one at a time
//! in the order the objects were scanned; a move whose destination cell
//! is off the grid or already occupied by another object is dropped for
//! this step (the object stays put and the intent is recomputed from
//! scratch next step).

use vstd::prelude::*;
use crate::grid::{dir_wf, spec_neighbor, neighbor, GridPos};
use crate::world::{
    has_object_at, machine_lookup, machines_wf, object_index_at, objects_distinct, objects_wf,
    GridObject, GridObjectType, GridWorld, Machine, MachineType,
};

verus! {

/// A movement decision from pass one: the object that sat at `from` is
/// to move one cell in direction `dir`.
#[derive(Clone, Copy, PartialEq, Eq, Structural, Debug)]
pub struct MoveIntent {
    pub from: GridPos,
    pub dir: u8,
}

impl MoveIntent {
    /// The source cell is on the grid and the direction is encoded
    /// `0..4`.
    pub open spec fn wf(self) -> bool {
        self.from.in_bounds() && dir_wf(self.dir)
    }
}

/// What a simulation step asks of the rendering collaborator.
pub struct StepReport {
    /// Handles of the objects whose kind changed, with the new kind the
    /// visual must be swapped to.
    pub transmuted: Vec<(u64, GridObjectType)>,
    /// Handles of the objects consumed by targets, whose visuals must
    /// be despawned.
    pub despawned: Vec<u64>,
}

/// Pass-one decision: the machine on `o`'s cell is a grater and `o` is
/// cheese, so `o`'s kind changes to grated cheese this step.
pub open spec fn grates_cheese(ms: Seq<Machine>, o: GridObject) -> bool {
    &&& o.kind == GridObjectType::Cheese
    &&& machine_lookup(ms, o.pos) matches Some(m) && m.kind == MachineType::Grater
}

/// Pass-one decision: the machine on `o`'s cell is a target, so `o` is
/// consumed this step, whatever its kind.
pub open spec fn consumed(ms: Seq<Machine>, o: GridObject) -> bool {
    machine_lookup(ms, o.pos) matches Some(m) && m.kind == MachineType::Target
}

/// Pass-one decision: the direction `o` intends to move in, if the
/// machine on its cell moves objects (a conveyor belt or a grater).
pub open spec fn mover_dir(ms: Seq<Machine>, o: GridObject) -> Option<u8> {
    match machine_lookup(ms, o.pos) {
        Some(m) => if m.kind == MachineType::ConveyorBelt || m.kind == MachineType::Grater {
            Some(m.dir)
        } else {
            None
        },
        None => None,
    }
}

/// `o` after the transmutation pass: grated when a grater grates it,
/// unchanged otherwise.  Position and visual handle never change here.
pub open spec fn transmuted_one(ms: Seq<Machine>, o: GridObject) -> GridObject {
    if grates_cheese(ms, o) {
        GridObject { kind: GridObjectType::GratedCheese, entity: o.entity, pos: o.pos }
    } else {
        o
    }
}

/// The object list after the transmutation pass.
pub open spec fn after_transmutes(ms: Seq<Machine>, objs: Seq<GridObject>) -> Seq<GridObject> {
    objs.map_values(|o: GridObject| transmuted_one(ms, o))
}

/// The visual swaps the transmutation pass asks for, in scan order.
pub open spec fn transmute_report(ms: Seq<Machine>, objs: Seq<GridObject>) -> Seq<
    (u64, GridObjectType),
>
    decreases objs.len(),
{
    if objs.len() == 0 {
        Seq::empty()
    } else {
        let rest = transmute_report(ms, objs.drop_last());
        if grates_cheese(ms, objs.last()) {
            rest.push((objs.last().entity, GridObjectType::GratedCheese))
        } else {
            rest
        }
    }
}

/// The object list after the removal pass: the objects not sitting on a
/// target, in scan order.
pub open spec fn after_removals(ms: Seq<Machine>, objs: Seq<GridObject>) -> Seq<GridObject>
    decreases objs.len(),
{
    if objs.len() == 0 {
        Seq::empty()
    } else {
        let rest = after_removals(ms, objs.drop_last());
        if consumed(ms, objs.last()) {
            rest
        } else {
            rest.push(objs.last())
        }
    }
}

/// The visual despawns the removal pass asks for, in scan order.
pub open spec fn despawn_report(ms: Seq<Machine>, objs: Seq<GridObject>) -> Seq<u64>
    decreases objs.len(),
{
    if objs.len() == 0 {
        Seq::empty()
    } else {
        let rest = despawn_report(ms, objs.drop_last());
        if consumed(ms, objs.last()) {
            rest.push(objs.last().entity)
        } else {
            rest
        }
    }
}

/// The movement intents of pass one, in scan order over the pre-step
/// object list.
pub open spec fn move_list(ms: Seq<Machine>, objs: Seq<GridObject>) -> Seq<MoveIntent>
    decreases objs.len(),
{
    if objs.len() == 0 {
        Seq::empty()
    } else {
        let rest = move_list(ms, objs.drop_last());
        match mover_dir(ms, objs.last()) {
            Some(d) => rest.push(MoveIntent { from: objs.last().pos, dir: d }),
            None => rest,
        }
    }
}

/// One move applied to the current object list: the object at `from`
/// (if it is still there) steps to the neighboring cell in direction
/// `dir`, unless that cell is off the grid or an object already
/// occupies it, in which case nothing changes.
pub open spec fn apply_move(objs: Seq<GridObject>, from: GridPos, dir: u8) -> Seq<GridObject> {
    if has_object_at(objs, from) {
        let i = object_index_at(objs, from);
        match spec_neighbor(from, dir) {
            Some(dest) => if has_object_at(objs, dest) {
                objs
            } else {
                objs.update(i, GridObject { kind: objs[i].kind, entity: objs[i].entity, pos: dest })
            },
            None => objs,
        }
    } else {
        objs
    }
}

/// The moves of `moves` applied one after another, front to back.
pub open spec fn apply_moves(objs: Seq<GridObject>, moves: Seq<MoveIntent>) -> Seq<GridObject>
    decreases moves.len(),
{
    if moves.len() == 0 {
        objs
    } else {
        apply_move(apply_moves(objs, moves.drop_last()), moves.last().from, moves.last().dir)
    }
}

/// The whole step, as pass one followed by pass two: transmute, then
/// remove, then move, all decided from the pre-step layout `objs` and
/// the machines `ms`.
pub open spec fn step_objects(ms: Seq<Machine>, objs: Seq<GridObject>) -> Seq<GridObject> {
    apply_moves(after_removals(ms, after_transmutes(ms, objs)), move_list(ms, objs))
}

/// The transmutation pass keeps the list's length and every object's
/// position and handle, and preserves distinctness and
/// well-formedness.
pub proof fn lemma_after_transmutes_wf(ms: Seq<Machine>, objs: Seq<GridObject>)
    ensures
        after_transmutes(ms, objs).len() == objs.len(),
        forall|i: int|
            0 <= i < objs.len() ==> (#[trigger] after_transmutes(ms, objs)[i]) == transmuted_one(
                ms,
                objs[i],
            ),
        objects_distinct(objs) ==> objects_distinct(after_transmutes(ms, objs)),
        objects_wf(objs) ==> objects_wf(after_transmutes(ms, objs)),
{
    let post = after_transmutes(ms, objs);
    assert forall|i: int| 0 <= i < objs.len() implies (#[trigger] post[i]) == transmuted_one(
        ms,
        objs[i],
    ) by {}
    if objects_distinct(objs) {
        assert forall|i: int, j: int|
            0 <= i < j < post.len() implies (#[trigger] post[i]).pos != (#[trigger] post[j]).pos by {
            assert(post[i].pos == objs[i].pos && post[j].pos == objs[j].pos);
        }
    }
    if objects_wf(objs) {
        assert forall|i: int| 0 <= i < post.len() implies (#[trigger] post[i]).wf() by {
            assert(objs[i].wf());
            assert(post[i].pos == objs[i].pos);
        }
    }
}

/// The removal pass keeps only objects of the input list, and preserves
/// distinctness and well-formedness.
pub proof fn lemma_after_removals_wf(ms: Seq<Machine>, objs: Seq<GridObject>)
    requires
        objects_distinct(objs),
    ensures
        objects_distinct(after_removals(ms, objs)),
        objects_wf(objs) ==> objects_wf(after_removals(ms, objs)),
        forall|k: int|
            0 <= k < after_removals(ms, objs).len() ==> objs.contains(
                #[trigger] after_removals(ms, objs)[k],
            ),
    decreases objs.len(),
{
    let post = after_removals(ms, objs);
    if objs.len() == 0 {
    } else {
        let head = objs.drop_last();
        lemma_after_removals_wf(ms, head);
        let rest = after_removals(ms, head);
        assert forall|k: int| 0 <= k < rest.len() implies objs.contains(#[trigger] rest[k]) by {
            assert(head.contains(rest[k]));
            let j = choose|j: int| 0 <= j < head.len() && head[j] == rest[k];
            assert(objs[j] == rest[k]);
        }
        if consumed(ms, objs.last()) {
            assert(post == rest);
        } else {
            assert(post == rest.push(objs.last()));
            assert(objs.contains(objs.last())) by {
                assert(objs[objs.len() - 1] == objs.last());
            }
            assert forall|i: int, j: int|
                0 <= i < j < post.len() implies (#[trigger] post[i]).pos != (
            #[trigger] post[j]).pos by {
                if j == rest.len() {
                    assert(post[j] == objs.last());
                    assert(head.contains(rest[i]));
                    let i0 = choose|i0: int| 0 <= i0 < head.len() && head[i0] == rest[i];
                    assert(objs[i0] == post[i]);
                    assert(objs[i0].pos != objs[objs.len() - 1].pos);
                } else {
                    assert(post[i] == rest[i] && post[j] == rest[j]);
                }
            }
            if objects_wf(objs) {
                assert forall|i: int| 0 <= i < post.len() implies (#[trigger] post[i]).wf() by {
                    if i < rest.len() {
                        assert(objects_wf(head)) by {
                            assert(forall|t: int|
                                0 <= t < head.len() ==> (#[trigger] head[t]) == objs[t]);
                        }
                        assert(rest[i].wf());
                    } else {
                        assert(post[i] == objs.last());
                        assert(objs[objs.len() - 1].wf());
                    }
                }
            }
        }
        if consumed(ms, objs.last()) && objects_wf(objs) {
            assert(objects_wf(head)) by {
                assert(forall|t: int| 0 <= t < head.len() ==> (#[trigger] head[t]) == objs[t]);
            }
        }
    }
}

/// Every movement intent of pass one is well-formed: its source cell is
/// the position of a well-formed object and its direction comes from a
/// well-formed machine.
pub proof fn lemma_move_list_wf(ms: Seq<Machine>, objs: Seq<GridObject>)
    requires
        machines_wf(ms),
        objects_wf(objs),
    ensures
        forall|k: int| 0 <= k < move_list(ms, objs).len() ==> (#[trigger] move_list(ms, objs)[k]).wf(),
    decreases objs.len(),
{
    if objs.len() > 0 {
        let head = objs.drop_last();
        assert(objects_wf(head)) by {
            assert(forall|t: int| 0 <= t < head.len() ==> (#[trigger] head[t]) == objs[t]);
        }
        lemma_move_list_wf(ms, head);
        let rest = move_list(ms, head);
        match mover_dir(ms, objs.last()) {
            Some(d) => {
                assert(objs[objs.len() - 1].wf());
                assert(dir_wf(d)) by {
                    assert(crate::world::has_machine_at(ms, objs.last().pos));
                    let i = crate::world::machine_index_at(ms, objs.last().pos);
                    assert(ms[i].wf());
                }
                let intent = MoveIntent { from: objs.last().pos, dir: d };
                assert(intent.wf());
                assert(move_list(ms, objs) == rest.push(intent));
                assert forall|k: int| 0 <= k < move_list(ms, objs).len() implies (
                #[trigger] move_list(ms, objs)[k]).wf() by {
                    if k < rest.len() {
                        assert(move_list(ms, objs)[k] == rest[k]);
                    } else {
                        assert(move_list(ms, objs)[k] == intent);
                    }
                }
            },
            None => {
                assert(move_list(ms, objs) == rest);
            },
        }
    }
}

/// One applied move keeps the list's length, every object's kind and
/// handle at its index, and preserves distinctness and well-formedness.
pub proof fn lemma_apply_move_wf(objs: Seq<GridObject>, from: GridPos, dir: u8)
    requires
        objects_distinct(objs),
        objects_wf(objs),
    ensures
        apply_move(objs, from, dir).len() == objs.len(),
        objects_distinct(apply_move(objs, from, dir)),
        objects_wf(apply_move(objs, from, dir)),
{
    let post = apply_move(objs, from, dir);
    if has_object_at(objs, from) {
        let i = object_index_at(objs, from);
        assert(0 <= i < objs.len() && objs[i].pos == from);
        match spec_neighbor(from, dir) {
            Some(dest) => {
                if !has_object_at(objs, dest) {
                    let moved = GridObject {
                        kind: objs[i].kind,
                        entity: objs[i].entity,
                        pos: dest,
                    };
                    assert(post == objs.update(i, moved));
                    assert(dest.in_bounds());
                    assert forall|j: int, k: int|
                        0 <= j < k < post.len() implies (#[trigger] post[j]).pos != (
                    #[trigger] post[k]).pos by {
                        if j != i && k != i {
                            assert(post[j] == objs[j] && post[k] == objs[k]);
                        } else {
                            let other = if j == i { k } else { j };
                            assert(post[other] == objs[other]);
                            assert(objs[other].pos != dest);
                        }
                    }
                    assert forall|j: int| 0 <= j < post.len() implies (#[trigger] post[j]).wf() by {
                        if j != i {
                            assert(post[j] == objs[j]);
                            assert(objs[j].wf());
                        }
                    }
                }
            },
            None => {},
        }
    }
}

/// The moves of a list applied in order preserve length, distinctness
/// and well-formedness.
pub proof fn lemma_apply_moves_wf(objs: Seq<GridObject>, moves: Seq<MoveIntent>)
    requires
        objects_distinct(objs),
        objects_wf(objs),
    ensures
        apply_moves(objs, moves).len() == objs.len(),
        objects_distinct(apply_moves(objs, moves)),
        objects_wf(apply_moves(objs, moves)),
    decreases moves.len(),
{
    if moves.len() > 0 {
        lemma_apply_moves_wf(objs, moves.drop_last());
        lemma_apply_move_wf(apply_moves(objs, moves.drop_last()), moves.last().from,
            moves.last().dir);
    }
}

impl GridWorld {
    /// Runs one simulation step: decides every object's fate from the
    /// current layout, then applies all transmutations, then all
    /// removals, then all moves in scan order.  Returns the visual
    /// swaps and despawns the rendering collaborator must perform.
    pub fn step(&mut self) -> (report: StepReport)
        requires
            old(self).wf(),
        ensures
            final(self).wf(),
            final(self).machines == old(self).machines,
            final(self).tick_timer == old(self).tick_timer,
            final(self).objects@ == step_objects(old(self).machines@, old(self).objects@),
            report.transmuted@ == transmute_report(old(self).machines@, old(self).objects@),
            report.despawned@ == despawn_report(old(self).machines@, old(self).objects@),
    {
        let ghost ms = self.machines@;
        let ghost objs0 = self.objects@;
        let n = self.objects.len();

        // Pass one: record the movement intents from the pre-step layout.
        let mut moves: Vec<MoveIntent> = Vec::new();
        let mut i: usize = 0;
        while i < n
            invariant
                *self == *old(self),
                old(self).wf(),
                ms == self.machines@,
                objs0 == self.objects@,
                n == objs0.len(),
                i <= n,
                moves@ == move_list(ms, objs0.take(i as int)),
            decreases n - i,
        {
            let o = self.objects[i];
            let mach = self.get_machine_at(o.pos);
            proof {
                assert(objs0.take(i as int + 1).drop_last() =~= objs0.take(i as int));
                assert(objs0.take(i as int + 1).last() == objs0[i as int]);
            }
            match mach {
                Some(m) => {
                    if matches!(m.kind, MachineType::ConveyorBelt | MachineType::Grater) {
                        moves.push(MoveIntent { from: o.pos, dir: m.dir });
                    }
                },
                None => {},
            }
            i += 1;
        }
        proof {
            assert(objs0.take(n as int) =~= objs0);
            lemma_move_list_wf(ms, objs0);
        }

        // Pass two, first phase: apply all transmutations.
        let mut transmuted: Vec<(u64, GridObjectType)> = Vec::new();
        let mut i: usize = 0;
        while i < n
            invariant
                old(self).wf(),
                self.machines == old(self).machines,
                self.tick_timer == old(self).tick_timer,
                ms == self.machines@,
                objs0 == old(self).objects@,
                n == objs0.len(),
                self.objects@.len() == n,
                i <= n,
                forall|j: int|
                    0 <= j < i ==> (#[trigger] self.objects@[j]) == transmuted_one(ms, objs0[j]),
                forall|j: int| i <= j < n ==> (#[trigger] self.objects@[j]) == objs0[j],
                transmuted@ == transmute_report(ms, objs0.take(i as int)),
            decreases n - i,
        {
            let o = self.objects[i];
            let mach = self.get_machine_at(o.pos);
            let grating = matches!(o.kind, GridObjectType::Cheese) && (match mach {
                Some(m) => matches!(m.kind, MachineType::Grater),
                None => false,
            });
            proof {
                assert(objs0.take(i as int + 1).drop_last() =~= objs0.take(i as int));
                assert(objs0.take(i as int + 1).last() == objs0[i as int]);
                assert(grating == grates_cheese(ms, objs0[i as int]));
            }
            if grating {
                self.objects[i] = GridObject {
                    kind: GridObjectType::GratedCheese,
                    entity: o.entity,
                    pos: o.pos,
                };
                transmuted.push((o.entity, GridObjectType::GratedCheese));
            }
            i += 1;
        }
        proof {
            assert(objs0.take(n as int) =~= objs0);
            lemma_after_transmutes_wf(ms, objs0);
            assert(self.objects@ =~= after_transmutes(ms, objs0));
        }

        // Pass two, second phase: apply all removals.
        let ghost objs1 = self.objects@;
        let mut kept: Vec<GridObject> = Vec::new();
        let mut despawned: Vec<u64> = Vec::new();
        let mut i: usize = 0;
        while i < n
            invariant
                old(self).wf(),
                self.machines == old(self).machines,
                self.tick_timer == old(self).tick_timer,
                ms == self.machines@,
                objs1 == self.objects@,
                n == objs1.len(),
                i <= n,
                kept@ == after_removals(ms, objs1.take(i as int)),
                despawned@ == despawn_report(ms, objs1.take(i as int)),
            decreases n - i,
        {
            let o = self.objects[i];
            let mach = self.get_machine_at(o.pos);
            let consuming = match mach {
                Some(m) => matches!(m.kind, MachineType::Target),
                None => false,
            };
            proof {
                assert(objs1.take(i as int + 1).drop_last() =~= objs1.take(i as int));
                assert(objs1.take(i as int + 1).last() == objs1[i as int]);
                assert(consuming == consumed(ms, objs1[i as int]));
            }
            if consuming {
                despawned.push(o.entity);
            } else {
                kept.push(o);
            }
            i += 1;
        }
        self.objects = kept;
        proof {
            assert(objs1.take(n as int) =~= objs1);
            lemma_after_transmutes_wf(ms, objs0);
            lemma_after_removals_wf(ms, objs1);
            lemma_reports_after_transmutes(ms, objs0);
            assert(self.objects@ == after_removals(ms, after_transmutes(ms, objs0)));
        }

        // Pass two, third phase: apply the moves in scan order.
        let ghost objs2 = self.objects@;
        let ghost all_moves = moves@;
        let m_count = moves.len();
        let mut k: usize = 0;
        while k < m_count
            invariant
                old(self).wf(),
                self.machines == old(self).machines,
                self.tick_timer == old(self).tick_timer,
                ms == self.machines@,
                m_count == all_moves.len(),
                k <= m_count,
                moves@ == all_moves,
                forall|t: int| 0 <= t < all_moves.len() ==> (#[trigger] all_moves[t]).wf(),
                objects_distinct(objs2),
                objects_wf(objs2),
                self.objects@ == apply_moves(objs2, all_moves.take(k as int)),
            decreases m_count - k,
        {
            let mv = moves[k];
            let ghost before = self.objects@;
            proof {
                lemma_apply_moves_wf(objs2, all_moves.take(k as int));
                assert(all_moves.take(k as int + 1).drop_last() =~= all_moves.take(k as int));
                assert(all_moves.take(k as int + 1).last() == all_moves[k as int]);
            }
            match self.find_object_index(mv.from) {
                Some(idx) => {
                    match neighbor(mv.from, mv.dir) {
                        Some(dest) => {
                            if self.get_object_at(dest).is_none() {
                                let o = self.objects[idx];
                                self.objects[idx] = GridObject {
                                    kind: o.kind,
                                    entity: o.entity,
                                    pos: dest,
                                };
                                proof {
                                    assert(self.objects@ == apply_move(before, mv.from, mv.dir));
                                }
                            } else {
                                proof {
                                    assert(self.objects@ == apply_move(before, mv.from, mv.dir));
                                }
                            }
                        },
                        None => {
                            proof {
                                assert(self.objects@ == apply_move(before, mv.from, mv.dir));
                            }
                        },
                    }
                },
                None => {
                    proof {
                        assert(self.objects@ == apply_move(before, mv.from, mv.dir));
                    }
                },
            }
            k += 1;
        }
        proof {
            assert(all_moves.take(m_count as int) =~= all_moves);
            lemma_apply_moves_wf(objs2, all_moves);
        }
        StepReport { transmuted, despawned }
    }

    /// Advances the tick timer by `delta_ms` milliseconds of real time;
    /// when the accumulated time reaches the period, runs exactly one
    /// simulation step, resets the accumulator to zero, and returns the
    /// step's report.  Sub-threshold time only accumulates.
    pub fn tick(&mut self, delta_ms: u32) -> (report: Option<StepReport>)
        requires
            old(self).wf(),
        ensures
            final(self).wf(),
            final(self).machines == old(self).machines,
            final(self).tick_timer == old(self).tick_timer.spec_advance(delta_ms),
            report is Some <==> old(self).tick_timer.fires(delta_ms),
            report matches Some(r) ==> {
                &&& final(self).objects@ == step_objects(old(self).machines@, old(self).objects@)
                &&& r.transmuted@ == transmute_report(old(self).machines@, old(self).objects@)
                &&& r.despawned@ == despawn_report(old(self).machines@, old(self).objects@)
            },
            report is None ==> final(self).objects == old(self).objects,
    {
        let fired = self.tick_timer.advance(delta_ms);
        if fired {
            Some(self.step())
        } else {
            None
        }
    }
}

/// Removal decisions and despawn handles ignore an object's kind, so
/// the transmutation pass changes neither.
pub proof fn lemma_reports_after_transmutes(ms: Seq<Machine>, objs: Seq<GridObject>)
    ensures
        despawn_report(ms, after_transmutes(ms, objs)) == despawn_report(ms, objs),
    decreases objs.len(),
{
    let post = after_transmutes(ms, objs);
    if objs.len() == 0 {
        assert(post =~= Seq::<GridObject>::empty());
    } else {
        assert(post.drop_last() =~= after_transmutes(ms, objs.drop_last()));
        assert(post.last() == transmuted_one(ms, objs.last()));
        lemma_reports_after_transmutes(ms, objs.drop_last());
        assert(transmuted_one(ms, objs.last()).pos == objs.last().pos);
        assert(transmuted_one(ms, objs.last()).entity == objs.last().entity);
        assert(consumed(ms, post.last()) == consumed(ms, objs.last()));
    }
}

} // verus!
