//! Timer semantics: sub-threshold time accumulates, a threshold
//! crossing fires exactly once and drops the excess.

use cheese_factory::grid::GridPos;
use cheese_factory::timer::TickTimer;
use cheese_factory::world::{GridObjectType, GridWorld, MachineType};

#[test]
fn sub_threshold_advances_never_fire() {
    let mut t = TickTimer::new(1000);
    assert!(!t.advance(400));
    assert_eq!(t.elapsed_ms, 400);
    assert!(!t.advance(400));
    assert_eq!(t.elapsed_ms, 800);
    assert!(!t.advance(199));
    assert_eq!(t.elapsed_ms, 999);
}

#[test]
fn reaching_the_period_fires_once_and_resets_to_zero() {
    let mut t = TickTimer::new(1000);
    assert!(!t.advance(999));
    assert!(t.advance(1));
    assert_eq!(t.elapsed_ms, 0);
    // The next advance starts accumulating from scratch.
    assert!(!t.advance(999));
    assert_eq!(t.elapsed_ms, 999);
}

#[test]
fn excess_time_is_dropped_not_carried_forward() {
    let mut t = TickTimer::new(1000);
    assert!(t.advance(2500));
    assert_eq!(t.elapsed_ms, 0);
    assert!(!t.advance(999));
    assert_eq!(t.elapsed_ms, 999);
}

#[test]
fn world_tick_fires_a_step_only_at_the_period() {
    let mut w = GridWorld::default();
    let here = GridPos::new(5, 5);
    assert!(w.create_machine(MachineType::ConveyorBelt, here, 0, 1));
    assert!(w.create_object(GridObjectType::Cheese, here, 2));

    assert!(w.tick(400).is_none());
    assert!(w.tick(400).is_none());
    // Nothing has moved yet.
    assert_eq!(w.get_object_at(here).unwrap().entity, 2);
    assert_eq!(w.tick_timer.elapsed_ms, 800);

    // 800 + 300 crosses the one-second period: exactly one step fires.
    assert!(w.tick(300).is_some());
    assert_eq!(w.tick_timer.elapsed_ms, 0);
    assert!(w.get_object_at(here).is_none());
    assert_eq!(w.get_object_at(GridPos::new(6, 5)).unwrap().entity, 2);
}
