//! Tick-engine scenarios: conveyors, graters, targets, blocked moves.

use cheese_factory::grid::GridPos;
use cheese_factory::world::{GridObjectType, GridWorld, MachineType};

const TICK: u32 = 1000;

#[test]
fn conveyor_moves_object_one_cell_then_it_rests() {
    let mut w = GridWorld::default();
    let here = GridPos::new(5, 5);
    let there = GridPos::new(6, 5);
    assert!(w.create_machine(MachineType::ConveyorBelt, here, 0, 1));
    assert!(w.create_object(GridObjectType::Cheese, here, 2));

    let report = w.tick(TICK).unwrap();
    assert!(report.transmuted.is_empty());
    assert!(report.despawned.is_empty());
    assert!(w.get_object_at(here).is_none());
    let o = w.get_object_at(there).unwrap();
    assert_eq!(o.kind, GridObjectType::Cheese);
    assert_eq!(o.entity, 2);

    // No machine under the new cell: a second tick leaves it where it is.
    let report = w.tick(TICK).unwrap();
    assert!(report.despawned.is_empty());
    let o = w.get_object_at(there).unwrap();
    assert_eq!(o.pos, there);
}

#[test]
fn blocked_move_leaves_both_objects_in_place() {
    let mut w = GridWorld::default();
    let here = GridPos::new(5, 5);
    let there = GridPos::new(6, 5);
    assert!(w.create_machine(MachineType::ConveyorBelt, here, 0, 1));
    assert!(w.create_object(GridObjectType::Cheese, here, 2));
    assert!(w.create_object(GridObjectType::Milk, there, 3));

    w.tick(TICK).unwrap();
    assert_eq!(w.get_object_at(here).unwrap().entity, 2);
    assert_eq!(w.get_object_at(there).unwrap().entity, 3);
}

#[test]
fn grater_grates_cheese_and_moves_it_in_the_same_tick() {
    let mut w = GridWorld::default();
    let here = GridPos::new(5, 5);
    let above = GridPos::new(5, 6);
    assert!(w.create_machine(MachineType::Grater, here, 1, 1));
    assert!(w.create_object(GridObjectType::Cheese, here, 2));

    let report = w.tick(TICK).unwrap();
    assert_eq!(report.transmuted, vec![(2, GridObjectType::GratedCheese)]);
    assert!(report.despawned.is_empty());
    assert!(w.get_object_at(here).is_none());
    let o = w.get_object_at(above).unwrap();
    assert_eq!(o.kind, GridObjectType::GratedCheese);
    assert_eq!(o.entity, 2);
}

#[test]
fn grater_moves_milk_without_grating_it() {
    let mut w = GridWorld::default();
    let here = GridPos::new(10, 10);
    let left = GridPos::new(9, 10);
    assert!(w.create_machine(MachineType::Grater, here, 2, 1));
    assert!(w.create_object(GridObjectType::Milk, here, 2));

    let report = w.tick(TICK).unwrap();
    assert!(report.transmuted.is_empty());
    let o = w.get_object_at(left).unwrap();
    assert_eq!(o.kind, GridObjectType::Milk);
}

#[test]
fn blocked_grater_still_grates_in_place() {
    let mut w = GridWorld::default();
    let here = GridPos::new(5, 5);
    let above = GridPos::new(5, 6);
    assert!(w.create_machine(MachineType::Grater, here, 1, 1));
    assert!(w.create_object(GridObjectType::Cheese, here, 2));
    assert!(w.create_object(GridObjectType::Milk, above, 3));

    let report = w.tick(TICK).unwrap();
    assert_eq!(report.transmuted, vec![(2, GridObjectType::GratedCheese)]);
    let o = w.get_object_at(here).unwrap();
    assert_eq!(o.kind, GridObjectType::GratedCheese);
    assert_eq!(w.get_object_at(above).unwrap().entity, 3);
}

#[test]
fn target_consumes_any_object_kind_in_one_tick() {
    let kinds = vec![GridObjectType::Cheese, GridObjectType::Milk, GridObjectType::GratedCheese];
    for kind in kinds {
        let mut w = GridWorld::default();
        let here = GridPos::new(30, 30);
        assert!(w.create_machine(MachineType::Target, here, 0, 1));
        assert!(w.create_object(kind, here, 2));

        let report = w.tick(TICK).unwrap();
        assert_eq!(report.despawned, vec![2]);
        assert!(report.transmuted.is_empty());
        assert!(w.get_object_at(here).is_none());
        assert!(w.objects.is_empty());
        // The target itself stays.
        assert_eq!(w.get_machine_at(here).unwrap().kind, MachineType::Target);
    }
}

#[test]
fn cow_and_milker_are_inert() {
    let mut w = GridWorld::default();
    let a = GridPos::new(2, 2);
    let b = GridPos::new(3, 3);
    assert!(w.create_machine(MachineType::Cow, a, 0, 1));
    assert!(w.create_machine(MachineType::Milker, b, 1, 2));
    assert!(w.create_object(GridObjectType::Cheese, a, 3));
    assert!(w.create_object(GridObjectType::Milk, b, 4));

    let report = w.tick(TICK).unwrap();
    assert!(report.transmuted.is_empty());
    assert!(report.despawned.is_empty());
    assert_eq!(w.get_object_at(a).unwrap().kind, GridObjectType::Cheese);
    assert_eq!(w.get_object_at(b).unwrap().kind, GridObjectType::Milk);
}

#[test]
fn object_without_machine_is_inert() {
    let mut w = GridWorld::default();
    let p = GridPos::new(50, 50);
    assert!(w.create_object(GridObjectType::Cheese, p, 9));
    w.tick(TICK).unwrap();
    assert_eq!(w.get_object_at(p).unwrap().entity, 9);
}

#[test]
fn conveyor_at_grid_edge_keeps_object_on_grid() {
    let mut w = GridWorld::default();
    let edge = GridPos::new(63, 8);
    assert!(w.create_machine(MachineType::ConveyorBelt, edge, 0, 1));
    assert!(w.create_object(GridObjectType::Cheese, edge, 2));

    w.tick(TICK).unwrap();
    // The step toward +X would leave the grid, so the object stays put.
    assert_eq!(w.get_object_at(edge).unwrap().entity, 2);
}

#[test]
fn moves_apply_in_scan_order() {
    let mut w = GridWorld::default();
    let first = GridPos::new(5, 5);
    let second = GridPos::new(6, 5);
    let third = GridPos::new(7, 5);
    assert!(w.create_machine(MachineType::ConveyorBelt, first, 0, 1));
    assert!(w.create_machine(MachineType::ConveyorBelt, second, 0, 2));
    assert!(w.create_object(GridObjectType::Cheese, first, 3));
    assert!(w.create_object(GridObjectType::Milk, second, 4));

    w.tick(TICK).unwrap();
    // The first object's move is decided first and finds its destination
    // still occupied; the second object then moves away.
    assert_eq!(w.get_object_at(first).unwrap().entity, 3);
    assert!(w.get_object_at(second).is_none());
    assert_eq!(w.get_object_at(third).unwrap().entity, 4);
}

#[test]
fn conveyor_then_target_pipeline_consumes_cheese() {
    let mut w = GridWorld::default();
    let belt = GridPos::new(5, 5);
    let goal = GridPos::new(6, 5);
    assert!(w.create_machine(MachineType::ConveyorBelt, belt, 0, 1));
    assert!(w.create_machine(MachineType::Target, goal, 0, 2));
    assert!(w.create_object(GridObjectType::Cheese, belt, 3));

    let report = w.tick(TICK).unwrap();
    assert!(report.despawned.is_empty());
    assert_eq!(w.get_object_at(goal).unwrap().entity, 3);

    let report = w.tick(TICK).unwrap();
    assert_eq!(report.despawned, vec![3]);
    assert!(w.objects.is_empty());
}
