//! Placement, removal and lookup on the grid world.

use cheese_factory::grid::GridPos;
use cheese_factory::world::{GridObjectType, GridWorld, MachineType};

#[test]
fn place_then_query_machine() {
    let mut w = GridWorld::default();
    let p = GridPos::new(5, 5);
    assert!(w.create_machine(MachineType::ConveyorBelt, p, 0, 11));
    let m = w.get_machine_at(p).unwrap();
    assert_eq!(m.kind, MachineType::ConveyorBelt);
    assert_eq!(m.dir, 0);
    assert_eq!(m.pos, p);
    assert_eq!(m.entity, 11);
}

#[test]
fn second_machine_at_same_cell_fails_and_first_stays() {
    let mut w = GridWorld::default();
    let p = GridPos::new(9, 3);
    assert!(w.create_machine(MachineType::Grater, p, 2, 21));
    assert!(!w.create_machine(MachineType::Target, p, 0, 22));
    let m = w.get_machine_at(p).unwrap();
    assert_eq!(m.kind, MachineType::Grater);
    assert_eq!(m.dir, 2);
    assert_eq!(m.entity, 21);
    assert_eq!(w.machines.len(), 1);
}

#[test]
fn machines_and_objects_may_share_a_cell() {
    let mut w = GridWorld::default();
    let p = GridPos::new(0, 63);
    assert!(w.create_machine(MachineType::Cow, p, 1, 1));
    assert!(w.create_object(GridObjectType::Milk, p, 2));
    assert!(w.get_machine_at(p).is_some());
    assert!(w.get_object_at(p).is_some());
}

#[test]
fn lookup_on_empty_cell_is_none() {
    let w = GridWorld::default();
    assert!(w.get_machine_at(GridPos::new(0, 0)).is_none());
    assert!(w.get_object_at(GridPos::new(63, 63)).is_none());
}

#[test]
fn second_object_at_same_cell_fails() {
    let mut w = GridWorld::default();
    let p = GridPos::new(7, 7);
    assert!(w.create_object(GridObjectType::Cheese, p, 31));
    assert!(!w.create_object(GridObjectType::Milk, p, 32));
    let o = w.get_object_at(p).unwrap();
    assert_eq!(o.kind, GridObjectType::Cheese);
    assert_eq!(o.entity, 31);
    assert_eq!(w.objects.len(), 1);
}

#[test]
fn remove_object_hands_handle_back_exactly_once() {
    let mut w = GridWorld::default();
    let p = GridPos::new(12, 34);
    assert!(w.create_object(GridObjectType::GratedCheese, p, 77));
    assert_eq!(w.remove_object(p), Some(77));
    assert!(w.get_object_at(p).is_none());
    assert_eq!(w.remove_object(p), None);
}

#[test]
fn remove_machine_hands_handle_back_exactly_once() {
    let mut w = GridWorld::default();
    let p = GridPos::new(40, 2);
    assert!(w.create_machine(MachineType::Milker, p, 3, 55));
    assert_eq!(w.remove_machine(p), Some(55));
    assert!(w.get_machine_at(p).is_none());
    assert_eq!(w.remove_machine(p), None);
}

#[test]
fn removal_leaves_other_cells_alone() {
    let mut w = GridWorld::default();
    let a = GridPos::new(1, 1);
    let b = GridPos::new(2, 1);
    let c = GridPos::new(3, 1);
    assert!(w.create_machine(MachineType::ConveyorBelt, a, 0, 1));
    assert!(w.create_machine(MachineType::Target, b, 0, 2));
    assert!(w.create_machine(MachineType::Grater, c, 0, 3));
    assert_eq!(w.remove_machine(b), Some(2));
    assert_eq!(w.get_machine_at(a).unwrap().entity, 1);
    assert_eq!(w.get_machine_at(c).unwrap().entity, 3);
    assert!(w.get_machine_at(b).is_none());
    assert_eq!(w.machines.len(), 2);
}

#[test]
fn get_object_at_mut_edits_in_place() {
    let mut w = GridWorld::default();
    let p = GridPos::new(20, 20);
    assert!(w.create_object(GridObjectType::Cheese, p, 9));
    {
        let o = w.get_object_at_mut(p).unwrap();
        o.kind = GridObjectType::GratedCheese;
    }
    assert_eq!(w.get_object_at(p).unwrap().kind, GridObjectType::GratedCheese);
    assert!(w.get_object_at_mut(GridPos::new(21, 20)).is_none());
}

#[test]
fn default_world_is_empty_with_one_second_timer() {
    let w = GridWorld::default();
    assert!(w.machines.is_empty());
    assert!(w.objects.is_empty());
    assert_eq!(w.tick_timer.period_ms, 1000);
    assert_eq!(w.tick_timer.elapsed_ms, 0);
}
