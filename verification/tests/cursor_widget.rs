//! Cursor movement and the placement widget.

use cheese_factory::cursor::{update_cursor, Cursor};
use cheese_factory::grid::GridPos;
use cheese_factory::widget::MachinePlacementWidget;
use cheese_factory::world::MachineType;

fn cursor_at(x: u32, y: u32) -> Cursor {
    Cursor { pos: GridPos::new(x, y), cursor: 100, camera: 101 }
}

#[test]
fn cursor_moves_one_cell_per_press() {
    let mut c = cursor_at(5, 5);
    update_cursor(&mut c, true, false, false, false, false);
    assert_eq!(c.pos, GridPos::new(6, 5));
    update_cursor(&mut c, false, false, true, false, false);
    assert_eq!(c.pos, GridPos::new(6, 6));
    update_cursor(&mut c, false, true, false, true, false);
    assert_eq!(c.pos, GridPos::new(5, 5));
    assert_eq!(c.cursor, 100);
    assert_eq!(c.camera, 101);
}

#[test]
fn opposite_keys_cancel() {
    let mut c = cursor_at(10, 10);
    update_cursor(&mut c, true, true, true, true, false);
    assert_eq!(c.pos, GridPos::new(10, 10));
}

#[test]
fn speed_modifier_moves_ten_cells() {
    let mut c = cursor_at(20, 20);
    update_cursor(&mut c, true, false, false, true, true);
    assert_eq!(c.pos, GridPos::new(30, 10));
}

#[test]
fn cursor_clamps_to_the_grid() {
    let mut c = cursor_at(0, 63);
    update_cursor(&mut c, false, true, true, false, false);
    assert_eq!(c.pos, GridPos::new(0, 63));

    let mut c = cursor_at(58, 3);
    update_cursor(&mut c, true, false, false, true, true);
    assert_eq!(c.pos, GridPos::new(63, 0));
}

#[test]
fn widget_starts_as_conveyor_facing_plus_x() {
    let w = MachinePlacementWidget::new(7);
    assert_eq!(w.dir, 0);
    assert_eq!(w.entity, 7);
    assert_eq!(w.selected_machine, Some(MachineType::ConveyorBelt));
}

#[test]
fn widget_rotation_wraps_both_ways() {
    let mut w = MachinePlacementWidget::new(7);
    w.rotate_ccw();
    assert_eq!(w.dir, 1);
    w.rotate_ccw();
    w.rotate_ccw();
    w.rotate_ccw();
    assert_eq!(w.dir, 0);
    w.rotate_cw();
    assert_eq!(w.dir, 3);
    w.rotate_cw();
    assert_eq!(w.dir, 2);
}

#[test]
fn widget_selection_switches_tool() {
    let mut w = MachinePlacementWidget::new(7);
    w.select(Some(MachineType::Target));
    assert_eq!(w.selected_machine, Some(MachineType::Target));
    w.select(None);
    assert_eq!(w.selected_machine, None);
    // Rotation survives tool changes.
    w.rotate_ccw();
    w.select(Some(MachineType::Grater));
    assert_eq!(w.dir, 1);
}
