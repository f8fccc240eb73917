//! The machine-placement widget: the player's current tool.
//!
//! The widget holds the machine kind selected for placement — `None`
//! meaning the delete tool — and the facing the next machine will be
//! placed with.  Two commands rotate the pending facing a quarter turn
//! either way, wrapping modulo four.

use vstd::prelude::*;
use crate::grid::dir_wf;
use crate::world::MachineType;

verus! {

/// The pending placement tool shown beside the cursor.
pub struct MachinePlacementWidget {
    /// Facing the next machine will be placed with, encoded `0..4`.
    pub dir: u8,
    /// Opaque handle to the widget's visual representation.
    pub entity: u64,
    /// The machine kind to place, or `None` for the delete tool.
    pub selected_machine: Option<MachineType>,
}

impl MachinePlacementWidget {
    /// The pending facing is a valid encoding.
    pub open spec fn wf(self) -> bool {
        dir_wf(self.dir)
    }

    /// A fresh widget: a conveyor belt facing `+X`, as the scene starts
    /// with.
    pub fn new(entity: u64) -> (w: MachinePlacementWidget)
        ensures
            w == (MachinePlacementWidget {
                dir: 0u8,
                entity,
                selected_machine: Some(MachineType::ConveyorBelt),
            }),
            w.wf(),
    {
        MachinePlacementWidget { dir: 0, entity, selected_machine: Some(MachineType::ConveyorBelt) }
    }

    /// Rotates the pending facing a quarter turn counterclockwise:
    /// one more, modulo four.
    pub fn rotate_ccw(&mut self)
        requires
            old(self).wf(),
        ensures
            final(self).wf(),
            final(self).dir == (old(self).dir + 1) % 4,
            final(self).entity == old(self).entity,
            final(self).selected_machine == old(self).selected_machine,
    {
        self.dir = (self.dir + 1) % 4;
    }

    /// Rotates the pending facing a quarter turn clockwise: one less,
    /// modulo four (wrapping from `0` to `3`).
    pub fn rotate_cw(&mut self)
        requires
            old(self).wf(),
        ensures
            final(self).wf(),
            final(self).dir == (old(self).dir + 3) % 4,
            final(self).entity == old(self).entity,
            final(self).selected_machine == old(self).selected_machine,
    {
        self.dir = (self.dir + 3) % 4;
    }

    /// Selects the machine kind to place, or the delete tool.
    pub fn select(&mut self, selection: Option<MachineType>)
        requires
            old(self).wf(),
        ensures
            final(self).wf(),
            final(self).selected_machine == selection,
            final(self).dir == old(self).dir,
            final(self).entity == old(self).entity,
    {
        self.selected_machine = selection;
    }
}

} // verus!
