//! Game state of th095 v1.02a.

use crate::replay::{InputAddr, ReplayStateLayout};
use vstd::prelude::*;

verus! {

/// The layout of the replay state.
pub fn replay_state() -> (layout: ReplayStateLayout)
    ensures
        layout.defect() is None,
        layout == (ReplayStateLayout {
            mgr_ptr_addr: 0x004c_4e74,
            mgr_mode_offset: 0,
            viewer_mode: 1,
            input_addr: InputAddr::Direct(0x004b_e218),
            input_shoot_bit: 0x2,
            input_focus_bit: 0x4,
            input_skip_bit: 0x100,
        }),
{
    ReplayStateLayout {
        mgr_ptr_addr: 0x004c_4e74,
        mgr_mode_offset: 0,
        viewer_mode: 1,
        input_addr: InputAddr::Direct(0x004b_e218),
        input_shoot_bit: 0x2,
        input_focus_bit: 0x4,
        input_skip_bit: 0x100,
    }
}

} // verus!
