//! keylauncher: which hidraw nodes form which Keychron keyboard, the saved
//! per-keyboard enable/disable choice, and the file modes and setup texts
//! that enforce it.
use vstd::prelude::*;

pub mod device;
pub mod grouping;
pub mod permission;
pub mod scan;
pub mod setup;
pub mod state;
pub mod text;

verus! {

/// The USB vendor id of Keychron devices.
pub const KEYCHRON_VID: u16 = 0x3434;

} // verus!
