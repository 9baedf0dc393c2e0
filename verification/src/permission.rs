//! The file-mode bits that enable or revoke non-root access to a hidraw node.
use vstd::prelude::*;

use crate::state::spec_is_enabled;

verus! {

/// The mode given to a node: `0o660` (owner and group may read and write)
/// when enabled, `0o600` (owner only) when disabled.
pub open spec fn spec_permission_mode(enabled: bool) -> u32 {
    if enabled {
        0o660
    } else {
        0o600
    }
}

/// Whether a node's mode lets non-root users reach it: some group or world
/// read or write bit is set.
pub open spec fn spec_mode_grants_access(mode: u32) -> bool {
    mode & 0o066 != 0
}

/// The mode to set on a device node for the given enabled state.
pub fn permission_mode(enabled: bool) -> (mode: u32)
    ensures
        mode == spec_permission_mode(enabled),
{
    if enabled {
        0o660
    } else {
        0o600
    }
}

/// True if the world/group bits of `mode` allow non-root access.
pub fn mode_grants_access(mode: u32) -> (r: bool)
    ensures
        r == spec_mode_grants_access(mode),
{
    mode & 0o066 != 0
}

/// Reading back the mode that was applied for an enabled state gives that
/// state again: an enabled node is reachable by non-root users, a disabled one is not.
pub proof fn lemma_applied_mode_reads_back(enabled: bool)
    ensures
        spec_mode_grants_access(spec_permission_mode(enabled)) == enabled,
{
    assert((0o660u32 & 0o066u32) != 0) by (bit_vector);
    assert((0o600u32 & 0o066u32) == 0) by (bit_vector);
}

/// A saved choice survives re-plugging: once the state records `enabled` for
/// a device identity, the mode that is applied to a node of that device when
/// it is plugged in grants access exactly when `enabled` is true, whatever
/// was saved before and for other devices.
pub proof fn lemma_saved_choice_drives_access(
    state: Map<Seq<char>, bool>,
    id: Seq<char>,
    enabled: bool,
)
    ensures
        spec_is_enabled(state.insert(id, enabled), id) == enabled,
        spec_mode_grants_access(
            spec_permission_mode(spec_is_enabled(state.insert(id, enabled), id)),
        ) == enabled,
{
    lemma_applied_mode_reads_back(enabled);
}

/// The enabled state that `list` shows for a device: the one its first node's
/// mode gives, and disabled when the device has no node or its first node
/// could not be inspected.
pub fn shown_enabled(first_node_mode: Option<u32>) -> (enabled: bool)
    ensures
        enabled == match first_node_mode {
            Some(mode) => spec_mode_grants_access(mode),
            None => false,
        },
{
    match first_node_mode {
        Some(mode) => mode_grants_access(mode),
        None => false,
    }
}

} // verus!
