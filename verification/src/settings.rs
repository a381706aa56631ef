//! The one switch that the user controls, and the patch that it stands for.

use crate::operation::{Operation, OperationView};
use crate::protocol::PROCESS_ALL_ACCESS;
use vstd::prelude::*;

verus! {

/// Where the patched instruction stands in the target.
pub const MAYA_PURPLE_OFFSET: usize = 0x00a9_c3a7;

/// The byte of the instruction as the target ships it.
pub const MAYA_PURPLE_STOCK_BYTE: u8 = 0x84;

/// The byte of the instruction while the switch is on.
pub const MAYA_PURPLE_MODIFIED_BYTE: u8 = 0x85;

/// The state of the switch. It is handed from whoever flips the switch to
/// whoever applies the patch; nothing else remembers it.
#[derive(Debug)]
pub struct Settings {
    pub maya_purple_hack: bool,
}

/// The bytes that stand at the patched address while the switch is in the
/// given state.
pub open spec fn patch_bytes(enabled: bool) -> Seq<u8> {
    if enabled {
        seq![MAYA_PURPLE_MODIFIED_BYTE]
    } else {
        seq![MAYA_PURPLE_STOCK_BYTE]
    }
}

impl Settings {
    /// Settings with the switch in the given state.
    pub fn new(maya_purple_hack: bool) -> (settings: Settings)
        ensures
            settings.maya_purple_hack == maya_purple_hack,
    {
        Settings { maya_purple_hack }
    }
}

/// Something with a switch that can be flipped.
pub trait Toggleable {
    /// Whether the switch is on.
    spec fn enabled(&self) -> bool;

    /// Flips the switch and gives the operation that brings the process
    /// `pid` in line with it: open the process, patch the byte that belongs
    /// to the new state, release the handle.
    fn toggle_maya_purple_hack(&mut self, pid: u32) -> (operation: Operation<'static>)
        ensures
            final(self).enabled() == !old(self).enabled(),
            operation@ == (OperationView::OpeningToPatch {
                desired_access: PROCESS_ALL_ACCESS,
                process_id: pid,
                address: MAYA_PURPLE_OFFSET,
                bytes: patch_bytes(final(self).enabled()),
            }),
    ;
}

impl Toggleable for Settings {
    open spec fn enabled(&self) -> bool {
        self.maya_purple_hack
    }

    fn toggle_maya_purple_hack(&mut self, pid: u32) -> (operation: Operation<'static>) {
        self.maya_purple_hack = !self.maya_purple_hack;
        let mut bytes: Vec<u8> = Vec::new();
        if self.maya_purple_hack {
            bytes.push(MAYA_PURPLE_MODIFIED_BYTE);
        } else {
            bytes.push(MAYA_PURPLE_STOCK_BYTE);
        }
        assert(bytes@ =~= patch_bytes(self.maya_purple_hack));
        Operation::opening_to_patch(PROCESS_ALL_ACCESS, pid, MAYA_PURPLE_OFFSET, bytes)
    }
}

} // verus!
