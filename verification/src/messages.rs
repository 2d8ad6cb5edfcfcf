use vstd::prelude::*;
use crate::ids::FrontendId;

verus! {

/// An enumeration of all the message types that can be sent by
/// the frontend manager.
#[derive(Clone, Debug, Eq, PartialEq, Structural)]
pub enum Message {
    AdapterDisappeared { id: u16 },
    FrontendAppeared { fei: FrontendId },
}

/// An inbound hotplug notification, as produced by the OS-level watcher
/// of the DVB device tree.
#[derive(Clone, Debug, Eq, PartialEq, Structural)]
pub enum HotplugEvent {
    AdapterAppeared { id: u16 },
    AdapterDisappeared { id: u16 },
}

/// What a filesystem metadata probe of one device path reported.
#[derive(Clone, Copy, Debug, Eq, PartialEq, Structural)]
pub enum FileStatus {
    /// The path does not exist (the metadata query failed).
    Absent,
    /// The path exists and is a character-special device file.
    CharDevice,
    /// The path exists but is some other kind of file.
    OtherType,
}

} // verus!
