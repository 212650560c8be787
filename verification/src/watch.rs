//! The model of filesystem-watch notifications and the watcher's forwarding
//! decision. The OS watch handle and the channels live outside the library;
//! they hand events in as plain values.

use vstd::prelude::*;

verus! {

/// The kind of one filesystem notification.
#[derive(Debug, PartialEq, Eq, Structural, Clone, Copy)]
pub enum FsEventKind {
    Created,
    Modified,
    Removed,
    /// Anything else the notification source reports (access, renames, ...).
    Other,
}

/// One filesystem notification for a path under observation.
pub struct FsEvent {
    pub path: String,
    pub kind: FsEventKind,
}

/// The watcher's forwarding decision: a well-received notification is
/// forwarded to the channel unchanged; a notification error forwards nothing
/// (the caller logs the message and drops the event).
pub fn forward_decision(res: Result<FsEvent, String>) -> (r: Option<FsEvent>)
    ensures
        match res {
            Ok(e) => r == Some(e),
            Err(_) => r is None,
        },
{
    match res {
        Ok(e) => Some(e),
        Err(_) => None,
    }
}

} // verus!
