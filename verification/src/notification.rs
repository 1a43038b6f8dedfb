//! Change notifications that the registry publishes to its observers.

use crate::action::ActionState;
use vstd::prelude::*;

verus! {

/// One message to the observers of a registry.
#[derive(Clone, Copy, Debug, PartialEq, Eq, Structural)]
pub enum Notification {
    /// At `position`, `removed` entries left the list and `added` entries
    /// took their place.
    EntriesChanged { position: u32, removed: u32, added: u32 },
    /// The number of entries may have changed.
    LenChanged,
    /// The number of entries in the given state may have changed.
    CountChanged(ActionState),
}

/// What is published when an operation changes state: one message for each
/// of the four per-state counts.
pub open spec fn state_counts_changed() -> Seq<Notification> {
    seq![
        Notification::CountChanged(ActionState::Ongoing),
        Notification::CountChanged(ActionState::Finished),
        Notification::CountChanged(ActionState::Cancelled),
        Notification::CountChanged(ActionState::Failed),
    ]
}

/// What is published when the list itself changes: the change, then the
/// length, then the four per-state counts.
pub open spec fn entries_changed(position: u32, removed: u32, added: u32) -> Seq<Notification> {
    seq![Notification::EntriesChanged { position, removed, added }, Notification::LenChanged]
        + state_counts_changed()
}

} // verus!
