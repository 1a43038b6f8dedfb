//! The mathematical model of the registry: an ordered sequence of
//! operations, the id counter, and the notifications not yet collected.

use crate::action::{ActionState, ActionTypeView, ActionView};
use crate::notification::{entries_changed, state_counts_changed, Notification};
use vstd::prelude::*;

verus! {

/// The predicate "is in state `state`".
pub open spec fn in_state(state: ActionState) -> spec_fn(ActionView) -> bool {
    |action: ActionView| action.state == state
}

/// The notifications of one bulk prune of `entries`: every entry that is not
/// `Ongoing` is reported as one removal at the position it had before the
/// prune, highest position first.
pub open spec fn prune_notifications(entries: Seq<ActionView>) -> Seq<Notification>
    decreases entries.len(),
{
    if entries.len() == 0 {
        Seq::empty()
    } else {
        let rest = prune_notifications(entries.drop_last());
        if entries.last().state != ActionState::Ongoing {
            entries_changed((entries.len() - 1) as u32, 1, 0) + rest
        } else {
            rest
        }
    }
}

/// Mathematical model of an `ActionList`.
pub struct ActionListView {
    /// The operations, in insertion order.
    pub entries: Seq<ActionView>,
    /// The id that the next registered operation gets.
    pub next_id: nat,
    /// Published notifications that no observer has collected yet, oldest first.
    pub notifications: Seq<Notification>,
}

impl ActionListView {
    /// The registry of a new session: no entries, ids start at 0.
    pub open spec fn empty() -> ActionListView {
        ActionListView { entries: Seq::empty(), next_id: 0, notifications: Seq::empty() }
    }

    /// Every entry is well-formed, ids grow strictly along the list, and the
    /// counter is above every id in it.
    pub open spec fn wf(self) -> bool {
        &&& self.next_id <= u32::MAX
        &&& forall|i: int| 0 <= i < self.entries.len() ==> (#[trigger] self.entries[i]).wf()
        &&& forall|i: int|
            0 <= i < self.entries.len() ==> (#[trigger] self.entries[i]).id < self.next_id
        &&& forall|i: int, j: int|
            0 <= i < j < self.entries.len() ==> (#[trigger] self.entries[i]).id < (
            #[trigger] self.entries[j]).id
    }

    /// Whether an entry with this id is in the list.
    pub open spec fn contains(self, id: u32) -> bool {
        exists|i: int| 0 <= i < self.entries.len() && (#[trigger] self.entries[i]).id == id
    }

    /// The position of the entry with this id, where there is one.
    pub open spec fn position(self, id: u32) -> int {
        choose|i: int| 0 <= i < self.entries.len() && (#[trigger] self.entries[i]).id == id
    }

    /// The entry with this id, if any.
    pub open spec fn get(self, id: u32) -> Option<ActionView> {
        if self.contains(id) {
            Some(self.entries[self.position(id)])
        } else {
            None
        }
    }

    /// Whether the list has an entry with this id that is still `Ongoing`.
    pub open spec fn is_ongoing(self, id: u32) -> bool {
        self.contains(id) && self.entries[self.position(id)].state == ActionState::Ongoing
    }

    /// Whether a cancel request for this id reaches a workflow: the list has
    /// the entry, it is `Ongoing`, and it has a cancel handle.
    pub open spec fn can_signal_cancel(self, id: u32) -> bool {
        self.contains(id) && self.entries[self.position(id)].can_signal_cancel()
    }

    /// The number of entries in the given state.
    pub open spec fn count(self, state: ActionState) -> nat {
        self.entries.filter(in_state(state)).len()
    }

    /// The registry after registering a new operation of the given kind: it
    /// gets the current counter value as its id and goes to the end of the list.
    pub open spec fn inserted(self, kind: ActionTypeView) -> ActionListView {
        ActionListView {
            entries: self.entries.push(ActionView::created(kind, self.next_id as u32, true)),
            next_id: self.next_id + 1,
            notifications: self.notifications + entries_changed(self.entries.len() as u32, 0, 1),
        }
    }

    /// The registry after removing the entry with this id. Nothing changes
    /// when there is no such entry.
    pub open spec fn removed(self, id: u32) -> ActionListView {
        if self.contains(id) {
            ActionListView {
                entries: self.entries.remove(self.position(id)),
                notifications: self.notifications + entries_changed(
                    self.position(id) as u32,
                    1,
                    0,
                ),
                ..self
            }
        } else {
            self
        }
    }

    /// The registry after a bulk prune: exactly the `Ongoing` entries stay,
    /// in their order.
    pub open spec fn cleaned_up(self) -> ActionListView {
        ActionListView {
            entries: self.entries.filter(in_state(ActionState::Ongoing)),
            notifications: self.notifications + prune_notifications(self.entries),
            ..self
        }
    }

    /// The registry after an attempt to move the entry with this id to the
    /// terminal state `to`. Only an `Ongoing` entry changes, and only then
    /// are the per-state counts announced.
    pub open spec fn settled(
        self,
        id: u32,
        to: ActionState,
        error: Option<Seq<char>>,
    ) -> ActionListView {
        if self.is_ongoing(id) {
            ActionListView {
                entries: self.entries.update(
                    self.position(id),
                    self.entries[self.position(id)].settled(to, error),
                ),
                notifications: self.notifications + state_counts_changed(),
                ..self
            }
        } else {
            self
        }
    }

    /// The registry after a cancel request for the entry with this id. No
    /// state changes, so nothing is published.
    pub open spec fn cancel_requested(self, id: u32) -> ActionListView {
        if self.contains(id) {
            ActionListView {
                entries: self.entries.update(
                    self.position(id),
                    self.entries[self.position(id)].cancel_requested(),
                ),
                ..self
            }
        } else {
            self
        }
    }

    /// The registry after an observer collected the pending notifications.
    pub open spec fn drained(self) -> ActionListView {
        ActionListView { notifications: Seq::empty(), ..self }
    }

    /// In a well-formed registry an id stands at one position only.
    pub proof fn lemma_position(self, id: u32, i: int)
        requires
            self.wf(),
            0 <= i < self.entries.len(),
            self.entries[i].id == id,
        ensures
            self.contains(id),
            self.position(id) == i,
            self.get(id) == Some(self.entries[i]),
    {
        let p = self.position(id);
        if p < i {
            assert(self.entries[p].id < self.entries[i].id);
        } else if i < p {
            assert(self.entries[i].id < self.entries[p].id);
        }
    }

    /// Taking one entry out keeps a registry well-formed.
    pub proof fn lemma_remove_keeps_wf(self, i: int)
        requires
            self.wf(),
            0 <= i < self.entries.len(),
        ensures
            (ActionListView { entries: self.entries.remove(i), ..self }).wf(),
    {
        let after = self.entries.remove(i);
        assert forall|k: int| 0 <= k < after.len() implies (#[trigger] after[k]).wf()
            && after[k].id < self.next_id by {
            if k < i {
                assert(after[k] == self.entries[k]);
            } else {
                assert(after[k] == self.entries[k + 1]);
            }
        }
        assert forall|a: int, b: int| 0 <= a < b < after.len() implies (#[trigger] after[a]).id
            < (#[trigger] after[b]).id by {
            let a0 = if a < i {
                a
            } else {
                a + 1
            };
            let b0 = if b < i {
                b
            } else {
                b + 1
            };
            assert(after[a] == self.entries[a0]);
            assert(after[b] == self.entries[b0]);
            assert(self.entries[a0].id < self.entries[b0].id);
        }
    }

    /// In a well-formed registry the entry at position `i` has an id of at
    /// least `i`, so the list is never longer than the counter is high.
    pub proof fn lemma_len_bounded(self)
        requires
            self.wf(),
        ensures
            self.entries.len() <= self.next_id,
            self.entries.len() <= u32::MAX,
    {
        let n = self.entries.len();
        if n > 0 {
            lemma_increasing_ids_bound(self.entries, n - 1);
            assert(self.entries[n - 1].id < self.next_id);
        }
    }
}

/// Along a list whose ids grow strictly, the id at position `i` is at least `i`.
pub proof fn lemma_increasing_ids_bound(entries: Seq<ActionView>, i: int)
    requires
        0 <= i < entries.len(),
        forall|a: int, b: int|
            0 <= a < b < entries.len() ==> (#[trigger] entries[a]).id < (#[trigger] entries[b]).id,
    ensures
        entries[i].id >= i,
    decreases i,
{
    if i > 0 {
        lemma_increasing_ids_bound(entries, i - 1);
        assert(entries[i - 1].id < entries[i].id);
    }
}

} // verus!
