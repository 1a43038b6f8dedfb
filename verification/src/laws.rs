//! What holds of every registry and every operation, proved over the model.

use crate::action::{ActionState, ActionTypeView, ActionView};
use crate::list_view::{in_state, prune_notifications, ActionListView};
use crate::notification::{entries_changed, Notification};
use vstd::prelude::*;

verus! {

/// The registry after registering one operation for each element of
/// `kinds`, in order.
pub open spec fn inserted_all(list: ActionListView, kinds: Seq<ActionTypeView>) -> ActionListView
    decreases kinds.len(),
{
    if kinds.len() == 0 {
        list
    } else {
        inserted_all(list, kinds.drop_last()).inserted(kinds.last())
    }
}

/// Registering keeps the registry well-formed while ids are left.
pub proof fn lemma_inserted_wf(list: ActionListView, kind: ActionTypeView)
    requires
        list.wf(),
        list.next_id < u32::MAX,
    ensures
        list.inserted(kind).wf(),
{
    let after = list.inserted(kind);
    assert forall|i: int| 0 <= i < after.entries.len() implies (#[trigger] after.entries[i]).wf()
        && after.entries[i].id < after.next_id by {
        if i < list.entries.len() {
            assert(list.entries[i].wf());
            assert(list.entries[i].id < list.next_id);
        }
    }
    assert forall|i: int, j: int| 0 <= i < j < after.entries.len() implies (
    #[trigger] after.entries[i]).id < (#[trigger] after.entries[j]).id by {
        if j < list.entries.len() {
            assert(list.entries[i].id < list.entries[j].id);
        } else {
            assert(list.entries[i].id < list.next_id);
        }
    }
}

/// Ids are handed out in strictly increasing order and never twice: after
/// any number of registrations in a row, the `k`-th new entry has the id
/// `next_id + k`, where `next_id` is the counter before the first of them,
/// so each id is above the one before it and above every id that was in the
/// list. The entries that were there stay as they were.
pub proof fn lemma_insert_ids_strictly_increase(list: ActionListView, kinds: Seq<ActionTypeView>)
    requires
        list.wf(),
        list.next_id + kinds.len() <= u32::MAX,
    ensures
        inserted_all(list, kinds).wf(),
        inserted_all(list, kinds).next_id == list.next_id + kinds.len(),
        inserted_all(list, kinds).entries.len() == list.entries.len() + kinds.len(),
        forall|i: int|
            0 <= i < list.entries.len() ==> #[trigger] inserted_all(list, kinds).entries[i]
                == list.entries[i],
        forall|k: int|
            0 <= k < kinds.len() ==> (#[trigger] inserted_all(list, kinds).entries[list.entries.len()
                + k]).id == list.next_id + k,
        forall|j: int, k: int|
            0 <= j < k < kinds.len() ==> (#[trigger] inserted_all(
                list,
                kinds,
            ).entries[list.entries.len() + j]).id < (#[trigger] inserted_all(
                list,
                kinds,
            ).entries[list.entries.len() + k]).id,
        forall|i: int, k: int|
            0 <= i < list.entries.len() && 0 <= k < kinds.len() ==> (#[trigger] list.entries[i]).id
                < (#[trigger] inserted_all(list, kinds).entries[list.entries.len() + k]).id,
    decreases kinds.len(),
{
    if kinds.len() > 0 {
        let earlier = inserted_all(list, kinds.drop_last());
        lemma_insert_ids_strictly_increase(list, kinds.drop_last());
        lemma_inserted_wf(earlier, kinds.last());
        let all = inserted_all(list, kinds);
        assert(all == earlier.inserted(kinds.last()));
        assert forall|k: int| 0 <= k < kinds.len() implies (#[trigger] all.entries[
            list.entries.len() + k]).id == list.next_id + k by {
            if k < kinds.len() - 1 {
                assert(all.entries[list.entries.len() + k] == earlier.entries[list.entries.len()
                    + k]);
            }
        }
        assert forall|i: int| 0 <= i < list.entries.len() implies #[trigger] all.entries[i]
            == list.entries[i] by {
            assert(all.entries[i] == earlier.entries[i]);
        }
        assert forall|i: int, k: int|
            0 <= i < list.entries.len() && 0 <= k < kinds.len() implies (
        #[trigger] list.entries[i]).id < (#[trigger] all.entries[list.entries.len() + k]).id by {
            assert(list.entries[i].id < list.next_id);
        }
    }
}

/// The four per-state counts always add up to the length of the list.
pub proof fn lemma_counts_add_up_to_len(list: ActionListView)
    ensures
        list.count(ActionState::Ongoing) + list.count(ActionState::Finished) + list.count(
            ActionState::Cancelled,
        ) + list.count(ActionState::Failed) == list.entries.len(),
    decreases list.entries.len(),
{
    reveal(Seq::filter);
    if list.entries.len() > 0 {
        lemma_counts_add_up_to_len(ActionListView { entries: list.entries.drop_last(), ..list });
    }
}

/// A terminal state is final: once an operation was moved to a terminal
/// state, another attempt to move it anywhere leaves it exactly as it is.
pub proof fn lemma_terminal_state_is_final(
    action: ActionView,
    first: ActionState,
    first_error: Option<Seq<char>>,
    second: ActionState,
    second_error: Option<Seq<char>>,
)
    requires
        first != ActionState::Ongoing,
    ensures
        action.settled(first, first_error).settled(second, second_error) == action.settled(
            first,
            first_error,
        ),
        action.settled(first, first_error).state != ActionState::Ongoing,
{
}

/// The same in the registry: after one attempt to move an entry to a
/// terminal state, a second attempt on that entry changes nothing, neither
/// the entries nor the pending notifications.
pub proof fn lemma_second_settling_is_noop(
    list: ActionListView,
    id: u32,
    first: ActionState,
    first_error: Option<Seq<char>>,
    second: ActionState,
    second_error: Option<Seq<char>>,
)
    requires
        list.wf(),
        first != ActionState::Ongoing,
    ensures
        list.settled(id, first, first_error).settled(id, second, second_error) == list.settled(
            id,
            first,
            first_error,
        ),
{
    let once = list.settled(id, first, first_error);
    if list.is_ongoing(id) {
        let i = list.position(id);
        assert(once.entries[i].id == id);
        assert(once.entries[i].state != ActionState::Ongoing);
        assert forall|k: int| 0 <= k < once.entries.len() && (#[trigger] once.entries[k]).id
            == id implies k == i by {
            if k != i {
                assert(once.entries[k] == list.entries[k]);
                list.lemma_position(id, k);
            }
        }
        if once.contains(id) {
            assert(once.position(id) == i);
        }
    }
}

/// Registering and then looking up the id that was handed out finds the new
/// operation: it has that id, is `Ongoing`, and is of the kind registered.
pub proof fn lemma_get_after_insert(list: ActionListView, kind: ActionTypeView)
    requires
        list.wf(),
        list.next_id < u32::MAX,
    ensures
        list.inserted(kind).get(list.next_id as u32) == Some(
            ActionView::created(kind, list.next_id as u32, true),
        ),
        list.inserted(kind).get(list.next_id as u32)->0.id == list.next_id,
        list.inserted(kind).get(list.next_id as u32)->0.state == ActionState::Ongoing,
        list.inserted(kind).entries.len() == list.entries.len() + 1,
{
    lemma_inserted_wf(list, kind);
    list.inserted(kind).lemma_position(list.next_id as u32, list.entries.len() as int);
}

/// Removing keeps the registry well-formed.
pub proof fn lemma_removed_wf(list: ActionListView, id: u32)
    requires
        list.wf(),
    ensures
        list.removed(id).wf(),
{
    if list.contains(id) {
        list.lemma_remove_keeps_wf(list.position(id));
    }
}

/// After removing an entry that was in the list, a lookup of its id finds
/// nothing, the list is shorter by exactly one, and every other entry is
/// still found as before.
pub proof fn lemma_get_after_remove(list: ActionListView, id: u32)
    requires
        list.wf(),
        list.contains(id),
    ensures
        list.removed(id).get(id) is None,
        list.removed(id).entries.len() == list.entries.len() - 1,
        forall|other: u32| other != id ==> #[trigger] list.removed(id).get(other) == list.get(other),
{
    let p = list.position(id);
    let after = list.removed(id);
    lemma_removed_wf(list, id);
    assert forall|k: int| 0 <= k < after.entries.len() implies (#[trigger] after.entries[k]).id
        != id by {
        if k < p {
            assert(after.entries[k] == list.entries[k]);
            assert(list.entries[k].id < list.entries[p].id);
        } else {
            assert(after.entries[k] == list.entries[k + 1]);
            assert(list.entries[p].id < list.entries[k + 1].id);
        }
    }
    assert forall|other: u32| other != id implies #[trigger] after.get(other) == list.get(
        other,
    ) by {
        if list.contains(other) {
            let q = list.position(other);
            let q1 = if q < p {
                q
            } else {
                q - 1
            };
            assert(after.entries[q1] == list.entries[q]);
            after.lemma_position(other, q1);
        } else if after.contains(other) {
            let q1 = after.position(other);
            let q = if q1 < p {
                q1
            } else {
                q1 + 1
            };
            assert(after.entries[q1] == list.entries[q]);
        }
    }
}

/// Removing an id that is not in the list changes nothing.
pub proof fn lemma_remove_absent(list: ActionListView, id: u32)
    requires
        !list.contains(id),
    ensures
        list.removed(id) == list,
        list.removed(id).get(id) is None,
{
}

/// Whether `first` stands somewhere in `all` and `second` somewhere behind it.
pub open spec fn stands_before<A>(all: Seq<A>, first: A, second: A) -> bool {
    exists|p: int, q: int| 0 <= p < q < all.len() && all[p] == first && all[q] == second
}

/// What a predicate keeps of a sequence is taken from that sequence and
/// keeps its order: every element kept stands in the sequence, and of two
/// elements kept, the earlier one stands before the later one there.
pub proof fn lemma_filter_keeps_order<A>(all: Seq<A>, pred: spec_fn(A) -> bool)
    ensures
        forall|i: int|
            0 <= i < all.filter(pred).len() ==> all.contains(#[trigger] all.filter(pred)[i]),
        forall|i: int, j: int|
            0 <= i < j < all.filter(pred).len() ==> #[trigger] stands_before(
                all,
                all.filter(pred)[i],
                all.filter(pred)[j],
            ),
    decreases all.len(),
{
    reveal(Seq::filter);
    if all.len() > 0 {
        let front = all.drop_last();
        let kept = all.filter(pred);
        let last = all.len() - 1;
        lemma_filter_keeps_order(front, pred);
        assert forall|i: int| 0 <= i < kept.len() implies all.contains(#[trigger] kept[i]) by {
            if i < front.filter(pred).len() {
                assert(front.contains(front.filter(pred)[i]));
                let p = choose|p: int| 0 <= p < front.len() && front[p] == front.filter(pred)[i];
                assert(all[p] == kept[i]);
            } else {
                assert(all[last] == kept[i]);
            }
        }
        assert forall|i: int, j: int| 0 <= i < j < kept.len() implies #[trigger] stands_before(
            all,
            kept[i],
            kept[j],
        ) by {
            if j < front.filter(pred).len() {
                assert(stands_before(front, front.filter(pred)[i], front.filter(pred)[j]));
                let (p, q) = choose|p: int, q: int|
                    0 <= p < q < front.len() && front[p] == front.filter(pred)[i] && front[q]
                        == front.filter(pred)[j];
                assert(all[p] == kept[i] && all[q] == kept[j]);
            } else {
                assert(front.contains(front.filter(pred)[i]));
                let p = choose|p: int| 0 <= p < front.len() && front[p] == front.filter(pred)[i];
                assert(all[p] == kept[i] && all[last] == kept[j]);
            }
        }
    }
}

/// A bulk prune removes every entry that is not `Ongoing`, keeps every
/// entry that is, and keeps those in the order they had: what is left is
/// well-formed, holds `Ongoing` entries only, as many as there were, each
/// `Ongoing` entry of before is still in it, and any two entries of it stood
/// in the same order before.
pub proof fn lemma_clean_up_keeps_ongoing_in_order(list: ActionListView)
    requires
        list.wf(),
    ensures
        list.cleaned_up().wf(),
        list.cleaned_up().entries.len() == list.count(ActionState::Ongoing),
        list.cleaned_up().count(ActionState::Ongoing) == list.count(ActionState::Ongoing),
        list.cleaned_up().count(ActionState::Finished) == 0,
        list.cleaned_up().count(ActionState::Cancelled) == 0,
        list.cleaned_up().count(ActionState::Failed) == 0,
        forall|i: int|
            0 <= i < list.cleaned_up().entries.len() ==> (#[trigger] list.cleaned_up().entries[i]).state
                == ActionState::Ongoing,
        forall|p: int|
            0 <= p < list.entries.len() && (#[trigger] list.entries[p]).state
                == ActionState::Ongoing ==> list.cleaned_up().entries.contains(list.entries[p]),
        forall|i: int, j: int|
            0 <= i < j < list.cleaned_up().entries.len() ==> #[trigger] stands_before(
                list.entries,
                list.cleaned_up().entries[i],
                list.cleaned_up().entries[j],
            ),
{
    let ongoing = in_state(ActionState::Ongoing);
    let kept = list.entries.filter(ongoing);
    let after = list.cleaned_up();
    assert(after.entries == kept);
    lemma_filter_keeps_order(list.entries, ongoing);
    assert forall|i: int| 0 <= i < kept.len() implies (#[trigger] kept[i]).state
        == ActionState::Ongoing by {
        list.entries.lemma_filter_pred(ongoing, i);
    }
    assert forall|p: int|
        0 <= p < list.entries.len() && (#[trigger] list.entries[p]).state
            == ActionState::Ongoing implies kept.contains(list.entries[p]) by {
        list.entries.lemma_filter_contains(ongoing, p);
    }
    assert forall|i: int| 0 <= i < kept.len() implies (#[trigger] kept[i]).wf() && kept[i].id
        < list.next_id by {
        assert(list.entries.contains(kept[i]));
        let p = choose|p: int| 0 <= p < list.entries.len() && list.entries[p] == kept[i];
        assert(list.entries[p].wf());
    }
    assert forall|i: int, j: int| 0 <= i < j < kept.len() implies (#[trigger] kept[i]).id < (
    #[trigger] kept[j]).id by {
        assert(stands_before(list.entries, kept[i], kept[j]));
        let (p, q) = choose|p: int, q: int|
            0 <= p < q < list.entries.len() && list.entries[p] == kept[i] && list.entries[q]
                == kept[j];
        assert(list.entries[p].id < list.entries[q].id);
    }
    lemma_filter_of_uniform(kept, ActionState::Ongoing, ActionState::Ongoing);
    lemma_filter_of_uniform(kept, ActionState::Ongoing, ActionState::Finished);
    lemma_filter_of_uniform(kept, ActionState::Ongoing, ActionState::Cancelled);
    lemma_filter_of_uniform(kept, ActionState::Ongoing, ActionState::Failed);
}

/// In a list whose entries are all in one state, the entries in a given
/// state are all of them or none.
pub proof fn lemma_filter_of_uniform(entries: Seq<ActionView>, all: ActionState, state: ActionState)
    requires
        forall|i: int| 0 <= i < entries.len() ==> (#[trigger] entries[i]).state == all,
    ensures
        entries.filter(in_state(state)).len() == if state == all {
            entries.len()
        } else {
            0
        },
    decreases entries.len(),
{
    reveal(Seq::filter);
    if entries.len() > 0 {
        assert(entries.last() == entries[entries.len() - 1]);
        lemma_filter_of_uniform(entries.drop_last(), all, state);
    }
}

/// What one notification leaves of an observer's copy of the list: a
/// reported change takes out the entries it reports as removed; any other
/// notification leaves the copy as it is.
pub open spec fn without_reported(
    entries: Seq<ActionView>,
    notification: Notification,
) -> Seq<ActionView> {
    match notification {
        Notification::EntriesChanged { position, removed, added } => {
            if position + removed <= entries.len() {
                entries.subrange(0, position as int) + entries.subrange(
                    position + removed,
                    entries.len() as int,
                )
            } else {
                entries
            }
        },
        _ => entries,
    }
}

/// What a run of notifications, applied one after the other, leaves of an
/// observer's copy of the list.
pub open spec fn without_all_reported(
    entries: Seq<ActionView>,
    notifications: Seq<Notification>,
) -> Seq<ActionView>
    decreases notifications.len(),
{
    if notifications.len() == 0 {
        entries
    } else {
        without_all_reported(without_reported(entries, notifications[0]), notifications.skip(1))
    }
}

/// Applying two runs of notifications one after the other is applying
/// their concatenation.
pub proof fn lemma_without_all_reported_concat(
    entries: Seq<ActionView>,
    first: Seq<Notification>,
    second: Seq<Notification>,
)
    ensures
        without_all_reported(entries, first + second) == without_all_reported(
            without_all_reported(entries, first),
            second,
        ),
    decreases first.len(),
{
    if first.len() == 0 {
        assert(first + second =~= second);
    } else {
        assert((first + second)[0] == first[0]);
        assert((first + second).skip(1) =~= first.skip(1) + second);
        lemma_without_all_reported_concat(
            without_reported(entries, first[0]),
            first.skip(1),
            second,
        );
    }
}

/// The notifications of one removal at `position` take exactly the entry at
/// that position out of an observer's copy.
pub proof fn lemma_removal_reported_at_its_position(entries: Seq<ActionView>, position: u32)
    requires
        position < entries.len(),
    ensures
        without_all_reported(entries, entries_changed(position, 1, 0)) == entries.remove(
            position as int,
        ),
{
    let notifications = entries_changed(position, 1, 0);
    let after = entries.remove(position as int);
    assert(without_reported(entries, notifications[0]) =~= after);
    reveal_with_fuel(without_all_reported, 7);
    assert(notifications.len() == 6);
    assert(notifications.skip(1).skip(1).skip(1).skip(1).skip(1).skip(1).len() == 0);
}

/// The notifications of a bulk prune of `front`, applied to a copy that
/// holds `front` followed by anything, leave the `Ongoing` entries of
/// `front`, in order, followed by the same.
proof fn lemma_prune_reported_before_tail(front: Seq<ActionView>, tail: Seq<ActionView>)
    requires
        front.len() <= u32::MAX,
    ensures
        without_all_reported(front + tail, prune_notifications(front)) == front.filter(
            in_state(ActionState::Ongoing),
        ) + tail,
    decreases front.len(),
{
    let ongoing = in_state(ActionState::Ongoing);
    reveal(Seq::filter);
    if front.len() == 0 {
        assert(front + tail =~= front.filter(ongoing) + tail);
    } else {
        let rest = front.drop_last();
        let last = (front.len() - 1) as u32;
        if front.last().state != ActionState::Ongoing {
            lemma_without_all_reported_concat(
                front + tail,
                entries_changed(last, 1, 0),
                prune_notifications(rest),
            );
            lemma_removal_reported_at_its_position(front + tail, last);
            assert((front + tail).remove(last as int) =~= rest + tail);
            lemma_prune_reported_before_tail(rest, tail);
        } else {
            let longer = seq![front.last()] + tail;
            assert(front + tail =~= rest + longer);
            lemma_prune_reported_before_tail(rest, longer);
            assert(rest.filter(ongoing) + longer =~= front.filter(ongoing) + tail);
        }
    }
}

/// A bulk prune reports every removal at a position that is right at the
/// moment the observer hears of it: an observer that holds a copy of the
/// list and takes out, one notification after the other, what each reports
/// as removed, ends with exactly the pruned list.
pub proof fn lemma_clean_up_reports_positions_in_step(list: ActionListView)
    requires
        list.wf(),
    ensures
        without_all_reported(list.entries, prune_notifications(list.entries))
            == list.cleaned_up().entries,
{
    list.lemma_len_bounded();
    let none = Seq::<ActionView>::empty();
    lemma_prune_reported_before_tail(list.entries, none);
    assert(list.entries + none =~= list.entries);
    assert(list.entries.filter(in_state(ActionState::Ongoing)) + none =~= list.entries.filter(
        in_state(ActionState::Ongoing),
    ));
}

/// Replacing one entry moves at most one unit between the per-state
/// counts: the count of the state it had loses it, the count of the state it
/// has now gains it.
pub proof fn lemma_count_after_update(
    entries: Seq<ActionView>,
    i: int,
    replacement: ActionView,
    state: ActionState,
)
    requires
        0 <= i < entries.len(),
    ensures
        entries.update(i, replacement).filter(in_state(state)).len() == entries.filter(
            in_state(state),
        ).len() - (if entries[i].state == state {
            1int
        } else {
            0int
        }) + (if replacement.state == state {
            1int
        } else {
            0int
        }),
    decreases entries.len(),
{
    reveal(Seq::filter);
    let updated = entries.update(i, replacement);
    if i == entries.len() - 1 {
        assert(updated.drop_last() =~= entries.drop_last());
    } else {
        assert(updated.drop_last() =~= entries.drop_last().update(i, replacement));
        lemma_count_after_update(entries.drop_last(), i, replacement, state);
    }
}

/// A state change keeps the counts in step: when an `Ongoing` entry is
/// moved to a terminal state, the `Ongoing` count drops by one, the count of
/// that state grows by one, the other two counts and the length stay.
pub proof fn lemma_settling_moves_one_count(
    list: ActionListView,
    id: u32,
    to: ActionState,
    error: Option<Seq<char>>,
)
    requires
        list.wf(),
        list.is_ongoing(id),
        to != ActionState::Ongoing,
    ensures
        list.settled(id, to, error).entries.len() == list.entries.len(),
        list.settled(id, to, error).count(ActionState::Ongoing) == list.count(ActionState::Ongoing)
            - 1,
        list.settled(id, to, error).count(to) == list.count(to) + 1,
        forall|state: ActionState|
            state != ActionState::Ongoing && state != to ==> #[trigger] list.settled(
                id,
                to,
                error,
            ).count(state) == list.count(state),
{
    let i = list.position(id);
    let replacement = list.entries[i].settled(to, error);
    lemma_count_after_update(list.entries, i, replacement, ActionState::Ongoing);
    lemma_count_after_update(list.entries, i, replacement, to);
    assert forall|state: ActionState|
        state != ActionState::Ongoing && state != to implies #[trigger] list.settled(
        id,
        to,
        error,
    ).count(state) == list.count(state) by {
        lemma_count_after_update(list.entries, i, replacement, state);
    }
}

/// A new entry counts as `Ongoing` and as nothing else.
pub proof fn lemma_insert_counts_as_ongoing(list: ActionListView, kind: ActionTypeView)
    ensures
        list.inserted(kind).count(ActionState::Ongoing) == list.count(ActionState::Ongoing) + 1,
        forall|state: ActionState|
            state != ActionState::Ongoing ==> #[trigger] list.inserted(kind).count(state)
                == list.count(state),
{
    reveal(Seq::filter);
    let after = list.inserted(kind).entries;
    assert(after.drop_last() =~= list.entries);
    assert forall|state: ActionState| state != ActionState::Ongoing implies #[trigger] list.inserted(
        kind,
    ).count(state) == list.count(state) by {
        assert(after.drop_last() =~= list.entries);
    }
}

/// The id counter never goes back, whatever is done to the registry, so an
/// id that was handed out once is never handed out again.
pub proof fn lemma_counter_never_decreases(
    list: ActionListView,
    id: u32,
    kind: ActionTypeView,
    to: ActionState,
    error: Option<Seq<char>>,
)
    ensures
        list.inserted(kind).next_id == list.next_id + 1,
        list.removed(id).next_id == list.next_id,
        list.cleaned_up().next_id == list.next_id,
        list.settled(id, to, error).next_id == list.next_id,
        list.cancel_requested(id).next_id == list.next_id,
        list.drained().next_id == list.next_id,
{
}

/// A state change keeps the registry well-formed, where the new state is
/// terminal and an error comes with `Failed` and with nothing else.
pub proof fn lemma_settled_wf(
    list: ActionListView,
    id: u32,
    to: ActionState,
    error: Option<Seq<char>>,
)
    requires
        list.wf(),
        to != ActionState::Ongoing,
        error is Some <==> to == ActionState::Failed,
    ensures
        list.settled(id, to, error).wf(),
{
    if list.is_ongoing(id) {
        let i = list.position(id);
        let after = list.settled(id, to, error).entries;
        assert(list.entries[i].wf());
        assert forall|k: int| 0 <= k < after.len() implies (#[trigger] after[k]).wf() && after[k].id
            < list.next_id by {
            assert(list.entries[k].wf());
            assert(list.entries[k].id < list.next_id);
        }
        assert forall|a: int, b: int| 0 <= a < b < after.len() implies (#[trigger] after[a]).id < (
        #[trigger] after[b]).id by {
            assert(list.entries[a].id < list.entries[b].id);
            assert(after[a].id == list.entries[a].id);
            assert(after[b].id == list.entries[b].id);
        }
    }
}

/// A cancel request changes no state and no count, and keeps the registry
/// well-formed.
pub proof fn lemma_cancel_request_changes_no_state(list: ActionListView, id: u32)
    requires
        list.wf(),
    ensures
        list.cancel_requested(id).wf(),
        list.cancel_requested(id).entries.len() == list.entries.len(),
        list.cancel_requested(id).notifications == list.notifications,
        forall|k: int|
            0 <= k < list.entries.len() ==> (#[trigger] list.cancel_requested(id).entries[k]).state
                == list.entries[k].state,
        forall|state: ActionState|
            #[trigger] list.cancel_requested(id).count(state) == list.count(state),
{
    if list.contains(id) {
        let i = list.position(id);
        let after = list.cancel_requested(id).entries;
        assert(list.entries[i].wf());
        assert forall|k: int| 0 <= k < after.len() implies (#[trigger] after[k]).wf() && after[k].id
            < list.next_id && after[k].state == list.entries[k].state by {
            assert(list.entries[k].wf());
            assert(list.entries[k].id < list.next_id);
        }
        assert forall|a: int, b: int| 0 <= a < b < after.len() implies (#[trigger] after[a]).id < (
        #[trigger] after[b]).id by {
            assert(list.entries[a].id < list.entries[b].id);
            assert(after[a].id == list.entries[a].id);
            assert(after[b].id == list.entries[b].id);
        }
        assert forall|state: ActionState| #[trigger]
            list.cancel_requested(id).count(state) == list.count(state) by {
            lemma_count_after_update(
                list.entries,
                i,
                list.entries[i].cancel_requested(),
                state,
            );
        }
    }
}

} // verus!
