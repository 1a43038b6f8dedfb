//! The registry of a session's operations.
//!
//! An [`ActionList`] owns every operation from registration until removal,
//! keeps them in insertion order, hands out ids from a counter that only
//! grows, and queues a notification for its observers on every change.

use crate::action::{Action, ActionState, ActionType, ActionTypeView, ActionView};
use crate::list_view::{in_state, prune_notifications, ActionListView};
use crate::notification::{entries_changed, state_counts_changed, Notification};
use crate::ordered_map::{
    map_entries, map_get, map_get_index, map_get_mut, map_insert, map_len, map_new,
    map_shift_remove_full, map_shift_remove_index,
};
use indexmap::IndexMap;
use std::collections::hash_map::RandomState;
use vstd::prelude::*;

verus! {

/// The models of the operations stored in a sequence of key-value pairs.
spec fn entry_views(pairs: Seq<(u32, Action)>) -> Seq<ActionView> {
    pairs.map_values(|pair: (u32, Action)| pair.1@)
}

/// Every pair's key is the id of the operation stored under it.
spec fn keys_are_ids(pairs: Seq<(u32, Action)>) -> bool {
    forall|i: int| 0 <= i < pairs.len() ==> (#[trigger] pairs[i]).0 == pairs[i].1@.id
}

/// What a lookup by key followed by a rewrite of the value found does to
/// the stored pairs: the pair with the key, if there is one, keeps its place
/// and key and holds the rewritten value; nothing else changes. The rewrite
/// reports `answer` of the value it found, and `false` where there is none.
spec fn value_rewritten(
    pairs: Seq<(u32, Action)>,
    new_pairs: Seq<(u32, Action)>,
    key: u32,
    rewritten: spec_fn(ActionView) -> ActionView,
    answer: spec_fn(ActionView) -> bool,
    reported: bool,
) -> bool {
    ||| exists|i: int, value: Action|
        0 <= i < pairs.len() && (#[trigger] pairs[i]).0 == key && new_pairs == pairs.update(
            i,
            (key, value),
        ) && #[trigger] value@ == rewritten(pairs[i].1@) && reported == answer(pairs[i].1@)
    ||| new_pairs == pairs && !reported && forall|i: int|
        0 <= i < pairs.len() ==> (#[trigger] pairs[i]).0 != key
}

/// A rewrite that keeps ids and well-formedness, applied to the value stored
/// under a key, is the same rewrite applied in the model to the entry with
/// that id, and keeps the registry's invariant.
proof fn lemma_value_rewritten(
    before: ActionListView,
    pairs: Seq<(u32, Action)>,
    new_pairs: Seq<(u32, Action)>,
    key: u32,
    rewritten: spec_fn(ActionView) -> ActionView,
    answer: spec_fn(ActionView) -> bool,
    reported: bool,
)
    requires
        before.wf(),
        keys_are_ids(pairs),
        before.entries == entry_views(pairs),
        value_rewritten(pairs, new_pairs, key, rewritten, answer, reported),
        forall|action: ActionView|
            action.wf() ==> (#[trigger] rewritten(action)).wf() && rewritten(action).id
                == action.id,
    ensures
        keys_are_ids(new_pairs),
        entry_views(new_pairs) == if before.contains(key) {
            before.entries.update(
                before.position(key),
                rewritten(before.entries[before.position(key)]),
            )
        } else {
            before.entries
        },
        reported == (before.contains(key) && answer(before.entries[before.position(key)])),
        (ActionListView { entries: entry_views(new_pairs), ..before }).wf(),
{
    if exists|i: int| 0 <= i < pairs.len() && (#[trigger] pairs[i]).0 == key {
        let (i, value) = choose|i: int, value: Action|
            0 <= i < pairs.len() && (#[trigger] pairs[i]).0 == key && new_pairs == pairs.update(
                i,
                (key, value),
            ) && #[trigger] value@ == rewritten(pairs[i].1@) && reported == answer(pairs[i].1@);
        assert(before.entries[i].id == key);
        before.lemma_position(key, i);
        let after = before.entries.update(i, rewritten(before.entries[i]));
        assert(entry_views(new_pairs) =~= after);
        assert(before.entries[i].wf());
        assert forall|k: int| 0 <= k < new_pairs.len() implies (#[trigger] new_pairs[k]).0
            == new_pairs[k].1@.id by {
            if k != i {
                assert(new_pairs[k] == pairs[k]);
            }
        }
        assert forall|k: int| 0 <= k < after.len() implies (#[trigger] after[k]).wf() && after[k].id
            < before.next_id by {
            assert(before.entries[k].wf());
            assert(before.entries[k].id < before.next_id);
        }
        assert forall|a: int, b: int| 0 <= a < b < after.len() implies (#[trigger] after[a]).id < (
        #[trigger] after[b]).id by {
            assert(before.entries[a].id < before.entries[b].id);
            assert(after[a].id == before.entries[a].id);
            assert(after[b].id == before.entries[b].id);
        }
    } else {
        assert forall|k: int| 0 <= k < before.entries.len() implies (
        #[trigger] before.entries[k]).id != key by {
            assert(pairs[k].0 != key);
        }
    }
}

/// Extending a prefix by one element extends its filtered part by that
/// element where the predicate holds of it, and not at all where it does not.
proof fn lemma_filter_prefix_step<A>(s: Seq<A>, pred: spec_fn(A) -> bool, i: int)
    requires
        0 <= i < s.len(),
    ensures
        s.take(i + 1).filter(pred) == if pred(s[i]) {
            s.take(i).filter(pred).push(s[i])
        } else {
            s.take(i).filter(pred)
        },
{
    reveal(Seq::filter);
    assert(s.take(i + 1).drop_last() =~= s.take(i));
}

/// Extending a suffix by one element at its front extends its filtered part
/// by that element where the predicate holds of it, and not at all where it
/// does not.
proof fn lemma_filter_suffix_step<A>(s: Seq<A>, pred: spec_fn(A) -> bool, i: int)
    requires
        0 <= i < s.len(),
    ensures
        s.skip(i).filter(pred) == if pred(s[i]) {
            seq![s[i]] + s.skip(i + 1).filter(pred)
        } else {
            s.skip(i + 1).filter(pred)
        },
{
    reveal_with_fuel(Seq::filter, 2);
    let head = seq![s[i]];
    assert(head.drop_last() =~= Seq::<A>::empty());
    assert(head.filter(pred) =~= if pred(s[i]) {
        head
    } else {
        Seq::<A>::empty()
    });
    assert(s.skip(i) =~= head + s.skip(i + 1));
    Seq::filter_distributes_over_add(head, s.skip(i + 1), pred);
}

/// The ordered registry of the operations of one session.
pub struct ActionList {
    list: IndexMap<u32, Action, RandomState>,
    action_counter: u32,
    pending: Vec<Notification>,
}

impl View for ActionList {
    type V = ActionListView;

    closed spec fn view(&self) -> ActionListView {
        ActionListView {
            entries: entry_views(map_entries(self.list)),
            next_id: self.action_counter as nat,
            notifications: self.pending@,
        }
    }
}

impl Default for ActionList {
    /// An empty registry whose ids start at 0.
    fn default() -> (list: ActionList)
        ensures
            list.wf(),
            list@ == ActionListView::empty(),
    {
        ActionList::new()
    }
}

impl ActionList {
    /// Every entry is stored under its own id.
    pub closed spec fn keyed_by_id(&self) -> bool {
        keys_are_ids(map_entries(self.list))
    }

    /// The registry's invariant: entries are stored under their ids and the
    /// model is well-formed.
    pub open spec fn wf(&self) -> bool {
        self.keyed_by_id() && self@.wf()
    }

    /// An empty registry whose ids start at 0.
    pub fn new() -> (list: ActionList)
        ensures
            list.wf(),
            list@ == ActionListView::empty(),
    {
        let list = ActionList { list: map_new(), action_counter: 0, pending: Vec::new() };
        assert(list@.entries =~= Seq::<ActionView>::empty());
        list
    }

    /// The id that the next registered operation will get.
    pub fn next_id(&self) -> (id: u32)
        ensures
            id == self@.next_id,
    {
        self.action_counter
    }

    /// The number of entries.
    pub fn len(&self) -> (len: u32)
        requires
            self.wf(),
        ensures
            len == self@.entries.len(),
    {
        self.n_items()
    }

    /// The number of entries, as a list model reports it.
    pub fn n_items(&self) -> (len: u32)
        requires
            self.wf(),
        ensures
            len == self@.entries.len(),
    {
        proof {
            self@.lemma_len_bounded();
        }
        map_len(&self.list) as u32
    }

    /// The entry at a position of the list, or `None` where the position is
    /// not below the length.
    pub fn item(&self, position: u32) -> (found: Option<&Action>)
        ensures
            match found {
                Some(action) => position < self@.entries.len() && action@
                    == self@.entries[position as int],
                None => position >= self@.entries.len(),
            },
    {
        match map_get_index(&self.list, position as usize) {
            Some((_, action)) => Some(action),
            None => None,
        }
    }

    /// The number of `Ongoing` entries.
    pub fn ongoing(&self) -> (count: u32)
        requires
            self.wf(),
        ensures
            count == self@.count(ActionState::Ongoing),
    {
        self.count_state(ActionState::Ongoing)
    }

    /// The number of `Finished` entries.
    pub fn finished(&self) -> (count: u32)
        requires
            self.wf(),
        ensures
            count == self@.count(ActionState::Finished),
    {
        self.count_state(ActionState::Finished)
    }

    /// The number of `Cancelled` entries.
    pub fn cancelled(&self) -> (count: u32)
        requires
            self.wf(),
        ensures
            count == self@.count(ActionState::Cancelled),
    {
        self.count_state(ActionState::Cancelled)
    }

    /// The number of `Failed` entries.
    pub fn failed(&self) -> (count: u32)
        requires
            self.wf(),
        ensures
            count == self@.count(ActionState::Failed),
    {
        self.count_state(ActionState::Failed)
    }

    /// Counts the entries in the given state by a full scan.
    fn count_state(&self, state: ActionState) -> (count: u32)
        requires
            self.wf(),
        ensures
            count == self@.count(state),
    {
        proof {
            self@.lemma_len_bounded();
        }
        let len = map_len(&self.list);
        let mut count: u32 = 0;
        let mut i: usize = 0;
        while i < len
            invariant
                len == map_entries(self.list).len(),
                len <= u32::MAX,
                i <= len,
                count <= i,
                count == self@.entries.take(i as int).filter(in_state(state)).len(),
            decreases len - i,
        {
            proof {
                lemma_filter_prefix_step(self@.entries, in_state(state), i as int);
            }
            match map_get_index(&self.list, i) {
                Some((_, action)) => {
                    if action.state() == state {
                        count += 1;
                    }
                },
                None => {},
            }
            i += 1;
        }
        assert(self@.entries.take(len as int) =~= self@.entries);
        count
    }

    /// The entry with the given id, or `None` where the list has none.
    pub fn get(&self, num: u32) -> (found: Option<&Action>)
        requires
            self.wf(),
        ensures
            match found {
                Some(action) => self@.get(num) == Some(action@),
                None => self@.get(num) is None,
            },
    {
        let found = map_get(&self.list, num);
        proof {
            let pairs = map_entries(self.list);
            match found {
                Some(action) => {
                    let i = choose|i: int|
                        0 <= i < pairs.len() && #[trigger] pairs[i] == (num, *action);
                    self@.lemma_position(num, i);
                },
                None => {
                    assert forall|i: int| 0 <= i < self@.entries.len() implies (
                    #[trigger] self@.entries[i]).id != num by {
                        assert(pairs[i].0 != num);
                    }
                },
            }
        }
        found
    }

    /// Removes the entry with the given id and announces the removal at the
    /// position it had. Does nothing where the list has no such entry.
    pub fn remove(&mut self, num: u32)
        requires
            old(self).wf(),
        ensures
            final(self).wf(),
            final(self)@ == old(self)@.removed(num),
    {
        let ghost before = self@;
        let ghost pairs = map_entries(self.list);
        proof {
            before.lemma_len_bounded();
        }
        match map_shift_remove_full(&mut self.list, num) {
            Some((idx, _, _)) => {
                proof {
                    before.lemma_position(num, idx as int);
                    assert(self@.entries =~= before.entries.remove(idx as int));
                    assert forall|i: int| 0 <= i < map_entries(self.list).len() implies (
                    #[trigger] map_entries(self.list)[i]).0 == map_entries(self.list)[i].1@.id by {
                        if i < idx {
                            assert(map_entries(self.list)[i] == pairs[i]);
                        } else {
                            assert(map_entries(self.list)[i] == pairs[i + 1]);
                        }
                    }
                    before.lemma_remove_keeps_wf(idx as int);
                }
                self.items_changed(idx as u32, 1, 0);
            },
            None => {
                proof {
                    assert forall|i: int| 0 <= i < before.entries.len() implies (
                    #[trigger] before.entries[i]).id != num by {
                        assert(pairs[i].0 != num);
                    }
                }
            },
        }
    }

    /// Removes every entry that is not `Ongoing`, scanning from the last
    /// position to the first so that each removal is announced at the
    /// position the entry had before the call.
    pub fn clean_up(&mut self)
        requires
            old(self).wf(),
        ensures
            final(self).wf(),
            final(self)@ == old(self)@.cleaned_up(),
    {
        let ghost before = self@;
        let ghost ongoing = in_state(ActionState::Ongoing);
        proof {
            before.lemma_len_bounded();
            assert(before.entries.take(before.entries.len() as int) =~= before.entries);
            assert(before.entries.skip(before.entries.len() as int) =~= Seq::<ActionView>::empty());
            reveal(Seq::filter);
            assert(before.entries =~= before.entries + Seq::<ActionView>::empty().filter(ongoing));
        }
        let mut i: usize = map_len(&self.list);
        while i > 0
            invariant
                self.wf(),
                before.wf(),
                ongoing == in_state(ActionState::Ongoing),
                i <= before.entries.len() <= u32::MAX,
                self@.next_id == before.next_id,
                self@.entries == before.entries.take(i as int) + before.entries.skip(
                    i as int,
                ).filter(ongoing),
                self@.notifications + prune_notifications(before.entries.take(i as int))
                    == before.notifications + prune_notifications(before.entries),
            decreases i,
        {
            i -= 1;
            let ghost current = self@;
            let ghost pairs = map_entries(self.list);
            let ghost kept = before.entries.skip(i + 1).filter(ongoing);
            proof {
                lemma_filter_suffix_step(before.entries, ongoing, i as int);
                assert(before.entries.take(i + 1).drop_last() =~= before.entries.take(i as int));
                assert(current.entries[i as int] == before.entries[i as int]);
            }
            let stale = match map_get_index(&self.list, i) {
                Some((_, action)) => action.state() != ActionState::Ongoing,
                None => false,
            };
            if stale {
                map_shift_remove_index(&mut self.list, i);
                proof {
                    assert(self@.entries =~= current.entries.remove(i as int));
                    assert(self@.entries =~= before.entries.take(i as int) + kept);
                    assert forall|k: int| 0 <= k < map_entries(self.list).len() implies (
                    #[trigger] map_entries(self.list)[k]).0 == map_entries(self.list)[k].1@.id by {
                        if k < i {
                            assert(map_entries(self.list)[k] == pairs[k]);
                        } else {
                            assert(map_entries(self.list)[k] == pairs[k + 1]);
                        }
                    }
                    current.lemma_remove_keeps_wf(i as int);
                }
                self.items_changed(i as u32, 1, 0);
                proof {
                    assert(self@.notifications + prune_notifications(
                        before.entries.take(i as int),
                    ) =~= current.notifications + prune_notifications(
                        before.entries.take(i + 1),
                    ));
                }
            } else {
                proof {
                    assert(self@.entries =~= before.entries.take(i as int) + (seq![
                        before.entries[i as int],
                    ] + kept));
                }
            }
        }
        proof {
            assert(before.entries.take(0) =~= Seq::<ActionView>::empty());
            assert(before.entries.skip(0) =~= before.entries);
            assert(self@.entries =~= before.entries.filter(ongoing));
            assert(self@.notifications =~= before.notifications + prune_notifications(
                before.entries,
            ));
        }
    }

    /// Registers an operation that removes unused images.
    pub fn prune_images(&mut self) -> (id: u32)
        requires
            old(self).wf(),
            old(self)@.next_id < u32::MAX,
        ensures
            final(self).wf(),
            final(self)@ == old(self)@.inserted(ActionTypeView::PruneImages),
            id == old(self)@.next_id,
    {
        self.insert_action(ActionType::PruneImages)
    }

    /// Registers an operation that pulls `image`.
    pub fn download_image(&mut self, image: &str) -> (id: u32)
        requires
            old(self).wf(),
            old(self)@.next_id < u32::MAX,
        ensures
            final(self).wf(),
            final(self)@ == old(self)@.inserted(ActionTypeView::PullImage { image: image@ }),
            id == old(self)@.next_id,
    {
        self.insert_action(ActionType::PullImage { image: image.to_owned() })
    }

    /// Registers an operation that builds `image`.
    pub fn build_image(&mut self, image: &str) -> (id: u32)
        requires
            old(self).wf(),
            old(self)@.next_id < u32::MAX,
        ensures
            final(self).wf(),
            final(self)@ == old(self)@.inserted(ActionTypeView::BuildImage { image: image@ }),
            id == old(self)@.next_id,
    {
        self.insert_action(ActionType::BuildImage { image: image.to_owned() })
    }

    /// Registers an operation that creates `container` from `image` and,
    /// where `run` is set, starts it.
    pub fn create_container(&mut self, container: &str, image: &str, run: bool) -> (id: u32)
        requires
            old(self).wf(),
            old(self)@.next_id < u32::MAX,
        ensures
            final(self).wf(),
            final(self)@ == old(self)@.inserted(
                ActionTypeView::CreateContainer { container: container@, image: image@, run },
            ),
            id == old(self)@.next_id,
    {
        self.insert_action(
            ActionType::CreateContainer {
                container: container.to_owned(),
                image: image.to_owned(),
                run,
            },
        )
    }

    /// Registers an operation that commits `container` to a new image,
    /// named `image` where a name is given.
    pub fn commit_container(&mut self, image: Option<&str>, container: &str) -> (id: u32)
        requires
            old(self).wf(),
            old(self)@.next_id < u32::MAX,
        ensures
            final(self).wf(),
            final(self)@ == old(self)@.inserted(
                ActionTypeView::CommitContainer {
                    image: match image {
                        Some(name) => Some(name@),
                        None => None,
                    },
                    container: container@,
                },
            ),
            id == old(self)@.next_id,
    {
        let image = match image {
            Some(name) => Some(name.to_owned()),
            None => None,
        };
        self.insert_action(ActionType::CommitContainer { image, container: container.to_owned() })
    }

    /// Registers an operation that pulls `image`, creates `container` from
    /// it and, where `run` is set, starts it.
    pub fn create_container_download_image(
        &mut self,
        container: &str,
        image: &str,
        run: bool,
    ) -> (id: u32)
        requires
            old(self).wf(),
            old(self)@.next_id < u32::MAX,
        ensures
            final(self).wf(),
            final(self)@ == old(self)@.inserted(
                ActionTypeView::CreateContainerAndDownloadImage {
                    container: container@,
                    image: image@,
                    run,
                },
            ),
            id == old(self)@.next_id,
    {
        self.insert_action(
            ActionType::CreateContainerAndDownloadImage {
                container: container.to_owned(),
                image: image.to_owned(),
                run,
            },
        )
    }

    /// Registers an operation that copies `host_path` to `container_path`
    /// inside `container`.
    pub fn copy_files_into_container(
        &mut self,
        host_path: &str,
        container_path: &str,
        directory: bool,
        container: &str,
    ) -> (id: u32)
        requires
            old(self).wf(),
            old(self)@.next_id < u32::MAX,
        ensures
            final(self).wf(),
            final(self)@ == old(self)@.inserted(
                ActionTypeView::CopyFilesIntoContainer {
                    host_path: host_path@,
                    container_path: container_path@,
                    directory,
                    container: container@,
                },
            ),
            id == old(self)@.next_id,
    {
        self.insert_action(
            ActionType::CopyFilesIntoContainer {
                host_path: host_path.to_owned(),
                container_path: container_path.to_owned(),
                directory,
                container: container.to_owned(),
            },
        )
    }

    /// Registers an operation that copies `container_path` out of
    /// `container` to `host_path`.
    pub fn copy_files_from_container(
        &mut self,
        container: &str,
        container_path: &str,
        host_path: &str,
    ) -> (id: u32)
        requires
            old(self).wf(),
            old(self)@.next_id < u32::MAX,
        ensures
            final(self).wf(),
            final(self)@ == old(self)@.inserted(
                ActionTypeView::CopyFilesFromContainer {
                    container: container@,
                    container_path: container_path@,
                    host_path: host_path@,
                },
            ),
            id == old(self)@.next_id,
    {
        self.insert_action(
            ActionType::CopyFilesFromContainer {
                container: container.to_owned(),
                container_path: container_path.to_owned(),
                host_path: host_path.to_owned(),
            },
        )
    }

    /// Registers an operation that deploys the Kubernetes YAML file at
    /// `kube_file_path`.
    pub fn play_kubernetes_yaml(&mut self, kube_file_path: &str) -> (id: u32)
        requires
            old(self).wf(),
            old(self)@.next_id < u32::MAX,
        ensures
            final(self).wf(),
            final(self)@ == old(self)@.inserted(
                ActionTypeView::PlayKubernetesYaml { kube_file_path: kube_file_path@ },
            ),
            id == old(self)@.next_id,
    {
        self.insert_action(
            ActionType::PlayKubernetesYaml { kube_file_path: kube_file_path.to_owned() },
        )
    }

    /// Registers an operation that creates `pod`.
    pub fn create_pod(&mut self, pod: &str) -> (id: u32)
        requires
            old(self).wf(),
            old(self)@.next_id < u32::MAX,
        ensures
            final(self).wf(),
            final(self)@ == old(self)@.inserted(ActionTypeView::CreatePod { pod: pod@ }),
            id == old(self)@.next_id,
    {
        self.insert_action(ActionType::CreatePod { pod: pod.to_owned() })
    }

    /// Registers an operation that pulls the infra image `image` and then
    /// creates `pod`.
    pub fn create_pod_download_infra(&mut self, pod: &str, image: &str) -> (id: u32)
        requires
            old(self).wf(),
            old(self)@.next_id < u32::MAX,
        ensures
            final(self).wf(),
            final(self)@ == old(self)@.inserted(
                ActionTypeView::CreatePodAndDownloadInfra { pod: pod@, image: image@ },
            ),
            id == old(self)@.next_id,
    {
        self.insert_action(
            ActionType::CreatePodAndDownloadInfra { pod: pod.to_owned(), image: image.to_owned() },
        )
    }

    /// Registers a new `Ongoing`, cancellable operation of the given kind at
    /// the end of the list, under the current value of the id counter, and
    /// announces the insertion. The counter then moves one past that id.
    /// Returns the id.
    pub fn insert_action(&mut self, kind: ActionType) -> (id: u32)
        requires
            old(self).wf(),
            old(self)@.next_id < u32::MAX,
        ensures
            final(self).wf(),
            final(self)@ == old(self)@.inserted(kind@),
            id == old(self)@.next_id,
    {
        let ghost before = self@;
        let ghost pairs = map_entries(self.list);
        proof {
            before.lemma_len_bounded();
        }
        let id = self.action_counter;
        let action = Action::create(kind, id);
        let previous = map_insert(&mut self.list, id, action);
        proof {
            match previous {
                Some(replaced) => {
                    let i = choose|i: int|
                        0 <= i < pairs.len() && #[trigger] pairs[i] == (id, replaced);
                    assert(before.entries[i].id < before.next_id);
                },
                None => {},
            }
            assert(self@.entries =~= before.entries.push(action@));
        }
        let position = map_len(&self.list) - 1;
        self.action_counter = id + 1;
        proof {
            assert forall|i: int, j: int| 0 <= i < j < self@.entries.len() implies (
            #[trigger] self@.entries[i]).id < (#[trigger] self@.entries[j]).id by {
                if j == before.entries.len() {
                    assert(before.entries[i].id < before.next_id);
                } else {
                    assert(before.entries[i].id < before.entries[j].id);
                }
            }
            assert forall|i: int| 0 <= i < self@.entries.len() implies (
            #[trigger] self@.entries[i]).wf() && self@.entries[i].id < self@.next_id by {
                if i < before.entries.len() {
                    assert(before.entries[i].wf());
                    assert(before.entries[i].id < before.next_id);
                }
            }
        }
        self.items_changed(position as u32, 0, 1);
        id
    }

    /// Reports that the operation with the given id completed. Only an
    /// `Ongoing` entry changes; the per-state counts are then announced.
    /// Returns whether the state changed.
    pub fn mark_finished(&mut self, num: u32) -> (changed: bool)
        requires
            old(self).wf(),
        ensures
            final(self).wf(),
            final(self)@ == old(self)@.settled(num, ActionState::Finished, None),
            changed == old(self)@.is_ongoing(num),
    {
        let ghost before = self@;
        let ghost pairs = map_entries(self.list);
        let changed = match map_get_mut(&mut self.list, num) {
            Some(action) => action.mark_finished(),
            None => false,
        };
        proof {
            lemma_value_rewritten(
                before,
                pairs,
                map_entries(self.list),
                num,
                |action: ActionView| action.finished(),
                |action: ActionView| action.state == ActionState::Ongoing,
                changed,
            );
            if !changed {
                assert(self@.entries =~= before.entries);
            }
        }
        if changed {
            self.notify_num_states();
        }
        changed
    }

    /// Reports that the workflow of the operation with the given id observed
    /// a cancel request and stopped. Only an `Ongoing` entry changes; the
    /// per-state counts are then announced. Returns whether the state changed.
    pub fn mark_cancelled(&mut self, num: u32) -> (changed: bool)
        requires
            old(self).wf(),
        ensures
            final(self).wf(),
            final(self)@ == old(self)@.settled(num, ActionState::Cancelled, None),
            changed == old(self)@.is_ongoing(num),
    {
        let ghost before = self@;
        let ghost pairs = map_entries(self.list);
        let changed = match map_get_mut(&mut self.list, num) {
            Some(action) => action.mark_cancelled(),
            None => false,
        };
        proof {
            lemma_value_rewritten(
                before,
                pairs,
                map_entries(self.list),
                num,
                |action: ActionView| action.cancelled(),
                |action: ActionView| action.state == ActionState::Ongoing,
                changed,
            );
            if !changed {
                assert(self@.entries =~= before.entries);
            }
        }
        if changed {
            self.notify_num_states();
        }
        changed
    }

    /// Reports that the operation with the given id failed, and keeps
    /// `error` with it for display. Only an `Ongoing` entry changes; the
    /// per-state counts are then announced. Returns whether the state changed.
    pub fn mark_failed(&mut self, num: u32, error: String) -> (changed: bool)
        requires
            old(self).wf(),
        ensures
            final(self).wf(),
            final(self)@ == old(self)@.settled(num, ActionState::Failed, Some(error@)),
            changed == old(self)@.is_ongoing(num),
    {
        let ghost before = self@;
        let ghost pairs = map_entries(self.list);
        let ghost message = error@;
        let changed = match map_get_mut(&mut self.list, num) {
            Some(action) => action.mark_failed(error),
            None => false,
        };
        proof {
            lemma_value_rewritten(
                before,
                pairs,
                map_entries(self.list),
                num,
                |action: ActionView| action.failed(message),
                |action: ActionView| action.state == ActionState::Ongoing,
                changed,
            );
            if !changed {
                assert(self@.entries =~= before.entries);
            }
        }
        if changed {
            self.notify_num_states();
        }
        changed
    }

    /// Asks the workflow of the operation with the given id to stop. No
    /// state changes and nothing is announced: the workflow has to notice
    /// the request and report `Cancelled` itself. Returns whether the request
    /// was signalled, which is the case exactly when the entry exists, is
    /// `Ongoing` and has a cancel handle.
    pub fn request_cancel(&mut self, num: u32) -> (signalled: bool)
        requires
            old(self).wf(),
        ensures
            final(self).wf(),
            final(self)@ == old(self)@.cancel_requested(num),
            signalled == old(self)@.can_signal_cancel(num),
    {
        let ghost before = self@;
        let ghost pairs = map_entries(self.list);
        let signalled = match map_get_mut(&mut self.list, num) {
            Some(action) => action.request_cancel(),
            None => false,
        };
        proof {
            lemma_value_rewritten(
                before,
                pairs,
                map_entries(self.list),
                num,
                |action: ActionView| action.cancel_requested(),
                |action: ActionView| action.can_signal_cancel(),
                signalled,
            );
        }
        signalled
    }

    /// The notifications published since an observer last collected them,
    /// oldest first.
    pub fn notifications(&self) -> (pending: &Vec<Notification>)
        ensures
            pending@ == self@.notifications,
    {
        &self.pending
    }

    /// Hands the pending notifications to an observer, oldest first, and
    /// leaves none pending.
    pub fn take_notifications(&mut self) -> (taken: Vec<Notification>)
        requires
            old(self).wf(),
        ensures
            final(self).wf(),
            final(self)@ == old(self)@.drained(),
            taken@ == old(self)@.notifications,
    {
        let mut taken: Vec<Notification> = Vec::new();
        std::mem::swap(&mut self.pending, &mut taken);
        taken
    }

    /// Queues the notifications of a change of the list itself.
    fn items_changed(&mut self, position: u32, removed: u32, added: u32)
        ensures
            final(self).list == old(self).list,
            final(self).action_counter == old(self).action_counter,
            final(self).pending@ == old(self).pending@ + entries_changed(position, removed, added),
    {
        self.pending.push(Notification::EntriesChanged { position, removed, added });
        self.pending.push(Notification::LenChanged);
        self.notify_num_states();
        assert(self.pending@ =~= old(self).pending@ + entries_changed(position, removed, added));
    }

    /// Queues one notification for each of the four per-state counts.
    fn notify_num_states(&mut self)
        ensures
            final(self).list == old(self).list,
            final(self).action_counter == old(self).action_counter,
            final(self).pending@ == old(self).pending@ + state_counts_changed(),
    {
        self.pending.push(Notification::CountChanged(ActionState::Ongoing));
        self.pending.push(Notification::CountChanged(ActionState::Finished));
        self.pending.push(Notification::CountChanged(ActionState::Cancelled));
        self.pending.push(Notification::CountChanged(ActionState::Failed));
        assert(self.pending@ =~= old(self).pending@ + state_counts_changed());
    }
}

} // verus!
