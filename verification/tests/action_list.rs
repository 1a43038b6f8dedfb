use pods_actions::action::{ActionState, ActionType, CancellationToken};
use pods_actions::action_list::ActionList;
use pods_actions::notification::Notification;

fn pull(image: &str) -> ActionType {
    ActionType::PullImage { image: image.to_owned() }
}

fn ids(list: &ActionList) -> Vec<u32> {
    let mut ids = Vec::new();
    let mut position = 0;
    while let Some(action) = list.item(position) {
        ids.push(action.id());
        position += 1;
    }
    ids
}

fn entries_changed(position: u32, removed: u32, added: u32) -> Vec<Notification> {
    vec![
        Notification::EntriesChanged { position, removed, added },
        Notification::LenChanged,
        Notification::CountChanged(ActionState::Ongoing),
        Notification::CountChanged(ActionState::Finished),
        Notification::CountChanged(ActionState::Cancelled),
        Notification::CountChanged(ActionState::Failed),
    ]
}

fn state_counts_changed() -> Vec<Notification> {
    vec![
        Notification::CountChanged(ActionState::Ongoing),
        Notification::CountChanged(ActionState::Finished),
        Notification::CountChanged(ActionState::Cancelled),
        Notification::CountChanged(ActionState::Failed),
    ]
}

fn counts_add_up(list: &ActionList) -> bool {
    list.ongoing() + list.finished() + list.cancelled() + list.failed() == list.len()
}

#[test]
fn new_list_is_empty() {
    let list = ActionList::new();
    assert_eq!(list.len(), 0);
    assert_eq!(list.n_items(), 0);
    assert_eq!(list.next_id(), 0);
    assert_eq!(list.ongoing(), 0);
    assert_eq!(list.finished(), 0);
    assert_eq!(list.cancelled(), 0);
    assert_eq!(list.failed(), 0);
    assert!(list.get(0).is_none());
    assert!(list.item(0).is_none());
    assert!(list.notifications().is_empty());
}

#[test]
fn insert_assigns_strictly_increasing_unique_ids() {
    let mut list = ActionList::new();
    let mut assigned = Vec::new();
    for n in 0..20 {
        assigned.push(list.insert_action(pull(&format!("image-{}", n))));
    }
    assert_eq!(assigned, (0..20).collect::<Vec<u32>>());
    for pair in assigned.windows(2) {
        assert!(pair[0] < pair[1]);
    }
    assert_eq!(list.next_id(), 20);
    assert_eq!(ids(&list), assigned);
}

#[test]
fn ids_are_not_reused_after_removal() {
    let mut list = ActionList::new();
    assert_eq!(list.insert_action(pull("a")), 0);
    assert_eq!(list.insert_action(pull("b")), 1);
    list.remove(1);
    list.remove(0);
    assert_eq!(list.len(), 0);
    assert_eq!(list.insert_action(pull("c")), 2);
    assert_eq!(list.next_id(), 3);
    assert_eq!(ids(&list), vec![2]);
}

#[test]
fn ids_are_not_reused_after_clean_up() {
    let mut list = ActionList::new();
    list.insert_action(pull("a"));
    list.insert_action(pull("b"));
    list.mark_finished(0);
    list.mark_finished(1);
    list.clean_up();
    assert_eq!(list.len(), 0);
    assert_eq!(list.insert_action(pull("c")), 2);
}

#[test]
fn counts_add_up_to_len_at_every_point() {
    let mut list = ActionList::new();
    assert!(counts_add_up(&list));
    for n in 0..6 {
        list.insert_action(pull(&format!("image-{}", n)));
        assert!(counts_add_up(&list));
    }
    list.mark_finished(0);
    assert!(counts_add_up(&list));
    list.mark_cancelled(1);
    assert!(counts_add_up(&list));
    list.mark_failed(2, "boom".to_owned());
    assert!(counts_add_up(&list));
    list.mark_failed(3, "bang".to_owned());
    assert!(counts_add_up(&list));
    assert_eq!(list.ongoing(), 2);
    assert_eq!(list.finished(), 1);
    assert_eq!(list.cancelled(), 1);
    assert_eq!(list.failed(), 2);
    assert_eq!(list.len(), 6);
    list.remove(3);
    assert!(counts_add_up(&list));
    assert_eq!(list.failed(), 1);
    list.clean_up();
    assert!(counts_add_up(&list));
    assert_eq!(list.ongoing(), 2);
    assert_eq!(list.len(), 2);
}

#[test]
fn terminal_transition_twice_leaves_state_unchanged() {
    let mut list = ActionList::new();
    let id = list.insert_action(pull("a"));
    assert!(list.mark_finished(id));
    list.take_notifications();
    assert!(!list.mark_finished(id));
    assert_eq!(list.get(id).unwrap().state(), ActionState::Finished);
    assert!(!list.mark_failed(id, "late".to_owned()));
    assert_eq!(list.get(id).unwrap().state(), ActionState::Finished);
    assert_eq!(list.get(id).unwrap().error(), None);
    assert!(!list.mark_cancelled(id));
    assert_eq!(list.get(id).unwrap().state(), ActionState::Finished);
    assert_eq!(list.finished(), 1);
    assert_eq!(list.failed(), 0);
    assert_eq!(list.cancelled(), 0);
    assert!(list.notifications().is_empty());
}

#[test]
fn insert_then_get_returns_ongoing_action_with_that_id() {
    let mut list = ActionList::new();
    list.insert_action(pull("first"));
    let id = list.insert_action(pull("second"));
    let action = list.get(id).unwrap();
    assert_eq!(action.id(), id);
    assert_eq!(action.state(), ActionState::Ongoing);
    assert_eq!(action.kind(), &pull("second"));
    assert_eq!(action.cancel_handle(), Some(CancellationToken { requested: false }));
    assert_eq!(action.error(), None);
}

#[test]
fn remove_then_get_returns_nothing_and_len_drops_by_one() {
    let mut list = ActionList::new();
    list.insert_action(pull("a"));
    let id = list.insert_action(pull("b"));
    list.insert_action(pull("c"));
    let before = list.len();
    list.remove(id);
    assert!(list.get(id).is_none());
    assert_eq!(list.len(), before - 1);
    assert_eq!(ids(&list), vec![0, 2]);
    assert_eq!(list.get(0).unwrap().kind(), &pull("a"));
    assert_eq!(list.get(2).unwrap().kind(), &pull("c"));
}

#[test]
fn remove_unknown_id_changes_nothing() {
    let mut list = ActionList::new();
    list.insert_action(pull("a"));
    list.take_notifications();
    list.remove(5);
    assert_eq!(list.len(), 1);
    assert_eq!(ids(&list), vec![0]);
    assert!(list.get(5).is_none());
    assert!(list.notifications().is_empty());
}

#[test]
fn remove_on_empty_list_changes_nothing() {
    let mut list = ActionList::new();
    list.remove(0);
    assert_eq!(list.len(), 0);
    assert!(list.notifications().is_empty());
}

#[test]
fn remove_reports_prior_position() {
    let mut list = ActionList::new();
    list.insert_action(pull("a"));
    list.insert_action(pull("b"));
    list.insert_action(pull("c"));
    list.take_notifications();
    list.remove(1);
    assert_eq!(list.take_notifications(), entries_changed(1, 1, 0));
    list.remove(2);
    assert_eq!(list.take_notifications(), entries_changed(1, 1, 0));
    list.remove(0);
    assert_eq!(list.take_notifications(), entries_changed(0, 1, 0));
}

#[test]
fn clean_up_keeps_ongoing_entries_in_order() {
    let mut list = ActionList::new();
    for n in 0..7 {
        list.insert_action(pull(&format!("image-{}", n)));
    }
    list.mark_finished(0);
    list.mark_cancelled(2);
    list.mark_failed(3, "boom".to_owned());
    list.mark_finished(6);
    list.clean_up();
    assert_eq!(ids(&list), vec![1, 4, 5]);
    assert_eq!(list.len(), 3);
    assert_eq!(list.ongoing(), 3);
    assert_eq!(list.finished(), 0);
    assert_eq!(list.cancelled(), 0);
    assert_eq!(list.failed(), 0);
    for id in [1, 4, 5] {
        assert_eq!(list.get(id).unwrap().state(), ActionState::Ongoing);
    }
    for id in [0, 2, 3, 6] {
        assert!(list.get(id).is_none());
    }
}

#[test]
fn clean_up_reports_removed_positions_from_last_to_first() {
    let mut list = ActionList::new();
    for n in 0..5 {
        list.insert_action(pull(&format!("image-{}", n)));
    }
    list.mark_finished(0);
    list.mark_failed(1, "boom".to_owned());
    list.mark_cancelled(4);
    list.take_notifications();
    list.clean_up();
    let mut expected = entries_changed(4, 1, 0);
    expected.extend(entries_changed(1, 1, 0));
    expected.extend(entries_changed(0, 1, 0));
    assert_eq!(list.take_notifications(), expected);
    assert_eq!(ids(&list), vec![2, 3]);
}

#[test]
fn clean_up_without_terminal_entries_changes_nothing() {
    let mut list = ActionList::new();
    list.insert_action(pull("a"));
    list.insert_action(pull("b"));
    list.take_notifications();
    list.clean_up();
    assert_eq!(ids(&list), vec![0, 1]);
    assert!(list.notifications().is_empty());
}

#[test]
fn clean_up_on_empty_list_changes_nothing() {
    let mut list = ActionList::new();
    list.clean_up();
    assert_eq!(list.len(), 0);
    assert!(list.notifications().is_empty());
}

#[test]
fn clean_up_removes_everything_when_nothing_is_ongoing() {
    let mut list = ActionList::new();
    list.insert_action(pull("a"));
    list.insert_action(pull("b"));
    list.mark_finished(0);
    list.mark_cancelled(1);
    list.take_notifications();
    list.clean_up();
    assert_eq!(list.len(), 0);
    let mut expected = entries_changed(1, 1, 0);
    expected.extend(entries_changed(0, 1, 0));
    assert_eq!(list.take_notifications(), expected);
}

#[test]
fn failed_action_is_pruned_by_clean_up() {
    let mut list = ActionList::new();
    assert_eq!(list.insert_action(pull("a")), 0);
    assert_eq!(list.insert_action(pull("b")), 1);
    assert_eq!(list.insert_action(pull("c")), 2);
    assert!(list.mark_failed(1, "boom".to_owned()));
    assert_eq!(list.failed(), 1);
    assert_eq!(list.get(1).unwrap().state(), ActionState::Failed);
    assert_eq!(list.get(1).unwrap().error(), Some(&"boom".to_owned()));
    list.clean_up();
    assert_eq!(ids(&list), vec![0, 2]);
    assert_eq!(list.failed(), 0);
    assert_eq!(list.len(), 2);
}

#[test]
fn cancelled_action_ignores_later_completion() {
    let mut list = ActionList::new();
    let id = list.insert_action(pull("a"));
    assert_eq!(id, 0);
    assert!(list.request_cancel(id));
    assert_eq!(list.get(id).unwrap().state(), ActionState::Ongoing);
    assert!(list.get(id).unwrap().is_cancel_requested());
    assert_eq!(list.cancelled(), 0);
    assert!(list.mark_cancelled(id));
    assert_eq!(list.cancelled(), 1);
    assert!(!list.mark_finished(id));
    assert_eq!(list.get(id).unwrap().state(), ActionState::Cancelled);
    assert_eq!(list.cancelled(), 1);
    assert_eq!(list.finished(), 0);
}

#[test]
fn each_insertion_is_announced_once_at_its_position() {
    let mut list = ActionList::new();
    list.insert_action(pull("a"));
    list.insert_action(pull("b"));
    let notifications = list.take_notifications();
    let changes: Vec<Notification> = notifications
        .iter()
        .copied()
        .filter(|n| matches!(n, Notification::EntriesChanged { .. }))
        .collect();
    assert_eq!(
        changes,
        vec![
            Notification::EntriesChanged { position: 0, removed: 0, added: 1 },
            Notification::EntriesChanged { position: 1, removed: 0, added: 1 },
        ]
    );
    let mut expected = entries_changed(0, 0, 1);
    expected.extend(entries_changed(1, 0, 1));
    assert_eq!(notifications, expected);
}

#[test]
fn insertion_after_removal_is_announced_at_the_end() {
    let mut list = ActionList::new();
    list.insert_action(pull("a"));
    list.insert_action(pull("b"));
    list.insert_action(pull("c"));
    list.remove(0);
    list.take_notifications();
    assert_eq!(list.insert_action(pull("d")), 3);
    assert_eq!(list.take_notifications(), entries_changed(2, 0, 1));
}

#[test]
fn state_change_announces_the_four_counts() {
    let mut list = ActionList::new();
    let id = list.insert_action(pull("a"));
    list.take_notifications();
    assert!(list.mark_finished(id));
    assert_eq!(list.take_notifications(), state_counts_changed());
    let id = list.insert_action(pull("b"));
    list.take_notifications();
    assert!(list.mark_cancelled(id));
    assert_eq!(list.take_notifications(), state_counts_changed());
    let id = list.insert_action(pull("c"));
    list.take_notifications();
    assert!(list.mark_failed(id, "boom".to_owned()));
    assert_eq!(list.take_notifications(), state_counts_changed());
}

#[test]
fn request_cancel_announces_nothing() {
    let mut list = ActionList::new();
    let id = list.insert_action(pull("a"));
    list.take_notifications();
    assert!(list.request_cancel(id));
    assert!(list.notifications().is_empty());
    assert_eq!(list.ongoing(), 1);
}

#[test]
fn request_cancel_on_unknown_or_terminal_entry_is_noop() {
    let mut list = ActionList::new();
    assert!(!list.request_cancel(0));
    let id = list.insert_action(pull("a"));
    assert!(list.mark_failed(id, "boom".to_owned()));
    assert!(!list.request_cancel(id));
    assert_eq!(list.get(id).unwrap().state(), ActionState::Failed);
    assert!(!list.get(id).unwrap().is_cancel_requested());
    assert!(!list.request_cancel(9));
}

#[test]
fn transitions_on_unknown_id_change_nothing() {
    let mut list = ActionList::new();
    list.insert_action(pull("a"));
    list.take_notifications();
    assert!(!list.mark_finished(4));
    assert!(!list.mark_cancelled(4));
    assert!(!list.mark_failed(4, "boom".to_owned()));
    assert_eq!(list.len(), 1);
    assert_eq!(list.ongoing(), 1);
    assert_eq!(list.get(0).unwrap().state(), ActionState::Ongoing);
    assert!(list.notifications().is_empty());
}

#[test]
fn transition_changes_only_the_entry_with_that_id() {
    let mut list = ActionList::new();
    list.insert_action(pull("a"));
    list.insert_action(pull("b"));
    list.insert_action(pull("c"));
    assert!(list.mark_failed(1, "boom".to_owned()));
    assert_eq!(list.get(0).unwrap().state(), ActionState::Ongoing);
    assert_eq!(list.get(1).unwrap().state(), ActionState::Failed);
    assert_eq!(list.get(2).unwrap().state(), ActionState::Ongoing);
    assert_eq!(ids(&list), vec![0, 1, 2]);
    assert_eq!(list.get(1).unwrap().kind(), &pull("b"));
}

#[test]
fn item_follows_insertion_order() {
    let mut list = ActionList::new();
    list.insert_action(pull("a"));
    list.insert_action(pull("b"));
    list.insert_action(pull("c"));
    assert_eq!(list.item(0).unwrap().kind(), &pull("a"));
    assert_eq!(list.item(1).unwrap().kind(), &pull("b"));
    assert_eq!(list.item(2).unwrap().kind(), &pull("c"));
    assert!(list.item(3).is_none());
    list.remove(0);
    assert_eq!(list.item(0).unwrap().id(), 1);
    assert_eq!(list.item(1).unwrap().id(), 2);
    assert!(list.item(2).is_none());
    assert_eq!(list.n_items(), 2);
}

#[test]
fn take_notifications_leaves_none_pending() {
    let mut list = ActionList::new();
    list.insert_action(pull("a"));
    assert_eq!(list.notifications().len(), 6);
    assert_eq!(list.take_notifications(), entries_changed(0, 0, 1));
    assert!(list.notifications().is_empty());
    assert!(list.take_notifications().is_empty());
    assert_eq!(list.len(), 1);
    assert_eq!(list.next_id(), 1);
}

#[test]
fn factories_register_the_matching_kind() {
    let mut list = ActionList::new();
    assert_eq!(list.prune_images(), 0);
    assert_eq!(list.download_image("alpine"), 1);
    assert_eq!(list.build_image("mine"), 2);
    assert_eq!(list.create_container("web", "nginx", true), 3);
    assert_eq!(list.commit_container(Some("snapshot"), "web"), 4);
    assert_eq!(list.commit_container(None, "web"), 5);
    assert_eq!(list.create_container_download_image("db", "postgres", false), 6);
    assert_eq!(list.copy_files_into_container("/tmp/in", "/data", true, "web"), 7);
    assert_eq!(list.copy_files_from_container("web", "/data", "/tmp/out"), 8);
    assert_eq!(list.play_kubernetes_yaml("/tmp/pod.yaml"), 9);
    assert_eq!(list.create_pod("group"), 10);
    assert_eq!(list.create_pod_download_infra("group", "pause"), 11);
    assert_eq!(list.len(), 12);
    assert_eq!(list.ongoing(), 12);

    assert_eq!(list.get(0).unwrap().kind(), &ActionType::PruneImages);
    assert_eq!(list.get(1).unwrap().kind(), &pull("alpine"));
    assert_eq!(list.get(2).unwrap().kind(), &ActionType::BuildImage { image: "mine".to_owned() });
    assert_eq!(
        list.get(3).unwrap().kind(),
        &ActionType::CreateContainer {
            container: "web".to_owned(),
            image: "nginx".to_owned(),
            run: true,
        }
    );
    assert_eq!(
        list.get(4).unwrap().kind(),
        &ActionType::CommitContainer {
            image: Some("snapshot".to_owned()),
            container: "web".to_owned(),
        }
    );
    assert_eq!(
        list.get(5).unwrap().kind(),
        &ActionType::CommitContainer { image: None, container: "web".to_owned() }
    );
    assert_eq!(
        list.get(6).unwrap().kind(),
        &ActionType::CreateContainerAndDownloadImage {
            container: "db".to_owned(),
            image: "postgres".to_owned(),
            run: false,
        }
    );
    assert_eq!(
        list.get(7).unwrap().kind(),
        &ActionType::CopyFilesIntoContainer {
            host_path: "/tmp/in".to_owned(),
            container_path: "/data".to_owned(),
            directory: true,
            container: "web".to_owned(),
        }
    );
    assert_eq!(
        list.get(8).unwrap().kind(),
        &ActionType::CopyFilesFromContainer {
            container: "web".to_owned(),
            container_path: "/data".to_owned(),
            host_path: "/tmp/out".to_owned(),
        }
    );
    assert_eq!(
        list.get(9).unwrap().kind(),
        &ActionType::PlayKubernetesYaml { kube_file_path: "/tmp/pod.yaml".to_owned() }
    );
    assert_eq!(list.get(10).unwrap().kind(), &ActionType::CreatePod { pod: "group".to_owned() });
    assert_eq!(
        list.get(11).unwrap().kind(),
        &ActionType::CreatePodAndDownloadInfra {
            pod: "group".to_owned(),
            image: "pause".to_owned(),
        }
    );
    for id in 0..12 {
        assert_eq!(list.get(id).unwrap().id(), id);
        assert_eq!(list.get(id).unwrap().state(), ActionState::Ongoing);
    }
}

#[test]
fn factory_announces_insertion_like_insert_action() {
    let mut list = ActionList::new();
    list.download_image("alpine");
    list.create_pod("group");
    let mut expected = entries_changed(0, 0, 1);
    expected.extend(entries_changed(1, 0, 1));
    assert_eq!(list.take_notifications(), expected);
}

#[test]
fn get_finds_every_entry_among_many() {
    let mut list = ActionList::new();
    for n in 0..200 {
        list.insert_action(pull(&format!("image-{}", n)));
    }
    for id in (0..200).step_by(2) {
        list.remove(id);
    }
    assert_eq!(list.len(), 100);
    for id in 0..200 {
        match list.get(id) {
            Some(action) => {
                assert_eq!(id % 2, 1);
                assert_eq!(action.id(), id);
                assert_eq!(action.kind(), &pull(&format!("image-{}", id)));
            }
            None => assert_eq!(id % 2, 0),
        }
    }
    assert_eq!(ids(&list), (0..200).filter(|id| id % 2 == 1).collect::<Vec<u32>>());
}

#[test]
fn default_list_is_empty() {
    let list = ActionList::default();
    assert_eq!(list.len(), 0);
    assert_eq!(list.next_id(), 0);
    assert!(list.notifications().is_empty());
}

#[test]
fn observer_copy_stays_in_step_with_the_list() {
    let mut list = ActionList::new();
    let mut copy: Vec<u32> = Vec::new();
    let mut next = 0;
    let mut follow = |list: &mut ActionList, copy: &mut Vec<u32>| {
        for notification in list.take_notifications() {
            if let Notification::EntriesChanged { position, removed, added } = notification {
                for _ in 0..removed {
                    copy.remove(position as usize);
                }
                for offset in 0..added {
                    copy.insert((position + offset) as usize, next);
                    next += 1;
                }
            }
        }
    };
    for n in 0..8 {
        list.insert_action(pull(&format!("image-{}", n)));
    }
    follow(&mut list, &mut copy);
    assert_eq!(copy, ids(&list));
    list.remove(3);
    follow(&mut list, &mut copy);
    assert_eq!(copy, vec![0, 1, 2, 4, 5, 6, 7]);
    assert_eq!(copy, ids(&list));
    list.mark_finished(0);
    list.mark_failed(4, "boom".to_owned());
    list.mark_cancelled(5);
    list.mark_finished(7);
    list.clean_up();
    follow(&mut list, &mut copy);
    assert_eq!(copy, vec![1, 2, 6]);
    assert_eq!(copy, ids(&list));
    list.insert_action(pull("late"));
    follow(&mut list, &mut copy);
    assert_eq!(copy, vec![1, 2, 6, 8]);
    assert_eq!(copy, ids(&list));
}

#[test]
fn state_change_moves_one_unit_between_counts() {
    let mut list = ActionList::new();
    for n in 0..4 {
        list.insert_action(pull(&format!("image-{}", n)));
    }
    assert_eq!(
        (list.ongoing(), list.finished(), list.cancelled(), list.failed()),
        (4, 0, 0, 0)
    );
    list.mark_finished(2);
    assert_eq!(
        (list.ongoing(), list.finished(), list.cancelled(), list.failed()),
        (3, 1, 0, 0)
    );
    list.mark_cancelled(0);
    assert_eq!(
        (list.ongoing(), list.finished(), list.cancelled(), list.failed()),
        (2, 1, 1, 0)
    );
    list.mark_failed(3, "boom".to_owned());
    assert_eq!(
        (list.ongoing(), list.finished(), list.cancelled(), list.failed()),
        (1, 1, 1, 1)
    );
    list.request_cancel(1);
    assert_eq!(
        (list.ongoing(), list.finished(), list.cancelled(), list.failed()),
        (1, 1, 1, 1)
    );
    assert_eq!(list.len(), 4);
}
