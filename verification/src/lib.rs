//! Tracking of long-running container operations.
//!
//! A session registers every operation it starts (an image pull, a build,
//! the creation of a container, a file copy) in an [`action_list::ActionList`].
//! Each entry is an [`action::Action`] with an id and a one-way lifecycle:
//! it is `Ongoing` until its workflow reports that it finished, failed or
//! was cancelled. The registry keeps the entries in insertion order, counts
//! them per state, and queues a [`notification::Notification`] for its
//! observers whenever something changes.
//!
//! The registry decides; it does not run anything. Whoever drives it starts
//! the workflows, passes their outcome on, and acts on a cancel request that
//! the registry says was signalled.

pub mod action;
pub mod action_list;
pub mod laws;
pub mod list_view;
pub mod notification;
pub mod ordered_map;
