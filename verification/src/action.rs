//! A single tracked asynchronous operation and its one-way lifecycle.

use vstd::prelude::*;

verus! {

/// Lifecycle state of a tracked operation.
///
/// Every operation starts as `Ongoing`. The other three states are terminal:
/// once one of them is reached the state never changes again.
#[derive(Clone, Copy, Debug, PartialEq, Eq, Structural)]
pub enum ActionState {
    Ongoing,
    Finished,
    Cancelled,
    Failed,
}

/// The flag through which a caller asks a running workflow to stop.
///
/// Cancellation is cooperative: setting the flag changes nothing by itself.
/// The workflow has to look at it and end itself.
#[derive(Clone, Copy, Debug, PartialEq, Eq, Structural)]
pub struct CancellationToken {
    pub requested: bool,
}

/// What an operation does, with the parameters that describe it to a user.
#[allow(inconsistent_fields)]
#[derive(Debug, PartialEq, Eq)]
pub enum ActionType {
    PruneImages,
    PullImage { image: String },
    BuildImage { image: String },
    CreateContainer { container: String, image: String, run: bool },
    CommitContainer { image: Option<String>, container: String },
    CreateContainerAndDownloadImage { container: String, image: String, run: bool },
    CopyFilesIntoContainer {
        host_path: String,
        container_path: String,
        directory: bool,
        container: String,
    },
    CopyFilesFromContainer { container: String, container_path: String, host_path: String },
    PlayKubernetesYaml { kube_file_path: String },
    CreatePod { pod: String },
    CreatePodAndDownloadInfra { pod: String, image: String },
}

/// Mathematical model of an [`ActionType`]: the same variants over character sequences.
#[allow(inconsistent_fields)]
pub enum ActionTypeView {
    PruneImages,
    PullImage { image: Seq<char> },
    BuildImage { image: Seq<char> },
    CreateContainer { container: Seq<char>, image: Seq<char>, run: bool },
    CommitContainer { image: Option<Seq<char>>, container: Seq<char> },
    CreateContainerAndDownloadImage { container: Seq<char>, image: Seq<char>, run: bool },
    CopyFilesIntoContainer {
        host_path: Seq<char>,
        container_path: Seq<char>,
        directory: bool,
        container: Seq<char>,
    },
    CopyFilesFromContainer {
        container: Seq<char>,
        container_path: Seq<char>,
        host_path: Seq<char>,
    },
    PlayKubernetesYaml { kube_file_path: Seq<char> },
    CreatePod { pod: Seq<char> },
    CreatePodAndDownloadInfra { pod: Seq<char>, image: Seq<char> },
}

impl View for ActionType {
    type V = ActionTypeView;

    open spec fn view(&self) -> ActionTypeView {
        match *self {
            ActionType::PruneImages => ActionTypeView::PruneImages,
            ActionType::PullImage { image } => ActionTypeView::PullImage { image: image@ },
            ActionType::BuildImage { image } => ActionTypeView::BuildImage { image: image@ },
            ActionType::CreateContainer { container, image, run } => {
                ActionTypeView::CreateContainer { container: container@, image: image@, run }
            },
            ActionType::CommitContainer { image, container } => {
                ActionTypeView::CommitContainer {
                    image: match image {
                        Some(name) => Some(name@),
                        None => None,
                    },
                    container: container@,
                }
            },
            ActionType::CreateContainerAndDownloadImage { container, image, run } => {
                ActionTypeView::CreateContainerAndDownloadImage {
                    container: container@,
                    image: image@,
                    run,
                }
            },
            ActionType::CopyFilesIntoContainer {
                host_path,
                container_path,
                directory,
                container,
            } => {
                ActionTypeView::CopyFilesIntoContainer {
                    host_path: host_path@,
                    container_path: container_path@,
                    directory,
                    container: container@,
                }
            },
            ActionType::CopyFilesFromContainer { container, container_path, host_path } => {
                ActionTypeView::CopyFilesFromContainer {
                    container: container@,
                    container_path: container_path@,
                    host_path: host_path@,
                }
            },
            ActionType::PlayKubernetesYaml { kube_file_path } => {
                ActionTypeView::PlayKubernetesYaml { kube_file_path: kube_file_path@ }
            },
            ActionType::CreatePod { pod } => ActionTypeView::CreatePod { pod: pod@ },
            ActionType::CreatePodAndDownloadInfra { pod, image } => {
                ActionTypeView::CreatePodAndDownloadInfra { pod: pod@, image: image@ }
            },
        }
    }
}

/// Mathematical model of an [`Action`].
pub struct ActionView {
    pub id: u32,
    pub kind: ActionTypeView,
    pub state: ActionState,
    pub cancel_handle: Option<CancellationToken>,
    pub error: Option<Seq<char>>,
}

impl ActionView {
    /// A freshly created operation: `Ongoing`, with an untouched cancel
    /// handle when it is cancellable and none when it is not.
    pub open spec fn created(kind: ActionTypeView, id: u32, cancellable: bool) -> ActionView {
        ActionView {
            id,
            kind,
            state: ActionState::Ongoing,
            cancel_handle: if cancellable {
                Some(CancellationToken { requested: false })
            } else {
                None
            },
            error: None,
        }
    }

    /// A cancel handle exists only while the operation is `Ongoing`, and an
    /// error is kept exactly for a `Failed` operation.
    pub open spec fn wf(self) -> bool {
        &&& self.state != ActionState::Ongoing ==> self.cancel_handle is None
        &&& self.error is Some <==> self.state == ActionState::Failed
    }

    /// The operation after an attempt to move it to the terminal state `to`.
    ///
    /// From `Ongoing` the state becomes `to`, the cancel handle is dropped
    /// and `error` is recorded. From any other state nothing changes.
    pub open spec fn settled(self, to: ActionState, error: Option<Seq<char>>) -> ActionView {
        if self.state == ActionState::Ongoing {
            ActionView { state: to, cancel_handle: None, error, ..self }
        } else {
            self
        }
    }

    /// The operation after `mark_finished`.
    pub open spec fn finished(self) -> ActionView {
        self.settled(ActionState::Finished, None)
    }

    /// The operation after `mark_cancelled`.
    pub open spec fn cancelled(self) -> ActionView {
        self.settled(ActionState::Cancelled, None)
    }

    /// The operation after `mark_failed` with the message `error`.
    pub open spec fn failed(self, error: Seq<char>) -> ActionView {
        self.settled(ActionState::Failed, Some(error))
    }

    /// Whether a cancel request reaches the workflow: the operation is still
    /// `Ongoing` and has a cancel handle.
    pub open spec fn can_signal_cancel(self) -> bool {
        self.state == ActionState::Ongoing && self.cancel_handle is Some
    }

    /// The operation after `request_cancel`: the handle's flag is set where
    /// the request reaches the workflow; the state is never touched.
    pub open spec fn cancel_requested(self) -> ActionView {
        if self.can_signal_cancel() {
            ActionView { cancel_handle: Some(CancellationToken { requested: true }), ..self }
        } else {
            self
        }
    }
}

/// One tracked asynchronous operation: its identity, what it does, and where
/// it is in its lifecycle.
#[derive(Debug)]
pub struct Action {
    id: u32,
    kind: ActionType,
    state: ActionState,
    cancel_handle: Option<CancellationToken>,
    error: Option<String>,
}

impl View for Action {
    type V = ActionView;

    closed spec fn view(&self) -> ActionView {
        ActionView {
            id: self.id,
            kind: self.kind@,
            state: self.state,
            cancel_handle: self.cancel_handle,
            error: match self.error {
                Some(message) => Some(message@),
                None => None,
            },
        }
    }
}

impl Action {
    /// Builds a cancellable operation of the given kind in the `Ongoing` state.
    pub fn create(kind: ActionType, id: u32) -> (action: Action)
        ensures
            action@ == ActionView::created(kind@, id, true),
            action@.wf(),
    {
        Action {
            id,
            kind,
            state: ActionState::Ongoing,
            cancel_handle: Some(CancellationToken { requested: false }),
            error: None,
        }
    }

    /// Builds an `Ongoing` operation that cannot be cancelled: it never has a
    /// cancel handle.
    pub fn create_uncancellable(kind: ActionType, id: u32) -> (action: Action)
        ensures
            action@ == ActionView::created(kind@, id, false),
            action@.wf(),
    {
        Action { id, kind, state: ActionState::Ongoing, cancel_handle: None, error: None }
    }

    pub fn id(&self) -> (id: u32)
        ensures
            id == self@.id,
    {
        self.id
    }

    pub fn kind(&self) -> (kind: &ActionType)
        ensures
            kind@ == self@.kind,
    {
        &self.kind
    }

    pub fn state(&self) -> (state: ActionState)
        ensures
            state == self@.state,
    {
        self.state
    }

    /// The cancel handle, present only while the operation can still be cancelled.
    pub fn cancel_handle(&self) -> (handle: Option<CancellationToken>)
        ensures
            handle == self@.cancel_handle,
    {
        self.cancel_handle
    }

    /// Whether cancellation has been requested and not yet acted upon. This
    /// is what a workflow polls.
    pub fn is_cancel_requested(&self) -> (requested: bool)
        ensures
            requested == (self@.cancel_handle == Some(CancellationToken { requested: true })),
    {
        match self.cancel_handle {
            Some(token) => token.requested,
            None => false,
        }
    }

    /// The message recorded when the operation failed.
    pub fn error(&self) -> (error: Option<&String>)
        ensures
            match error {
                Some(message) => self@.error == Some(message@),
                None => self@.error is None,
            },
    {
        self.error.as_ref()
    }

    /// Moves an `Ongoing` operation to the terminal state `to`; leaves any
    /// other operation as it is. Returns whether the state changed.
    fn settle(&mut self, to: ActionState, error: Option<String>) -> (changed: bool)
        ensures
            final(self)@ == old(self)@.settled(
                to,
                match error {
                    Some(message) => Some(message@),
                    None => None,
                },
            ),
            changed == (old(self)@.state == ActionState::Ongoing),
    {
        if self.state == ActionState::Ongoing {
            self.state = to;
            self.cancel_handle = None;
            self.error = error;
            true
        } else {
            false
        }
    }

    /// Reports successful completion. Has no effect on an operation that
    /// already reached a terminal state. Returns whether the state changed.
    pub fn mark_finished(&mut self) -> (changed: bool)
        ensures
            final(self)@ == old(self)@.finished(),
            changed == (old(self)@.state == ActionState::Ongoing),
            old(self)@.wf() ==> final(self)@.wf(),
    {
        self.settle(ActionState::Finished, None)
    }

    /// Reports that the workflow observed a cancel request and stopped. Has
    /// no effect on an operation that already reached a terminal state.
    /// Returns whether the state changed.
    pub fn mark_cancelled(&mut self) -> (changed: bool)
        ensures
            final(self)@ == old(self)@.cancelled(),
            changed == (old(self)@.state == ActionState::Ongoing),
            old(self)@.wf() ==> final(self)@.wf(),
    {
        self.settle(ActionState::Cancelled, None)
    }

    /// Reports failure and keeps `error` for display. Has no effect on an
    /// operation that already reached a terminal state. Returns whether the
    /// state changed.
    pub fn mark_failed(&mut self, error: String) -> (changed: bool)
        ensures
            final(self)@ == old(self)@.failed(error@),
            changed == (old(self)@.state == ActionState::Ongoing),
            old(self)@.wf() ==> final(self)@.wf(),
    {
        self.settle(ActionState::Failed, Some(error))
    }

    /// Asks the workflow to stop. The state does not change: the workflow has
    /// to notice the request and report `Cancelled` itself. Returns whether
    /// the request was signalled, which is the case exactly when the
    /// operation is `Ongoing` and has a cancel handle.
    pub fn request_cancel(&mut self) -> (signalled: bool)
        ensures
            final(self)@ == old(self)@.cancel_requested(),
            signalled == old(self)@.can_signal_cancel(),
            old(self)@.wf() ==> final(self)@.wf(),
    {
        if self.state == ActionState::Ongoing && self.cancel_handle.is_some() {
            self.cancel_handle = Some(CancellationToken { requested: true });
            true
        } else {
            false
        }
    }
}

} // verus!
