//! The window host as a pure state machine: every OS-delivered notification
//! becomes a transition `(state, notification) -> (state, action)`. The caller
//! applies the returned action outside this function's stack frame, so no
//! teardown ever races with an in-flight subsystem call, and the running flag
//! has a single writer: this transition function.

use vstd::prelude::*;

verus! {

/// Lifecycle of the single top-level window.
#[derive(Clone, Copy, Debug, PartialEq, Eq, Structural)]
pub enum WindowState {
    NotCreated,
    Created,
    Running,
    Closing,
    Terminated,
}

/// A notification delivered for the window, reduced to the cases the host
/// recognises; anything else is carried as `Other` and delegated.
#[derive(Clone, Copy, Debug, PartialEq, Eq, Structural)]
pub enum Notification {
    CreateSuccess,
    Show,
    CloseRequest,
    PaintRequest,
    Resize(i32, i32),
    Quit,
    Other(u32),
}

/// What the caller must do after a transition. The transition function itself
/// performs no effect.
#[derive(Clone, Copy, Debug, PartialEq, Eq, Structural)]
pub enum Action {
    /// Keep the window handle that the creation notification carries.
    StoreHandle,
    /// Make the window visible.
    ShowWindow,
    /// The notification is handled; do not run the platform's default handler.
    Acknowledge,
    /// Present the process-wide buffer to the current client area.
    Present,
    /// Re-allocate the buffer to the new client-area size.
    Reallocate(i32, i32),
    /// Hand the notification to the platform's default handler.
    Delegate,
}

/// The loop-visible state: the window's lifecycle stage together with the
/// authoritative shutdown signal the main loop reads.
#[derive(Clone, Copy, Debug, PartialEq, Eq, Structural)]
pub struct LoopState {
    pub window: WindowState,
    pub running: bool,
}

impl LoopState {
    /// The running flag and the window state never disagree: the flag is true
    /// exactly in the `Running` stage.
    pub open spec fn wf(&self) -> bool {
        self.running <==> self.window is Running
    }

    /// The state a process starts in: no window, not running.
    pub fn initial() -> (s: LoopState)
        ensures
            s.wf(),
            s.window is NotCreated,
            !s.running,
    {
        LoopState { window: WindowState::NotCreated, running: false }
    }
}

/// The transition table. Unrecognised pairs delegate to the platform's
/// default handling and leave the state unchanged.
pub open spec fn spec_step(s: LoopState, n: Notification) -> (LoopState, Action) {
    match (s.window, n) {
        (WindowState::NotCreated, Notification::CreateSuccess) => (
            LoopState { window: WindowState::Created, running: false },
            Action::StoreHandle,
        ),
        (WindowState::Created, Notification::Show) => (
            LoopState { window: WindowState::Running, running: true },
            Action::ShowWindow,
        ),
        (WindowState::Running, Notification::CloseRequest) => (
            LoopState { window: WindowState::Closing, running: false },
            Action::Acknowledge,
        ),
        (WindowState::Running, Notification::PaintRequest) => (s, Action::Present),
        (WindowState::Closing, Notification::PaintRequest) => (s, Action::Present),
        (WindowState::Running, Notification::Resize(w, h)) => (s, Action::Reallocate(w, h)),
        (WindowState::Closing, Notification::Quit) => (
            LoopState { window: WindowState::Terminated, running: false },
            Action::Acknowledge,
        ),
        _ => (s, Action::Delegate),
    }
}

/// Apply one notification to the state machine.
pub fn step(s: LoopState, n: Notification) -> (r: (LoopState, Action))
    requires
        s.wf(),
    ensures
        r == spec_step(s, n),
        r.0.wf(),
{
    match (s.window, n) {
        (WindowState::NotCreated, Notification::CreateSuccess) => (
            LoopState { window: WindowState::Created, running: false },
            Action::StoreHandle,
        ),
        (WindowState::Created, Notification::Show) => (
            LoopState { window: WindowState::Running, running: true },
            Action::ShowWindow,
        ),
        (WindowState::Running, Notification::CloseRequest) => (
            LoopState { window: WindowState::Closing, running: false },
            Action::Acknowledge,
        ),
        (WindowState::Running, Notification::PaintRequest) => (s, Action::Present),
        (WindowState::Closing, Notification::PaintRequest) => (s, Action::Present),
        (WindowState::Running, Notification::Resize(w, h)) => (s, Action::Reallocate(w, h)),
        (WindowState::Closing, Notification::Quit) => (
            LoopState { window: WindowState::Terminated, running: false },
            Action::Acknowledge,
        ),
        _ => (s, Action::Delegate),
    }
}

/// Every transition preserves the agreement between the running flag and the
/// window state.
pub proof fn lemma_step_preserves_wf(s: LoopState, n: Notification)
    requires
        s.wf(),
    ensures
        spec_step(s, n).0.wf(),
{
}

/// While the window is running, only a close request can clear the running
/// flag: every other notification leaves the loop's condition true.
pub proof fn lemma_only_close_stops_running(s: LoopState, n: Notification)
    requires
        s.wf(),
        s.running,
        !(n is CloseRequest),
    ensures
        spec_step(s, n).0.running,
        spec_step(s, n).0.wf(),
{
}

} // verus!
