use framepump::machine::{step, Action, LoopState, Notification, WindowState};
use framepump::pump::run_iteration;

#[test]
fn startup_transitions_reach_running() {
    let s0 = LoopState::initial();
    assert_eq!(s0.window, WindowState::NotCreated);
    assert!(!s0.running);
    let (s1, a1) = step(s0, Notification::CreateSuccess);
    assert_eq!(s1.window, WindowState::Created);
    assert_eq!(a1, Action::StoreHandle);
    assert!(!s1.running);
    let (s2, a2) = step(s1, Notification::Show);
    assert_eq!(s2.window, WindowState::Running);
    assert_eq!(a2, Action::ShowWindow);
    assert!(s2.running);
}

#[test]
fn close_request_clears_running_and_acknowledges() {
    let running = LoopState { window: WindowState::Running, running: true };
    let (s, a) = step(running, Notification::CloseRequest);
    assert_eq!(s.window, WindowState::Closing);
    assert!(!s.running);
    assert_eq!(a, Action::Acknowledge);
}

#[test]
fn paint_presents_while_running_or_closing() {
    let running = LoopState { window: WindowState::Running, running: true };
    let (s, a) = step(running, Notification::PaintRequest);
    assert_eq!(s, running);
    assert_eq!(a, Action::Present);
    let closing = LoopState { window: WindowState::Closing, running: false };
    let (s, a) = step(closing, Notification::PaintRequest);
    assert_eq!(s, closing);
    assert_eq!(a, Action::Present);
}

#[test]
fn resize_requests_buffer_reallocation() {
    let running = LoopState { window: WindowState::Running, running: true };
    let (s, a) = step(running, Notification::Resize(640, 480));
    assert_eq!(s, running);
    assert_eq!(a, Action::Reallocate(640, 480));
}

#[test]
fn quit_in_closing_terminates() {
    let closing = LoopState { window: WindowState::Closing, running: false };
    let (s, a) = step(closing, Notification::Quit);
    assert_eq!(s.window, WindowState::Terminated);
    assert!(!s.running);
    assert_eq!(a, Action::Acknowledge);
}

#[test]
fn unrecognised_notifications_delegate() {
    let running = LoopState { window: WindowState::Running, running: true };
    let (s, a) = step(running, Notification::Other(0x7F));
    assert_eq!(s, running);
    assert_eq!(a, Action::Delegate);
    let created = LoopState { window: WindowState::Created, running: false };
    let (s, a) = step(created, Notification::CloseRequest);
    assert_eq!(s, created);
    assert_eq!(a, Action::Delegate);
}

#[test]
fn close_stops_dispatch_of_queued_paints() {
    let running = LoopState { window: WindowState::Running, running: true };
    let pending = vec![
        Notification::PaintRequest,
        Notification::CloseRequest,
        Notification::PaintRequest,
        Notification::PaintRequest,
    ];
    let outcome = run_iteration(running, &pending, &Vec::new());
    assert!(!outcome.state.running);
    assert_eq!(outcome.state.window, WindowState::Closing);
    // The paint before the close is dispatched, the close is acknowledged,
    // and nothing queued after the close is dispatched.
    assert_eq!(outcome.actions, vec![Action::Present, Action::Acknowledge]);
}

#[test]
fn startup_then_close_scenario_terminates_loop() {
    // Start not running, create the window, show it, then deliver one close.
    let s0 = LoopState::initial();
    let (s1, _) = step(s0, Notification::CreateSuccess);
    let (s2, _) = step(s1, Notification::Show);
    assert!(s2.running);
    let outcome = run_iteration(s2, &vec![Notification::CloseRequest], &Vec::new());
    assert!(!outcome.state.running);
    assert_eq!(outcome.actions, vec![Action::Acknowledge]);
    // The next iteration's condition check sees running == false; even if it
    // were entered, nothing more would be dispatched.
    let after = run_iteration(outcome.state, &vec![Notification::PaintRequest], &Vec::new());
    assert!(!after.state.running);
    assert!(after.actions.is_empty());
}

#[test]
fn iteration_without_messages_keeps_state() {
    let running = LoopState { window: WindowState::Running, running: true };
    let outcome = run_iteration(running, &Vec::new(), &Vec::new());
    assert_eq!(outcome.state, running);
    assert!(outcome.actions.is_empty());
}
