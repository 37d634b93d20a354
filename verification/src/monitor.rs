//! Starting and stopping the clipboard watch.

use crate::state::AppState;
use clipboard_rs::WatcherShutdown;
use vstd::prelude::*;

verus! {

/// The handle by which `clipboard_rs` lets a running watcher be told to
/// end. Nothing of its inside is known here.
#[verifier::external_type_specification]
#[verifier::external_body]
pub struct ExWatcherShutdown(clipboard_rs::WatcherShutdown);

/// Calls `WatcherShutdown::stop`, which consumes the handle and tells the
/// watcher that gave it to leave its loop. Nothing is claimed of the call.
#[verifier::external_body]
fn signal_shutdown(shutdown: WatcherShutdown) {
    shutdown.stop();
}

/// What the caller of `toggle_monitoring` has to do next.
#[derive(Clone, Copy, Debug, PartialEq, Eq, Structural)]
pub enum MonitorAction {
    /// Acquire a clipboard watcher and hand the outcome to
    /// `start_clipboard_monitoring`.
    StartWatcher,
    /// Nothing.
    Nothing,
}

/// Stops the watch: the handle of the live task, if there is one, is
/// signalled and given up. Does nothing on a stopped state.
pub fn stop_clipboard_monitoring(state: &mut AppState<WatcherShutdown>)
    ensures
        !final(state).running(),
        final(state).preferred() == old(state).preferred(),
        final(state).initialized() == old(state).initialized(),
{
    match state.release() {
        Some(shutdown) => signal_shutdown(shutdown),
        None => {},
    }
}

/// Starts the watch with the watcher that the caller tried to acquire. A
/// task that was live before is stopped first, whatever the outcome. With a
/// watcher the state is running and holds its handle; without one the state
/// is stopped and the error is handed back.
pub fn start_clipboard_monitoring(
    state: &mut AppState<WatcherShutdown>,
    watcher: Result<WatcherShutdown, String>,
) -> (r: Result<(), String>)
    ensures
        match watcher {
            Ok(shutdown) => r is Ok && final(state).task() == Some(shutdown),
            Err(e) => r == Err::<(), String>(e) && !final(state).running(),
        },
        final(state).preferred() == old(state).preferred(),
        final(state).initialized() == old(state).initialized(),
{
    stop_clipboard_monitoring(state);
    match watcher {
        Ok(shutdown) => {
            let _ = state.adopt(shutdown);
            Ok(())
        },
        Err(e) => Err(e),
    }
}

/// Switches the watch on or off. Either way a live task is stopped and the
/// state is left stopped; when switching on, the caller is told to acquire
/// a watcher, and the state runs again once `start_clipboard_monitoring`
/// has been given one.
pub fn toggle_monitoring(state: &mut AppState<WatcherShutdown>, enabled: bool) -> (action:
    MonitorAction)
    ensures
        action == if enabled {
            MonitorAction::StartWatcher
        } else {
            MonitorAction::Nothing
        },
        !final(state).running(),
        final(state).preferred() == old(state).preferred(),
        final(state).initialized() == old(state).initialized(),
{
    stop_clipboard_monitoring(state);
    if enabled {
        MonitorAction::StartWatcher
    } else {
        MonitorAction::Nothing
    }
}

} // verus!
