//! The state that the control surface and the watch task share: the
//! preferred package manager and whether the clipboard is being watched.

use vstd::prelude::*;

verus! {

/// The shared state. `H` is the handle by which a running watch task is
/// told to end. The state holds at most one, and the clipboard counts as
/// watched exactly while it holds one.
pub struct AppState<H> {
    initialized: bool,
    preferred_pm: String,
    shutdown: Option<H>,
}

impl<H> AppState<H> {
    /// Whether `init` has run.
    pub closed spec fn initialized(self) -> bool {
        self.initialized
    }

    /// The name of the preferred package manager.
    pub closed spec fn preferred(self) -> Seq<char> {
        self.preferred_pm@
    }

    /// Whether the clipboard is being watched: it is exactly while there is
    /// a live watch task.
    pub open spec fn running(self) -> bool {
        self.task() is Some
    }

    /// The handle of the live watch task, if there is one.
    pub closed spec fn task(self) -> Option<H> {
        self.shutdown
    }

    /// The state at process start: npm preferred, nothing watched.
    pub fn new() -> (s: Self)
        ensures
            !s.initialized(),
            s.preferred() == "npm"@,
            !s.running(),
            s.task() is None,
    {
        AppState {
            initialized: false,
            preferred_pm: "npm".to_owned(),
            shutdown: None,
        }
    }

    /// Ends the watch: clears the flag and gives up the handle of the live
    /// task, if there is one, for the caller to signal. On a stopped state
    /// nothing changes and nothing is returned.
    pub fn release(&mut self) -> (released: Option<H>)
        ensures
            released == old(self).task(),
            !final(self).running(),
            final(self).task() is None,
            final(self).preferred() == old(self).preferred(),
            final(self).initialized() == old(self).initialized(),
    {
        self.shutdown.take()
    }

    /// Begins the watch with a new task. The handle of the task that was
    /// live before, if any, is given up for the caller to signal: the state
    /// never holds two.
    pub fn adopt(&mut self, task: H) -> (released: Option<H>)
        ensures
            released == old(self).task(),
            final(self).running(),
            final(self).task() == Some(task),
            final(self).preferred() == old(self).preferred(),
            final(self).initialized() == old(self).initialized(),
    {
        let released = self.shutdown.take();
        self.shutdown = Some(task);
        released
    }
}

/// Runs once: the first call makes npm the preferred package manager and
/// returns `true`; every later call changes nothing and returns `false`.
pub fn init<H>(state: &mut AppState<H>) -> (ran: bool)
    ensures
        ran == !old(state).initialized(),
        final(state).initialized(),
        final(state).preferred() == if ran {
            "npm"@
        } else {
            old(state).preferred()
        },
        final(state).running() == old(state).running(),
        final(state).task() == old(state).task(),
{
    if state.initialized {
        false
    } else {
        state.initialized = true;
        state.preferred_pm = "npm".to_owned();
        true
    }
}

/// Makes `package_manager` the preferred package manager. Any text is
/// taken; the call always succeeds.
pub fn set_preferred_package_manager<H>(state: &mut AppState<H>, package_manager: String) -> (r:
    Result<(), String>)
    ensures
        r is Ok,
        final(state).preferred() == package_manager@,
        final(state).initialized() == old(state).initialized(),
        final(state).running() == old(state).running(),
        final(state).task() == old(state).task(),
{
    state.preferred_pm = package_manager;
    Ok(())
}

/// A copy of the preferred package manager's name.
pub fn get_preferred_package_manager<H>(state: &AppState<H>) -> (r: String)
    ensures
        r@ == state.preferred(),
{
    state.preferred_pm.clone()
}

/// Whether the clipboard is being watched.
pub fn get_monitoring_state<H>(state: &AppState<H>) -> (r: bool)
    ensures
        r == state.running(),
{
    state.shutdown.is_some()
}

} // verus!
