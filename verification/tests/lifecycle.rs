use clipboard_rs::{ClipboardHandler, ClipboardWatcher, ClipboardWatcherContext, WatcherShutdown};
use pm_translate::monitor::{
    start_clipboard_monitoring, stop_clipboard_monitoring, toggle_monitoring, MonitorAction,
};
use pm_translate::state::{
    get_monitoring_state, get_preferred_package_manager, init, set_preferred_package_manager,
    AppState,
};
use pm_translate::watch::{after_write, ClipboardMonitor, TranslationEvent};

struct Idle;

impl ClipboardHandler for Idle {
    fn on_clipboard_change(&mut self) {}
}

#[test]
fn a_new_state_prefers_npm_and_watches_nothing() {
    let state = AppState::<u32>::new();
    assert_eq!(get_preferred_package_manager(&state), "npm");
    assert!(!get_monitoring_state(&state));
}

#[test]
fn init_runs_once() {
    let mut state = AppState::<u32>::new();
    assert!(init(&mut state));
    assert_eq!(get_preferred_package_manager(&state), "npm");
    assert_eq!(set_preferred_package_manager(&mut state, "bun".to_string()), Ok(()));
    assert!(!init(&mut state));
    assert_eq!(get_preferred_package_manager(&state), "bun");
}

#[test]
fn any_text_is_taken_as_preference() {
    let mut state = AppState::<u32>::new();
    for name in ["pnpm", "yarn", "deno", "", "  npm "] {
        assert_eq!(set_preferred_package_manager(&mut state, name.to_string()), Ok(()));
        assert_eq!(get_preferred_package_manager(&state), name);
    }
}

#[test]
fn a_second_start_gives_up_the_first_task() {
    let mut state = AppState::<u32>::new();
    assert_eq!(state.adopt(1), None);
    assert!(get_monitoring_state(&state));
    assert_eq!(state.adopt(2), Some(1));
    assert!(get_monitoring_state(&state));
    assert_eq!(state.release(), Some(2));
    assert!(!get_monitoring_state(&state));
    assert_eq!(state.release(), None);
    assert!(!get_monitoring_state(&state));
}

#[test]
fn stopping_keeps_the_preference() {
    let mut state = AppState::<u32>::new();
    set_preferred_package_manager(&mut state, "yarn".to_string()).unwrap();
    state.adopt(7);
    state.release();
    assert_eq!(get_preferred_package_manager(&state), "yarn");
}

#[test]
fn stopping_a_stopped_watch_does_nothing() {
    let mut state = AppState::<WatcherShutdown>::new();
    stop_clipboard_monitoring(&mut state);
    assert!(!get_monitoring_state(&state));
    stop_clipboard_monitoring(&mut state);
    assert!(!get_monitoring_state(&state));
}

#[test]
fn toggling_tells_what_to_do_next() {
    let mut state = AppState::<WatcherShutdown>::new();
    assert_eq!(toggle_monitoring(&mut state, true), MonitorAction::StartWatcher);
    assert!(!get_monitoring_state(&state));
    assert_eq!(toggle_monitoring(&mut state, false), MonitorAction::Nothing);
    assert!(!get_monitoring_state(&state));
}

#[test]
fn a_start_without_a_watcher_fails_and_stays_stopped() {
    let mut state = AppState::<WatcherShutdown>::new();
    let r = start_clipboard_monitoring(&mut state, Err("no clipboard".to_string()));
    assert_eq!(r, Err("no clipboard".to_string()));
    assert!(!get_monitoring_state(&state));
}

#[test]
fn a_start_with_a_watcher_runs_until_stopped() {
    let mut state = AppState::<WatcherShutdown>::new();
    let first = ClipboardWatcherContext::<Idle>::new();
    let second = ClipboardWatcherContext::<Idle>::new();
    if let (Ok(first), Ok(second)) = (first, second) {
        let r = start_clipboard_monitoring(&mut state, Ok(first.get_shutdown_channel()));
        assert_eq!(r, Ok(()));
        assert!(get_monitoring_state(&state));
        let r = start_clipboard_monitoring(&mut state, Ok(second.get_shutdown_channel()));
        assert_eq!(r, Ok(()));
        assert!(get_monitoring_state(&state));
        assert_eq!(toggle_monitoring(&mut state, false), MonitorAction::Nothing);
        assert!(!get_monitoring_state(&state));
    }
}

fn texts(event: Option<TranslationEvent>) -> Option<(String, String)> {
    event.map(|e| (e.original, e.translated))
}

#[test]
fn a_change_is_rewritten_once() {
    let mut monitor = ClipboardMonitor::new();
    let first = monitor.on_clipboard_change(true, Some("npm install react".to_string()), "pnpm");
    assert_eq!(
        texts(first),
        Some(("npm install react".to_string(), "pnpm add react".to_string()))
    );
    let again = monitor.on_clipboard_change(true, Some("npm install react".to_string()), "pnpm");
    assert_eq!(texts(again), None);
    let own = monitor.on_clipboard_change(true, Some("pnpm add react".to_string()), "pnpm");
    assert_eq!(texts(own), None);
}

#[test]
fn events_are_counted_per_distinct_change() {
    let mut monitor = ClipboardMonitor::new();
    let reads = [
        "npx cowsay",
        "npx cowsay",
        "pnpx cowsay",
        "pnpx cowsay",
        "yarn build",
        "hello",
        "yarn build",
        "yarn build",
    ];
    let mut events = 0;
    for read in reads {
        if monitor.on_clipboard_change(true, Some(read.to_string()), "pnpm").is_some() {
            events += 1;
        }
    }
    assert_eq!(events, 3);
}

#[test]
fn an_empty_clipboard_is_remembered_but_not_rewritten() {
    let mut monitor = ClipboardMonitor::new();
    assert!(monitor.on_clipboard_change(true, Some(String::new()), "pnpm").is_none());
    assert!(monitor.on_clipboard_change(true, Some("npx a".to_string()), "pnpm").is_some());
    assert!(monitor.on_clipboard_change(true, Some(String::new()), "pnpm").is_none());
    assert!(monitor.on_clipboard_change(true, Some("npx a".to_string()), "pnpm").is_some());
}

#[test]
fn a_failed_read_changes_nothing() {
    let mut monitor = ClipboardMonitor::new();
    assert!(monitor.on_clipboard_change(true, Some("npx a".to_string()), "pnpm").is_some());
    assert!(monitor.on_clipboard_change(true, None, "pnpm").is_none());
    assert!(monitor.on_clipboard_change(true, Some("npx a".to_string()), "pnpm").is_none());
}

#[test]
fn a_stopped_watch_neither_rewrites_nor_remembers() {
    let mut monitor = ClipboardMonitor::new();
    assert!(monitor.on_clipboard_change(false, Some("npx a".to_string()), "pnpm").is_none());
    assert!(monitor.on_clipboard_change(true, Some("npx a".to_string()), "pnpm").is_some());
}

#[test]
fn the_preference_of_the_moment_counts() {
    let mut state = AppState::<u32>::new();
    let mut monitor = ClipboardMonitor::new();
    let pm = get_preferred_package_manager(&state);
    assert!(monitor.on_clipboard_change(true, Some("npm i x".to_string()), &pm).is_none());
    set_preferred_package_manager(&mut state, "bun".to_string()).unwrap();
    let pm = get_preferred_package_manager(&state);
    let event = monitor.on_clipboard_change(true, Some("npm i y".to_string()), &pm);
    assert_eq!(texts(event), Some(("npm i y".to_string(), "bun add y".to_string())));
}

#[test]
fn an_event_goes_out_only_after_a_good_write() {
    let event = TranslationEvent {
        original: "npx a".to_string(),
        translated: "bunx a".to_string(),
    };
    assert_eq!(
        texts(after_write(event.clone(), true)),
        Some(("npx a".to_string(), "bunx a".to_string()))
    );
    assert_eq!(texts(after_write(event, false)), None);
}
