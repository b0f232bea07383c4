use std::sync::atomic::{AtomicBool, Ordering};
use std::sync::Arc;

use archive_core::state::{AppState, RegisterError, MAX_CONCURRENT_TASKS};

#[test]
fn register_duplicate_task_rejected() {
    let mut state = AppState::new();
    let token = Arc::new(AtomicBool::new(false));
    let first = state.register_task("id-1", token.clone());
    assert!(first.is_ok());
    let second = state.register_task("id-1", token.clone());
    assert!(matches!(second, Err(RegisterError::Duplicate(_))));
}

#[test]
fn drop_task_only_removes_matching() {
    let mut state = AppState::new();
    let t1 = Arc::new(AtomicBool::new(false));
    let t2 = Arc::new(AtomicBool::new(false));
    let (_, ticket_a) = state.register_task("id-a", t1.clone()).ok().expect("registered");
    assert!(state.register_task("id-a-replaced", t2.clone()).is_ok());
    // The ticket of another task does not remove "id-a-replaced".
    state.drop_task("id-a-replaced", ticket_a);
    let dup = state.register_task("id-a-replaced", t1.clone());
    assert!(matches!(dup, Err(RegisterError::Duplicate(_))));
}

#[test]
fn concurrent_limit_enforced() {
    let mut state = AppState::new();
    for i in 0..MAX_CONCURRENT_TASKS {
        let tok = Arc::new(AtomicBool::new(false));
        let id = format!("job-{i}");
        assert!(state.register_task(&id, tok).is_ok());
    }
    let over = state.register_task("overflow", Arc::new(AtomicBool::new(false)));
    assert!(matches!(over, Err(RegisterError::TooMany(3))));
}

#[test]
fn duplicate_reports_the_running_token() {
    let mut state = AppState::new();
    let running = Arc::new(AtomicBool::new(false));
    assert!(state.register_task("job", running.clone()).is_ok());
    match state.register_task("job", Arc::new(AtomicBool::new(false))) {
        Err(RegisterError::Duplicate(t)) => assert!(Arc::ptr_eq(&t, &running)),
        _ => panic!("expected a duplicate"),
    }
}

#[test]
fn dropping_the_matching_token_frees_the_id() {
    let mut state = AppState::new();
    let t = Arc::new(AtomicBool::new(false));
    let (_, first) = state.register_task("a", t.clone()).ok().expect("registered");
    assert_eq!(state.len(), 1);
    state.drop_task("a", first);
    assert_eq!(state.len(), 0);
    let (_, second) = state.register_task("a", t.clone()).ok().expect("registered");
    assert_ne!(first, second);
    state.drop_task("missing", second);
    assert_eq!(state.len(), 1);
    // A task that finished late, with the old ticket, leaves the new one.
    state.drop_task("a", first);
    assert_eq!(state.len(), 1);
    state.drop_task("a", second);
    assert_eq!(state.len(), 0);
}

#[test]
fn cancel_sets_the_flag_of_a_running_task() {
    let mut state = AppState::new();
    let t = Arc::new(AtomicBool::new(false));
    assert!(state.register_task("x", t.clone()).is_ok());
    assert!(!state.cancel_task("y"));
    assert!(!t.load(Ordering::SeqCst));
    assert!(state.cancel_task("x"));
    assert!(t.load(Ordering::SeqCst));
}
