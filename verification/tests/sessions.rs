use pulseseek::sessions::{ActiveCopies, ActiveEnumerations, SessionRegistry};

#[test]
fn folder_enumeration_service_active_enumerations_register_and_cancel() {
    let mut active = ActiveEnumerations::new();
    let flag = active.register("session-1");
    assert!(!active.is_cancelled(&flag), "new session should not be cancelled");
    active.cancel("session-1");
    assert!(active.is_cancelled(&flag), "session should be cancelled");
}

#[test]
fn folder_enumeration_service_active_enumerations_remove_unknown_idempotent() {
    let mut active = ActiveEnumerations::new();
    active.remove("nonexistent");
}

#[test]
fn folder_enumeration_service_active_enumerations_cancel_unknown_idempotent() {
    let mut active = ActiveEnumerations::new();
    active.cancel("nonexistent");
}

#[test]
fn tests_active_enumerations_register_and_cancel() {
    let mut active = ActiveEnumerations::new();
    let flag = active.register("session-1");
    assert!(!active.is_cancelled(&flag), "new session should not be cancelled");
    active.cancel("session-1");
    assert!(active.is_cancelled(&flag), "session should be cancelled");
}

#[test]
fn tests_active_enumerations_remove_unknown_idempotent() {
    let mut active = ActiveEnumerations::new();
    active.remove("nonexistent");
}

#[test]
fn tests_active_enumerations_cancel_unknown_idempotent() {
    let mut active = ActiveEnumerations::new();
    active.cancel("nonexistent");
}

#[test]
fn cancelling_one_session_leaves_the_others_running() {
    let mut active = ActiveEnumerations::new();
    let first = active.register("session-1");
    let second = active.register("session-2");
    active.cancel("session-2");
    assert!(!active.is_cancelled(&first));
    assert!(active.is_cancelled(&second));
}

#[test]
fn removed_session_is_forgotten_and_cancel_no_longer_reaches_it() {
    let mut active = ActiveEnumerations::new();
    let flag = active.register("session-1");
    assert!(active.contains("session-1"));
    active.remove("session-1");
    assert!(!active.contains("session-1"));
    active.cancel("session-1");
    assert!(!active.is_cancelled(&flag));
}

#[test]
fn registering_again_replaces_the_flag_of_a_session() {
    let mut active = ActiveEnumerations::new();
    let old = active.register("session-1");
    let new = active.register("session-1");
    active.cancel("session-1");
    assert!(active.is_cancelled(&new));
    assert!(!active.is_cancelled(&old));
}

#[test]
fn active_copies_register_and_cancel() {
    let mut active = ActiveCopies::new();
    let flag = active.register("copy-1");
    assert!(!active.is_cancelled(&flag));
    active.cancel("copy-1");
    assert!(active.is_cancelled(&flag));
    active.remove("copy-1");
    assert!(!active.contains("copy-1"));
}

#[test]
fn registry_tracks_contained_sessions() {
    let mut registry = SessionRegistry::new();
    assert!(!registry.contains("a"));
    let _flag = registry.register("a");
    assert!(registry.contains("a"));
    assert!(!registry.contains("b"));
}
