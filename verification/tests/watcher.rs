use pulseseek::watcher::{
    affects_watched_folder, batch_action, invalidates_cache, is_content_change, BatchAction,
    ChangeKind, DebouncedEvent, EventPath,
};

fn path(path: &str, parent: Option<&str>) -> EventPath {
    EventPath { path: path.to_string(), parent: parent.map(|p| p.to_string()) }
}

#[test]
fn content_changes_exclude_reads_and_metadata() {
    assert!(is_content_change(ChangeKind::Create));
    assert!(is_content_change(ChangeKind::Remove));
    assert!(is_content_change(ChangeKind::Any));
    assert!(is_content_change(ChangeKind::Modify { metadata_only: false }));
    assert!(!is_content_change(ChangeKind::Modify { metadata_only: true }));
    assert!(!is_content_change(ChangeKind::Access));
    assert!(!is_content_change(ChangeKind::Other));
}

#[test]
fn creations_modifications_and_removals_stale_the_cache() {
    assert!(invalidates_cache(ChangeKind::Create));
    assert!(invalidates_cache(ChangeKind::Remove));
    assert!(invalidates_cache(ChangeKind::Modify { metadata_only: true }));
    assert!(!invalidates_cache(ChangeKind::Any));
    assert!(!invalidates_cache(ChangeKind::Access));
    assert!(!invalidates_cache(ChangeKind::Other));
}

#[test]
fn only_the_folder_and_its_direct_children_count() {
    let watched = "/music";
    assert!(affects_watched_folder(&vec![path("/music", Some("/"))], watched));
    assert!(affects_watched_folder(&vec![path("/music/a.wav", Some("/music"))], watched));
    assert!(!affects_watched_folder(&vec![path("/music/sub/a.wav", Some("/music/sub"))], watched));
    assert!(!affects_watched_folder(&vec![path("/other/a.wav", Some("/other"))], watched));
    assert!(!affects_watched_folder(&vec![], watched));
    assert!(affects_watched_folder(
        &vec![path("/other/a.wav", Some("/other")), path("/music/b.wav", Some("/music"))],
        watched
    ));
    assert!(!affects_watched_folder(&vec![path("/", None)], watched));
}

#[test]
fn a_batch_without_relevant_change_is_ignored() {
    let events = vec![
        DebouncedEvent { kind: ChangeKind::Access, touches_watched: true },
        DebouncedEvent { kind: ChangeKind::Create, touches_watched: false },
    ];
    assert_eq!(batch_action(true, &events), BatchAction::Ignore);
    assert_eq!(batch_action(true, &vec![]), BatchAction::Ignore);
}

#[test]
fn nothing_happens_without_a_watched_folder() {
    let events = vec![DebouncedEvent { kind: ChangeKind::Create, touches_watched: true }];
    assert_eq!(batch_action(false, &events), BatchAction::Ignore);
}

#[test]
fn relevant_changes_refresh_once_and_invalidate_their_paths() {
    let events = vec![
        DebouncedEvent { kind: ChangeKind::Create, touches_watched: true },
        DebouncedEvent { kind: ChangeKind::Any, touches_watched: true },
        DebouncedEvent { kind: ChangeKind::Remove, touches_watched: false },
        DebouncedEvent { kind: ChangeKind::Modify { metadata_only: false }, touches_watched: true },
        DebouncedEvent { kind: ChangeKind::Modify { metadata_only: true }, touches_watched: true },
    ];
    assert_eq!(batch_action(true, &events), BatchAction::Refresh { invalidate: vec![0, 3] });
    let only_any = vec![DebouncedEvent { kind: ChangeKind::Any, touches_watched: true }];
    assert_eq!(batch_action(true, &only_any), BatchAction::Refresh { invalidate: vec![] });
}

#[test]
fn on_debounced_invalidates_changed_sources() {
    let watched = "/tmp/music/track.wav";
    let touches = affects_watched_folder(&vec![path(watched, Some("/tmp/music"))], watched);
    assert!(touches);
    let events = vec![DebouncedEvent { kind: ChangeKind::Create, touches_watched: touches }];
    assert_eq!(batch_action(true, &events), BatchAction::Refresh { invalidate: vec![0] });
}

#[test]
fn on_debounced_invalidates_modified_source() {
    let watched = "/tmp/music/track.wav";
    let touches = affects_watched_folder(&vec![path(watched, Some("/tmp/music"))], watched);
    let events = vec![DebouncedEvent { kind: ChangeKind::Modify { metadata_only: false }, touches_watched: touches }];
    assert_eq!(batch_action(true, &events), BatchAction::Refresh { invalidate: vec![0] });
}
