use pulseseek::commands::{ApplicationError, DiagnosticCode, ErrorCategory};
use pulseseek::sessions::ActiveEnumerations;
use pulseseek::services::{
    begin_enumeration, WatchStep,
    copy_item_result, copy_progress, copy_progress_plan, empty_copy_progress, WatchRequests, session_id, should_skip_recursive_watch,
    validate_batch_size, validate_copy_request, CopyProgress, FakeAudioDeviceService,
    FakeFileWatcherService, FakeFolderEnumerationService,
};

#[test]
fn fake_device_service_lists_and_selects() {
    let mut service = FakeAudioDeviceService::new();
    let devices = service.list_devices().unwrap();
    assert_eq!(devices.len(), 2);
    assert_eq!(devices[0].id, "default");
    assert_eq!(devices[1].name, "HDMI Output");
    assert_eq!(service.current_device().unwrap().unwrap().id, "default");
    service.select_device("hdmi").unwrap();
    assert_eq!(service.current_device().unwrap().unwrap().id, "hdmi");
    assert_eq!(service.select_call_count, 1);
    assert_eq!(service.last_select_id.as_deref(), Some("hdmi"));
    assert!(!service.is_device_lost());
}

#[test]
fn fake_device_service_fails_when_told_to() {
    let mut service = FakeAudioDeviceService::new();
    service.fail_list = true;
    service.fail_select = true;
    let error = service.list_devices().unwrap_err();
    assert_eq!(error.category, ErrorCategory::Unavailable);
    assert_eq!(error.code, DiagnosticCode::AudioOutput);
    assert!(service.select_device("hdmi").is_err());
    assert_eq!(service.current_device().unwrap().unwrap().id, "default");
}

#[test]
fn fake_watcher_records_watches_and_stops() {
    let mut watcher = FakeFileWatcherService::new();
    watcher.start_watching("/music").unwrap();
    assert_eq!(watcher.watched_path().as_deref(), Some("/music"));
    assert_eq!(watcher.watch_calls, vec!["/music".to_string()]);
    watcher.stop_watching().unwrap();
    assert_eq!(watcher.watched_path(), None);
    assert_eq!(watcher.stop_calls, 1);
    watcher.fail_watch = true;
    assert!(watcher.start_watching("/other").is_err());
    assert_eq!(watcher.watched_path(), None);
}

fn fake_service_fails_with_error() {
    let mut service = FakeFolderEnumerationService::new();
    service.fail_start = true;
    let result = service.start_enumeration("/music", 50, false, false);
    assert!(result.is_err());
    assert_eq!(result.unwrap_err().category, ErrorCategory::Unavailable);
}

fn fake_service_records_show_unsupported_preference() {
    let mut service = FakeFolderEnumerationService::new();
    service.start_enumeration("/music", 50, true, false).unwrap();
    assert_eq!(service.last_show_unsupported, Some(true));
}

#[test]
fn fake_service_records_recursive_flag() {
    let mut service = FakeFolderEnumerationService::new();
    service.start_enumeration("/music", 50, false, true).unwrap();
    assert_eq!(service.last_recursive, Some(true));
}

fn fake_service_starts_enumeration() {
    let mut service = FakeFolderEnumerationService::new();
    let session = service.start_enumeration("/music", 50, false, false).unwrap();
    assert_eq!(session, "test-session-001");
    assert_eq!(service.start_call_count, 1);
    assert_eq!(service.last_path.as_deref(), Some("/music"));
    assert_eq!(service.last_batch_size, Some(50));
    assert_eq!(service.roots.len(), 1);
    assert_eq!(service.roots[0].path, std::path::MAIN_SEPARATOR.to_string());
}

#[test]
fn watcher_skips_filesystem_root_and_home() {
    assert!(should_skip_recursive_watch("/", '/', None));
    assert!(should_skip_recursive_watch("/Users/alice", '/', Some("/Users/alice")));
    assert!(!should_skip_recursive_watch("/Users/alice/Music", '/', Some("/Users/alice")));
    assert!(!should_skip_recursive_watch("/music", '/', None));
    assert!(should_skip_recursive_watch("\\", '\\', None));
}

#[test]
fn session_ids_append_the_number() {
    assert_eq!(session_id("enum-", 0), "enum-0");
    assert_eq!(session_id("copy-", 42), "copy-42");
    assert_eq!(session_id("", u64::MAX), "18446744073709551615");
}

#[test]
fn empty_batches_and_empty_copies_are_refused() {
    let error = validate_batch_size(0).unwrap_err();
    assert_eq!(error.category, ErrorCategory::InvalidInput);
    assert_eq!(error.code, DiagnosticCode::BrowserRead);
    assert!(validate_batch_size(1).is_ok());
    let error = validate_copy_request(0).unwrap_err();
    assert_eq!(error.category, ErrorCategory::InvalidInput);
    assert_eq!(error.code, DiagnosticCode::FileOperation);
    assert!(validate_copy_request(3).is_ok());
}

#[test]
fn copy_progress_reports_results_with_the_last_item() {
    assert_eq!(copy_progress(0, 3), CopyProgress { completed: 1, total: 3, done: false, with_results: false });
    assert_eq!(copy_progress(2, 3), CopyProgress { completed: 3, total: 3, done: true, with_results: true });
    assert_eq!(empty_copy_progress(), CopyProgress { completed: 0, total: 0, done: true, with_results: false });
}

#[test]
fn copy_batches_report_each_file_and_finish_once() {
    let plan = copy_progress_plan(3);
    assert_eq!(plan.len(), 3);
    assert_eq!(plan[0], CopyProgress { completed: 1, total: 3, done: false, with_results: false });
    assert_eq!(plan[2], CopyProgress { completed: 3, total: 3, done: true, with_results: true });
    assert_eq!(copy_progress_plan(0), vec![CopyProgress { completed: 0, total: 0, done: true, with_results: false }]);
}

#[test]
fn copy_results_report_the_new_path_or_the_error() {
    let ok = copy_item_result("/a.wav".to_string(), &Ok("/b/a.wav".to_string()));
    assert!(ok.ok);
    assert_eq!(ok.new_path.as_deref(), Some("/b/a.wav"));
    let failed = copy_item_result(
        "/a.wav".to_string(),
        &Err(ApplicationError::new(ErrorCategory::Conflict, DiagnosticCode::FileOperation, "exists")),
    );
    assert!(!failed.ok);
    assert!(failed.new_path.is_none());
    assert_eq!(failed.category.as_deref(), Some("Conflict"));
    assert_eq!(failed.message.as_deref(), Some("exists"));
    assert_eq!(failed.diagnostic_code.as_deref(), Some("file.operation"));
}

#[test]
fn only_the_latest_watch_request_may_replace_the_watch() {
    let mut requests = WatchRequests::new();
    let first = requests.begin();
    assert!(requests.is_latest(first));
    let second = requests.begin();
    assert!(!requests.is_latest(first));
    assert!(requests.is_latest(second));
}

#[test]
fn folder_enumeration_service_fake_service_starts_enumeration() {
    fake_service_starts_enumeration();
}

#[test]
fn tests_fake_service_starts_enumeration() {
    fake_service_starts_enumeration();
}

#[test]
fn folder_enumeration_service_fake_service_fails_with_error() {
    fake_service_fails_with_error();
}

#[test]
fn tests_fake_service_fails_with_error() {
    fake_service_fails_with_error();
}

#[test]
fn folder_enumeration_service_fake_service_records_show_unsupported_preference() {
    fake_service_records_show_unsupported_preference();
}

#[test]
fn tests_fake_service_records_show_unsupported_preference() {
    fake_service_records_show_unsupported_preference();
}

#[test]
fn fake_watcher_records_calls() {
    let mut service = FakeFileWatcherService::new();
    assert_eq!(service.watched_path(), None);

    service.start_watching("/music").expect("start watching");
    assert_eq!(service.watch_calls, vec!["/music".to_string()]);
    assert_eq!(service.watched_path(), Some("/music".to_string()));

    service.stop_watching().expect("stop watching");
    assert_eq!(service.stop_calls, 1);
    assert_eq!(service.watched_path(), None);
}

#[test]
fn fake_watcher_reports_failure() {
    let mut service = FakeFileWatcherService::new();
    service.fail_watch = true;

    let error = service.start_watching("/music").expect_err("watch must fail");
    assert_eq!(error.category, ErrorCategory::Unavailable);
}

#[test]
fn enumeration_start_registers_a_folder_session_and_asks_for_a_watch() {
    let mut watches = WatchRequests::new();
    let mut active = ActiveEnumerations::new();
    let (id, flag, step) =
        begin_enumeration("/music", '/', Some("/home/me"), 64, 3, true, &mut watches, &mut active).unwrap();
    assert_eq!(id, "folder-3");
    assert!(!active.is_cancelled(&flag));
    assert!(active.contains("folder-3"));
    assert_eq!(step, Some(WatchStep::Watch { generation: 1 }));
    assert!(watches.is_latest(1));

    let (_, _, step) =
        begin_enumeration("/home/me", '/', Some("/home/me"), 64, 4, true, &mut watches, &mut active).unwrap();
    assert_eq!(step, Some(WatchStep::Stop { generation: 2 }));
    let (_, _, step) = begin_enumeration("/", '/', None, 64, 5, true, &mut watches, &mut active).unwrap();
    assert_eq!(step, Some(WatchStep::Stop { generation: 3 }));
    let (id, _, step) = begin_enumeration("/music", '/', None, 64, 6, false, &mut watches, &mut active).unwrap();
    assert_eq!(id, "folder-6");
    assert_eq!(step, None);
    assert!(watches.is_latest(3));
}

#[test]
fn enumeration_start_refuses_a_zero_batch_size() {
    let mut watches = WatchRequests::new();
    let mut active = ActiveEnumerations::new();
    let error = begin_enumeration("/music", '/', None, 0, 1, true, &mut watches, &mut active).unwrap_err();
    assert_eq!(error.category, ErrorCategory::InvalidInput);
    assert_eq!(error.code, DiagnosticCode::BrowserRead);
    assert!(!active.contains("folder-1"));
    assert!(watches.is_latest(0));
}

#[test]
fn default_enumeration_service_offers_the_platform_root() {
    let service = FakeFolderEnumerationService::default();
    assert_eq!(service.roots.len(), 1);
    assert_eq!(service.roots[0].path, std::path::MAIN_SEPARATOR.to_string());
    assert_eq!(service.roots[0].name, "System");
    assert_eq!(service.start_call_count, 0);
}
