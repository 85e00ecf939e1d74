use std::cell::RefCell;

use pulseseek::commands::{
    enumeration_batch_size, from_application_error, handle_get_waveform, parse_playback_mode,
    payload_error, playback_mode_name, route_command, trash_item_result, unknown_mode_error,
    validate_waveform_path, waveform_request, ApplicationError, CommandRoute, DiagnosticCode, ErrorCategory,
    PlaybackMode, WaveformRequest, WaveformService,
};
use pulseseek::js_safe_integer;

#[derive(Clone, Debug, PartialEq)]
struct Level {
    channels: u16,
    samples_per_peak: u64,
    min: Vec<f32>,
    max: Vec<f32>,
}

enum FakeOutcome {
    Level(Level),
    Unavailable,
}

struct FakeService {
    requests: RefCell<Vec<(String, u64)>>,
    outcome: FakeOutcome,
}

impl FakeService {
    fn ok() -> Self {
        Self {
            requests: RefCell::new(Vec::new()),
            outcome: FakeOutcome::Level(Level {
                channels: 2,
                samples_per_peak: 4,
                min: vec![-0.5, -0.25],
                max: vec![0.5, 0.75],
            }),
        }
    }

    fn unavailable() -> Self {
        Self { requests: RefCell::new(Vec::new()), outcome: FakeOutcome::Unavailable }
    }
}

impl WaveformService for FakeService {
    type Level = Level;

    fn get_level(&self, request: &WaveformRequest) -> Result<Level, ApplicationError> {
        self.requests.borrow_mut().push((request.path.clone(), request.target_peaks));
        match &self.outcome {
            FakeOutcome::Level(level) => Ok(level.clone()),
            FakeOutcome::Unavailable => Err(ApplicationError::new(
                ErrorCategory::Unavailable,
                DiagnosticCode::BrowserRead,
                "PulseSeek could not read that item.",
            )),
        }
    }
}

#[test]
fn valid_request_returns_level() {
    let service = FakeService::ok();
    let level = handle_get_waveform("/music/track.wav", 4, &service).expect("valid request succeeds");

    assert_eq!(level.channels, 2);
    assert_eq!(level.samples_per_peak, 4);
    assert_eq!(level.min, vec![-0.5, -0.25]);
    assert_eq!(level.max, vec![0.5, 0.75]);

    let requests = service.requests.borrow();
    assert_eq!(requests.len(), 1);
    assert_eq!(requests[0].0, "/music/track.wav");
    assert_eq!(requests[0].1, 4);
}

#[test]
fn empty_path_is_rejected() {
    let service = FakeService::ok();
    let error = handle_get_waveform("  ", 4, &service).expect_err("empty path rejected");

    assert_eq!(error.category, "InvalidInput");
    assert_eq!(error.diagnostic_code, "waveform.path");
    assert!(service.requests.borrow().is_empty(), "service must not run");
}

#[test]
fn service_error_maps_to_boundary() {
    let service = FakeService::unavailable();
    let error = handle_get_waveform("/music/track.wav", 4, &service).expect_err("service error");

    assert_eq!(error.category, "Unavailable");
    assert_eq!(error.diagnostic_code, "browser.read");
}

#[test]
fn boundary_error_carries_category_message_and_code() {
    let error = from_application_error(&ApplicationError::new(
        ErrorCategory::PermissionDenied,
        DiagnosticCode::FileOperation,
        "PulseSeek could not access that item.",
    ));
    assert_eq!(error.category, "PermissionDenied");
    assert_eq!(error.message, "PulseSeek could not access that item.");
    assert_eq!(error.diagnostic_code, "file.operation");
}

#[test]
fn every_category_and_code_has_its_boundary_name() {
    let cases = [
        (ErrorCategory::Cancelled, "Cancelled"),
        (ErrorCategory::Conflict, "Conflict"),
        (ErrorCategory::InvalidInput, "InvalidInput"),
        (ErrorCategory::NotFound, "NotFound"),
        (ErrorCategory::PermissionDenied, "PermissionDenied"),
        (ErrorCategory::Unavailable, "Unavailable"),
        (ErrorCategory::Unsupported, "Unsupported"),
    ];
    for (category, name) in cases {
        let error = from_application_error(&ApplicationError::new(category, DiagnosticCode::AudioOutput, "m"));
        assert_eq!(error.category, name);
        assert_eq!(error.diagnostic_code, "audio.output");
    }
    let error = from_application_error(&ApplicationError::new(
        ErrorCategory::Unavailable,
        DiagnosticCode::PlaybackControl,
        "m",
    ));
    assert_eq!(error.diagnostic_code, "playback.control");
}

#[test]
fn blank_waveform_paths_are_refused() {
    assert!(validate_waveform_path("").is_err());
    assert!(validate_waveform_path(" \t\n").is_err());
    let error = validate_waveform_path("   ").unwrap_err();
    assert_eq!(error.message, "Waveform path cannot be empty.");
    assert!(validate_waveform_path(" a ").is_ok());
}

#[test]
fn routes_known_commands_to_their_handlers() {
    assert_eq!(route_command(1, "health").unwrap(), CommandRoute::Health);
    for command in [
        "play",
        "prepare_next",
        "clear_prepared",
        "pause",
        "resume",
        "stop",
        "seek",
        "volume",
        "set_playback_mode",
        "set_loop_region",
        "clear_loop_region",
    ] {
        assert_eq!(route_command(1, command).unwrap(), CommandRoute::Playback);
    }
    for command in ["list_devices", "current_device", "select_device"] {
        assert_eq!(route_command(1, command).unwrap(), CommandRoute::Device);
    }
    for command in [
        "list_browser_roots",
        "start_enumeration",
        "cancel_enumeration",
        "move_to_trash",
        "rename_file",
        "start_move_files",
        "cancel_move_files",
        "start_copy_files",
        "cancel_copy_files",
        "reveal_file",
        "open_with",
        "drag_out",
    ] {
        assert_eq!(route_command(1, command).unwrap(), CommandRoute::Browsing);
    }
    for command in ["list_recent_folders", "record_recent_folder", "clear_recent_folders"] {
        assert_eq!(route_command(1, command).unwrap(), CommandRoute::RecentFolders);
    }
}

#[test]
fn unknown_device_command_rejected() {
    let error = route_command(1, "unknown_device_op").unwrap_err();
    assert_eq!(error.diagnostic_code, "command.unknown");
}

#[test]
fn playback_modes_parse_and_print() {
    let modes = [
        ("one-shot", PlaybackMode::OneShot),
        ("loop-current", PlaybackMode::LoopCurrent),
        ("sequential", PlaybackMode::Sequential),
        ("random", PlaybackMode::Random),
    ];
    for (name, mode) in modes {
        assert_eq!(parse_playback_mode(name), Some(mode));
        assert_eq!(playback_mode_name(mode), name);
    }
    assert_eq!(parse_playback_mode("shuffle"), None);
    assert_eq!(parse_playback_mode("One-Shot"), None);
}

#[test]
fn set_playback_mode_rejects_unknown_mode() {
    let error = unknown_mode_error("shuffle");
    assert_eq!(error.category, "InvalidInput");
    assert_eq!(error.message, "Unknown playback mode: shuffle");
    assert_eq!(error.diagnostic_code, "command.mode");
}

#[test]
fn unsupported_version_is_refused_with_its_number() {
    let error = route_command(2, "health").unwrap_err();
    assert_eq!(error.category, "Unsupported");
    assert_eq!(error.message, "Unsupported command version 2. Expected 1.");
    assert_eq!(error.diagnostic_code, "command.version");
    let error = route_command(0, "health").unwrap_err();
    assert_eq!(error.message, "Unsupported command version 0. Expected 1.");
    let error = route_command(4_294_967_295, "play").unwrap_err();
    assert_eq!(error.message, "Unsupported command version 4294967295. Expected 1.");
}

#[test]
fn unknown_command_is_refused_by_name() {
    let error = route_command(1, "explode").unwrap_err();
    assert_eq!(error.category, "Unsupported");
    assert_eq!(error.message, "Unknown command: explode");
    assert_eq!(error.diagnostic_code, "command.unknown");
    assert!(route_command(1, "Health").is_err());
}

#[test]
fn payload_errors_name_the_command_and_the_parser_detail() {
    let error = payload_error("play", "missing field `path`");
    assert_eq!(error.category, "InvalidInput");
    assert_eq!(error.message, "Invalid play command payload: missing field `path`");
    assert_eq!(error.diagnostic_code, "command.payload");
}

#[test]
fn enumeration_batch_size_defaults_to_one_hundred() {
    assert_eq!(enumeration_batch_size(None), 100);
    assert_eq!(enumeration_batch_size(Some(7)), 7);
}

#[test]
fn trash_results_report_errors_at_the_boundary() {
    let ok = trash_item_result("/a.wav".to_string(), &Ok(()));
    assert!(ok.ok);
    assert_eq!(ok.path, "/a.wav");
    assert!(ok.category.is_none() && ok.message.is_none() && ok.diagnostic_code.is_none());
    let failed = trash_item_result(
        "/b.wav".to_string(),
        &Err(ApplicationError::new(ErrorCategory::NotFound, DiagnosticCode::FileOperation, "gone")),
    );
    assert!(!failed.ok);
    assert_eq!(failed.category.as_deref(), Some("NotFound"));
    assert_eq!(failed.message.as_deref(), Some("gone"));
    assert_eq!(failed.diagnostic_code.as_deref(), Some("file.operation"));
}

#[test]
fn only_javascript_safe_integers_cross_the_boundary() {
    assert_eq!(js_safe_integer(0), Some(0));
    assert_eq!(js_safe_integer(9_007_199_254_740_991), Some(9_007_199_254_740_991));
    assert_eq!(js_safe_integer(9_007_199_254_740_992), None);
    assert_eq!(js_safe_integer(u64::MAX), None);
}

#[test]
fn waveform_requests_carry_the_path_and_peak_count() {
    let request = waveform_request("/music/track.wav", 512).unwrap();
    assert_eq!(request.path, "/music/track.wav");
    assert_eq!(request.target_peaks, 512);
    let error = waveform_request("", 512).unwrap_err();
    assert_eq!(error.diagnostic_code, "waveform.path");
}
