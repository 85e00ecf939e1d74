use pulseseek::commands::{
    enumeration_batch_size, from_application_error, payload_error, route_command,
    ApplicationError, CommandRoute, DiagnosticCode, ErrorCategory,
    CURRENT_COMMAND_VERSION,
};
use pulseseek::services::{
    handle_pick_folder, FakeAudioDeviceService, FakeFolderEnumerationService, FakeFolderPicker,
};
use pulseseek::handlers::{handle_move_to_trash, FakeTrashService};
use pulseseek::sessions::ActiveEnumerations;

fn unknown_version_rejected() {
    for bad_version in [0u32, 99] {
        let error = route_command(bad_version, "health").unwrap_err();
        assert_eq!(error.category, "Unsupported");
        assert!(error.message.contains(&bad_version.to_string()));
        assert_eq!(error.diagnostic_code, "command.version");
    }
}

#[test]
fn tests_unknown_version_rejected() {
    unknown_version_rejected();
}

#[test]
fn command_envelope_unknown_version_rejected() {
    unknown_version_rejected();
}

fn unknown_command_rejected() {
    let error = route_command(CURRENT_COMMAND_VERSION, "nonexistent").unwrap_err();
    assert_eq!(error.category, "Unsupported");
    assert!(error.message.contains("nonexistent"));
    assert_eq!(error.diagnostic_code, "command.unknown");
}

#[test]
fn tests_unknown_command_rejected() {
    unknown_command_rejected();
}

#[test]
fn command_envelope_unknown_command_rejected() {
    unknown_command_rejected();
}

fn invalid_payload_rejected() {
    assert_eq!(route_command(CURRENT_COMMAND_VERSION, "health").unwrap(), CommandRoute::Health);
    let payload = serde_json::Value::String("not_an_object".to_string());
    let detail = serde_json::from_value::<serde_json::Map<String, serde_json::Value>>(payload)
        .expect_err("a string is no request object")
        .to_string();
    let error = payload_error("health", &detail);
    assert_eq!(error.category, "InvalidInput");
    assert_eq!(error.diagnostic_code, "command.payload");
}

#[test]
fn tests_invalid_payload_rejected() {
    invalid_payload_rejected();
}

#[test]
fn command_envelope_invalid_payload_rejected() {
    invalid_payload_rejected();
}

fn application_error_maps_to_boundary_error() {
    let app_error = ApplicationError::new(
        ErrorCategory::PermissionDenied,
        DiagnosticCode::BrowserRead,
        "PulseSeek could not access that item.",
    );

    let boundary = from_application_error(&app_error);

    assert_eq!(boundary.category, "PermissionDenied");
    assert_eq!(boundary.message, "PulseSeek could not access that item.");
    assert_eq!(boundary.diagnostic_code, "browser.read");
    assert!(!boundary.message.contains("alice"));
    assert!(!boundary.message.contains("secret"));
}

#[test]
fn tests_application_error_maps_to_boundary_error() {
    application_error_maps_to_boundary_error();
}

#[test]
fn command_envelope_application_error_maps_to_boundary_error() {
    application_error_maps_to_boundary_error();
}

fn list_devices_command_returns_devices() {
    assert_eq!(route_command(CURRENT_COMMAND_VERSION, "list_devices").unwrap(), CommandRoute::Device);
    let device_service = FakeAudioDeviceService::new();
    let devices = device_service.list_devices().unwrap();
    assert_eq!(devices.len(), 2);
    assert_eq!(devices[0].id, "default");
    assert_eq!(devices[0].name, "Default Output");
}

#[test]
fn tests_list_devices_command_returns_devices() {
    list_devices_command_returns_devices();
}

#[test]
fn command_envelope_list_devices_command_returns_devices() {
    list_devices_command_returns_devices();
}

fn list_devices_service_error_maps_to_boundary() {
    let mut device_service = FakeAudioDeviceService::new();
    device_service.fail_list = true;
    let error = from_application_error(&device_service.list_devices().unwrap_err());
    assert_eq!(error.category, "Unavailable");
    assert_eq!(error.diagnostic_code, "audio.output");
}

#[test]
fn tests_list_devices_service_error_maps_to_boundary() {
    list_devices_service_error_maps_to_boundary();
}

#[test]
fn command_envelope_list_devices_service_error_maps_to_boundary() {
    list_devices_service_error_maps_to_boundary();
}

fn current_device_command_returns_none_when_no_device() {
    let mut device_service = FakeAudioDeviceService::new();
    device_service.current = None;
    assert!(device_service.current_device().unwrap().is_none());
}

#[test]
fn tests_current_device_command_returns_none_when_no_device() {
    current_device_command_returns_none_when_no_device();
}

#[test]
fn command_envelope_current_device_command_returns_none_when_no_device() {
    current_device_command_returns_none_when_no_device();
}

fn current_device_command_returns_device_when_set() {
    let device_service = FakeAudioDeviceService::new();
    let device = device_service.current_device().unwrap().unwrap();
    assert_eq!(device.id, "default");
    assert_eq!(device.name, "Default Output");
}

#[test]
fn tests_current_device_command_returns_device_when_set() {
    current_device_command_returns_device_when_set();
}

#[test]
fn command_envelope_current_device_command_returns_device_when_set() {
    current_device_command_returns_device_when_set();
}

fn current_device_service_error_maps_to_boundary() {
    let mut device_service = FakeAudioDeviceService::new();
    device_service.fail_current = true;
    let error = from_application_error(&device_service.current_device().unwrap_err());
    assert_eq!(error.category, "Unavailable");
}

#[test]
fn tests_current_device_service_error_maps_to_boundary() {
    current_device_service_error_maps_to_boundary();
}

#[test]
fn command_envelope_current_device_service_error_maps_to_boundary() {
    current_device_service_error_maps_to_boundary();
}

fn unknown_device_command_is_refused() {
    let error = route_command(CURRENT_COMMAND_VERSION, "unknown_device_op").unwrap_err();
    assert_eq!(error.category, "Unsupported");
}

#[test]
fn tests_unknown_device_command_rejected() {
    unknown_device_command_is_refused();
}

#[test]
fn command_envelope_unknown_device_command_rejected() {
    unknown_device_command_is_refused();
}

#[test]
fn start_enumeration_returns_session_id() {
    let mut enum_service = FakeFolderEnumerationService::new();
    assert_eq!(route_command(CURRENT_COMMAND_VERSION, "start_enumeration").unwrap(), CommandRoute::Browsing);
    let batch_size = enumeration_batch_size(Some(50)) as usize;
    let session_id = enum_service.start_enumeration("/music", batch_size, false, false).unwrap();
    assert_eq!(enum_service.start_call_count, 1);
    assert_eq!(enum_service.last_path, Some("/music".to_string()));
    assert_eq!(session_id, "test-session-001");
}

#[test]
fn start_enumeration_defaults_batch_size() {
    let mut enum_service = FakeFolderEnumerationService::new();
    let batch_size = enumeration_batch_size(None) as usize;
    let _ = enum_service.start_enumeration("/music", batch_size, false, false);
    assert_eq!(enum_service.last_batch_size, Some(100), "default batch size should be 100");
}

#[test]
fn start_enumeration_passes_recursive_flag() {
    let mut enum_service = FakeFolderEnumerationService::new();
    let _ = enum_service.start_enumeration("/music", 100, false, true);
    assert_eq!(enum_service.last_recursive, Some(true));
}

#[test]
fn start_enumeration_defaults_recursive_false() {
    let mut enum_service = FakeFolderEnumerationService::new();
    let recursive: Option<bool> = None;
    let _ = enum_service.start_enumeration("/music", 100, false, recursive.unwrap_or(false));
    assert_eq!(enum_service.last_recursive, Some(false));
}

#[test]
fn start_enumeration_service_error_maps_to_boundary() {
    let mut enum_service = FakeFolderEnumerationService::new();
    enum_service.fail_start = true;
    let error = enum_service.start_enumeration("/music", 100, false, false).unwrap_err();
    assert_eq!(from_application_error(&error).category, "Unavailable");
}

#[test]
fn cancel_enumeration_cancels_session() {
    let mut active = ActiveEnumerations::new();
    let flag = active.register("session-1");
    active.cancel("session-1");
    assert!(active.is_cancelled(&flag), "session should be cancelled");
}

#[test]
fn cancel_enumeration_unknown_session_idempotent() {
    let mut active = ActiveEnumerations::new();
    active.cancel("nonexistent");
    assert!(!active.contains("nonexistent"));
}

#[test]
fn move_to_trash_command_dispatches_and_returns_results() {
    let service = FakeTrashService {
        outcomes: vec![("/music/a.wav".to_string(), Ok(())), ("/music/b.wav".to_string(), Ok(()))],
    };
    let response =
        handle_move_to_trash(vec!["/music/a.wav".to_string(), "/music/b.wav".to_string()], &service).unwrap();
    assert_eq!(response.results.len(), 2);
    assert!(response.results[0].ok);
    assert!(response.results[1].ok);
}

#[test]
fn move_to_trash_reports_partial_failure() {
    let bad_err = ApplicationError::new(ErrorCategory::NotFound, DiagnosticCode::FileOperation, "not found");
    let service = FakeTrashService {
        outcomes: vec![("/music/good.wav".to_string(), Ok(())), ("/music/bad.wav".to_string(), Err(bad_err))],
    };
    let response =
        handle_move_to_trash(vec!["/music/good.wav".to_string(), "/music/bad.wav".to_string()], &service).unwrap();
    assert_eq!(response.results.len(), 2);
    assert!(response.results[0].ok);
    assert!(!response.results[1].ok);
    assert_eq!(response.results[1].category.as_deref(), Some("NotFound"));
    assert_eq!(response.results[1].diagnostic_code.as_deref(), Some("file.operation"));
}

#[test]
fn handle_pick_folder_returns_path() {
    let picker = FakeFolderPicker::returning(Some("/music/library"));

    let response = handle_pick_folder(&picker);

    assert_eq!(response.unwrap(), Some("/music/library".to_string()));
}

#[test]
fn handle_pick_folder_returns_none_when_cancelled() {
    let picker = FakeFolderPicker::returning(None);

    let response = handle_pick_folder(&picker);

    assert_eq!(response.unwrap(), None);
}

#[test]
fn handle_pick_folder_maps_service_error() {
    let picker = FakeFolderPicker::failing();

    let response = handle_pick_folder(&picker);

    let error = response.unwrap_err();
    assert_eq!(error.category, "PermissionDenied");
}
