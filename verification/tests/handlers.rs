use pulseseek::commands::{ApplicationError, DiagnosticCode, ErrorCategory, PlaybackMode};
use pulseseek::handlers::{
    handle_current_device, handle_list_devices, handle_move_to_trash, handle_playback, handle_select_device, playback_command_outcome,
    playback_answer, select_device_outcome, state_name, FakePlaybackService, FakeTrashService,
    PlaybackCommand, PlaybackReply, PlaybackRequest, PlaybackState, PlaybackValue,
};
use pulseseek::services::FakeAudioDeviceService;

fn play() -> PlaybackRequest {
    PlaybackRequest::Play { path: "/music/track.wav".to_string() }
}

fn play_command_dispatches_to_service() {
    let mut service = FakePlaybackService::new();
    let (reply, _) = handle_playback(&play(), &mut service);
    assert!(matches!(reply, Ok(PlaybackReply::Done)), "play should succeed");
    assert_eq!(service.play_call_count, 1);
    assert_eq!(service.last_play_path, Some("/music/track.wav".to_string()));
}

#[test]
fn tests_play_command_dispatches_to_service() {
    play_command_dispatches_to_service();
}

#[test]
fn command_envelope_play_command_dispatches_to_service() {
    play_command_dispatches_to_service();
}

fn pause_resume_stop_dispatch() {
    let mut service = FakePlaybackService::new();
    assert!(handle_playback(&PlaybackRequest::Pause, &mut service).0.is_ok());
    assert_eq!(service.pause_call_count, 1);
    assert!(handle_playback(&PlaybackRequest::Resume, &mut service).0.is_ok());
    assert_eq!(service.resume_call_count, 1);
    assert!(handle_playback(&PlaybackRequest::Stop, &mut service).0.is_ok());
    assert_eq!(service.stop_call_count, 1);
}

#[test]
fn tests_pause_command_dispatches_to_service() {
    pause_resume_stop_dispatch();
}

#[test]
fn command_envelope_pause_command_dispatches_to_service() {
    pause_resume_stop_dispatch();
}

#[test]
fn tests_resume_command_dispatches_to_service() {
    pause_resume_stop_dispatch();
}

#[test]
fn command_envelope_resume_command_dispatches_to_service() {
    pause_resume_stop_dispatch();
}

#[test]
fn tests_stop_command_dispatches_to_service() {
    pause_resume_stop_dispatch();
}

#[test]
fn command_envelope_stop_command_dispatches_to_service() {
    pause_resume_stop_dispatch();
}

fn seek_command_dispatches_to_service() {
    let mut service = FakePlaybackService::new();
    service.seek_result = Some(45000);
    let (reply, event) = handle_playback(&PlaybackRequest::Seek { position_ms: 45000 }, &mut service);
    assert!(matches!(reply, Ok(PlaybackReply::PositionMs(45000))));
    assert_eq!(event, None);
    assert_eq!(service.seek_call_count, 1);
    assert_eq!(service.last_seek_position, Some(45000));
}

#[test]
fn tests_seek_command_dispatches_to_service() {
    seek_command_dispatches_to_service();
}

#[test]
fn command_envelope_seek_command_dispatches_to_service() {
    seek_command_dispatches_to_service();
}

fn error_maps(request: PlaybackRequest, category: ErrorCategory, name: &str) {
    let mut service = FakePlaybackService::new();
    service.fail_with = Some(category);
    let (reply, event) = handle_playback(&request, &mut service);
    let error = reply.expect_err("should have error");
    assert_eq!(error.category, name);
    assert_eq!(error.diagnostic_code, "playback.control");
    assert_eq!(event, None);
}

#[test]
fn tests_play_service_error_maps_to_boundary_error() {
    error_maps(play(), ErrorCategory::Unavailable, "Unavailable");
}

#[test]
fn command_envelope_play_service_error_maps_to_boundary_error() {
    error_maps(play(), ErrorCategory::Unavailable, "Unavailable");
}

#[test]
fn tests_pause_service_error_maps_to_boundary_error() {
    error_maps(PlaybackRequest::Pause, ErrorCategory::Conflict, "Conflict");
}

#[test]
fn command_envelope_pause_service_error_maps_to_boundary_error() {
    error_maps(PlaybackRequest::Pause, ErrorCategory::Conflict, "Conflict");
}

#[test]
fn tests_resume_service_error_maps_to_boundary_error() {
    error_maps(PlaybackRequest::Resume, ErrorCategory::Unavailable, "Unavailable");
}

#[test]
fn command_envelope_resume_service_error_maps_to_boundary_error() {
    error_maps(PlaybackRequest::Resume, ErrorCategory::Unavailable, "Unavailable");
}

#[test]
fn tests_stop_service_error_maps_to_boundary_error() {
    error_maps(PlaybackRequest::Stop, ErrorCategory::NotFound, "NotFound");
}

#[test]
fn command_envelope_stop_service_error_maps_to_boundary_error() {
    error_maps(PlaybackRequest::Stop, ErrorCategory::NotFound, "NotFound");
}

#[test]
fn tests_seek_service_error_maps_to_boundary_error() {
    error_maps(PlaybackRequest::Seek { position_ms: 1 }, ErrorCategory::InvalidInput, "InvalidInput");
}

#[test]
fn command_envelope_seek_service_error_maps_to_boundary_error() {
    error_maps(PlaybackRequest::Seek { position_ms: 1 }, ErrorCategory::InvalidInput, "InvalidInput");
}

fn volume_service_error_maps() {
    let error = ApplicationError::new(ErrorCategory::Unsupported, DiagnosticCode::PlaybackControl, "no");
    let (reply, event) = playback_command_outcome(PlaybackCommand::Volume, Err::<(), _>(error));
    assert_eq!(reply.unwrap_err().category, "Unsupported");
    assert_eq!(event, None);
}

#[test]
fn tests_volume_service_error_maps_to_boundary_error() {
    volume_service_error_maps();
}

#[test]
fn command_envelope_volume_service_error_maps_to_boundary_error() {
    volume_service_error_maps();
}

fn emits(request: PlaybackRequest, expected: Option<&str>) {
    let mut service = FakePlaybackService::new();
    let (_, event) = handle_playback(&request, &mut service);
    assert_eq!(event.map(state_name).as_deref(), expected);
}

#[test]
fn tests_play_emits_playing_state_event() {
    emits(play(), Some("playing"));
}

#[test]
fn command_envelope_play_emits_playing_state_event() {
    emits(play(), Some("playing"));
}

fn play_emits_event_only_on_success() {
    let mut service = FakePlaybackService::new();
    service.fail_with = Some(ErrorCategory::NotFound);
    let (_, event) = handle_playback(&play(), &mut service);
    assert_eq!(event, None, "no event on error");
}

#[test]
fn tests_play_emits_event_only_on_success() {
    play_emits_event_only_on_success();
}

#[test]
fn command_envelope_play_emits_event_only_on_success() {
    play_emits_event_only_on_success();
}

#[test]
fn tests_pause_emits_paused_state_event() {
    emits(PlaybackRequest::Pause, Some("paused"));
}

#[test]
fn command_envelope_pause_emits_paused_state_event() {
    emits(PlaybackRequest::Pause, Some("paused"));
}

#[test]
fn tests_resume_emits_playing_state_event() {
    emits(PlaybackRequest::Resume, Some("playing"));
}

#[test]
fn command_envelope_resume_emits_playing_state_event() {
    emits(PlaybackRequest::Resume, Some("playing"));
}

#[test]
fn tests_stop_emits_stopped_state_event() {
    emits(PlaybackRequest::Stop, Some("stopped"));
}

#[test]
fn command_envelope_stop_emits_stopped_state_event() {
    emits(PlaybackRequest::Stop, Some("stopped"));
}

#[test]
fn tests_seek_does_not_emit_state_event() {
    emits(PlaybackRequest::Seek { position_ms: 10 }, None);
}

#[test]
fn command_envelope_seek_does_not_emit_state_event() {
    emits(PlaybackRequest::Seek { position_ms: 10 }, None);
}

fn volume_does_not_emit() {
    let (reply, event) = playback_command_outcome(PlaybackCommand::Volume, Ok::<(), ApplicationError>(()));
    assert!(reply.is_ok());
    assert_eq!(event, None);
}

#[test]
fn tests_volume_does_not_emit_state_event() {
    volume_does_not_emit();
}

#[test]
fn command_envelope_volume_does_not_emit_state_event() {
    volume_does_not_emit();
}

#[test]
fn set_playback_mode_dispatches_and_returns_confirmed_mode() {
    let mut service = FakePlaybackService::new();
    let (reply, event) =
        handle_playback(&PlaybackRequest::SetPlaybackMode { mode: "loop-current".to_string() }, &mut service);
    assert_eq!(service.mode, PlaybackMode::LoopCurrent);
    match reply {
        Ok(PlaybackReply::Mode(name)) => assert_eq!(name, "loop-current"),
        other => panic!("unexpected {other:?}"),
    }
    assert_eq!(event, None);
}

#[test]
fn set_playback_mode_maps_service_failure() {
    let mut service = FakePlaybackService::new();
    service.fail_with = Some(ErrorCategory::Unavailable);
    let (reply, _) =
        handle_playback(&PlaybackRequest::SetPlaybackMode { mode: "random".to_string() }, &mut service);
    assert_eq!(reply.unwrap_err().category, "Unavailable");
    assert_eq!(service.mode, PlaybackMode::OneShot);
}

#[test]
fn unknown_mode_is_refused_before_the_service() {
    let mut service = FakePlaybackService::new();
    let (reply, _) =
        handle_playback(&PlaybackRequest::SetPlaybackMode { mode: "invalid".to_string() }, &mut service);
    assert_eq!(reply.unwrap_err().diagnostic_code, "command.mode");
    assert_eq!(service.mode, PlaybackMode::OneShot);
}

#[test]
fn loop_region_commands_reply_with_the_start() {
    let mut service = FakePlaybackService::new();
    let (reply, event) =
        handle_playback(&PlaybackRequest::SetLoopRegion { start_ms: 1_000, end_ms: 2_000 }, &mut service);
    assert!(matches!(reply, Ok(PlaybackReply::StartMs(1_000))));
    assert_eq!(event, None);
    assert!(matches!(handle_playback(&PlaybackRequest::ClearLoopRegion, &mut service).0, Ok(PlaybackReply::Done)));
    assert_eq!(state_name(PlaybackState::Paused), "paused");
}

fn select_device_command_dispatches_to_service() {
    let mut service = FakePlaybackService::new();
    let devices = FakeAudioDeviceService::new();
    let (reply, lost) = handle_select_device("hdmi", &mut service, &devices);
    assert!(reply.is_ok());
    assert_eq!(lost, None);
    assert_eq!(service.select_output_device_call_count, 1);
    assert_eq!(service.last_output_device_id, Some("hdmi".to_string()));
    assert_eq!(devices.select_call_count, 0);
}

#[test]
fn tests_select_device_command_dispatches_to_service() {
    select_device_command_dispatches_to_service();
}

#[test]
fn command_envelope_select_device_command_dispatches_to_service() {
    select_device_command_dispatches_to_service();
}

fn select_device_service_error_maps_to_boundary() {
    let mut service = FakePlaybackService::new();
    service.fail_with = Some(ErrorCategory::Unavailable);
    let mut devices = FakeAudioDeviceService::new();
    devices.device_lost = true;
    let (reply, lost) = handle_select_device("hdmi", &mut service, &devices);
    assert_eq!(reply.unwrap_err().category, "Unavailable");
    assert_eq!(lost, None);
}

#[test]
fn tests_select_device_service_error_maps_to_boundary() {
    select_device_service_error_maps_to_boundary();
}

#[test]
fn command_envelope_select_device_service_error_maps_to_boundary() {
    select_device_service_error_maps_to_boundary();
}

fn select_device_emits_device_lost_event() {
    let mut service = FakePlaybackService::new();
    let mut devices = FakeAudioDeviceService::new();
    devices.device_lost = true;
    let (_, lost) = handle_select_device("hdmi", &mut service, &devices);
    assert_eq!(lost.as_deref(), Some("hdmi"), "should emit device-lost event");
}

#[test]
fn tests_select_device_emits_device_lost_event() {
    select_device_emits_device_lost_event();
}

#[test]
fn command_envelope_select_device_emits_device_lost_event() {
    select_device_emits_device_lost_event();
}

fn select_device_does_not_emit_device_lost_when_not_lost() {
    let mut service = FakePlaybackService::new();
    let devices = FakeAudioDeviceService::new();
    let (_, lost) = handle_select_device("hdmi", &mut service, &devices);
    assert_eq!(lost, None, "should not emit event when device not lost");
}

#[test]
fn tests_select_device_does_not_emit_device_lost_when_not_lost() {
    select_device_does_not_emit_device_lost_when_not_lost();
}

#[test]
fn command_envelope_select_device_does_not_emit_device_lost_when_not_lost() {
    select_device_does_not_emit_device_lost_when_not_lost();
}

#[test]
fn device_lost_payload_needs_success_and_a_lost_device() {
    assert_eq!(select_device_outcome("usb", Ok(()), true).1.as_deref(), Some("usb"));
    assert_eq!(select_device_outcome("usb", Ok(()), false).1, None);
    let error = ApplicationError::new(ErrorCategory::NotFound, DiagnosticCode::AudioOutput, "gone");
    let (reply, lost) = select_device_outcome("usb", Err(error), true);
    assert_eq!(reply.unwrap_err().diagnostic_code, "audio.output");
    assert_eq!(lost, None);
}

#[test]
fn move_to_trash_empty_paths_returns_empty() {
    let service = FakeTrashService { outcomes: vec![("/never.wav".to_string(), Ok(()))] };
    let response = handle_move_to_trash(Vec::new(), &service).unwrap();
    assert!(response.results.is_empty());
}

#[test]
fn move_to_trash_keeps_the_service_order() {
    let bad = ApplicationError::new(ErrorCategory::NotFound, DiagnosticCode::FileOperation, "not found");
    let service = FakeTrashService {
        outcomes: vec![("/music/good.wav".to_string(), Ok(())), ("/music/bad.wav".to_string(), Err(bad))],
    };
    let response =
        handle_move_to_trash(vec!["/music/good.wav".to_string(), "/music/bad.wav".to_string()], &service).unwrap();
    assert_eq!(response.results.len(), 2);
    assert_eq!(response.results[0].path, "/music/good.wav");
    assert!(response.results[0].ok);
    assert_eq!(response.results[1].path, "/music/bad.wav");
    assert!(!response.results[1].ok);
    assert_eq!(response.results[1].category.as_deref(), Some("NotFound"));
    assert_eq!(response.results[1].diagnostic_code.as_deref(), Some("file.operation"));
}

#[test]
fn playback_answer_reports_the_value_the_service_returned() {
    match playback_answer(PlaybackCommand::Seek, Ok(PlaybackValue::Position(1234))) {
        (Ok(PlaybackReply::PositionMs(p)), None) => assert_eq!(p, 1234),
        other => panic!("unexpected answer: {:?}", other),
    }
    match playback_answer(PlaybackCommand::SetPlaybackMode, Ok(PlaybackValue::Mode(PlaybackMode::Sequential))) {
        (Ok(PlaybackReply::Mode(name)), None) => assert_eq!(name, "sequential"),
        other => panic!("unexpected answer: {:?}", other),
    }
    match playback_answer(PlaybackCommand::SetLoopRegion, Ok(PlaybackValue::Start(500))) {
        (Ok(PlaybackReply::StartMs(s)), None) => assert_eq!(s, 500),
        other => panic!("unexpected answer: {:?}", other),
    }
    let (reply, event) = playback_answer(PlaybackCommand::Play, Ok(PlaybackValue::Unit));
    assert!(matches!(reply, Ok(PlaybackReply::Done)));
    assert_eq!(event, Some(PlaybackState::Playing));
    let failure = ApplicationError::new(ErrorCategory::Conflict, DiagnosticCode::PlaybackControl, "busy");
    let (reply, event) = playback_answer(PlaybackCommand::Pause, Err(failure));
    let error = reply.unwrap_err();
    assert_eq!(error.category, "Conflict");
    assert_eq!(error.message, "busy");
    assert_eq!(event, None);
}

#[test]
fn seek_replies_with_the_position_the_service_reached() {
    let mut service = FakePlaybackService::new();
    service.seek_result = Some(30000);
    let (reply, event) = handle_playback(&PlaybackRequest::Seek { position_ms: 45000 }, &mut service);
    match reply {
        Ok(PlaybackReply::PositionMs(p)) => assert_eq!(p, 30000),
        other => panic!("unexpected reply: {:?}", other),
    }
    assert_eq!(event, None);
    assert_eq!(service.last_seek_position, Some(45000));
}

#[test]
fn device_listing_and_current_device_cross_the_boundary() {
    let mut devices = FakeAudioDeviceService::new();
    let listed = handle_list_devices(&devices).unwrap();
    assert_eq!(listed.len(), devices.devices.len());
    assert_eq!(listed[0].id, devices.devices[0].id);
    let current = handle_current_device(&devices).unwrap();
    assert_eq!(current.map(|d| d.id), devices.current.as_ref().map(|d| d.id.clone()));

    devices.fail_list = true;
    devices.fail_current = true;
    let error = handle_list_devices(&devices).unwrap_err();
    assert_eq!(error.category, "Unavailable");
    assert_eq!(error.diagnostic_code, "audio.output");
    let error = handle_current_device(&devices).unwrap_err();
    assert_eq!(error.message, "fake device error");
}
