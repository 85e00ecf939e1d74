//! The command handlers behind the envelope: what each playback, device and
//! trash command asks of its service, which state event a successful command
//! announces, and how the service's outcome crosses the boundary.
use vstd::prelude::*;

use crate::commands::{
    boundary_is, category_text, code_text, from_application_error, mode_text, named_mode, parse_playback_mode,
    playback_mode_name, service_answer, service_result, trash_item_result, unknown_mode_error, ApplicationError,
    BoundaryError,
    DiagnosticCode, DeviceInfoData, ErrorCategory, MoveToTrashItemResult, MoveToTrashResponse,
    PlaybackMode,
};
use crate::services::{device_view, is_device_error, FakeAudioDeviceService};

verus! {

/// The playback state the frontend is told about.
#[derive(Clone, Copy, Debug, PartialEq, Eq, Structural)]
pub enum PlaybackState {
    Playing,
    Paused,
    Stopped,
}

/// The name of a playback state event.
pub open spec fn state_text(state: PlaybackState) -> Seq<char> {
    match state {
        PlaybackState::Playing => "playing"@,
        PlaybackState::Paused => "paused"@,
        PlaybackState::Stopped => "stopped"@,
    }
}

/// The name of a playback state event.
pub fn state_name(state: PlaybackState) -> (name: String)
    ensures
        name@ == state_text(state),
{
    match state {
        PlaybackState::Playing => String::from_str("playing"),
        PlaybackState::Paused => String::from_str("paused"),
        PlaybackState::Stopped => String::from_str("stopped"),
    }
}

/// The playback commands.
#[derive(Clone, Copy, Debug, PartialEq, Eq, Structural)]
pub enum PlaybackCommand {
    Play,
    PrepareNext,
    ClearPrepared,
    Pause,
    Resume,
    Stop,
    Seek,
    Volume,
    SetPlaybackMode,
    SetLoopRegion,
    ClearLoopRegion,
}

/// The state a command announces once its service call succeeded: play and
/// resume announce playing, pause paused, stop stopped; the others nothing.
pub open spec fn announced_state(command: PlaybackCommand) -> Option<PlaybackState> {
    match command {
        PlaybackCommand::Play => Some(PlaybackState::Playing),
        PlaybackCommand::Resume => Some(PlaybackState::Playing),
        PlaybackCommand::Pause => Some(PlaybackState::Paused),
        PlaybackCommand::Stop => Some(PlaybackState::Stopped),
        _ => None,
    }
}

/// Whether `b` reports the application error `e` at the boundary.
pub open spec fn reports_error(b: BoundaryError, e: ApplicationError) -> bool {
    boundary_is(b, category_text(e.category), e.message@, code_text(e.code))
}

/// The answer to a playback command whose service call returned `outcome`,
/// and the state event to emit: the event only on success.
pub fn playback_command_outcome<T>(command: PlaybackCommand, outcome: Result<T, ApplicationError>) -> (r: (
    Result<T, BoundaryError>,
    Option<PlaybackState>,
))
    ensures
        outcome matches Ok(v) ==> (r.0 matches Ok(w) && w == v) && r.1 == announced_state(command),
        outcome matches Err(e) ==> (r.0 matches Err(b) && reports_error(b, e)) && r.1 is None,
{
    match outcome {
        Ok(v) => {
            let state = match command {
                PlaybackCommand::Play => Some(PlaybackState::Playing),
                PlaybackCommand::Resume => Some(PlaybackState::Playing),
                PlaybackCommand::Pause => Some(PlaybackState::Paused),
                PlaybackCommand::Stop => Some(PlaybackState::Stopped),
                _ => None,
            };
            (Ok(v), state)
        },
        Err(e) => (Err(from_application_error(&e)), None),
    }
}

/// The answer to `select_device` whose service call returned `outcome`, and
/// the device-lost event to emit: it names `device_id`, and comes exactly
/// when the selection succeeded and the device was lost.
pub fn select_device_outcome(device_id: &str, outcome: Result<(), ApplicationError>, device_lost: bool) -> (r: (
    Result<(), BoundaryError>,
    Option<String>,
))
    ensures
        outcome is Ok ==> r.0 is Ok,
        outcome matches Err(e) ==> (r.0 matches Err(b) && reports_error(b, e)),
        r.1 is Some <==> (outcome is Ok && device_lost),
        r.1 matches Some(previous) ==> previous@ == device_id@,
{
    match outcome {
        Ok(()) => {
            if device_lost {
                (Ok(()), Some(String::from_str(device_id)))
            } else {
                (Ok(()), None)
            }
        },
        Err(e) => (Err(from_application_error(&e)), None),
    }
}

/// A call of the playback service, with what it was handed.
pub enum PlaybackCall {
    Play(Seq<char>),
    PrepareNext(Seq<char>),
    ClearPrepared,
    Pause,
    Resume,
    Stop,
    Seek(u64),
    SetMode(PlaybackMode),
    SetLoopRegion(u64, u64),
    ClearLoopRegion,
    SelectOutputDevice(Seq<char>),
}

/// What a successful playback call returned.
#[derive(Debug)]
pub enum PlaybackValue {
    /// Nothing beyond success.
    Unit,
    /// The position a seek reached.
    Position(u64),
    /// The mode in effect after a mode change.
    Mode(PlaybackMode),
    /// Where an activated loop region starts.
    Start(u64),
}

/// The outcome of a call that returns nothing beyond success.
pub open spec fn unit_outcome(r: Result<(), ApplicationError>) -> Result<PlaybackValue, ApplicationError> {
    match r {
        Ok(_) => Ok(PlaybackValue::Unit),
        Err(e) => Err(e),
    }
}

/// The outcome of a seek.
pub open spec fn position_outcome(r: Result<u64, ApplicationError>) -> Result<PlaybackValue, ApplicationError> {
    match r {
        Ok(p) => Ok(PlaybackValue::Position(p)),
        Err(e) => Err(e),
    }
}

/// The outcome of a mode change.
pub open spec fn mode_outcome(r: Result<PlaybackMode, ApplicationError>) -> Result<PlaybackValue, ApplicationError> {
    match r {
        Ok(m) => Ok(PlaybackValue::Mode(m)),
        Err(e) => Err(e),
    }
}

/// The outcome of a loop-region activation.
pub open spec fn start_outcome(r: Result<u64, ApplicationError>) -> Result<PlaybackValue, ApplicationError> {
    match r {
        Ok(s) => Ok(PlaybackValue::Start(s)),
        Err(e) => Err(e),
    }
}

fn unit_value(r: Result<(), ApplicationError>) -> (v: Result<PlaybackValue, ApplicationError>)
    ensures
        v == unit_outcome(r),
{
    match r {
        Ok(()) => Ok(PlaybackValue::Unit),
        Err(e) => Err(e),
    }
}

fn position_value(r: Result<u64, ApplicationError>) -> (v: Result<PlaybackValue, ApplicationError>)
    ensures
        v == position_outcome(r),
{
    match r {
        Ok(p) => Ok(PlaybackValue::Position(p)),
        Err(e) => Err(e),
    }
}

fn mode_value(r: Result<PlaybackMode, ApplicationError>) -> (v: Result<PlaybackValue, ApplicationError>)
    ensures
        v == mode_outcome(r),
{
    match r {
        Ok(m) => Ok(PlaybackValue::Mode(m)),
        Err(e) => Err(e),
    }
}

fn start_value(r: Result<u64, ApplicationError>) -> (v: Result<PlaybackValue, ApplicationError>)
    ensures
        v == start_outcome(r),
{
    match r {
        Ok(s) => Ok(PlaybackValue::Start(s)),
        Err(e) => Err(e),
    }
}

/// The playback service the commands drive. Each method is a call of the
/// service: its outcome and the state it leaves are among those that
/// [`PlaybackService::answers`] admits for that call.
pub trait PlaybackService: Sized {
    /// Whether this service, asked `call`, may return `outcome` and be left
    /// as `after`. A service that describes itself no further may answer
    /// anything.
    open spec fn answers(&self, call: PlaybackCall, outcome: Result<PlaybackValue, ApplicationError>, after: Self) -> bool {
        true
    }

    fn play(&mut self, path: &str) -> (result: Result<(), ApplicationError>)
        ensures
            old(self).answers(PlaybackCall::Play(path@), unit_outcome(result), *final(self)),
    ;

    fn prepare_next(&mut self, path: &str) -> (result: Result<(), ApplicationError>)
        ensures
            old(self).answers(PlaybackCall::PrepareNext(path@), unit_outcome(result), *final(self)),
    ;

    fn clear_prepared(&mut self) -> (result: Result<(), ApplicationError>)
        ensures
            old(self).answers(PlaybackCall::ClearPrepared, unit_outcome(result), *final(self)),
    ;

    fn pause(&mut self) -> (result: Result<(), ApplicationError>)
        ensures
            old(self).answers(PlaybackCall::Pause, unit_outcome(result), *final(self)),
    ;

    fn resume(&mut self) -> (result: Result<(), ApplicationError>)
        ensures
            old(self).answers(PlaybackCall::Resume, unit_outcome(result), *final(self)),
    ;

    fn stop(&mut self) -> (result: Result<(), ApplicationError>)
        ensures
            old(self).answers(PlaybackCall::Stop, unit_outcome(result), *final(self)),
    ;

    /// Seeks; returns the position reached.
    fn seek(&mut self, position_ms: u64) -> (result: Result<u64, ApplicationError>)
        ensures
            old(self).answers(PlaybackCall::Seek(position_ms), position_outcome(result), *final(self)),
    ;

    /// Changes the mode; returns the mode in effect.
    fn set_mode(&mut self, mode: PlaybackMode) -> (result: Result<PlaybackMode, ApplicationError>)
        ensures
            old(self).answers(PlaybackCall::SetMode(mode), mode_outcome(result), *final(self)),
    ;

    /// Activates a loop region; returns where it starts.
    fn set_loop_region(&mut self, start_ms: u64, end_ms: u64) -> (result: Result<u64, ApplicationError>)
        ensures
            old(self).answers(PlaybackCall::SetLoopRegion(start_ms, end_ms), start_outcome(result), *final(self)),
    ;

    fn clear_loop_region(&mut self) -> (result: Result<(), ApplicationError>)
        ensures
            old(self).answers(PlaybackCall::ClearLoopRegion, unit_outcome(result), *final(self)),
    ;

    fn select_output_device(&mut self, device_id: &str) -> (result: Result<(), ApplicationError>)
        ensures
            old(self).answers(PlaybackCall::SelectOutputDevice(device_id@), unit_outcome(result), *final(self)),
    ;
}

/// A playback command with its parsed payload.
pub enum PlaybackRequest {
    Play { path: String },
    PrepareNext { path: String },
    ClearPrepared,
    Pause,
    Resume,
    Stop,
    Seek { position_ms: u64 },
    SetPlaybackMode { mode: String },
    SetLoopRegion { start_ms: u64, end_ms: u64 },
    ClearLoopRegion,
}

/// The command a request belongs to.
pub open spec fn request_command(request: PlaybackRequest) -> PlaybackCommand {
    match request {
        PlaybackRequest::Play { .. } => PlaybackCommand::Play,
        PlaybackRequest::PrepareNext { .. } => PlaybackCommand::PrepareNext,
        PlaybackRequest::ClearPrepared => PlaybackCommand::ClearPrepared,
        PlaybackRequest::Pause => PlaybackCommand::Pause,
        PlaybackRequest::Resume => PlaybackCommand::Resume,
        PlaybackRequest::Stop => PlaybackCommand::Stop,
        PlaybackRequest::Seek { .. } => PlaybackCommand::Seek,
        PlaybackRequest::SetPlaybackMode { .. } => PlaybackCommand::SetPlaybackMode,
        PlaybackRequest::SetLoopRegion { .. } => PlaybackCommand::SetLoopRegion,
        PlaybackRequest::ClearLoopRegion => PlaybackCommand::ClearLoopRegion,
    }
}

/// The service call a request makes: its payload handed on as it is, a mode
/// name parsed to its mode; none for a mode name that names no mode.
pub open spec fn request_call(request: PlaybackRequest) -> Option<PlaybackCall> {
    match request {
        PlaybackRequest::Play { path } => Some(PlaybackCall::Play(path@)),
        PlaybackRequest::PrepareNext { path } => Some(PlaybackCall::PrepareNext(path@)),
        PlaybackRequest::ClearPrepared => Some(PlaybackCall::ClearPrepared),
        PlaybackRequest::Pause => Some(PlaybackCall::Pause),
        PlaybackRequest::Resume => Some(PlaybackCall::Resume),
        PlaybackRequest::Stop => Some(PlaybackCall::Stop),
        PlaybackRequest::Seek { position_ms } => Some(PlaybackCall::Seek(position_ms)),
        PlaybackRequest::SetPlaybackMode { mode } => match named_mode(mode@) {
            Some(m) => Some(PlaybackCall::SetMode(m)),
            None => None,
        },
        PlaybackRequest::SetLoopRegion { start_ms, end_ms } => Some(PlaybackCall::SetLoopRegion(start_ms, end_ms)),
        PlaybackRequest::ClearLoopRegion => Some(PlaybackCall::ClearLoopRegion),
    }
}

/// The data a successful playback command answers with.
#[derive(Debug)]
pub enum PlaybackReply {
    Done,
    PositionMs(u64),
    Mode(String),
    StartMs(u64),
}

/// Whether `reply` answers a playback call that returned `outcome`: success
/// with the value the service returned (a mode by its name), or the
/// service's error as a boundary error.
pub open spec fn reply_answers(outcome: Result<PlaybackValue, ApplicationError>, reply: Result<PlaybackReply, BoundaryError>) -> bool {
    match outcome {
        Ok(PlaybackValue::Unit) => reply matches Ok(PlaybackReply::Done),
        Ok(PlaybackValue::Position(p)) => reply matches Ok(PlaybackReply::PositionMs(q)) && q == p,
        Ok(PlaybackValue::Mode(m)) => reply matches Ok(PlaybackReply::Mode(name)) && name@ == mode_text(m),
        Ok(PlaybackValue::Start(s)) => reply matches Ok(PlaybackReply::StartMs(t)) && t == s,
        Err(e) => reply matches Err(b) && reports_error(b, e),
    }
}

/// The event a command announces after a call that returned `outcome`.
pub open spec fn outcome_event(command: PlaybackCommand, outcome: Result<PlaybackValue, ApplicationError>) -> Option<PlaybackState> {
    if outcome is Ok {
        announced_state(command)
    } else {
        None
    }
}

/// The answer to a playback command whose service call returned `outcome`,
/// and the state event to emit.
pub fn playback_answer(command: PlaybackCommand, outcome: Result<PlaybackValue, ApplicationError>) -> (r: (
    Result<PlaybackReply, BoundaryError>,
    Option<PlaybackState>,
))
    ensures
        reply_answers(outcome, r.0),
        r.1 == outcome_event(command, outcome),
{
    let (answer, event) = playback_command_outcome(command, outcome);
    let reply = match answer {
        Ok(PlaybackValue::Unit) => Ok(PlaybackReply::Done),
        Ok(PlaybackValue::Position(p)) => Ok(PlaybackReply::PositionMs(p)),
        Ok(PlaybackValue::Mode(m)) => {
            let name = playback_mode_name(m);
            Ok(PlaybackReply::Mode(name))
        },
        Ok(PlaybackValue::Start(s)) => Ok(PlaybackReply::StartMs(s)),
        Err(b) => Err(b),
    };
    (reply, event)
}

fn command_of(request: &PlaybackRequest) -> (command: PlaybackCommand)
    ensures
        command == request_command(*request),
{
    match request {
        PlaybackRequest::Play { .. } => PlaybackCommand::Play,
        PlaybackRequest::PrepareNext { .. } => PlaybackCommand::PrepareNext,
        PlaybackRequest::ClearPrepared => PlaybackCommand::ClearPrepared,
        PlaybackRequest::Pause => PlaybackCommand::Pause,
        PlaybackRequest::Resume => PlaybackCommand::Resume,
        PlaybackRequest::Stop => PlaybackCommand::Stop,
        PlaybackRequest::Seek { .. } => PlaybackCommand::Seek,
        PlaybackRequest::SetPlaybackMode { .. } => PlaybackCommand::SetPlaybackMode,
        PlaybackRequest::SetLoopRegion { .. } => PlaybackCommand::SetLoopRegion,
        PlaybackRequest::ClearLoopRegion => PlaybackCommand::ClearLoopRegion,
    }
}

/// Handles a playback command. A mode name that names no mode is refused
/// and the service is not asked. Otherwise the service gets the call the
/// request makes ([`request_call`]) exactly once, and the command answers
/// what the service returned as [`playback_answer`] answers it, with the
/// state event only on success.
pub fn handle_playback<S: PlaybackService>(request: &PlaybackRequest, service: &mut S) -> (r: (
    Result<PlaybackReply, BoundaryError>,
    Option<PlaybackState>,
))
    ensures
        match request_call(*request) {
            None => (r.0 matches Err(b) && (match *request {
                PlaybackRequest::SetPlaybackMode { mode } => boundary_is(
                    b,
                    "InvalidInput"@,
                    "Unknown playback mode: "@ + mode@,
                    "command.mode"@,
                ),
                _ => false,
            })) && r.1 is None && *final(service) == *old(service),
            Some(call) => exists|outcome: Result<PlaybackValue, ApplicationError>|
                #[trigger] old(service).answers(call, outcome, *final(service)) && reply_answers(outcome, r.0)
                    && r.1 == outcome_event(request_command(*request), outcome),
        },
{
    let command = command_of(request);
    let outcome = match request {
        PlaybackRequest::Play { path } => unit_value(service.play(path.as_str())),
        PlaybackRequest::PrepareNext { path } => unit_value(service.prepare_next(path.as_str())),
        PlaybackRequest::ClearPrepared => unit_value(service.clear_prepared()),
        PlaybackRequest::Pause => unit_value(service.pause()),
        PlaybackRequest::Resume => unit_value(service.resume()),
        PlaybackRequest::Stop => unit_value(service.stop()),
        PlaybackRequest::Seek { position_ms } => position_value(service.seek(*position_ms)),
        PlaybackRequest::SetPlaybackMode { mode } => match parse_playback_mode(mode.as_str()) {
            None => {
                return (Err(unknown_mode_error(mode.as_str())), None);
            },
            Some(parsed) => mode_value(service.set_mode(parsed)),
        },
        PlaybackRequest::SetLoopRegion { start_ms, end_ms } => start_value(
            service.set_loop_region(*start_ms, *end_ms),
        ),
        PlaybackRequest::ClearLoopRegion => unit_value(service.clear_loop_region()),
    };
    assert(old(service).answers(request_call(*request)->Some_0, outcome, *service));
    playback_answer(command, outcome)
}

/// The ids and names of devices.
pub open spec fn device_views(devices: Seq<DeviceInfoData>) -> Seq<(Seq<char>, Seq<char>)> {
    devices.map_values(|d: DeviceInfoData| device_view(d))
}

/// A device listing as ids and names.
pub open spec fn listing_outcome(r: Result<Vec<DeviceInfoData>, ApplicationError>) -> Result<
    Seq<(Seq<char>, Seq<char>)>,
    ApplicationError,
> {
    match r {
        Ok(devices) => Ok(device_views(devices@)),
        Err(e) => Err(e),
    }
}

/// The current device as its id and name.
pub open spec fn current_outcome(r: Result<Option<DeviceInfoData>, ApplicationError>) -> Result<
    Option<(Seq<char>, Seq<char>)>,
    ApplicationError,
> {
    match r {
        Ok(Some(d)) => Ok(Some(device_view(d))),
        Ok(None) => Ok(None),
        Err(e) => Err(e),
    }
}

/// The audio device service the device commands read.
pub trait AudioDeviceService {
    /// Whether this service may answer a listing with `outcome`: the ids and
    /// names of the devices, or an error. A service that describes itself
    /// no further may answer anything.
    open spec fn lists(&self, outcome: Result<Seq<(Seq<char>, Seq<char>)>, ApplicationError>) -> bool {
        true
    }

    /// Whether this service may name `outcome` as the current device. A
    /// service that describes itself no further may name any.
    open spec fn names_current(&self, outcome: Result<Option<(Seq<char>, Seq<char>)>, ApplicationError>) -> bool {
        true
    }

    /// Whether this service may report `lost` when asked whether the output
    /// device in use was lost. A service that describes itself no further
    /// may report either.
    open spec fn reports_lost(&self, lost: bool) -> bool {
        true
    }

    fn list_devices(&self) -> (result: Result<Vec<DeviceInfoData>, ApplicationError>)
        ensures
            self.lists(listing_outcome(result)),
    ;

    fn current_device(&self) -> (result: Result<Option<DeviceInfoData>, ApplicationError>)
        ensures
            self.names_current(current_outcome(result)),
    ;

    /// Whether the output device in use was lost.
    fn is_device_lost(&self) -> (lost: bool)
        ensures
            self.reports_lost(lost),
    ;
}

impl AudioDeviceService for FakeAudioDeviceService {
    /// The fake lists its configured devices, or fails when told to.
    open spec fn lists(&self, outcome: Result<Seq<(Seq<char>, Seq<char>)>, ApplicationError>) -> bool {
        if self.fail_list {
            outcome matches Err(e) && is_device_error(e)
        } else {
            outcome == Ok::<Seq<(Seq<char>, Seq<char>)>, ApplicationError>(device_views(self.devices@))
        }
    }

    /// The fake names its configured current device, or fails when told to.
    open spec fn names_current(&self, outcome: Result<Option<(Seq<char>, Seq<char>)>, ApplicationError>) -> bool {
        if self.fail_current {
            outcome matches Err(e) && is_device_error(e)
        } else {
            outcome == Ok::<Option<(Seq<char>, Seq<char>)>, ApplicationError>(match self.current {
                Some(d) => Some(device_view(d)),
                None => None,
            })
        }
    }

    open spec fn reports_lost(&self, lost: bool) -> bool {
        lost == self.device_lost
    }

    fn list_devices(&self) -> (result: Result<Vec<DeviceInfoData>, ApplicationError>) {
        let result = FakeAudioDeviceService::list_devices(self);
        proof {
            if result is Ok {
                assert(device_views(result->Ok_0@) =~= device_views(self.devices@));
            }
        }
        result
    }

    fn current_device(&self) -> (result: Result<Option<DeviceInfoData>, ApplicationError>) {
        FakeAudioDeviceService::current_device(self)
    }

    fn is_device_lost(&self) -> (lost: bool) {
        self.device_lost
    }
}

/// Handles `list_devices`: the device service is asked once, and its answer
/// is given as [`service_result`] gives it.
pub fn handle_list_devices<D: AudioDeviceService>(devices: &D) -> (r: Result<Vec<DeviceInfoData>, BoundaryError>)
    ensures
        exists|outcome: Result<Vec<DeviceInfoData>, ApplicationError>|
            #[trigger] devices.lists(listing_outcome(outcome)) && service_answer(outcome, r),
{
    let outcome = devices.list_devices();
    let ghost asked = outcome;
    let r = service_result(outcome);
    assert(devices.lists(listing_outcome(asked)));
    r
}

/// Handles `current_device`: the device service is asked once, and its
/// answer is given as [`service_result`] gives it.
pub fn handle_current_device<D: AudioDeviceService>(devices: &D) -> (r: Result<Option<DeviceInfoData>, BoundaryError>)
    ensures
        exists|outcome: Result<Option<DeviceInfoData>, ApplicationError>|
            #[trigger] devices.names_current(current_outcome(outcome)) && service_answer(outcome, r),
{
    let outcome = devices.current_device();
    let ghost asked = outcome;
    let r = service_result(outcome);
    assert(devices.names_current(current_outcome(asked)));
    r
}

/// Handles `select_device`: the playback service is asked to switch its
/// output to `device_id`, exactly once; only when it succeeded is the device
/// service asked whether the device was lost. The answer is given as
/// [`select_device_outcome`] gives it: success or the service's error, and
/// the device-lost event naming `device_id` when the device was lost.
pub fn handle_select_device<S: PlaybackService, D: AudioDeviceService>(
    device_id: &str,
    playback: &mut S,
    devices: &D,
) -> (r: (Result<(), BoundaryError>, Option<String>))
    ensures
        exists|outcome: Result<(), ApplicationError>|
            #[trigger] old(playback).answers(
                PlaybackCall::SelectOutputDevice(device_id@),
                unit_outcome(outcome),
                *final(playback),
            ) && match outcome {
                Ok(()) => r.0 is Ok && devices.reports_lost(r.1 is Some),
                Err(e) => (r.0 matches Err(b) && reports_error(b, e)) && r.1 is None,
            },
        r.1 matches Some(previous) ==> previous@ == device_id@,
{
    let outcome = playback.select_output_device(device_id);
    let lost = match &outcome {
        Ok(()) => devices.is_device_lost(),
        Err(_) => false,
    };
    let ghost called = outcome;
    let r = select_device_outcome(device_id, outcome, lost);
    assert(old(playback).answers(PlaybackCall::SelectOutputDevice(device_id@), unit_outcome(called), *playback));
    r
}

/// `x + 1`, staying at the maximum.
pub open spec fn sat_inc(x: u64) -> u64 {
    if x < u64::MAX {
        (x + 1) as u64
    } else {
        x
    }
}

/// In-memory playback service that records its calls and fails, when told
/// to, with an error of the configured category.
pub struct FakePlaybackService {
    pub play_call_count: u64,
    pub last_play_path: Option<String>,
    pub pause_call_count: u64,
    pub resume_call_count: u64,
    pub stop_call_count: u64,
    pub seek_call_count: u64,
    pub last_seek_position: Option<u64>,
    /// Where a seek lands; the requested position when `None`.
    pub seek_result: Option<u64>,
    pub mode: PlaybackMode,
    pub select_output_device_call_count: u64,
    pub last_output_device_id: Option<String>,
    pub fail_with: Option<ErrorCategory>,
}

/// The error the fake playback service fails with.
pub open spec fn is_playback_error(e: ApplicationError, category: ErrorCategory) -> bool {
    e.category == category && e.code == DiagnosticCode::PlaybackControl
}

/// Whether an outcome is what the fake answers when configured with `fail_with`.
pub open spec fn fake_outcome<T>(outcome: Result<T, ApplicationError>, fail_with: Option<ErrorCategory>) -> bool {
    match fail_with {
        Some(c) => outcome matches Err(e) && is_playback_error(e, c),
        None => outcome is Ok,
    }
}

fn fake_failure(fail_with: Option<ErrorCategory>) -> (result: Result<(), ApplicationError>)
    ensures
        fake_outcome(result, fail_with),
{
    match fail_with {
        Some(c) => Err(ApplicationError::new(c, DiagnosticCode::PlaybackControl, "fake playback error")),
        None => Ok(()),
    }
}

fn sat_increment(x: u64) -> (y: u64)
    ensures
        y == sat_inc(x),
{
    if x < u64::MAX {
        x + 1
    } else {
        x
    }
}

impl FakePlaybackService {
    /// A service that has been asked nothing, in one-shot mode.
    pub fn new() -> (service: Self)
        ensures
            service.play_call_count == 0,
            service.last_play_path is None,
            service.pause_call_count == 0,
            service.resume_call_count == 0,
            service.stop_call_count == 0,
            service.seek_call_count == 0,
            service.last_seek_position is None,
            service.seek_result is None,
            service.mode == PlaybackMode::OneShot,
            service.select_output_device_call_count == 0,
            service.last_output_device_id is None,
            service.fail_with is None,
    {
        FakePlaybackService {
            play_call_count: 0,
            last_play_path: None,
            pause_call_count: 0,
            resume_call_count: 0,
            stop_call_count: 0,
            seek_call_count: 0,
            last_seek_position: None,
            seek_result: None,
            mode: PlaybackMode::OneShot,
            select_output_device_call_count: 0,
            last_output_device_id: None,
            fail_with: None,
        }
    }
}

/// What the fake returns for `call` when it does not fail: a seek lands on
/// `seek_result` when one is set, a mode change confirms the mode asked for,
/// a loop region starts where it was asked to.
pub open spec fn fake_value(service: FakePlaybackService, call: PlaybackCall) -> PlaybackValue {
    match call {
        PlaybackCall::Seek(position_ms) => PlaybackValue::Position(
            match service.seek_result {
                Some(r) => r,
                None => position_ms,
            },
        ),
        PlaybackCall::SetMode(mode) => PlaybackValue::Mode(mode),
        PlaybackCall::SetLoopRegion(start_ms, _) => PlaybackValue::Start(start_ms),
        _ => PlaybackValue::Unit,
    }
}

/// What the fake records of `call`: the calls it counts and the arguments
/// it keeps; the mode changes only when a mode change succeeded, and nothing
/// else changes.
pub open spec fn fake_records(
    before: FakePlaybackService,
    call: PlaybackCall,
    succeeded: bool,
    after: FakePlaybackService,
) -> bool {
    match call {
        PlaybackCall::Play(path) => (after == FakePlaybackService {
            play_call_count: sat_inc(before.play_call_count),
            last_play_path: after.last_play_path,
            ..before
        }) && (after.last_play_path matches Some(p) && p@ == path),
        PlaybackCall::Pause => after == (FakePlaybackService {
            pause_call_count: sat_inc(before.pause_call_count),
            ..before
        }),
        PlaybackCall::Resume => after == (FakePlaybackService {
            resume_call_count: sat_inc(before.resume_call_count),
            ..before
        }),
        PlaybackCall::Stop => after == (FakePlaybackService {
            stop_call_count: sat_inc(before.stop_call_count),
            ..before
        }),
        PlaybackCall::Seek(position_ms) => after == (FakePlaybackService {
            seek_call_count: sat_inc(before.seek_call_count),
            last_seek_position: Some(position_ms),
            ..before
        }),
        PlaybackCall::SetMode(mode) => after == (FakePlaybackService {
            mode: if succeeded {
                mode
            } else {
                before.mode
            },
            ..before
        }),
        PlaybackCall::SelectOutputDevice(device_id) => (after == FakePlaybackService {
            select_output_device_call_count: sat_inc(before.select_output_device_call_count),
            last_output_device_id: after.last_output_device_id,
            ..before
        }) && (after.last_output_device_id matches Some(d) && d@ == device_id),
        _ => after == before,
    }
}

impl PlaybackService for FakePlaybackService {
    /// The fake fails every call with its configured category when told to,
    /// and otherwise returns [`fake_value`]; it records the call as
    /// [`fake_records`] says.
    open spec fn answers(&self, call: PlaybackCall, outcome: Result<PlaybackValue, ApplicationError>, after: Self) -> bool {
        &&& match self.fail_with {
            Some(c) => outcome matches Err(e) && is_playback_error(e, c),
            None => outcome == Ok::<PlaybackValue, ApplicationError>(fake_value(*self, call)),
        }
        &&& fake_records(*self, call, outcome is Ok, after)
    }

    fn play(&mut self, path: &str) -> (result: Result<(), ApplicationError>) {
        self.play_call_count = sat_increment(self.play_call_count);
        self.last_play_path = Some(String::from_str(path));
        fake_failure(self.fail_with)
    }

    fn prepare_next(&mut self, path: &str) -> (result: Result<(), ApplicationError>) {
        fake_failure(self.fail_with)
    }

    fn clear_prepared(&mut self) -> (result: Result<(), ApplicationError>) {
        fake_failure(self.fail_with)
    }

    fn pause(&mut self) -> (result: Result<(), ApplicationError>) {
        self.pause_call_count = sat_increment(self.pause_call_count);
        fake_failure(self.fail_with)
    }

    fn resume(&mut self) -> (result: Result<(), ApplicationError>) {
        self.resume_call_count = sat_increment(self.resume_call_count);
        fake_failure(self.fail_with)
    }

    fn stop(&mut self) -> (result: Result<(), ApplicationError>) {
        self.stop_call_count = sat_increment(self.stop_call_count);
        fake_failure(self.fail_with)
    }

    fn seek(&mut self, position_ms: u64) -> (result: Result<u64, ApplicationError>) {
        self.seek_call_count = sat_increment(self.seek_call_count);
        self.last_seek_position = Some(position_ms);
        match fake_failure(self.fail_with) {
            Err(e) => Err(e),
            Ok(()) => match self.seek_result {
                Some(r) => Ok(r),
                None => Ok(position_ms),
            },
        }
    }

    fn set_mode(&mut self, mode: PlaybackMode) -> (result: Result<PlaybackMode, ApplicationError>) {
        match fake_failure(self.fail_with) {
            Err(e) => Err(e),
            Ok(()) => {
                self.mode = mode;
                Ok(mode)
            },
        }
    }

    fn set_loop_region(&mut self, start_ms: u64, end_ms: u64) -> (result: Result<u64, ApplicationError>) {
        match fake_failure(self.fail_with) {
            Err(e) => Err(e),
            Ok(()) => Ok(start_ms),
        }
    }

    fn clear_loop_region(&mut self) -> (result: Result<(), ApplicationError>) {
        fake_failure(self.fail_with)
    }

    fn select_output_device(&mut self, device_id: &str) -> (result: Result<(), ApplicationError>) {
        self.select_output_device_call_count = sat_increment(self.select_output_device_call_count);
        self.last_output_device_id = Some(String::from_str(device_id));
        fake_failure(self.fail_with)
    }
}

/// In-memory trash service that answers with configured outcomes.
pub struct FakeTrashService {
    pub outcomes: Vec<(String, Result<(), ApplicationError>)>,
}

/// The texts of one trash outcome.
pub open spec fn outcome_text(o: (String, Result<(), ApplicationError>)) -> (Seq<char>, Option<(ErrorCategory, DiagnosticCode, Seq<char>)>) {
    (o.0@, match o.1 {
        Ok(()) => None,
        Err(e) => Some((e.category, e.code, e.message@)),
    })
}

/// The texts of trash outcomes.
pub open spec fn outcome_texts(outcomes: Seq<(String, Result<(), ApplicationError>)>) -> Seq<(Seq<char>, Option<(ErrorCategory, DiagnosticCode, Seq<char>)>)> {
    outcomes.map_values(|o: (String, Result<(), ApplicationError>)| outcome_text(o))
}

/// The texts of paths.
pub open spec fn path_texts(paths: Seq<String>) -> Seq<Seq<char>> {
    paths.map_values(|p: String| p@)
}

impl TrashService for FakeTrashService {
    /// The fake reports its configured outcomes, whatever it is asked.
    open spec fn trashes(
        &self,
        paths: Seq<Seq<char>>,
        outcomes: Seq<(Seq<char>, Option<(ErrorCategory, DiagnosticCode, Seq<char>)>)>,
    ) -> bool {
        outcomes == outcome_texts(self.outcomes@)
    }

    fn move_to_trash(&self, paths: Vec<String>) -> (result: Vec<(String, Result<(), ApplicationError>)>) {
        let mut result: Vec<(String, Result<(), ApplicationError>)> = Vec::new();
        let mut i: usize = 0;
        while i < self.outcomes.len()
            invariant
                i <= self.outcomes@.len(),
                result@.len() == i,
                forall|k: int| 0 <= k < i ==> outcome_text(#[trigger] result@[k]) == outcome_text(self.outcomes@[k]),
            decreases self.outcomes.len() - i,
        {
            let (path, outcome) = &self.outcomes[i];
            let copy = match outcome {
                Ok(()) => Ok(()),
                Err(e) => Err(ApplicationError::new(e.category, e.code, e.message.as_str())),
            };
            result.push((path.clone(), copy));
            i = i + 1;
        }
        assert(outcome_texts(result@) =~= outcome_texts(self.outcomes@));
        result
    }
}

/// The trash service: moves files to the system trash and reports, for each
/// file it handled, where it was and how it went.
pub trait TrashService {
    /// Whether this service, asked to move `paths` to the trash, may report
    /// `outcomes`: each a path and, for a failure, the error's category,
    /// code and message. A service that describes itself no further may
    /// report anything.
    open spec fn trashes(
        &self,
        paths: Seq<Seq<char>>,
        outcomes: Seq<(Seq<char>, Option<(ErrorCategory, DiagnosticCode, Seq<char>)>)>,
    ) -> bool {
        true
    }

    fn move_to_trash(&self, paths: Vec<String>) -> (outcomes: Vec<(String, Result<(), ApplicationError>)>)
        ensures
            self.trashes(path_texts(paths@), outcome_texts(outcomes@)),
    ;
}

/// Whether `item` reports moving `path` to the trash with `outcome`.
pub open spec fn reports_trash_item(item: MoveToTrashItemResult, path: String, outcome: Result<(), ApplicationError>) -> bool {
    &&& item.path@ == path@
    &&& item.ok == outcome is Ok
    &&& outcome is Ok ==> item.category is None && item.message is None && item.diagnostic_code is None
    &&& outcome matches Err(e) ==> (item.category matches Some(c) && c@ == category_text(e.category))
        && (item.message matches Some(m) && m@ == e.message@) && (item.diagnostic_code matches Some(
        d,
    ) && d@ == code_text(e.code))
}

/// Whether `response` reports `outcomes`: one item per outcome, in order.
pub open spec fn trash_answer(outcomes: Seq<(String, Result<(), ApplicationError>)>, response: MoveToTrashResponse) -> bool {
    &&& response.results@.len() == outcomes.len()
    &&& forall|i: int|
        0 <= i < outcomes.len() ==> reports_trash_item(#[trigger] response.results@[i], outcomes[i].0, outcomes[i].1)
}

/// The response to `move_to_trash` for the outcomes the service returned:
/// one item per outcome, in order.
pub fn trash_response(outcomes: Vec<(String, Result<(), ApplicationError>)>) -> (response: MoveToTrashResponse)
    ensures
        trash_answer(outcomes@, response),
{
    let mut results: Vec<MoveToTrashItemResult> = Vec::new();
    let mut rest = outcomes;
    let ghost all = rest@;
    let mut i: usize = 0;
    let n = rest.len();
    let mut reversed: Vec<(String, Result<(), ApplicationError>)> = Vec::new();
    while rest.len() > 0
        invariant
            reversed@.len() + rest@.len() == all.len(),
            rest@ == all.subrange(0, rest@.len() as int),
            forall|k: int| 0 <= k < reversed@.len() ==> #[trigger] reversed@[k] == all[all.len() - 1 - k],
        decreases rest@.len(),
    {
        let last = rest.pop().unwrap();
        reversed.push(last);
    }
    while reversed.len() > 0
        invariant
            i == results@.len(),
            i + reversed@.len() == all.len(),
            n == all.len(),
            forall|k: int| 0 <= k < reversed@.len() ==> #[trigger] reversed@[k] == all[all.len() - 1 - k],
            forall|k: int| 0 <= k < i ==> reports_trash_item(#[trigger] results@[k], all[k].0, all[k].1),
        decreases reversed@.len(),
    {
        let (path, outcome) = reversed.pop().unwrap();
        results.push(trash_item_result(path, &outcome));
        i = i + 1;
    }
    MoveToTrashResponse { results }
}

/// Handles `move_to_trash`: no paths give no results without asking the
/// service; otherwise the service is handed `paths` and its outcomes are
/// answered as [`trash_response`] answers them. The command itself always
/// succeeds.
pub fn handle_move_to_trash<T: TrashService>(paths: Vec<String>, service: &T) -> (r: Result<MoveToTrashResponse, BoundaryError>)
    ensures
        r is Ok,
        paths@.len() == 0 ==> (r matches Ok(response) && response.results@.len() == 0),
        paths@.len() > 0 ==> (r matches Ok(response) && exists|outcomes: Seq<(String, Result<(), ApplicationError>)>|
            #[trigger] service.trashes(path_texts(paths@), outcome_texts(outcomes)) && trash_answer(outcomes, response)),
{
    if paths.len() == 0 {
        return Ok(MoveToTrashResponse { results: Vec::new() });
    }
    let ghost asked = paths@;
    let outcomes = service.move_to_trash(paths);
    let ghost reported = outcomes@;
    let response = trash_response(outcomes);
    assert(service.trashes(path_texts(asked), outcome_texts(reported)));
    Ok(response)
}

} // verus!
