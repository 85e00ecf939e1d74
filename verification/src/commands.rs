//! The versioned command boundary between the frontend and the backend:
//! request and response types, command routing, and how service errors are
//! reported across the boundary.
use vstd::prelude::*;

use crate::roots::{BrowserLibraryData, BrowserRootData};
use crate::text::{chars_of, string_of, trim, trim_chars};

verus! {

/// The command envelope version this backend speaks.
pub const CURRENT_COMMAND_VERSION: u32 = 1;

/// The kind of failure an application error reports to the user.
#[derive(Clone, Copy, Debug, PartialEq, Eq, Structural)]
pub enum ErrorCategory {
    Cancelled,
    Conflict,
    InvalidInput,
    NotFound,
    PermissionDenied,
    Unavailable,
    Unsupported,
}

/// Where in the backend an application error arose.
#[derive(Clone, Copy, Debug, PartialEq, Eq, Structural)]
pub enum DiagnosticCode {
    BrowserRead,
    FileOperation,
    AudioOutput,
    PlaybackControl,
}

/// An error of an application service, as the boundary reads it: its
/// category, its diagnostic code, and the message safe to show the user.
#[derive(Debug)]
pub struct ApplicationError {
    pub category: ErrorCategory,
    pub code: DiagnosticCode,
    pub message: String,
}

impl ApplicationError {
    /// An application error.
    pub fn new(category: ErrorCategory, code: DiagnosticCode, message: &str) -> (error: Self)
        ensures
            error.category == category,
            error.code == code,
            error.message@ == message@,
    {
        ApplicationError { category, code, message: String::from_str(message) }
    }
}

/// An error as it crosses the command boundary.
#[derive(Debug)]
pub struct BoundaryError {
    pub category: String,
    pub message: String,
    pub diagnostic_code: String,
}

/// Whether a boundary error carries these three texts.
pub open spec fn boundary_is(
    e: BoundaryError,
    category: Seq<char>,
    message: Seq<char>,
    code: Seq<char>,
) -> bool {
    e.category@ == category && e.message@ == message && e.diagnostic_code@ == code
}

/// The name of a category as the boundary spells it.
pub open spec fn category_text(category: ErrorCategory) -> Seq<char> {
    match category {
        ErrorCategory::Cancelled => "Cancelled"@,
        ErrorCategory::Conflict => "Conflict"@,
        ErrorCategory::InvalidInput => "InvalidInput"@,
        ErrorCategory::NotFound => "NotFound"@,
        ErrorCategory::PermissionDenied => "PermissionDenied"@,
        ErrorCategory::Unavailable => "Unavailable"@,
        ErrorCategory::Unsupported => "Unsupported"@,
    }
}

/// The stable text of a diagnostic code.
pub open spec fn code_text(code: DiagnosticCode) -> Seq<char> {
    match code {
        DiagnosticCode::BrowserRead => "browser.read"@,
        DiagnosticCode::FileOperation => "file.operation"@,
        DiagnosticCode::AudioOutput => "audio.output"@,
        DiagnosticCode::PlaybackControl => "playback.control"@,
    }
}

/// The name of a category as the boundary spells it.
pub fn category_name(category: ErrorCategory) -> (name: String)
    ensures
        name@ == category_text(category),
{
    match category {
        ErrorCategory::Cancelled => String::from_str("Cancelled"),
        ErrorCategory::Conflict => String::from_str("Conflict"),
        ErrorCategory::InvalidInput => String::from_str("InvalidInput"),
        ErrorCategory::NotFound => String::from_str("NotFound"),
        ErrorCategory::PermissionDenied => String::from_str("PermissionDenied"),
        ErrorCategory::Unavailable => String::from_str("Unavailable"),
        ErrorCategory::Unsupported => String::from_str("Unsupported"),
    }
}

/// The stable text of a diagnostic code.
pub fn code_name(code: DiagnosticCode) -> (name: String)
    ensures
        name@ == code_text(code),
{
    match code {
        DiagnosticCode::BrowserRead => String::from_str("browser.read"),
        DiagnosticCode::FileOperation => String::from_str("file.operation"),
        DiagnosticCode::AudioOutput => String::from_str("audio.output"),
        DiagnosticCode::PlaybackControl => String::from_str("playback.control"),
    }
}

/// Reports an application error across the boundary: its category name, its
/// user-safe message, and its diagnostic code.
pub fn from_application_error(err: &ApplicationError) -> (boundary: BoundaryError)
    ensures
        boundary.category@ == category_text(err.category),
        boundary.message@ == err.message@,
        boundary.diagnostic_code@ == code_text(err.code),
{
    BoundaryError {
        category: category_name(err.category),
        message: err.message.clone(),
        diagnostic_code: code_name(err.code),
    }
}

/// The decimal digits of `n`.
pub open spec fn decimal(n: nat) -> Seq<char>
    decreases n,
{
    if n < 10 {
        seq![digit_char(n)]
    } else {
        decimal(n / 10).push(digit_char(n % 10))
    }
}

/// The digit character for `d < 10`.
pub open spec fn digit_char(d: nat) -> char {
    if d == 0 {
        '0'
    } else if d == 1 {
        '1'
    } else if d == 2 {
        '2'
    } else if d == 3 {
        '3'
    } else if d == 4 {
        '4'
    } else if d == 5 {
        '5'
    } else if d == 6 {
        '6'
    } else if d == 7 {
        '7'
    } else if d == 8 {
        '8'
    } else {
        '9'
    }
}

fn digit(d: u64) -> (c: char)
    requires
        d < 10,
    ensures
        c == digit_char(d as nat),
{
    if d == 0 {
        '0'
    } else if d == 1 {
        '1'
    } else if d == 2 {
        '2'
    } else if d == 3 {
        '3'
    } else if d == 4 {
        '4'
    } else if d == 5 {
        '5'
    } else if d == 6 {
        '6'
    } else if d == 7 {
        '7'
    } else if d == 8 {
        '8'
    } else {
        '9'
    }
}

/// The decimal digits of `n`.
pub fn decimal_chars(n: u64) -> (digits: Vec<char>)
    ensures
        digits@ == decimal(n as nat),
    decreases n,
{
    if n < 10 {
        let mut v: Vec<char> = Vec::new();
        v.push(digit(n));
        v
    } else {
        let mut v = decimal_chars(n / 10);
        v.push(digit(n % 10));
        v
    }
}

/// Appends the characters of `extra` to `out`.
pub fn append_chars(out: &mut Vec<char>, extra: &Vec<char>)
    ensures
        final(out)@ == old(out)@ + extra@,
{
    let mut i: usize = 0;
    while i < extra.len()
        invariant
            i <= extra.len(),
            out@ == old(out)@ + extra@.take(i as int),
        decreases extra.len() - i,
    {
        out.push(extra[i]);
        assert(extra@.take(i + 1) == extra@.take(i as int).push(extra@[i as int]));
        i = i + 1;
    }
    assert(extra@.take(extra.len() as int) == extra@);
}

/// A boundary error built from its three texts.
pub fn boundary_error(category: &str, message: &Vec<char>, code: &str) -> (error: BoundaryError)
    ensures
        error.category@ == category@,
        error.message@ == message@,
        error.diagnostic_code@ == code@,
{
    BoundaryError {
        category: String::from_str(category),
        message: string_of(message),
        diagnostic_code: String::from_str(code),
    }
}

/// Which handler serves a command.
#[derive(Clone, Copy, Debug, PartialEq, Eq, Structural)]
pub enum CommandRoute {
    Health,
    Playback,
    Device,
    Browsing,
    RecentFolders,
}

/// The playback commands.
pub open spec fn is_playback_command(command: Seq<char>) -> bool {
    ||| command == "play"@
    ||| command == "prepare_next"@
    ||| command == "clear_prepared"@
    ||| command == "pause"@
    ||| command == "resume"@
    ||| command == "stop"@
    ||| command == "seek"@
    ||| command == "volume"@
    ||| command == "set_playback_mode"@
    ||| command == "set_loop_region"@
    ||| command == "clear_loop_region"@
}

/// The audio device commands.
pub open spec fn is_device_command(command: Seq<char>) -> bool {
    ||| command == "list_devices"@
    ||| command == "current_device"@
    ||| command == "select_device"@
}

/// The browsing and file commands.
pub open spec fn is_browsing_command(command: Seq<char>) -> bool {
    ||| command == "list_browser_roots"@
    ||| command == "start_enumeration"@
    ||| command == "cancel_enumeration"@
    ||| command == "move_to_trash"@
    ||| command == "rename_file"@
    ||| command == "start_move_files"@
    ||| command == "cancel_move_files"@
    ||| command == "start_copy_files"@
    ||| command == "cancel_copy_files"@
    ||| command == "reveal_file"@
    ||| command == "open_with"@
    ||| command == "drag_out"@
}

/// The recent folder commands.
pub open spec fn is_recent_folder_command(command: Seq<char>) -> bool {
    ||| command == "list_recent_folders"@
    ||| command == "record_recent_folder"@
    ||| command == "clear_recent_folders"@
}

/// The handler of a command name, if the backend knows the command.
pub open spec fn route_of(command: Seq<char>) -> Option<CommandRoute> {
    if command == "health"@ {
        Some(CommandRoute::Health)
    } else if is_playback_command(command) {
        Some(CommandRoute::Playback)
    } else if is_device_command(command) {
        Some(CommandRoute::Device)
    } else if is_browsing_command(command) {
        Some(CommandRoute::Browsing)
    } else if is_recent_folder_command(command) {
        Some(CommandRoute::RecentFolders)
    } else {
        None
    }
}

/// The message for an envelope of an unsupported version.
pub open spec fn version_message(version: u32) -> Seq<char> {
    "Unsupported command version "@ + decimal(version as nat) + ". Expected "@ + decimal(
        CURRENT_COMMAND_VERSION as nat,
    ) + "."@
}

fn is(command: &Vec<char>, name: &str) -> (result: bool)
    ensures
        result == (command@ == name@),
{
    crate::text::chars_equal(command, &chars_of(name))
}

/// Routes a command envelope: an envelope of another version is refused as
/// unsupported, an unknown command as unknown; every other command goes to
/// its handler.
pub fn route_command(version: u32, command: &str) -> (result: Result<CommandRoute, BoundaryError>)
    ensures
        version != CURRENT_COMMAND_VERSION ==> (result matches Err(e) && boundary_is(
            e,
            "Unsupported"@,
            version_message(version),
            "command.version"@,
        )),
        version == CURRENT_COMMAND_VERSION && route_of(command@) is None ==> (result matches Err(
            e,
        ) && boundary_is(e, "Unsupported"@, "Unknown command: "@ + command@, "command.unknown"@)),
        version == CURRENT_COMMAND_VERSION && route_of(command@) is Some ==> result == Ok::<
            CommandRoute,
            BoundaryError,
        >(route_of(command@)->0),
{
    if version != CURRENT_COMMAND_VERSION {
        let mut message = chars_of("Unsupported command version ");
        append_chars(&mut message, &decimal_chars(version as u64));
        append_chars(&mut message, &chars_of(". Expected "));
        append_chars(&mut message, &decimal_chars(CURRENT_COMMAND_VERSION as u64));
        append_chars(&mut message, &chars_of("."));
        return Err(boundary_error("Unsupported", &message, "command.version"));
    }
    let name = chars_of(command);
    if is(&name, "health") {
        Ok(CommandRoute::Health)
    } else if is(&name, "play") || is(&name, "prepare_next") || is(&name, "clear_prepared")
        || is(&name, "pause") || is(&name, "resume") || is(&name, "stop") || is(&name, "seek")
        || is(&name, "volume") || is(&name, "set_playback_mode") || is(&name, "set_loop_region")
        || is(&name, "clear_loop_region") {
        Ok(CommandRoute::Playback)
    } else if is(&name, "list_devices") || is(&name, "current_device") || is(&name, "select_device") {
        Ok(CommandRoute::Device)
    } else if is(&name, "list_browser_roots") || is(&name, "start_enumeration") || is(
        &name,
        "cancel_enumeration",
    ) || is(&name, "move_to_trash") || is(&name, "rename_file") || is(&name, "start_move_files")
        || is(&name, "cancel_move_files") || is(&name, "start_copy_files") || is(
        &name,
        "cancel_copy_files",
    ) || is(&name, "reveal_file") || is(&name, "open_with") || is(&name, "drag_out") {
        Ok(CommandRoute::Browsing)
    } else if is(&name, "list_recent_folders") || is(&name, "record_recent_folder") || is(
        &name,
        "clear_recent_folders",
    ) {
        Ok(CommandRoute::RecentFolders)
    } else {
        let mut message = chars_of("Unknown command: ");
        append_chars(&mut message, &name);
        Err(boundary_error("Unsupported", &message, "command.unknown"))
    }
}

/// How playback moves on when a file ends.
#[derive(Clone, Copy, Debug, PartialEq, Eq, Structural)]
pub enum PlaybackMode {
    OneShot,
    LoopCurrent,
    Sequential,
    Random,
}

/// The name the boundary gives a playback mode.
pub open spec fn mode_text(mode: PlaybackMode) -> Seq<char> {
    match mode {
        PlaybackMode::OneShot => "one-shot"@,
        PlaybackMode::LoopCurrent => "loop-current"@,
        PlaybackMode::Sequential => "sequential"@,
        PlaybackMode::Random => "random"@,
    }
}

/// The playback mode named `text`, if any.
pub open spec fn named_mode(text: Seq<char>) -> Option<PlaybackMode> {
    if exists|m: PlaybackMode| mode_text(m) == text {
        Some(choose|m: PlaybackMode| mode_text(m) == text)
    } else {
        None
    }
}

/// No two playback modes share a name.
pub proof fn lemma_mode_text_injective(a: PlaybackMode, b: PlaybackMode)
    ensures
        mode_text(a) == mode_text(b) ==> a == b,
{
    reveal_strlit("one-shot");
    reveal_strlit("loop-current");
    reveal_strlit("sequential");
    reveal_strlit("random");
    if a != b {
        assert(mode_text(a).len() != mode_text(b).len());
    }
}

/// The playback mode a name stands for, if any.
pub fn parse_playback_mode(value: &str) -> (mode: Option<PlaybackMode>)
    ensures
        mode matches Some(m) ==> mode_text(m) == value@,
        mode is None ==> forall|m: PlaybackMode| mode_text(m) != value@,
        mode == named_mode(value@),
{
    let name = chars_of(value);
    let mode = if is(&name, "one-shot") {
        Some(PlaybackMode::OneShot)
    } else if is(&name, "loop-current") {
        Some(PlaybackMode::LoopCurrent)
    } else if is(&name, "sequential") {
        Some(PlaybackMode::Sequential)
    } else if is(&name, "random") {
        Some(PlaybackMode::Random)
    } else {
        None
    };
    proof {
        if let Some(m) = mode {
            let c = choose|n: PlaybackMode| mode_text(n) == value@;
            assert(mode_text(m) == value@);
            lemma_mode_text_injective(m, c);
        }
    }
    mode
}

/// The name of a playback mode.
pub fn playback_mode_name(mode: PlaybackMode) -> (name: String)
    ensures
        name@ == mode_text(mode),
{
    match mode {
        PlaybackMode::OneShot => String::from_str("one-shot"),
        PlaybackMode::LoopCurrent => String::from_str("loop-current"),
        PlaybackMode::Sequential => String::from_str("sequential"),
        PlaybackMode::Random => String::from_str("random"),
    }
}

/// The boundary error for a mode name that names no playback mode.
pub fn unknown_mode_error(value: &str) -> (error: BoundaryError)
    ensures
        boundary_is(error, "InvalidInput"@, "Unknown playback mode: "@ + value@, "command.mode"@),
{
    let mut message = chars_of("Unknown playback mode: ");
    append_chars(&mut message, &chars_of(value));
    boundary_error("InvalidInput", &message, "command.mode")
}

/// The boundary error for a payload that does not parse as the command's
/// request; `detail` is the parser's explanation.
pub fn payload_error(command: &str, detail: &str) -> (error: BoundaryError)
    ensures
        error.category@ == "InvalidInput"@,
        error.message@ == "Invalid "@ + command@ + " command payload: "@ + detail@,
        error.diagnostic_code@ == "command.payload"@,
{
    let mut message = chars_of("Invalid ");
    append_chars(&mut message, &chars_of(command));
    append_chars(&mut message, &chars_of(" command payload: "));
    append_chars(&mut message, &chars_of(detail));
    boundary_error("InvalidInput", &message, "command.payload")
}

/// The batch size of an enumeration request; 100 when none was given.
pub fn enumeration_batch_size(requested: Option<u64>) -> (batch_size: u64)
    ensures
        batch_size == (match requested {
            Some(n) => n,
            None => 100,
        }),
{
    match requested {
        Some(n) => n,
        None => 100,
    }
}

/// The outcome of moving one file to the trash, as the boundary reports it.
#[derive(Debug)]
pub struct MoveToTrashItemResult {
    pub path: String,
    pub ok: bool,
    pub category: Option<String>,
    pub message: Option<String>,
    pub diagnostic_code: Option<String>,
}

/// Reports the outcome of moving `path` to the trash.
pub fn trash_item_result(path: String, outcome: &Result<(), ApplicationError>) -> (result: MoveToTrashItemResult)
    ensures
        result.path@ == path@,
        result.ok == outcome is Ok,
        outcome is Ok ==> result.category is None && result.message is None
            && result.diagnostic_code is None,
        outcome matches Err(e) ==> (result.category matches Some(c) && c@ == category_text(
            e.category,
        )) && (result.message matches Some(m) && m@ == e.message@) && (
        result.diagnostic_code matches Some(d) && d@ == code_text(e.code)),
{
    match outcome {
        Ok(()) => MoveToTrashItemResult {
            path,
            ok: true,
            category: None,
            message: None,
            diagnostic_code: None,
        },
        Err(e) => {
            let boundary = from_application_error(e);
            MoveToTrashItemResult {
                path,
                ok: false,
                category: Some(boundary.category),
                message: Some(boundary.message),
                diagnostic_code: Some(boundary.diagnostic_code),
            }
        },
    }
}

/// A request for the waveform of a file.
#[derive(Debug)]
pub struct WaveformRequest {
    pub path: String,
    pub target_peaks: u64,
}

/// A service that produces waveform levels for files.
pub trait WaveformService {
    /// The level data the service produces.
    type Level;

    /// Whether `outcome` is an answer this service gives to a request for the
    /// file at `path` with `target_peaks` peaks. A service that describes
    /// itself no further may give any answer.
    open spec fn answers(&self, path: Seq<char>, target_peaks: u64, outcome: Result<Self::Level, ApplicationError>) -> bool {
        true
    }

    /// Produces the level for a request.
    fn get_level(&self, request: &WaveformRequest) -> (outcome: Result<Self::Level, ApplicationError>)
        ensures
            self.answers(request.path@, request.target_peaks, outcome),
    ;
}

/// Whether a waveform path is blank once surrounding white space is
/// trimmed.
pub open spec fn empty_waveform_path(path: Seq<char>) -> bool {
    trim(path).len() == 0
}

/// Checks a waveform request's path: a path that is blank after trimming is
/// refused before any service runs.
pub fn validate_waveform_path(path: &str) -> (result: Result<(), BoundaryError>)
    ensures
        empty_waveform_path(path@) <==> result is Err,
        result matches Err(e) ==> boundary_is(
            e,
            "InvalidInput"@,
            "Waveform path cannot be empty."@,
            "waveform.path"@,
        ),
{
    let trimmed = trim_chars(&chars_of(path));
    if trimmed.len() == 0 {
        return Err(boundary_error("InvalidInput", &chars_of("Waveform path cannot be empty."), "waveform.path"));
    }
    Ok(())
}

/// Whether `result` is the boundary's answer to a service's `outcome`: the
/// value itself, or the service's error as a boundary error.
pub open spec fn service_answer<L>(outcome: Result<L, ApplicationError>, result: Result<L, BoundaryError>) -> bool {
    match outcome {
        Ok(level) => result matches Ok(l) && l == level,
        Err(e) => result matches Err(b) && boundary_is(b, category_text(e.category), e.message@, code_text(e.code)),
    }
}

/// The boundary's answer to what a service returned.
pub fn service_result<L>(outcome: Result<L, ApplicationError>) -> (result: Result<L, BoundaryError>)
    ensures
        service_answer(outcome, result),
{
    match outcome {
        Ok(level) => Ok(level),
        Err(error) => Err(from_application_error(&error)),
    }
}

/// The request a `get_waveform` command hands the waveform service: refused
/// when the path is blank after trimming.
pub fn waveform_request(path: &str, target_peaks: u64) -> (result: Result<WaveformRequest, BoundaryError>)
    ensures
        empty_waveform_path(path@) <==> result is Err,
        result matches Err(e) ==> boundary_is(
            e,
            "InvalidInput"@,
            "Waveform path cannot be empty."@,
            "waveform.path"@,
        ),
        result matches Ok(request) ==> request.path@ == path@ && request.target_peaks == target_peaks,
{
    match validate_waveform_path(path) {
        Err(error) => Err(error),
        Ok(()) => Ok(WaveformRequest { path: String::from_str(path), target_peaks }),
    }
}

/// Handles the `get_waveform` command: a blank path is refused without
/// calling the service; otherwise the service gets the request that
/// [`waveform_request`] builds, and its answer is reported, its errors as
/// boundary errors (see [`service_result`]).
pub fn handle_get_waveform<S: WaveformService>(path: &str, target_peaks: u64, service: &S) -> (result: Result<S::Level, BoundaryError>)
    ensures
        empty_waveform_path(path@) ==> (result matches Err(e) && boundary_is(
            e,
            "InvalidInput"@,
            "Waveform path cannot be empty."@,
            "waveform.path"@,
        )),
        !empty_waveform_path(path@) ==> exists|outcome: Result<S::Level, ApplicationError>|
            #[trigger] service.answers(path@, target_peaks, outcome) && service_answer(outcome, result),
{
    match waveform_request(path, target_peaks) {
        Err(error) => Err(error),
        Ok(request) => service_result(service.get_level(&request)),
    }
}

// Request and response payloads of the command envelope.

/// Request of `health`.
pub struct HealthRequest {}

/// Response of `health`.
pub struct HealthResponse {
    pub ready: bool,
}

/// Request of `play`.
pub struct PlayRequest {
    pub path: String,
}

/// Response of `play`.
pub struct PlayResponse {}

/// Request of `prepare_next`.
pub struct PrepareNextRequest {
    pub path: String,
}

/// Response of `prepare_next`.
pub struct PrepareNextResponse {}

/// Response of `clear_prepared`.
pub struct ClearPreparedResponse {}

/// Request of `pause`.
pub struct PauseRequest {}

/// Response of `pause`.
pub struct PauseResponse {}

/// Request of `resume`.
pub struct ResumeRequest {}

/// Response of `resume`.
pub struct ResumeResponse {}

/// Request of `stop`.
pub struct StopRequest {}

/// Response of `stop`.
pub struct StopResponse {}

/// Request of `seek`.
pub struct SeekRequest {
    pub position_ms: u64,
}

/// Response of `seek`: where playback landed.
pub struct SeekResponse {
    pub position_ms: u64,
}

/// Response of `volume`.
pub struct VolumeResponse {}

/// Request of `set_playback_mode`.
pub struct SetPlaybackModeRequest {
    pub mode: String,
}

/// Response of `set_playback_mode`.
pub struct SetPlaybackModeResponse {
    pub mode: String,
}

/// Request of `set_loop_region`.
pub struct SetLoopRegionRequest {
    pub start_ms: u64,
    pub end_ms: u64,
}

/// Response of `set_loop_region`.
pub struct SetLoopRegionResponse {
    pub start_ms: u64,
}

/// Request of `clear_loop_region`.
pub struct ClearLoopRegionRequest {}

/// Response of `clear_loop_region`.
pub struct ClearLoopRegionResponse {}

/// An audio output device as the frontend sees it.
#[derive(Clone, Debug)]
pub struct DeviceInfoData {
    pub id: String,
    pub name: String,
}

/// Request of `list_devices`.
pub struct ListDevicesRequest {}

/// Response of `list_devices`.
pub struct ListDevicesResponse {
    pub devices: Vec<DeviceInfoData>,
}

/// Request of `current_device`.
pub struct CurrentDeviceRequest {}

/// Response of `current_device`.
pub struct CurrentDeviceResponse {
    pub device: Option<DeviceInfoData>,
}

/// Request of `select_device`.
pub struct SelectDeviceRequest {
    pub device_id: String,
}

/// Response of `select_device`.
pub struct SelectDeviceResponse {}

/// Request of `pick_folder`.
pub struct PickFolderRequest {}

/// Response of `pick_folder`: the chosen folder, if any.
pub struct PickFolderResponse {
    pub path: Option<String>,
}

/// Request of `list_browser_roots`.
pub struct ListBrowserRootsRequest {}

/// Response of `list_browser_roots`.
pub struct ListBrowserRootsResponse {
    pub roots: Vec<BrowserRootData>,
    pub libraries: Vec<BrowserLibraryData>,
}

/// Request of `start_enumeration`.
pub struct StartEnumerationRequest {
    pub path: String,
    pub batch_size: Option<u64>,
    pub show_unsupported: bool,
    pub recursive: bool,
    pub show_hidden: bool,
}

/// Response of `start_enumeration`.
pub struct StartEnumerationResponse {
    pub session_id: String,
}

/// Request of `cancel_enumeration`.
pub struct CancelEnumerationRequest {
    pub session_id: String,
}

/// Response of `cancel_enumeration`.
pub struct CancelEnumerationResponse {}

/// Request of `move_to_trash`.
pub struct MoveToTrashRequest {
    pub paths: Vec<String>,
}

/// Response of `move_to_trash`.
pub struct MoveToTrashResponse {
    pub results: Vec<MoveToTrashItemResult>,
}

/// Request of `rename_file`.
pub struct RenameFileRequest {
    pub path: String,
    pub new_name: String,
}

/// Response of `rename_file`.
pub struct RenameFileResponse {
    pub old_path: String,
    pub new_path: String,
    pub was_playing: bool,
}

/// Request of `start_move_files`.
pub struct StartMoveFilesRequest {
    pub paths: Vec<String>,
    pub target_dir: String,
}

/// Response of `start_move_files`.
pub struct StartMoveFilesResponse {
    pub session_id: String,
}

/// Request of `cancel_move_files`.
pub struct CancelMoveFilesRequest {
    pub session_id: String,
}

/// Response of `cancel_move_files`.
pub struct CancelMoveFilesResponse {}

/// Request of `start_copy_files`.
pub struct StartCopyFilesRequest {
    pub paths: Vec<String>,
    pub target_dir: String,
}

/// Response of `start_copy_files`.
pub struct StartCopyFilesResponse {
    pub session_id: String,
}

/// Request of `cancel_copy_files`.
pub struct CancelCopyFilesRequest {
    pub session_id: String,
}

/// Response of `cancel_copy_files`.
pub struct CancelCopyFilesResponse {}

/// Request of `reveal_file`.
pub struct RevealFileRequest {
    pub path: String,
}

/// Response of `reveal_file`.
pub struct RevealFileResponse {}

/// Request of `open_with`.
pub struct OpenWithRequest {
    pub path: String,
}

/// Response of `open_with`.
pub struct OpenWithResponse {}

/// Request of `drag_out`.
pub struct DragOutRequest {
    pub paths: Vec<String>,
}

/// Response of `drag_out`.
pub struct DragOutResponse {}

/// Request of `list_recent_folders`.
pub struct ListRecentFoldersRequest {}

/// Request of `record_recent_folder`.
pub struct RecordRecentFolderRequest {
    pub path: String,
}

/// Response of `record_recent_folder`.
pub struct RecordRecentFolderResponse {}

/// Request of `clear_recent_folders`.
pub struct ClearRecentFoldersRequest {}

/// Response of `clear_recent_folders`.
pub struct ClearRecentFoldersResponse {}

/// Request of `list_folder_bookmarks`.
pub struct ListFolderBookmarksRequest {}

/// Request of `change_folder_bookmark`.
pub struct ChangeFolderBookmarkRequest {
    pub path: String,
}

/// Response of `change_folder_bookmark`.
pub struct ChangeFolderBookmarkResponse {}

/// Request of `load_shortcuts`.
pub struct LoadShortcutsRequest {}

/// Request of `reset_shortcuts`.
pub struct ResetShortcutsRequest {}

} // verus!
