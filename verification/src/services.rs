//! Application services the command layer drives: the in-memory services
//! used to exercise it, and the decisions the native services make around
//! their background work.
use vstd::prelude::*;

use crate::commands::{
    append_chars, category_text, code_text, decimal, decimal_chars, from_application_error,
    ApplicationError, BoundaryError, DeviceInfoData, DiagnosticCode, ErrorCategory,
};
use crate::paths::{same_path, same_path_spec};
use crate::roots::BrowserRootData;
use crate::sessions::{ActiveCopies, ActiveEnumerations, CancelFlag};
use crate::text::{chars_equal, chars_of, string_of};

verus! {

/// The texts of a device: its id and its name.
pub open spec fn device_view(d: DeviceInfoData) -> (Seq<char>, Seq<char>) {
    (d.id@, d.name@)
}

/// A copy of a device description.
pub fn copy_device(d: &DeviceInfoData) -> (copy: DeviceInfoData)
    ensures
        device_view(copy) == device_view(*d),
{
    DeviceInfoData { id: d.id.clone(), name: d.name.clone() }
}

fn copy_devices(devices: &Vec<DeviceInfoData>) -> (copy: Vec<DeviceInfoData>)
    ensures
        copy@.len() == devices@.len(),
        forall|i: int| 0 <= i < devices@.len() ==> device_view(#[trigger] copy@[i]) == device_view(devices@[i]),
{
    let mut out: Vec<DeviceInfoData> = Vec::new();
    let mut i: usize = 0;
    while i < devices.len()
        invariant
            i <= devices.len(),
            out@.len() == i,
            forall|k: int| 0 <= k < i ==> device_view(#[trigger] out@[k]) == device_view(devices@[k]),
        decreases devices.len() - i,
    {
        out.push(copy_device(&devices[i]));
        i = i + 1;
    }
    out
}

/// In-memory audio device service: two outputs, the first one current.
pub struct FakeAudioDeviceService {
    pub devices: Vec<DeviceInfoData>,
    pub current: Option<DeviceInfoData>,
    pub device_lost: bool,
    pub fail_list: bool,
    pub fail_current: bool,
    pub fail_select: bool,
    pub select_call_count: u64,
    pub last_select_id: Option<String>,
}

/// The error the fake device service fails with.
pub open spec fn is_device_error(e: ApplicationError) -> bool {
    e.category == ErrorCategory::Unavailable && e.code == DiagnosticCode::AudioOutput
}

impl FakeAudioDeviceService {
    /// A service offering "Default Output" (current) and "HDMI Output".
    pub fn new() -> (service: Self)
        ensures
            service.devices@.len() == 2,
            device_view(service.devices@[0]) == ("default"@, "Default Output"@),
            device_view(service.devices@[1]) == ("hdmi"@, "HDMI Output"@),
            service.current matches Some(d) && device_view(d) == ("default"@, "Default Output"@),
            !service.device_lost && !service.fail_list && !service.fail_current
                && !service.fail_select,
            service.select_call_count == 0,
            service.last_select_id is None,
    {
        let mut devices: Vec<DeviceInfoData> = Vec::new();
        devices.push(
            DeviceInfoData {
                id: String::from_str("default"),
                name: String::from_str("Default Output"),
            },
        );
        devices.push(
            DeviceInfoData { id: String::from_str("hdmi"), name: String::from_str("HDMI Output") },
        );
        FakeAudioDeviceService {
            devices,
            current: Some(
                DeviceInfoData {
                    id: String::from_str("default"),
                    name: String::from_str("Default Output"),
                },
            ),
            device_lost: false,
            fail_list: false,
            fail_current: false,
            fail_select: false,
            select_call_count: 0,
            last_select_id: None,
        }
    }

    fn make_error() -> (error: ApplicationError)
        ensures
            is_device_error(error),
    {
        ApplicationError::new(
            ErrorCategory::Unavailable,
            DiagnosticCode::AudioOutput,
            "fake device error",
        )
    }

    /// All devices, or the configured failure.
    pub fn list_devices(&self) -> (result: Result<Vec<DeviceInfoData>, ApplicationError>)
        ensures
            self.fail_list ==> (result matches Err(e) && is_device_error(e)),
            !self.fail_list ==> (result matches Ok(list) && list@.len() == self.devices@.len()
                && forall|i: int|
                0 <= i < list@.len() ==> device_view(#[trigger] list@[i]) == device_view(
                    self.devices@[i],
                )),
    {
        if self.fail_list {
            return Err(Self::make_error());
        }
        Ok(copy_devices(&self.devices))
    }

    /// The current device, or the configured failure.
    pub fn current_device(&self) -> (result: Result<Option<DeviceInfoData>, ApplicationError>)
        ensures
            self.fail_current ==> (result matches Err(e) && is_device_error(e)),
            !self.fail_current ==> (result matches Ok(current) && (match (current, self.current) {
                (Some(a), Some(b)) => device_view(a) == device_view(b),
                (None, None) => true,
                _ => false,
            })),
    {
        if self.fail_current {
            return Err(Self::make_error());
        }
        match &self.current {
            Some(d) => Ok(Some(copy_device(d))),
            None => Ok(None),
        }
    }

    /// Records the selection; unless configured to fail, the first device
    /// with that id becomes current (an unknown id changes nothing).
    pub fn select_device(&mut self, device_id: &str) -> (result: Result<(), ApplicationError>)
        requires
            old(self).select_call_count < u64::MAX,
        ensures
            final(self).select_call_count == old(self).select_call_count + 1,
            final(self).last_select_id matches Some(id) && id@ == device_id@,
            final(self).devices@ == old(self).devices@,
            old(self).fail_select ==> (result matches Err(e) && is_device_error(e)),
            old(self).fail_select ==> final(self).current == old(self).current,
            !old(self).fail_select ==> result is Ok,
            !old(self).fail_select && (exists|i: int|
                0 <= i < old(self).devices@.len() && old(self).devices@[i].id@ == device_id@)
                ==> {
                let i = choose|i: int|
                    0 <= i < old(self).devices@.len() && old(self).devices@[i].id@ == device_id@
                        && forall|k: int| 0 <= k < i ==> old(self).devices@[k].id@ != device_id@;
                final(self).current matches Some(d) && device_view(d) == device_view(
                    old(self).devices@[i],
                )
            },
            !old(self).fail_select && !(exists|i: int|
                0 <= i < old(self).devices@.len() && old(self).devices@[i].id@ == device_id@)
                ==> final(self).current == old(self).current,
    {
        self.select_call_count = self.select_call_count + 1;
        self.last_select_id = Some(String::from_str(device_id));
        if self.fail_select {
            return Err(Self::make_error());
        }
        let wanted = chars_of(device_id);
        let mut i: usize = 0;
        while i < self.devices.len()
            invariant
                i <= self.devices@.len(),
                wanted@ == device_id@,
                !self.fail_select,
                self.fail_select == old(self).fail_select,
                self.select_call_count == old(self).select_call_count + 1,
                self.last_select_id matches Some(id) && id@ == device_id@,
                self.devices@ == old(self).devices@,
                self.current == old(self).current,
                forall|k: int| 0 <= k < i ==> self.devices@[k].id@ != device_id@,
            decreases self.devices.len() - i,
        {
            if chars_equal(&chars_of(self.devices[i].id.as_str()), &wanted) {
                let found = copy_device(&self.devices[i]);
                self.current = Some(found);
                return Ok(());
            }
            i = i + 1;
        }
        Ok(())
    }

    /// Whether the active device was lost.
    pub fn is_device_lost(&self) -> (result: bool)
        ensures
            result == self.device_lost,
    {
        self.device_lost
    }
}

/// The error the fake folder services fail with.
pub open spec fn is_browser_unavailable(e: ApplicationError) -> bool {
    e.category == ErrorCategory::Unavailable && e.code == DiagnosticCode::BrowserRead
}

/// In-memory file watcher that records its calls.
pub struct FakeFileWatcherService {
    pub watch_calls: Vec<String>,
    pub stop_calls: usize,
    pub fail_watch: bool,
    pub watched: Option<String>,
}

impl FakeFileWatcherService {
    /// A watcher that has watched nothing.
    pub fn new() -> (watcher: Self)
        ensures
            watcher.watch_calls@.len() == 0,
            watcher.stop_calls == 0,
            !watcher.fail_watch,
            watcher.watched is None,
    {
        FakeFileWatcherService {
            watch_calls: Vec::new(),
            stop_calls: 0,
            fail_watch: false,
            watched: None,
        }
    }

    /// Watches `path`, replacing the folder watched before; fails when
    /// configured to.
    pub fn start_watching(&mut self, path: &str) -> (result: Result<(), ApplicationError>)
        ensures
            old(self).fail_watch ==> (result matches Err(e) && is_browser_unavailable(e))
                && final(self).watch_calls@ == old(self).watch_calls@ && final(self).watched
                == old(self).watched,
            !old(self).fail_watch ==> result is Ok && final(self).watch_calls@.len()
                == old(self).watch_calls@.len() + 1 && final(self).watch_calls@.drop_last()
                == old(self).watch_calls@ && final(self).watch_calls@.last()@ == path@ && (
            final(self).watched matches Some(w) && w@ == path@),
            final(self).stop_calls == old(self).stop_calls,
            final(self).fail_watch == old(self).fail_watch,
    {
        if self.fail_watch {
            return Err(
                ApplicationError::new(
                    ErrorCategory::Unavailable,
                    DiagnosticCode::BrowserRead,
                    "fake file watcher failure",
                ),
            );
        }
        let ghost before = self.watch_calls@;
        self.watch_calls.push(String::from_str(path));
        assert(self.watch_calls@.drop_last() =~= before);
        self.watched = Some(String::from_str(path));
        Ok(())
    }

    /// Stops watching.
    pub fn stop_watching(&mut self) -> (result: Result<(), ApplicationError>)
        requires
            old(self).stop_calls < usize::MAX,
        ensures
            result is Ok,
            final(self).stop_calls == old(self).stop_calls + 1,
            final(self).watched is None,
            final(self).watch_calls@ == old(self).watch_calls@,
            final(self).fail_watch == old(self).fail_watch,
    {
        self.stop_calls = self.stop_calls + 1;
        self.watched = None;
        Ok(())
    }

    /// The folder being watched.
    pub fn watched_path(&self) -> (result: Option<String>)
        ensures
            match (result, self.watched) {
                (Some(a), Some(b)) => a@ == b@,
                (None, None) => true,
                _ => false,
            },
    {
        match &self.watched {
            Some(w) => Some(w.clone()),
            None => None,
        }
    }
}

/// A native folder picker: `Ok(Some(path))` when the user selects a folder,
/// `Ok(None)` when the user cancels, an error when the dialog fails.
pub trait FolderPicker {
    fn pick_folder(&self) -> Result<Option<String>, ApplicationError>;
}

/// A folder picker that answers with a configured outcome, without a dialog.
pub struct FakeFolderPicker {
    pub outcome: Result<Option<String>, ApplicationError>,
}

/// The texts of a picker outcome.
pub open spec fn outcome_view(outcome: Result<Option<String>, ApplicationError>) -> Result<Option<Seq<char>>, (ErrorCategory, DiagnosticCode, Seq<char>)> {
    match outcome {
        Ok(Some(path)) => Ok(Some(path@)),
        Ok(None) => Ok(None),
        Err(e) => Err((e.category, e.code, e.message@)),
    }
}

impl FakeFolderPicker {
    /// A picker that selects `path`, or cancels when it is `None`.
    pub fn returning(path: Option<&str>) -> (picker: Self)
        ensures
            outcome_view(picker.outcome) == (match path {
                Some(p) => Ok(Some(p@)),
                None => Ok::<Option<Seq<char>>, (ErrorCategory, DiagnosticCode, Seq<char>)>(None),
            }),
    {
        match path {
            Some(p) => FakeFolderPicker { outcome: Ok(Some(String::from_str(p))) },
            None => FakeFolderPicker { outcome: Ok(None) },
        }
    }

    /// A picker whose dialog fails with a permission error.
    pub fn failing() -> (picker: Self)
        ensures
            outcome_view(picker.outcome) == Err::<Option<Seq<char>>, (ErrorCategory, DiagnosticCode, Seq<char>)>((
                ErrorCategory::PermissionDenied,
                DiagnosticCode::BrowserRead,
                "PulseSeek could not access that item."@,
            )),
    {
        FakeFolderPicker {
            outcome: Err(
                ApplicationError::new(
                    ErrorCategory::PermissionDenied,
                    DiagnosticCode::BrowserRead,
                    "PulseSeek could not access that item.",
                ),
            ),
        }
    }
}

impl FolderPicker for FakeFolderPicker {
    fn pick_folder(&self) -> (result: Result<Option<String>, ApplicationError>)
        ensures
            outcome_view(result) == outcome_view(self.outcome),
    {
        match &self.outcome {
            Ok(Some(path)) => Ok(Some(path.clone())),
            Ok(None) => Ok(None),
            Err(e) => Err(ApplicationError::new(e.category, e.code, e.message.as_str())),
        }
    }
}

/// The boundary's answer to a picker outcome: the selection, or no
/// selection, or the error as a boundary error.
pub fn pick_folder_response(outcome: Result<Option<String>, ApplicationError>) -> (result: Result<Option<String>, BoundaryError>)
    ensures
        outcome matches Ok(Some(path)) ==> (result matches Ok(Some(p)) && p@ == path@),
        outcome matches Ok(None) ==> (result matches Ok(None)),
        outcome matches Err(e) ==> (result matches Err(b) && b.category@ == category_text(e.category)
            && b.message@ == e.message@ && b.diagnostic_code@ == code_text(e.code)),
{
    match outcome {
        Ok(path) => Ok(path),
        Err(error) => Err(from_application_error(&error)),
    }
}

/// Handles the `pick_folder` command: asks the picker, and answers as
/// [`pick_folder_response`] does with what it returned.
pub fn handle_pick_folder<P: FolderPicker>(picker: &P) -> (result: Result<Option<String>, BoundaryError>)
    ensures
        result matches Err(b) ==> exists|c: ErrorCategory, d: DiagnosticCode|
            b.category@ == #[trigger] category_text(c) && b.diagnostic_code@ == #[trigger] code_text(d),
{
    pick_folder_response(picker.pick_folder())
}

/// In-memory folder enumeration service that records its calls.
pub struct FakeFolderEnumerationService {
    pub roots: Vec<BrowserRootData>,
    pub start_call_count: u64,
    pub last_path: Option<String>,
    pub last_batch_size: Option<usize>,
    pub last_show_unsupported: Option<bool>,
    pub last_recursive: Option<bool>,
    pub fail_start: bool,
    pub next_session_id: String,
}

impl Default for FakeFolderEnumerationService {
    /// The same service as [`FakeFolderEnumerationService::new`].
    fn default() -> (service: Self)
        ensures
            service.roots@.len() == 1,
            service.roots@[0].path@.len() == 1,
            service.roots@[0].name@ == "System"@,
            service.start_call_count == 0,
            service.last_path is None,
            !service.fail_start,
            service.next_session_id@ == "test-session-001"@,
    {
        FakeFolderEnumerationService::new()
    }
}

/// The separator of path components on this platform:
/// `std::path::MAIN_SEPARATOR`. Nothing is claimed of which character it is.
#[verifier::external_body]
fn main_separator() -> (separator: char) {
    std::path::MAIN_SEPARATOR
}

impl FakeFolderEnumerationService {
    /// A service offering the filesystem root of this platform (its
    /// separator alone), whose enumerations get the session id
    /// "test-session-001".
    pub fn new() -> (service: Self)
        ensures
            service.roots@.len() == 1,
            service.roots@[0].path@.len() == 1,
            service.roots@[0].name@ == "System"@,
            service.start_call_count == 0,
            service.last_path is None,
            service.last_batch_size is None,
            service.last_show_unsupported is None,
            service.last_recursive is None,
            !service.fail_start,
            service.next_session_id@ == "test-session-001"@,
    {
        Self::with_separator(main_separator())
    }

    /// A service offering the filesystem root whose path is `separator`
    /// alone, whose enumerations get the session id "test-session-001".
    pub fn with_separator(separator: char) -> (service: Self)
        ensures
            service.roots@.len() == 1,
            service.roots@[0].path@ == seq![separator],
            service.roots@[0].name@ == "System"@,
            service.start_call_count == 0,
            service.last_path is None,
            service.last_batch_size is None,
            service.last_show_unsupported is None,
            service.last_recursive is None,
            !service.fail_start,
            service.next_session_id@ == "test-session-001"@,
    {
        let mut separator_text: Vec<char> = Vec::new();
        separator_text.push(separator);
        let mut roots: Vec<BrowserRootData> = Vec::new();
        roots.push(
            BrowserRootData {
                path: string_of(&separator_text),
                name: String::from_str("System"),
                kind: crate::roots::BrowserRootKind::System,
            },
        );
        FakeFolderEnumerationService {
            roots,
            start_call_count: 0,
            last_path: None,
            last_batch_size: None,
            last_show_unsupported: None,
            last_recursive: None,
            fail_start: false,
            next_session_id: String::from_str("test-session-001"),
        }
    }

    /// Records the request; fails when configured to, otherwise returns the
    /// configured session id.
    pub fn start_enumeration(
        &mut self,
        path: &str,
        batch_size: usize,
        show_unsupported: bool,
        recursive: bool,
    ) -> (result: Result<String, ApplicationError>)
        requires
            old(self).start_call_count < u64::MAX,
        ensures
            final(self).start_call_count == old(self).start_call_count + 1,
            final(self).last_path matches Some(p) && p@ == path@,
            final(self).last_batch_size == Some(batch_size),
            final(self).last_show_unsupported == Some(show_unsupported),
            final(self).last_recursive == Some(recursive),
            final(self).fail_start == old(self).fail_start,
            final(self).next_session_id@ == old(self).next_session_id@,
            old(self).fail_start ==> (result matches Err(e) && is_browser_unavailable(e)),
            !old(self).fail_start ==> (result matches Ok(id) && id@ == old(self).next_session_id@),
    {
        self.start_call_count = self.start_call_count + 1;
        self.last_path = Some(String::from_str(path));
        self.last_batch_size = Some(batch_size);
        self.last_show_unsupported = Some(show_unsupported);
        self.last_recursive = Some(recursive);
        if self.fail_start {
            return Err(
                ApplicationError::new(
                    ErrorCategory::Unavailable,
                    DiagnosticCode::BrowserRead,
                    "fake enumeration error",
                ),
            );
        }
        Ok(self.next_session_id.clone())
    }
}

/// A session id: the prefix followed by the decimal session number.
pub fn session_id(prefix: &str, number: u64) -> (id: String)
    ensures
        id@ == prefix@ + decimal(number as nat),
{
    let mut text = chars_of(prefix);
    append_chars(&mut text, &decimal_chars(number));
    string_of(&text)
}

/// Whether starting an enumeration of `path` must not watch it: the
/// filesystem root (the separator alone) and the home folder (compared as a
/// path, see [`same_path`]) are never watched.
pub fn should_skip_recursive_watch(path: &str, separator: char, home: Option<&str>) -> (skip: bool)
    ensures
        skip == (path@ == seq![separator] || (home matches Some(h) && same_path_spec(h@, path@, separator))),
{
    let text = chars_of(path);
    let mut root: Vec<char> = Vec::new();
    root.push(separator);
    if chars_equal(&text, &root) {
        return true;
    }
    match home {
        Some(h) => same_path(h, path, separator),
        None => false,
    }
}

/// Checks the batch size of an enumeration before a worker starts.
pub fn validate_batch_size(batch_size: usize) -> (result: Result<(), ApplicationError>)
    ensures
        batch_size == 0 <==> result is Err,
        result matches Err(e) ==> e.category == ErrorCategory::InvalidInput && e.code
            == DiagnosticCode::BrowserRead,
{
    if batch_size == 0 {
        return Err(
            ApplicationError::new(
                ErrorCategory::InvalidInput,
                DiagnosticCode::BrowserRead,
                "batch size must be greater than zero",
            ),
        );
    }
    Ok(())
}

/// What starting an enumeration does with the folder watcher.
#[derive(Clone, Copy, Debug, PartialEq, Eq, Structural)]
pub enum WatchStep {
    /// Watch the folder, once the watcher is free, if request `generation`
    /// is then still the latest.
    Watch { generation: u64 },
    /// Stop watching, if request `generation` is then still the latest: the
    /// filesystem root and the home folder are never watched.
    Stop { generation: u64 },
}

/// The first steps of an enumeration of `path` once it was found to be a
/// folder: a zero batch size is refused and nothing else happens.
/// Otherwise, when a watcher runs, a new watch request is started, to watch
/// the folder or, for the root or the home folder, to stop watching; then
/// the enumeration is registered as session "folder-<number>", whose id and
/// fresh, unset cancel flag are returned with the watch step.
pub fn begin_enumeration(
    path: &str,
    separator: char,
    home: Option<&str>,
    batch_size: usize,
    number: u64,
    watching: bool,
    watches: &mut WatchRequests,
    active: &mut ActiveEnumerations,
) -> (result: Result<(String, CancelFlag, Option<WatchStep>), ApplicationError>)
    requires
        old(active).inv(),
        watching ==> old(watches).latest() < u64::MAX,
    ensures
        final(active).inv(),
        batch_size == 0 <==> result is Err,
        result matches Err(e) ==> e.category == ErrorCategory::InvalidInput && e.code == DiagnosticCode::BrowserRead
            && final(active)@ == old(active)@ && final(watches).latest() == old(watches).latest(),
        result matches Ok((id, flag, step)) ==> {
            &&& id@ == "folder-"@ + decimal(number as nat)
            &&& flag@ == old(active)@.flags.len()
            &&& final(active)@.flags == old(active)@.flags.push(false)
            &&& final(active)@.sessions == old(active)@.sessions.insert(id@, old(active)@.flags.len())
            &&& !watching ==> step is None && final(watches).latest() == old(watches).latest()
            &&& watching ==> final(watches).latest() == old(watches).latest() + 1 && step == Some(
                if path@ == seq![separator] || (home matches Some(h) && same_path_spec(h@, path@, separator)) {
                    WatchStep::Stop { generation: final(watches).latest() }
                } else {
                    WatchStep::Watch { generation: final(watches).latest() }
                },
            )
        },
{
    if let Err(e) = validate_batch_size(batch_size) {
        return Err(e);
    }
    let step = if watching {
        let generation = watches.begin();
        if should_skip_recursive_watch(path, separator, home) {
            Some(WatchStep::Stop { generation })
        } else {
            Some(WatchStep::Watch { generation })
        }
    } else {
        None
    };
    let id = session_id("folder-", number);
    let flag = active.register(id.as_str());
    Ok((id, flag, step))
}

/// Checks a copy request before a worker starts: at least one file.
pub fn validate_copy_request(path_count: usize) -> (result: Result<(), ApplicationError>)
    ensures
        path_count == 0 <==> result is Err,
        result matches Err(e) ==> e.category == ErrorCategory::InvalidInput && e.code
            == DiagnosticCode::FileOperation,
{
    if path_count == 0 {
        return Err(
            ApplicationError::new(
                ErrorCategory::InvalidInput,
                DiagnosticCode::FileOperation,
                "no files selected for copy",
            ),
        );
    }
    Ok(())
}

/// The first steps of a copy request once its target folder was found: an
/// empty selection is refused and nothing is registered; otherwise the batch
/// is registered as session "copy-<number>", whose id and fresh, unset
/// cancel flag are returned.
pub fn begin_copy(path_count: usize, number: u64, active: &mut ActiveCopies) -> (result: Result<(String, CancelFlag), ApplicationError>)
    requires
        old(active).inv(),
    ensures
        final(active).inv(),
        path_count == 0 <==> result is Err,
        result matches Err(e) ==> e.category == ErrorCategory::InvalidInput && e.code
            == DiagnosticCode::FileOperation && final(active)@ == old(active)@,
        result matches Ok((id, flag)) ==> {
            &&& id@ == "copy-"@ + decimal(number as nat)
            &&& flag@ == old(active)@.flags.len()
            &&& final(active)@.flags == old(active)@.flags.push(false)
            &&& final(active)@.sessions == old(active)@.sessions.insert(id@, old(active)@.flags.len())
        },
{
    match validate_copy_request(path_count) {
        Err(e) => Err(e),
        Ok(()) => {
            let id = session_id("copy-", number);
            let flag = active.register(id.as_str());
            Ok((id, flag))
        },
    }
}

/// One progress report of a copy batch.
#[derive(Clone, Copy, Debug, PartialEq, Eq, Structural)]
pub struct CopyProgress {
    pub completed: usize,
    pub total: usize,
    pub done: bool,
    /// Whether the report carries the results of the whole batch.
    pub with_results: bool,
}

/// The report after item `index` of `total`: done on the last item, which
/// alone carries all results; an empty batch still reports once, done.
pub fn copy_progress(index: usize, total: usize) -> (progress: CopyProgress)
    requires
        index < total,
    ensures
        progress == (CopyProgress {
            completed: (index + 1) as usize,
            total,
            done: index + 1 == total,
            with_results: index + 1 == total,
        }),
{
    CopyProgress { completed: index + 1, total, done: index + 1 == total, with_results: index + 1 == total }
}

/// The single report of an empty copy batch.
pub fn empty_copy_progress() -> (progress: CopyProgress)
    ensures
        progress == (CopyProgress { completed: 0, total: 0, done: true, with_results: false }),
{
    CopyProgress { completed: 0, total: 0, done: true, with_results: false }
}

/// The reports a copy batch of `total` files emits, in order: one after each
/// file, the last one done and carrying all results; an empty batch still
/// emits one report, done, so the frontend leaves its progress state.
pub fn copy_progress_plan(total: usize) -> (plan: Vec<CopyProgress>)
    ensures
        total == 0 ==> plan@ == seq![CopyProgress { completed: 0, total: 0, done: true, with_results: false }],
        total > 0 ==> plan@.len() == total && forall|k: int| 0 <= k < total ==> #[trigger] plan@[k] == (CopyProgress {
            completed: (k + 1) as usize,
            total,
            done: k + 1 == total,
            with_results: k + 1 == total,
        }),
{
    let mut plan: Vec<CopyProgress> = Vec::new();
    if total == 0 {
        plan.push(empty_copy_progress());
        return plan;
    }
    let mut index: usize = 0;
    while index < total
        invariant
            index <= total,
            plan@.len() == index,
            forall|k: int| 0 <= k < index ==> #[trigger] plan@[k] == (CopyProgress {
                completed: (k + 1) as usize,
                total,
                done: k + 1 == total,
                with_results: k + 1 == total,
            }),
        decreases total - index,
    {
        plan.push(copy_progress(index, total));
        index = index + 1;
    }
    plan
}

/// The outcome of copying one file, as the boundary reports it.
#[derive(Debug)]
pub struct CopyItemResult {
    pub path: String,
    pub new_path: Option<String>,
    pub ok: bool,
    pub category: Option<String>,
    pub message: Option<String>,
    pub diagnostic_code: Option<String>,
}

/// Reports the outcome of copying `path`: where the copy went, or the error.
pub fn copy_item_result(path: String, outcome: &Result<String, ApplicationError>) -> (result: CopyItemResult)
    ensures
        result.path@ == path@,
        result.ok == outcome is Ok,
        outcome matches Ok(new_path) ==> (result.new_path matches Some(p) && p@ == new_path@)
            && result.category is None && result.message is None && result.diagnostic_code is None,
        outcome matches Err(e) ==> result.new_path is None && (result.category matches Some(c) && c@
            == category_text(e.category)) && (result.message matches Some(m) && m@ == e.message@) && (
        result.diagnostic_code matches Some(d) && d@ == code_text(e.code)),
{
    match outcome {
        Ok(new_path) => CopyItemResult {
            path,
            new_path: Some(new_path.clone()),
            ok: true,
            category: None,
            message: None,
            diagnostic_code: None,
        },
        Err(e) => {
            let boundary = from_application_error(e);
            CopyItemResult {
                path,
                new_path: None,
                ok: false,
                category: Some(boundary.category),
                message: Some(boundary.message),
                diagnostic_code: Some(boundary.diagnostic_code),
            }
        },
    }
}

/// Which folder-watch request is the latest: only the latest may replace
/// the active watch, so a stale request queued behind a newer navigation
/// never moves the watcher back.
pub struct WatchRequests {
    latest: u64,
}

impl WatchRequests {
    /// The number of the latest request.
    pub closed spec fn latest(&self) -> u64 {
        self.latest
    }

    /// No request yet.
    pub fn new() -> (requests: Self)
        ensures
            requests.latest() == 0,
    {
        WatchRequests { latest: 0 }
    }

    /// Starts a request and returns its number.
    pub fn begin(&mut self) -> (generation: u64)
        requires
            old(self).latest() < u64::MAX,
        ensures
            generation == old(self).latest() + 1,
            final(self).latest() == generation,
    {
        self.latest = self.latest + 1;
        self.latest
    }

    /// Whether request `generation` is still the latest.
    pub fn is_latest(&self, generation: u64) -> (latest: bool)
        ensures
            latest == (generation == self.latest()),
    {
        generation == self.latest
    }
}

} // verus!
