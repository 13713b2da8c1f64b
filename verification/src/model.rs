//! The application's state: recording status, settings, and the last error
//! and warning, with the transitions that starting, stopping and failing make.

use vstd::prelude::*;

use crate::transcript::opt_text;

verus! {

/// Whether the app is recording.
#[derive(Debug, Clone, Copy, PartialEq, Eq, Structural)]
pub enum TranscriptionStatus {
    Idle,
    Recording,
    StoppedWithError,
}

/// How the input device is chosen.
#[derive(Debug, Clone, Copy, PartialEq, Eq, Structural)]
pub enum InputDeviceMode {
    /// The system's default input device at the time recording starts.
    SystemDefault,
    /// The device with the saved id; no fallback.
    FixedDevice,
}

impl Default for InputDeviceMode {
    fn default() -> (r: InputDeviceMode)
        ensures
            r == InputDeviceMode::SystemDefault,
    {
        InputDeviceMode::SystemDefault
    }
}

/// Copies an optional string.
pub fn copy_opt_string(s: &Option<String>) -> (r: Option<String>)
    ensures
        opt_text(r) == opt_text(*s),
{
    match s {
        Some(v) => Some(v.clone()),
        None => None,
    }
}

/// Speech recognition settings.
#[derive(Debug)]
pub struct TranscriptionSettings {
    /// The recognition locale, such as `ja-JP`; the current locale when absent.
    pub locale_identifier: Option<String>,
}

impl TranscriptionSettings {
    /// A copy with equal fields.
    pub fn duplicate(&self) -> (r: TranscriptionSettings)
        ensures
            opt_text(r.locale_identifier) == opt_text(self.locale_identifier),
    {
        TranscriptionSettings { locale_identifier: copy_opt_string(&self.locale_identifier) }
    }
}

impl Default for TranscriptionSettings {
    fn default() -> (r: TranscriptionSettings)
        ensures
            r.locale_identifier is None,
    {
        TranscriptionSettings { locale_identifier: None }
    }
}

/// An input device as the settings screen lists it.
#[derive(Debug)]
pub struct InputDevice {
    pub id: String,
    pub name: String,
    pub is_default: bool,
}

/// The user's settings.
#[derive(Debug)]
pub struct Settings {
    pub input_device_mode: InputDeviceMode,
    pub input_device_id: Option<String>,
    pub input_device_name: Option<String>,
    pub transcription: TranscriptionSettings,
}

/// The mathematical value of [`Settings`].
pub struct SettingsView {
    pub input_device_mode: InputDeviceMode,
    pub input_device_id: Option<Seq<char>>,
    pub input_device_name: Option<Seq<char>>,
    pub locale_identifier: Option<Seq<char>>,
}

impl View for Settings {
    type V = SettingsView;

    open spec fn view(&self) -> SettingsView {
        SettingsView {
            input_device_mode: self.input_device_mode,
            input_device_id: opt_text(self.input_device_id),
            input_device_name: opt_text(self.input_device_name),
            locale_identifier: opt_text(self.transcription.locale_identifier),
        }
    }
}

/// The settings of a first start: follow the system default input, no
/// device saved, the current locale.
pub open spec fn default_settings() -> SettingsView {
    SettingsView {
        input_device_mode: InputDeviceMode::SystemDefault,
        input_device_id: None,
        input_device_name: None,
        locale_identifier: None,
    }
}

impl Default for Settings {
    fn default() -> (r: Settings)
        ensures
            r@ == default_settings(),
    {
        Settings {
            input_device_mode: InputDeviceMode::SystemDefault,
            input_device_id: None,
            input_device_name: None,
            transcription: TranscriptionSettings { locale_identifier: None },
        }
    }
}

impl Settings {
    /// A copy with equal fields.
    pub fn duplicate(&self) -> (r: Settings)
        ensures
            r@ == self@,
    {
        Settings {
            input_device_mode: self.input_device_mode,
            input_device_id: copy_opt_string(&self.input_device_id),
            input_device_name: copy_opt_string(&self.input_device_name),
            transcription: self.transcription.duplicate(),
        }
    }
}

/// What the window shows.
#[derive(Debug)]
pub struct AppSnapshot {
    pub status: TranscriptionStatus,
    pub settings: Settings,
    pub devices: Vec<InputDevice>,
    pub output_directory: String,
    pub today_markdown_path: String,
    pub today_jsonl_path: String,
    pub last_error: Option<String>,
    pub last_warning: Option<String>,
}

/// The app's state; `R` is the handle of the running transcription task.
pub struct AppModel<R> {
    pub status: TranscriptionStatus,
    pub settings: Settings,
    pub last_error: Option<String>,
    pub last_warning: Option<String>,
    pub runtime: Option<R>,
}

/// The mathematical value of an [`AppModel`].
pub struct AppModelView<R> {
    pub status: TranscriptionStatus,
    pub settings: SettingsView,
    pub last_error: Option<Seq<char>>,
    pub last_warning: Option<Seq<char>>,
    pub runtime: Option<R>,
}

impl<R> View for AppModel<R> {
    type V = AppModelView<R>;

    open spec fn view(&self) -> AppModelView<R> {
        AppModelView {
            status: self.status,
            settings: self.settings@,
            last_error: opt_text(self.last_error),
            last_warning: opt_text(self.last_warning),
            runtime: self.runtime,
        }
    }
}

/// The state when the app comes up.
pub open spec fn initial_model<R>(settings: SettingsView) -> AppModelView<R> {
    AppModelView {
        status: TranscriptionStatus::Idle,
        settings,
        last_error: None,
        last_warning: None,
        runtime: None,
    }
}

/// A start request: ignored while a task runs; otherwise the status becomes
/// `Recording` and the last error is cleared.
pub open spec fn started<R>(m: AppModelView<R>) -> AppModelView<R> {
    if m.runtime is Some {
        m
    } else {
        AppModelView { status: TranscriptionStatus::Recording, last_error: None, ..m }
    }
}

/// The end of a stop request, after the task was taken away: an error stays
/// shown, anything else becomes `Idle`.
pub open spec fn settled<R>(m: AppModelView<R>) -> AppModelView<R> {
    if m.status == TranscriptionStatus::StoppedWithError {
        m
    } else {
        AppModelView { status: TranscriptionStatus::Idle, ..m }
    }
}

/// A failure of the running task: shown as an error, the task is gone.
pub open spec fn errored<R>(m: AppModelView<R>, error: Seq<char>) -> AppModelView<R> {
    AppModelView {
        status: TranscriptionStatus::StoppedWithError,
        last_error: Some(error),
        runtime: None,
        ..m
    }
}

impl<R> AppModel<R> {
    /// The state when the app comes up with `settings`.
    pub fn new(settings: Settings) -> (r: AppModel<R>)
        ensures
            r@ == initial_model::<R>(settings@),
    {
        AppModel { status: TranscriptionStatus::Idle, settings, last_error: None, last_warning: None, runtime: None }
    }

    /// Handles a start request; returns the settings to record with, or `None`
    /// when a task is already running.
    pub fn begin_recording(&mut self) -> (r: Option<Settings>)
        ensures
            final(self)@ == started(old(self)@),
            r is Some <==> old(self).runtime is None,
            r matches Some(s) ==> s@ == old(self)@.settings,
    {
        if self.runtime.is_some() {
            return None;
        }
        self.status = TranscriptionStatus::Recording;
        self.last_error = None;
        Some(self.settings.duplicate())
    }

    /// Keeps the handle of the task that was started.
    pub fn attach_runtime(&mut self, runtime: R)
        ensures
            final(self)@ == (AppModelView { runtime: Some(runtime), ..old(self)@ }),
    {
        self.runtime = Some(runtime);
    }

    /// Takes the handle of the running task away, if any.
    pub fn take_runtime(&mut self) -> (r: Option<R>)
        ensures
            r == old(self).runtime,
            final(self)@ == (AppModelView { runtime: None, ..old(self)@ }),
    {
        let r = self.runtime.take();
        r
    }

    /// Finishes a stop request.
    pub fn settle_after_stop(&mut self)
        ensures
            final(self)@ == settled(old(self)@),
    {
        if self.status != TranscriptionStatus::StoppedWithError {
            self.status = TranscriptionStatus::Idle;
        }
    }

    /// Sets the status and the last error.
    pub fn set_status(&mut self, status: TranscriptionStatus, error: Option<String>)
        ensures
            final(self)@ == (AppModelView { status, last_error: opt_text(error), ..old(self)@ }),
    {
        self.status = status;
        self.last_error = error;
    }

    /// Records a failure of the running task.
    pub fn record_error(&mut self, error: String)
        ensures
            final(self)@ == errored(old(self)@, error@),
    {
        self.status = TranscriptionStatus::StoppedWithError;
        self.last_error = Some(error);
        self.runtime = None;
    }

    /// Records a warning.
    pub fn record_warning(&mut self, warning: String)
        ensures
            final(self)@ == (AppModelView { last_warning: Some(warning@), ..old(self)@ }),
    {
        self.last_warning = Some(warning);
    }

    /// Replaces the settings.
    pub fn replace_settings(&mut self, settings: Settings)
        ensures
            final(self)@ == (AppModelView { settings: settings@, ..old(self)@ }),
    {
        self.settings = settings;
    }

    /// What the window shows, with the devices and paths given.
    pub fn snapshot(
        &self,
        devices: Vec<InputDevice>,
        output_directory: String,
        today_markdown_path: String,
        today_jsonl_path: String,
    ) -> (r: AppSnapshot)
        ensures
            r.status == self.status,
            r.settings@ == self.settings@,
            r.devices@ == devices@,
            r.output_directory@ == output_directory@,
            r.today_markdown_path@ == today_markdown_path@,
            r.today_jsonl_path@ == today_jsonl_path@,
            opt_text(r.last_error) == opt_text(self.last_error),
            opt_text(r.last_warning) == opt_text(self.last_warning),
    {
        AppSnapshot {
            status: self.status,
            settings: self.settings.duplicate(),
            devices,
            output_directory,
            today_markdown_path,
            today_jsonl_path,
            last_error: copy_opt_string(&self.last_error),
            last_warning: copy_opt_string(&self.last_warning),
        }
    }
}

/// A start request while a task runs changes nothing.
pub proof fn lemma_start_while_running_is_ignored<R>(m: AppModelView<R>)
    requires
        m.runtime is Some,
    ensures
        started(m) == m,
{
}

/// Starting and then stopping without a failure leaves the app idle with no error.
pub proof fn lemma_start_then_stop_is_idle<R>(m: AppModelView<R>, task: R)
    requires
        m.runtime is None,
    ensures
        ({
            let running = AppModelView { runtime: Some(task), ..started(m) };
            let stopped = settled(AppModelView { runtime: None, ..running });
            stopped.status == TranscriptionStatus::Idle && stopped.last_error is None && stopped.runtime is None
                && stopped.settings == m.settings
        }),
{
}

/// A failure stays shown through a later stop request, with its message.
pub proof fn lemma_error_survives_stop<R>(m: AppModelView<R>, error: Seq<char>)
    ensures
        ({
            let failed = errored(m, error);
            let stopped = settled(AppModelView { runtime: None, ..failed });
            stopped.status == TranscriptionStatus::StoppedWithError && stopped.last_error == Some(error)
        }),
{
}

/// After a failure a start request is accepted again.
pub proof fn lemma_start_after_error<R>(m: AppModelView<R>, error: Seq<char>)
    ensures
        started(errored(m, error)).status == TranscriptionStatus::Recording,
        started(errored(m, error)).last_error is None,
{
}

} // verus!
