//! What goes into the reconciliation loop and what comes out of it: the
//! events and intents that it takes, and the commands that it answers with.

use vstd::prelude::*;
use crate::backend::BackendError;
use crate::models::{opt_text, opt_texts, AppState};

verus! {

/// How long a burst of refresh requests is gathered before the one reload
/// that answers it, in milliseconds.
pub const DEBOUNCE_MS: u32 = 150;

/// The attempt to connect that is under way.
#[derive(Debug)]
pub struct PendingConnect {
    pub ssid: String,
    pub was_saved: bool,
    pub from_password: bool,
}

/// A pending attempt as contracts see it.
pub struct PendingView {
    pub ssid: Seq<char>,
    pub was_saved: bool,
    pub from_password: bool,
}

impl View for PendingConnect {
    type V = PendingView;

    open spec fn view(&self) -> PendingView {
        PendingView { ssid: self.ssid@, was_saved: self.was_saved, from_password: self.from_password }
    }
}

impl Clone for PendingConnect {
    fn clone(&self) -> (res: Self)
        ensures
            res == *self,
    {
        PendingConnect {
            ssid: self.ssid.clone(),
            was_saved: self.was_saved,
            from_password: self.from_password,
        }
    }
}

/// The weight of a status message.
#[derive(Clone, Copy, Debug, PartialEq, Eq, Structural)]
pub enum StatusKind {
    Info,
    Success,
    Error,
}

/// One operation against the service. Each runs in a worker of its own and
/// ends in exactly one completion event.
#[derive(Debug)]
pub enum Operation {
    RequestScan,
    SetRadioEnabled(bool),
    Connect { ssid: String, password: Option<String>, was_saved: bool },
    Disconnect(String),
    ConnectHidden { ssid: String, password: Option<String> },
    ReloadState,
    ForgetProfile(String),
}

/// An operation as contracts see it.
pub enum OperationView {
    RequestScan,
    SetRadioEnabled(bool),
    Connect { ssid: Seq<char>, password: Option<Seq<char>>, was_saved: bool },
    Disconnect(Seq<char>),
    ConnectHidden { ssid: Seq<char>, password: Option<Seq<char>> },
    ReloadState,
    ForgetProfile(Seq<char>),
}

impl View for Operation {
    type V = OperationView;

    open spec fn view(&self) -> OperationView {
        match self {
            Operation::RequestScan => OperationView::RequestScan,
            Operation::SetRadioEnabled(on) => OperationView::SetRadioEnabled(*on),
            Operation::Connect { ssid, password, was_saved } => OperationView::Connect {
                ssid: ssid@,
                password: opt_text(*password),
                was_saved: *was_saved,
            },
            Operation::Disconnect(ssid) => OperationView::Disconnect(ssid@),
            Operation::ConnectHidden { ssid, password } => OperationView::ConnectHidden {
                ssid: ssid@,
                password: opt_text(*password),
            },
            Operation::ReloadState => OperationView::ReloadState,
            Operation::ForgetProfile(ssid) => OperationView::ForgetProfile(ssid@),
        }
    }
}

impl Clone for Operation {
    fn clone(&self) -> (res: Self)
        ensures
            res == *self,
    {
        match self {
            Operation::RequestScan => Operation::RequestScan,
            Operation::SetRadioEnabled(enabled) => Operation::SetRadioEnabled(*enabled),
            Operation::Connect { ssid, password, was_saved } => Operation::Connect {
                ssid: ssid.clone(),
                password: crate::models::clone_opt_string(password),
                was_saved: *was_saved,
            },
            Operation::Disconnect(ssid) => Operation::Disconnect(ssid.clone()),
            Operation::ConnectHidden { ssid, password } => Operation::ConnectHidden {
                ssid: ssid.clone(),
                password: crate::models::clone_opt_string(password),
            },
            Operation::ReloadState => Operation::ReloadState,
            Operation::ForgetProfile(ssid) => Operation::ForgetProfile(ssid.clone()),
        }
    }
}

/// What the loop asks of its surroundings in answer to an event.
#[derive(Debug)]
pub enum Command {
    /// Hand an operation to the dispatcher.
    Dispatch(Operation),
    /// Wait for the given time, then call `debounce_elapsed`.
    ScheduleReload { delay_ms: u32 },
    /// Watch the activation at `path` and report its states for `ssid`.
    Watch { ssid: String, path: String },
    /// Show a status message.
    Status { kind: StatusKind, text: String },
    /// Ask for the password of `ssid`, with `error` shown in the dialog.
    PromptPassword { ssid: String, error: Option<String>, was_saved: bool },
    /// Open the details of the saved network `ssid`.
    ShowDetails(String),
    /// Show `text` as an error in the dialog that is open.
    DialogError(String),
    /// Close the dialog that is open.
    CloseDialog,
    /// Write the settings to the profile of `ssid`, then report what came of
    /// it as `Intent::SettingsSaved`.
    ApplySettings {
        ssid: String,
        ip: Option<String>,
        prefix: Option<u32>,
        gateway: Option<String>,
        dns: Option<Vec<String>>,
        auto_reconnect: bool,
    },
    /// Set the radio switch without taking that for a wish of the user.
    SetToggle(bool),
    /// Show whether work is under way.
    Loading(bool),
    /// Show whether a scan is under way.
    Scanning(bool),
    /// Redraw from the snapshot and the overlay.
    Publish,
}

/// A command as contracts see it.
pub enum CommandView {
    Dispatch(OperationView),
    ScheduleReload { delay_ms: u32 },
    Watch { ssid: Seq<char>, path: Seq<char> },
    Status { kind: StatusKind, text: Seq<char> },
    PromptPassword { ssid: Seq<char>, error: Option<Seq<char>>, was_saved: bool },
    ShowDetails(Seq<char>),
    DialogError(Seq<char>),
    CloseDialog,
    ApplySettings {
        ssid: Seq<char>,
        ip: Option<Seq<char>>,
        prefix: Option<u32>,
        gateway: Option<Seq<char>>,
        dns: Option<Seq<Seq<char>>>,
        auto_reconnect: bool,
    },
    SetToggle(bool),
    Loading(bool),
    Scanning(bool),
    Publish,
}

impl View for Command {
    type V = CommandView;

    open spec fn view(&self) -> CommandView {
        match self {
            Command::Dispatch(op) => CommandView::Dispatch(op@),
            Command::ScheduleReload { delay_ms } => CommandView::ScheduleReload {
                delay_ms: *delay_ms,
            },
            Command::Watch { ssid, path } => CommandView::Watch { ssid: ssid@, path: path@ },
            Command::Status { kind, text } => CommandView::Status { kind: *kind, text: text@ },
            Command::PromptPassword { ssid, error, was_saved } => CommandView::PromptPassword {
                ssid: ssid@,
                error: opt_text(*error),
                was_saved: *was_saved,
            },
            Command::ShowDetails(ssid) => CommandView::ShowDetails(ssid@),
            Command::DialogError(text) => CommandView::DialogError(text@),
            Command::CloseDialog => CommandView::CloseDialog,
            Command::ApplySettings {
                ssid,
                ip,
                prefix,
                gateway,
                dns,
                auto_reconnect,
            } => CommandView::ApplySettings {
                ssid: ssid@,
                ip: opt_text(*ip),
                prefix: *prefix,
                gateway: opt_text(*gateway),
                dns: opt_texts(*dns),
                auto_reconnect: *auto_reconnect,
            },
            Command::SetToggle(on) => CommandView::SetToggle(*on),
            Command::Loading(on) => CommandView::Loading(*on),
            Command::Scanning(on) => CommandView::Scanning(*on),
            Command::Publish => CommandView::Publish,
        }
    }
}

/// The views of a run of commands, in order.
pub open spec fn command_views(commands: Seq<Command>) -> Seq<CommandView> {
    commands.map_values(|c: Command| c@)
}

/// What reaches the loop: the completion of an operation, a state seen by a
/// watcher, or the wish for a refresh.
#[derive(Debug)]
#[allow(inconsistent_fields)]
pub enum UiEvent {
    StateLoaded(Result<AppState, BackendError>),
    ScanDone(Result<(), BackendError>),
    WifiSet { enabled: bool, result: Result<(), BackendError> },
    ConnectDone {
        ssid: String,
        result: Result<Option<String>, BackendError>,
        from_password: bool,
        was_saved: bool,
    },
    DisconnectDone { ssid: String, result: Result<(), BackendError> },
    HiddenDone { ssid: String, result: Result<Option<String>, BackendError> },
    ActiveState { ssid: String, state: u32 },
    CleanupResult { ssid: String, result: Result<(), BackendError> },
    RefreshRequested,
}

/// What the user asks for, as the presentation layer hands it in.
#[derive(Debug)]
#[allow(inconsistent_fields)]
pub enum Intent {
    /// The radio switch was moved.
    ToggleRadio(bool),
    /// A scan was asked for.
    RequestScan,
    /// The button to connect of a row was pressed.
    Connect { ssid: String, is_saved: bool },
    /// The button to disconnect of a row was pressed.
    Disconnect(String),
    /// A row was opened.
    OpenNetwork(String),
    /// The password dialog was confirmed with `text` in its field.
    SubmitPassword { ssid: String, text: String, was_saved: bool },
    /// The dialog for a hidden network was confirmed.
    ConnectHidden { ssid: String, password: String },
    /// The details dialog was confirmed with these fields.
    SaveSettings {
        ssid: String,
        ip_text: String,
        gateway_text: String,
        dns_text: String,
        use_manual: bool,
        auto_reconnect: bool,
    },
    /// The settings were written, with these results for the addresses and
    /// for the flag.
    SettingsSaved { ip_result: Result<(), BackendError>, auto_result: Result<(), BackendError> },
    /// The user had a profile forgotten, with this result.
    ProfileForgotten { ssid: String, result: Result<(), BackendError> },
}

} // verus!
