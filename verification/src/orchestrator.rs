//! The reconciliation loop: the one place where the confirmed snapshot and
//! the overlay of what is still in flight are changed. It takes one event or
//! one intent at a time and answers with the commands that follow from it.
//! It makes no call to the service itself: the commands say what is to be
//! done.

use vstd::prelude::*;
use vstd::string::*;
use crate::backend::{debug_string, BackendError};
use crate::events::{
    command_views, Command, CommandView, Intent, Operation, PendingConnect, PendingView,
    StatusKind, UiEvent, DEBOUNCE_MS,
};
use crate::inputs::parse_network_inputs;
use crate::messages::{connect_error_message, friendly_error, needs_password};
use crate::transitions::{
    accept, after_stop, confirms, fallback_view, first_named, follow_activation, is_saved,
    is_secured, on_active_state, on_activated, on_cleanup_result, on_connect_done,
    on_connect_hidden, on_deactivated, on_debounce_elapsed, on_disconnect_done, on_hidden_done,
    on_open_network, on_profile_forgotten, on_refresh_requested, on_save_settings, on_scan_done,
    on_settings_saved, on_state_loaded, on_wifi_set, run, shows_connected, started, step,
    OrchestratorView,
};
use crate::models::{network_views, opt_text, AppState, Network, NetworkAction};
use crate::ssid_set::SsidSet;
use crate::text::{chars_of, str_eq, trim_range, trimmed};
use crate::watcher::{STATE_ACTIVATED, STATE_DEACTIVATED};

verus! {

/// Counts the operations that are under way, for the spinner.
#[derive(Clone, Copy, Debug)]
pub struct LoadingTracker {
    active: u32,
}

impl LoadingTracker {
    /// How many operations are under way.
    pub closed spec fn count(&self) -> nat {
        self.active as nat
    }

    /// A tracker with nothing under way.
    pub fn new() -> (tracker: Self)
        ensures
            tracker.count() == 0,
    {
        LoadingTracker { active: 0 }
    }

    /// One more operation is under way. The count stays at its top once
    /// there.
    pub fn start(&mut self)
        ensures
            final(self).count() == if old(self).count() < u32::MAX {
                old(self).count() + 1
            } else {
                old(self).count()
            },
    {
        self.active = if self.active < u32::MAX {
            self.active + 1
        } else {
            self.active
        };
    }

    /// One operation has ended. The count does not fall below zero.
    pub fn stop(&mut self)
        ensures
            final(self).count() == if old(self).count() > 0 {
                (old(self).count() - 1) as nat
            } else {
                0
            },
    {
        self.active = if self.active > 0 {
            self.active - 1
        } else {
            0
        };
    }

    /// Whether anything is under way.
    pub fn is_active(&self) -> (r: bool)
        ensures
            r == (self.count() > 0),
    {
        self.active > 0
    }
}

/// The snapshot to show when the service cannot be reached.
pub fn fallback_state(_error: BackendError) -> (state: AppState)
    ensures
        state@ == fallback_view(),
        state.well_formed(),
{
    let state = AppState { wifi_enabled: false, networks: Vec::new() };
    assert(state@.networks =~= Seq::empty());
    state
}

/// `a` followed by `b`.
fn join(a: &str, b: &str) -> (r: String)
    ensures
        r@ == a@ + b@,
{
    let mut r = a.to_string();
    r.append(b);
    r
}

/// Adds a command at the end.
fn emit(commands: &mut Vec<Command>, command: Command)
    ensures
        command_views(final(commands)@) == command_views(old(commands)@).push(command@),
{
    commands.push(command);
    assert(command_views(commands@) =~= command_views(old(commands)@).push(command@));
}

/// No commands.
fn no_commands() -> (commands: Vec<Command>)
    ensures
        command_views(commands@) == Seq::<CommandView>::empty(),
{
    let commands: Vec<Command> = Vec::new();
    assert(command_views(commands@) =~= Seq::<CommandView>::empty());
    commands
}

/// Whether some network offers to disconnect.
fn any_connected(networks: &Vec<Network>) -> (r: bool)
    ensures
        r == shows_connected(network_views(networks@)),
{
    let ghost views = network_views(networks@);
    let mut i: usize = 0;
    while i < networks.len()
        invariant
            i <= networks.len(),
            views == network_views(networks@),
            forall|j: int| 0 <= j < i ==> (#[trigger] views[j]).action != NetworkAction::Disconnect,
        decreases networks.len() - i,
    {
        if networks[i].action == NetworkAction::Disconnect {
            assert(views[i as int].action == NetworkAction::Disconnect);
            return true;
        }
        i += 1;
    }
    false
}

/// Whether the networks confirm that `ssid` is connected.
fn is_confirmed(networks: &Vec<Network>, ssid: &str) -> (r: bool)
    ensures
        r == confirms(network_views(networks@), ssid@),
{
    let ghost views = network_views(networks@);
    let mut i: usize = 0;
    while i < networks.len()
        invariant
            i <= networks.len(),
            views == network_views(networks@),
            forall|j: int|
                0 <= j < i ==> !((#[trigger] views[j]).ssid == ssid@ && views[j].action
                    == NetworkAction::Disconnect),
        decreases networks.len() - i,
    {
        if networks[i].action == NetworkAction::Disconnect && str_eq(
            networks[i].ssid.as_str(),
            ssid,
        ) {
            assert(views[i as int].ssid == ssid@ && views[i as int].action
                == NetworkAction::Disconnect);
            return true;
        }
        i += 1;
    }
    false
}

/// The place of the first network with the name `ssid`.
fn find_named(networks: &Vec<Network>, ssid: &str) -> (found: Option<usize>)
    ensures
        match found {
            Some(i) => first_named(network_views(networks@), ssid@, i as int),
            None => forall|i: int|
                !first_named(network_views(networks@), ssid@, i),
        },
{
    let ghost views = network_views(networks@);
    let mut i: usize = 0;
    while i < networks.len()
        invariant
            i <= networks.len(),
            views == network_views(networks@),
            forall|j: int| 0 <= j < i ==> (#[trigger] views[j]).ssid != ssid@,
        decreases networks.len() - i,
    {
        if str_eq(networks[i].ssid.as_str(), ssid) {
            assert(views[i as int].ssid == ssid@);
            return Some(i);
        }
        i += 1;
    }
    assert forall|k: int| !first_named(views, ssid@, k) by {
        if 0 <= k < views.len() {
            assert(views[k].ssid != ssid@);
        }
    }
    None
}

/// Whether the networks know `ssid` as secured.
pub fn knows_as_secured(networks: &Vec<Network>, ssid: &str) -> (r: bool)
    ensures
        r == is_secured(network_views(networks@), ssid@),
{
    let ghost views = network_views(networks@);
    match find_named(networks, ssid) {
        Some(i) => {
            assert(views[i as int] == networks@[i as int]@);
            proof {
                if is_secured(views, ssid@) {
                    let k = choose|k: int| first_named(views, ssid@, k) && views[k].is_secure;
                    assert(k == i) by {
                        if k < i {
                            assert(views[k].ssid != ssid@);
                        } else if i < k {
                            assert(views[i as int].ssid != ssid@);
                        }
                    }
                }
            }
            networks[i].is_secure
        },
        None => false,
    }
}

/// Whether the networks know `ssid` as one with a saved profile.
pub fn knows_as_saved(networks: &Vec<Network>, ssid: &str) -> (r: bool)
    ensures
        r == is_saved(network_views(networks@), ssid@),
{
    let ghost views = network_views(networks@);
    match find_named(networks, ssid) {
        Some(i) => {
            assert(views[i as int] == networks@[i as int]@);
            proof {
                if is_saved(views, ssid@) {
                    let k = choose|k: int| first_named(views, ssid@, k) && views[k].is_saved;
                    assert(k == i) by {
                        if k < i {
                            assert(views[k].ssid != ssid@);
                        } else if i < k {
                            assert(views[i as int].ssid != ssid@);
                        }
                    }
                }
            }
            networks[i].is_saved
        },
        None => false,
    }
}

/// The reconciliation loop's state: the last confirmed snapshot and the
/// overlay on it. Only the loop changes it, one event at a time.
#[derive(Debug)]
pub struct Orchestrator {
    snapshot: AppState,
    pending: Option<PendingConnect>,
    optimistic: Option<String>,
    failed: SsidSet,
    refresh_guard: bool,
    loading: LoadingTracker,
}

/// The view of an attempt that may be absent.
pub open spec fn opt_pending(pending: Option<PendingConnect>) -> Option<PendingView> {
    match pending {
        Some(p) => Some(p@),
        None => None,
    }
}

impl View for Orchestrator {
    type V = OrchestratorView;

    closed spec fn view(&self) -> OrchestratorView {
        OrchestratorView {
            snapshot: self.snapshot@,
            pending: opt_pending(self.pending),
            optimistic: opt_text(self.optimistic),
            failed: self.failed@,
            refresh_guard: self.refresh_guard,
            loading: self.loading.count(),
        }
    }
}

impl Orchestrator {
    /// The loop's state at the start: the first snapshot, and nothing in
    /// flight.
    pub fn new(initial: AppState) -> (orchestrator: Self)
        ensures
            orchestrator@ == (OrchestratorView {
                snapshot: initial@,
                pending: None,
                optimistic: None,
                failed: Set::empty(),
                refresh_guard: false,
                loading: 0,
            }),
    {
        Orchestrator {
            snapshot: initial,
            pending: None,
            optimistic: None,
            failed: SsidSet::new(),
            refresh_guard: false,
            loading: LoadingTracker::new(),
        }
    }

    /// The last confirmed snapshot.
    pub fn snapshot(&self) -> (snapshot: &AppState)
        ensures
            snapshot@ == self@.snapshot,
    {
        &self.snapshot
    }

    /// The attempt to connect that is under way, if any.
    pub fn pending(&self) -> (pending: &Option<PendingConnect>)
        ensures
            opt_pending(*pending) == self@.pending,
    {
        &self.pending
    }

    /// The SSID to show as connected before a reload confirms it, if any.
    pub fn optimistic_active(&self) -> (ssid: &Option<String>)
        ensures
            opt_text(*ssid) == self@.optimistic,
    {
        &self.optimistic
    }

    /// Whether the last attempt for `ssid` failed on its credential.
    pub fn has_failed(&self, ssid: &str) -> (r: bool)
        ensures
            r == self@.failed.contains(ssid@),
    {
        self.failed.contains(ssid)
    }

    /// The SSIDs whose last attempt failed on its credential.
    pub fn failed_connects(&self) -> (failed: &SsidSet)
        ensures
            failed@ == self@.failed,
    {
        &self.failed
    }

    /// Whether a reload is scheduled and further requests are dropped.
    pub fn refresh_scheduled(&self) -> (r: bool)
        ensures
            r == self@.refresh_guard,
    {
        self.refresh_guard
    }

    /// Whether any operation is under way.
    pub fn is_loading(&self) -> (r: bool)
        ensures
            r == (self@.loading > 0),
    {
        self.loading.is_active()
    }

    /// Sets or clears the SSID that the list shows as connected before a
    /// reload confirms it. Nothing else changes.
    pub fn set_optimistic_active(&mut self, ssid: Option<String>)
        ensures
            final(self)@ == (OrchestratorView {
                optimistic: opt_text(ssid),
                ..old(self)@
            }),
    {
        self.optimistic = ssid;
    }

    /// The debounce time is over: issues the one reload of this window and
    /// clears the guard.
    pub fn debounce_elapsed(&mut self) -> (commands: Vec<Command>)
        ensures
            final(self)@ == on_debounce_elapsed(old(self)@).next,
            command_views(commands@) == on_debounce_elapsed(old(self)@).commands,
    {
        let mut commands = no_commands();
        emit(&mut commands, Command::Dispatch(Operation::ReloadState));
        self.refresh_guard = false;
        commands
    }

    fn refresh_requested(&mut self) -> (commands: Vec<Command>)
        ensures
            final(self)@ == on_refresh_requested(old(self)@).next,
            command_views(commands@) == on_refresh_requested(old(self)@).commands,
    {
        let mut commands = no_commands();
        if !self.refresh_guard {
            self.refresh_guard = true;
            emit(&mut commands, Command::ScheduleReload { delay_ms: DEBOUNCE_MS });
        }
        commands
    }

    /// Ends one operation and says whether any is left.
    fn stop_loading(&mut self) -> (commands: Vec<Command>)
        ensures
            final(self)@ == (OrchestratorView {
                loading: after_stop(old(self)@.loading),
                ..old(self)@
            }),
            command_views(commands@) == Seq::<CommandView>::empty().push(
                CommandView::Loading(after_stop(old(self)@.loading) > 0),
            ),
    {
        let mut commands = no_commands();
        self.loading.stop();
        emit(&mut commands, Command::Loading(self.loading.is_active()));
        commands
    }

    fn scan_done(&mut self, result: Result<(), BackendError>) -> (commands: Vec<Command>)
        ensures
            final(self)@ == on_scan_done(old(self)@, result).next,
            command_views(commands@) == on_scan_done(old(self)@, result).commands,
    {
        let mut commands = self.stop_loading();
        emit(&mut commands, Command::Scanning(false));
        match result {
            Ok(_) => {
                emit(
                    &mut commands,
                    Command::Status { kind: StatusKind::Info, text: "Scan complete".to_string() },
                );
            },
            Err(err) => {
                let shown = friendly_error(&err);
                emit(
                    &mut commands,
                    Command::Status {
                        kind: StatusKind::Error,
                        text: join("Scan failed: ", shown.as_str()),
                    },
                );
            },
        }
        emit(&mut commands, Command::Publish);
        commands
    }

    fn wifi_set(&mut self, enabled: bool, result: Result<(), BackendError>) -> (commands: Vec<
        Command,
    >)
        ensures
            final(self)@ == on_wifi_set(old(self)@, enabled, result).next,
            command_views(commands@) == on_wifi_set(old(self)@, enabled, result).commands,
    {
        let mut commands = self.stop_loading();
        match result {
            Ok(_) => {
                let text = if enabled {
                    "Wi\u{2011}Fi enabled".to_string()
                } else {
                    "Wi\u{2011}Fi disabled".to_string()
                };
                emit(&mut commands, Command::Status { kind: StatusKind::Success, text });
            },
            Err(err) => {
                let shown = friendly_error(&err);
                emit(
                    &mut commands,
                    Command::Status {
                        kind: StatusKind::Error,
                        text: join("Failed to set Wi\u{2011}Fi: ", shown.as_str()),
                    },
                );
                emit(&mut commands, Command::Dispatch(Operation::ReloadState));
            },
        }
        emit(&mut commands, Command::Publish);
        commands
    }

    fn state_loaded(&mut self, result: Result<AppState, BackendError>) -> (commands: Vec<Command>)
        ensures
            final(self)@ == on_state_loaded(old(self)@, result).next,
            command_views(commands@) == on_state_loaded(old(self)@, result).commands,
    {
        let mut commands = no_commands();
        let state = match result {
            Ok(state) => state,
            Err(err) => {
                let shown = debug_string(&err);
                emit(
                    &mut commands,
                    Command::Status {
                        kind: StatusKind::Error,
                        text: join("NetworkManager error: ", shown.as_str()),
                    },
                );
                fallback_state(err)
            },
        };
        emit(&mut commands, Command::SetToggle(state.wifi_enabled));
        if any_connected(&state.networks) {
            self.optimistic = None;
        }
        let confirmed = match &self.pending {
            Some(attempt) => is_confirmed(&state.networks, attempt.ssid.as_str()),
            None => false,
        };
        if confirmed {
            let attempt = self.pending.take().unwrap();
            self.failed.remove(attempt.ssid.as_str());
        }
        self.snapshot = state;
        emit(&mut commands, Command::Publish);
        commands
    }

    /// The commands that follow an activation that the service has begun.
    fn follow(commands: &mut Vec<Command>, ssid: String, path: Option<String>)
        ensures
            command_views(final(commands)@) == follow_activation(
                command_views(old(commands)@),
                ssid@,
                path,
            ),
    {
        match path {
            Some(path) => emit(commands, Command::Watch { ssid, path }),
            None => emit(commands, Command::Dispatch(Operation::ReloadState)),
        }
    }

    fn connect_done(
        &mut self,
        ssid: String,
        result: Result<Option<String>, BackendError>,
        from_password: bool,
        was_saved: bool,
    ) -> (commands: Vec<Command>)
        ensures
            final(self)@ == on_connect_done(old(self)@, ssid@, result, from_password, was_saved).next,
            command_views(commands@) == on_connect_done(
                old(self)@,
                ssid@,
                result,
                from_password,
                was_saved,
            ).commands,
    {
        let mut commands = self.stop_loading();
        match result {
            Ok(path) => {
                self.pending = Some(
                    PendingConnect { ssid: ssid.clone(), was_saved, from_password },
                );
                Self::follow(&mut commands, ssid, path);
            },
            Err(err) => {
                self.optimistic = None;
                self.pending = None;
                let credential = needs_password(&err);
                let shown = connect_error_message(&err, from_password);
                emit(
                    &mut commands,
                    Command::Status {
                        kind: StatusKind::Error,
                        text: join("Connect failed: ", shown.as_str()),
                    },
                );
                if credential {
                    if from_password {
                        self.failed.insert(ssid.clone());
                    }
                    emit(
                        &mut commands,
                        Command::PromptPassword {
                            ssid,
                            error: if from_password {
                                Some("Incorrect password. Try again.".to_string())
                            } else {
                                None
                            },
                            was_saved: true,
                        },
                    );
                }
            },
        }
        emit(&mut commands, Command::Publish);
        commands
    }

    fn disconnect_done(&mut self, ssid: String, result: Result<(), BackendError>) -> (commands:
        Vec<Command>)
        ensures
            final(self)@ == on_disconnect_done(old(self)@, ssid@, result).next,
            command_views(commands@) == on_disconnect_done(old(self)@, ssid@, result).commands,
    {
        let mut commands = self.stop_loading();
        match result {
            Ok(_) => {
                emit(
                    &mut commands,
                    Command::Status {
                        kind: StatusKind::Success,
                        text: join("Disconnected from ", ssid.as_str()),
                    },
                );
            },
            Err(err) => {
                let shown = friendly_error(&err);
                emit(
                    &mut commands,
                    Command::Status {
                        kind: StatusKind::Error,
                        text: join("Disconnect failed: ", shown.as_str()),
                    },
                );
            },
        }
        self.optimistic = None;
        self.pending = None;
        self.failed.remove(ssid.as_str());
        emit(&mut commands, Command::Publish);
        commands
    }

    fn hidden_done(&mut self, ssid: String, result: Result<Option<String>, BackendError>) -> (commands:
        Vec<Command>)
        ensures
            final(self)@ == on_hidden_done(old(self)@, ssid@, result).next,
            command_views(commands@) == on_hidden_done(old(self)@, ssid@, result).commands,
    {
        let mut commands = self.stop_loading();
        match result {
            Ok(path) => {
                self.pending = Some(
                    PendingConnect { ssid: ssid.clone(), was_saved: false, from_password: true },
                );
                Self::follow(&mut commands, ssid, path);
            },
            Err(err) => {
                let shown = friendly_error(&err);
                emit(
                    &mut commands,
                    Command::Status {
                        kind: StatusKind::Error,
                        text: join("Hidden connect failed: ", shown.as_str()),
                    },
                );
            },
        }
        emit(&mut commands, Command::Publish);
        commands
    }

    fn activated(&mut self, ssid: String) -> (commands: Vec<Command>)
        ensures
            final(self)@ == on_activated(old(self)@, ssid@).next,
            command_views(commands@) == on_activated(old(self)@, ssid@).commands,
    {
        let mut commands = no_commands();
        self.pending = None;
        self.optimistic = None;
        self.failed.remove(ssid.as_str());
        emit(&mut commands, Command::Dispatch(Operation::ReloadState));
        emit(&mut commands, Command::Publish);
        commands
    }

    fn deactivated(&mut self, ssid: String, attempt: PendingConnect) -> (commands: Vec<Command>)
        requires
            old(self)@.pending == Some(attempt@),
        ensures
            final(self)@ == on_deactivated(old(self)@, ssid@).next,
            command_views(commands@) == on_deactivated(old(self)@, ssid@).commands,
    {
        let mut commands = no_commands();
        let credential = attempt.from_password || knows_as_secured(
            &self.snapshot.networks,
            ssid.as_str(),
        );
        let mut text = join("Failed to connect to ", ssid.as_str());
        text.append(". ");
        if credential {
            text.append("Incorrect password. Try again.");
        } else {
            text.append("Failed to connect. Check signal and try again.");
        }
        emit(&mut commands, Command::Status { kind: StatusKind::Error, text });
        self.pending = None;
        self.optimistic = None;
        if credential {
            self.failed.insert(ssid.clone());
        }
        if !attempt.was_saved {
            emit(&mut commands, Command::Dispatch(Operation::ForgetProfile(ssid.clone())));
        }
        emit(&mut commands, Command::Dispatch(Operation::ReloadState));
        if credential {
            emit(
                &mut commands,
                Command::PromptPassword {
                    ssid,
                    error: Some("Incorrect password. Try again.".to_string()),
                    was_saved: attempt.was_saved,
                },
            );
        }
        emit(&mut commands, Command::Publish);
        commands
    }

    fn active_state(&mut self, ssid: String, state: u32) -> (commands: Vec<Command>)
        ensures
            final(self)@ == on_active_state(old(self)@, ssid@, state).next,
            command_views(commands@) == on_active_state(old(self)@, ssid@, state).commands,
    {
        let attempt = match &self.pending {
            Some(attempt) => {
                if str_eq(attempt.ssid.as_str(), ssid.as_str()) {
                    Some(attempt.clone())
                } else {
                    None
                }
            },
            None => None,
        };
        match attempt {
            Some(attempt) => {
                if state == STATE_ACTIVATED {
                    self.activated(ssid)
                } else if state == STATE_DEACTIVATED {
                    self.deactivated(ssid, attempt)
                } else {
                    no_commands()
                }
            },
            None => no_commands(),
        }
    }

    fn cleanup_result(&mut self, ssid: String, result: Result<(), BackendError>) -> (commands: Vec<
        Command,
    >)
        ensures
            final(self)@ == on_cleanup_result(old(self)@, ssid@, result).next,
            command_views(commands@) == on_cleanup_result(old(self)@, ssid@, result).commands,
    {
        let mut commands = no_commands();
        match result {
            Ok(_) => {},
            Err(err) => {
                let shown = friendly_error(&err);
                let mut text = join("Failed to remove saved profile for ", ssid.as_str());
                text.append(": ");
                text.append(shown.as_str());
                emit(&mut commands, Command::Status { kind: StatusKind::Error, text });
            },
        }
        emit(&mut commands, Command::Publish);
        commands
    }

    /// Applies the events that were waiting, first come first served, and
    /// returns all the commands that follow from them, in the order in which
    /// they arose.
    pub fn handle_events(&mut self, events: Vec<UiEvent>) -> (commands: Vec<Command>)
        ensures
            final(self)@ == run(old(self)@, events@).next,
            command_views(commands@) == run(old(self)@, events@).commands,
    {
        let ghost start = self@;
        let ghost all = events@;
        let mut commands = no_commands();
        assert(all.take(0) =~= Seq::<UiEvent>::empty());
        for event in it: events
            invariant
                it.seq() == all,
                self@ == run(start, all.take(it.index() as int)).next,
                command_views(commands@) == run(start, all.take(it.index() as int)).commands,
        {
            let ghost done = it.index() as int;
            let ghost before = command_views(commands@);
            proof {
                assert(all.take(done + 1).drop_last() =~= all.take(done));
                assert(all.take(done + 1).last() == event);
            }
            let mut more = self.handle_event(event);
            let ghost added = command_views(more@);
            commands.append(&mut more);
            assert(command_views(commands@) =~= before + added);
        }
        assert(all.take(all.len() as int) =~= all);
        commands
    }

    /// Applies one event: changes the snapshot and the overlay as the event
    /// demands, and returns the commands that follow from it, in the order
    /// in which they are to be carried out.
    pub fn handle_event(&mut self, event: UiEvent) -> (commands: Vec<Command>)
        ensures
            final(self)@ == step(old(self)@, event).next,
            command_views(commands@) == step(old(self)@, event).commands,
    {
        match event {
            UiEvent::StateLoaded(result) => self.state_loaded(result),
            UiEvent::ScanDone(result) => self.scan_done(result),
            UiEvent::WifiSet { enabled, result } => self.wifi_set(enabled, result),
            UiEvent::ConnectDone { ssid, result, from_password, was_saved } => self.connect_done(
                ssid,
                result,
                from_password,
                was_saved,
            ),
            UiEvent::DisconnectDone { ssid, result } => self.disconnect_done(ssid, result),
            UiEvent::HiddenDone { ssid, result } => self.hidden_done(ssid, result),
            UiEvent::ActiveState { ssid, state } => self.active_state(ssid, state),
            UiEvent::CleanupResult { ssid, result } => self.cleanup_result(ssid, result),
            UiEvent::RefreshRequested => self.refresh_requested(),
        }
    }
}

/// Whether `text` holds nothing but white space.
fn is_blank(text: &str) -> (r: bool)
    ensures
        r == (trimmed(text@).len() == 0),
{
    let chars = chars_of(text);
    assert(chars@.subrange(0, chars@.len() as int) =~= chars@);
    let (from, to) = trim_range(&chars, 0, chars.len());
    from == to
}

impl Orchestrator {
    /// Begins one operation and says that work is under way.
    fn start_loading(&mut self) -> (commands: Vec<Command>)
        ensures
            final(self)@ == started(old(self)@).next,
            command_views(commands@) == started(old(self)@).commands,
    {
        let mut commands = no_commands();
        self.loading.start();
        emit(&mut commands, Command::Loading(self.loading.is_active()));
        commands
    }

    fn open_network(&mut self, ssid: String) -> (commands: Vec<Command>)
        ensures
            final(self)@ == on_open_network(old(self)@, ssid@).next,
            command_views(commands@) == on_open_network(old(self)@, ssid@).commands,
    {
        let mut commands = no_commands();
        let failed = self.failed.contains(ssid.as_str());
        if knows_as_saved(&self.snapshot.networks, ssid.as_str()) && !failed {
            emit(&mut commands, Command::ShowDetails(ssid));
        } else {
            let error = if failed {
                Some("Incorrect password. Try again.".to_string())
            } else {
                None
            };
            emit(&mut commands, Command::PromptPassword { ssid, error, was_saved: false });
        }
        commands
    }

    fn connect_hidden(&mut self, ssid: String, password: String) -> (commands: Vec<Command>)
        ensures
            final(self)@ == on_connect_hidden(old(self)@, ssid@, password@).next,
            command_views(commands@) == on_connect_hidden(old(self)@, ssid@, password@).commands,
    {
        if is_blank(ssid.as_str()) {
            let mut commands = no_commands();
            emit(&mut commands, Command::DialogError("SSID is required".to_string()));
            commands
        } else {
            let mut commands = self.start_loading();
            let password = if password.as_str().is_empty() {
                None
            } else {
                Some(password)
            };
            emit(&mut commands, Command::Dispatch(Operation::ConnectHidden { ssid, password }));
            emit(&mut commands, Command::CloseDialog);
            commands
        }
    }

    fn save_settings(
        &mut self,
        ssid: String,
        ip_text: String,
        gateway_text: String,
        dns_text: String,
        use_manual: bool,
        auto_reconnect: bool,
    ) -> (commands: Vec<Command>)
        ensures
            final(self)@ == old(self)@,
            command_views(commands@) == on_save_settings(
                old(self)@,
                ssid@,
                ip_text@,
                gateway_text@,
                dns_text@,
                use_manual,
                auto_reconnect,
            ).commands,
    {
        let mut commands = no_commands();
        match parse_network_inputs(ip_text.as_str(), gateway_text.as_str(), dns_text.as_str()) {
            Err(message) => {
                emit(&mut commands, Command::DialogError(message));
            },
            Ok(parsed) => {
                let prefix = parsed.prefix;
                let (ip, gateway, dns) = if use_manual {
                    (parsed.ip, parsed.gateway, parsed.dns)
                } else {
                    (None, None, None)
                };
                emit(
                    &mut commands,
                    Command::ApplySettings { ssid, ip, prefix, gateway, dns, auto_reconnect },
                );
            },
        }
        commands
    }

    fn settings_saved(
        &mut self,
        ip_result: Result<(), BackendError>,
        auto_result: Result<(), BackendError>,
    ) -> (commands: Vec<Command>)
        ensures
            final(self)@ == old(self)@,
            command_views(commands@) == on_settings_saved(old(self)@, ip_result, auto_result).commands,
    {
        let mut commands = no_commands();
        let mut failed = false;
        match ip_result {
            Ok(_) => {},
            Err(err) => {
                failed = true;
                let shown = debug_string(&err);
                emit(
                    &mut commands,
                    Command::Status {
                        kind: StatusKind::Error,
                        text: join("Failed to set IP/DNS: ", shown.as_str()),
                    },
                );
            },
        }
        match auto_result {
            Ok(_) => {},
            Err(err) => {
                failed = true;
                let shown = debug_string(&err);
                emit(
                    &mut commands,
                    Command::Status {
                        kind: StatusKind::Error,
                        text: join("Failed to set auto\u{2011}reconnect: ", shown.as_str()),
                    },
                );
            },
        }
        if !failed {
            emit(
                &mut commands,
                Command::Status {
                    kind: StatusKind::Success,
                    text: "Saved network settings".to_string(),
                },
            );
        }
        emit(&mut commands, Command::CloseDialog);
        emit(&mut commands, Command::Dispatch(Operation::ReloadState));
        commands
    }

    fn profile_forgotten(&mut self, ssid: String, result: Result<(), BackendError>) -> (commands:
        Vec<Command>)
        ensures
            final(self)@ == on_profile_forgotten(old(self)@, ssid@, result).next,
            command_views(commands@) == on_profile_forgotten(old(self)@, ssid@, result).commands,
    {
        let mut commands = no_commands();
        match result {
            Ok(_) => {
                emit(
                    &mut commands,
                    Command::Status {
                        kind: StatusKind::Success,
                        text: "Network forgotten".to_string(),
                    },
                );
                emit(&mut commands, Command::CloseDialog);
                self.failed.remove(ssid.as_str());
                emit(&mut commands, Command::Dispatch(Operation::ReloadState));
            },
            Err(err) => {
                let shown = debug_string(&err);
                emit(
                    &mut commands,
                    Command::Status {
                        kind: StatusKind::Error,
                        text: join("Failed to forget: ", shown.as_str()),
                    },
                );
            },
        }
        commands
    }

    /// Takes up one intent of the user: changes the state as the intent
    /// demands, and returns the commands that follow from it, in the order
    /// in which they are to be carried out.
    pub fn submit_intent(&mut self, intent: Intent) -> (commands: Vec<Command>)
        ensures
            final(self)@ == accept(old(self)@, intent).next,
            command_views(commands@) == accept(old(self)@, intent).commands,
    {
        match intent {
            Intent::ToggleRadio(enabled) => {
                let mut commands = self.start_loading();
                emit(&mut commands, Command::Dispatch(Operation::SetRadioEnabled(enabled)));
                commands
            },
            Intent::RequestScan => {
                let mut commands = self.start_loading();
                emit(&mut commands, Command::Scanning(true));
                emit(
                    &mut commands,
                    Command::Status { kind: StatusKind::Info, text: "Scan requested".to_string() },
                );
                emit(&mut commands, Command::Dispatch(Operation::RequestScan));
                commands
            },
            Intent::Connect { ssid, is_saved } => {
                if is_saved {
                    let mut commands = self.start_loading();
                    emit(
                        &mut commands,
                        Command::Dispatch(
                            Operation::Connect { ssid, password: None, was_saved: true },
                        ),
                    );
                    commands
                } else {
                    let mut commands = no_commands();
                    emit(
                        &mut commands,
                        Command::PromptPassword { ssid, error: None, was_saved: false },
                    );
                    commands
                }
            },
            Intent::Disconnect(ssid) => {
                let mut commands = self.start_loading();
                emit(&mut commands, Command::Dispatch(Operation::Disconnect(ssid)));
                commands
            },
            Intent::OpenNetwork(ssid) => self.open_network(ssid),
            Intent::SubmitPassword { ssid, text, was_saved } => {
                let mut commands = self.start_loading();
                let password = if is_blank(text.as_str()) {
                    None
                } else {
                    Some(text)
                };
                emit(
                    &mut commands,
                    Command::Dispatch(Operation::Connect { ssid, password, was_saved }),
                );
                commands
            },
            Intent::ConnectHidden { ssid, password } => self.connect_hidden(ssid, password),
            Intent::SaveSettings {
                ssid,
                ip_text,
                gateway_text,
                dns_text,
                use_manual,
                auto_reconnect,
            } => self.save_settings(ssid, ip_text, gateway_text, dns_text, use_manual, auto_reconnect),
            Intent::SettingsSaved { ip_result, auto_result } => self.settings_saved(
                ip_result,
                auto_result,
            ),
            Intent::ProfileForgotten { ssid, result } => self.profile_forgotten(ssid, result),
        }
    }
}

} // verus!
