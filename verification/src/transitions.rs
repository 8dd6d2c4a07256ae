//! What the reconciliation loop does, as a function from a state and an
//! event to the next state and the commands that follow, and what holds of
//! it.

use vstd::prelude::*;
use crate::backend::{debug_text, BackendError};
use crate::events::{CommandView, Intent, OperationView, PendingView, StatusKind, UiEvent, DEBOUNCE_MS};
use crate::inputs::parsed_inputs;
use crate::messages::{connect_error_text, friendly_text, wants_password};
use crate::models::{AppState, AppStateView, NetworkAction, NetworkView};
use crate::snapshot::is_snapshot;
use crate::text::trimmed;
use crate::watcher::{STATE_ACTIVATED, STATE_DEACTIVATED};

verus! {

/// The loop's state as contracts see it: the snapshot, the overlay, the
/// guard of the debounce, and the number of operations under way.
pub struct OrchestratorView {
    pub snapshot: AppStateView,
    pub pending: Option<PendingView>,
    pub optimistic: Option<Seq<char>>,
    pub failed: Set<Seq<char>>,
    pub refresh_guard: bool,
    pub loading: nat,
}

/// A state and the commands that led to it.
pub struct Step {
    pub next: OrchestratorView,
    pub commands: Seq<CommandView>,
}

/// The snapshot shown when the service cannot be reached: the radio off and
/// no networks.
pub open spec fn fallback_view() -> AppStateView {
    AppStateView { wifi_enabled: false, networks: Seq::empty() }
}

/// Some network of the snapshot offers to disconnect: the service has
/// confirmed a connection.
pub open spec fn shows_connected(networks: Seq<NetworkView>) -> bool {
    exists|i: int|
        0 <= i < networks.len() && (#[trigger] networks[i]).action == NetworkAction::Disconnect
}

/// The snapshot confirms that `ssid` is connected.
pub open spec fn confirms(networks: Seq<NetworkView>, ssid: Seq<char>) -> bool {
    exists|i: int|
        0 <= i < networks.len() && (#[trigger] networks[i]).ssid == ssid && networks[i].action
            == NetworkAction::Disconnect
}

/// The network at `i` is the first of the snapshot with the name `ssid`.
pub open spec fn first_named(networks: Seq<NetworkView>, ssid: Seq<char>, i: int) -> bool {
    &&& 0 <= i < networks.len()
    &&& networks[i].ssid == ssid
    &&& forall|j: int| 0 <= j < i ==> (#[trigger] networks[j]).ssid != ssid
}

/// The snapshot knows `ssid` as a secured network.
pub open spec fn is_secured(networks: Seq<NetworkView>, ssid: Seq<char>) -> bool {
    exists|i: int| first_named(networks, ssid, i) && networks[i].is_secure
}

/// The snapshot knows `ssid` as a network with a saved profile.
pub open spec fn is_saved(networks: Seq<NetworkView>, ssid: Seq<char>) -> bool {
    exists|i: int| first_named(networks, ssid, i) && networks[i].is_saved
}

/// The count of operations under way after one of them has ended.
pub open spec fn after_stop(loading: nat) -> nat {
    if loading > 0 {
        (loading - 1) as nat
    } else {
        0
    }
}

/// The count of operations under way after one more has begun.
pub open spec fn after_start(loading: nat) -> nat {
    if loading < u32::MAX {
        loading + 1
    } else {
        loading
    }
}

/// The command that asks for a status message of weight `kind`.
pub open spec fn status(kind: StatusKind, text: Seq<char>) -> CommandView {
    CommandView::Status { kind, text }
}

/// The command that asks for a reload of the state.
pub open spec fn reload() -> CommandView {
    CommandView::Dispatch(OperationView::ReloadState)
}

/// The words shown when an activation has ended in failure.
pub open spec fn activation_failed_text(ssid: Seq<char>, credential: bool) -> Seq<char> {
    "Failed to connect to "@ + ssid + ". "@ + if credential {
        "Incorrect password. Try again."@
    } else {
        "Failed to connect. Check signal and try again."@
    }
}

/// A reload has come back. A failed one is reported and stands for a radio
/// that is off with nothing in sight. The new snapshot replaces the old one
/// whole. Where it shows a confirmed connection, the optimistic SSID has
/// done its work; where it confirms the pending attempt, that attempt is
/// over and its SSID no longer counts as failed.
pub open spec fn on_state_loaded(pre: OrchestratorView, result: Result<AppState, BackendError>) -> Step {
    let state = match result {
        Ok(state) => state@,
        Err(_) => fallback_view(),
    };
    let reported = match result {
        Ok(_) => Seq::<CommandView>::empty(),
        Err(err) => Seq::<CommandView>::empty().push(
            status(StatusKind::Error, "NetworkManager error: "@ + debug_text(err.message())),
        ),
    };
    let confirmed = pre.pending is Some && confirms(state.networks, pre.pending->0.ssid);
    Step {
        next: OrchestratorView {
            snapshot: state,
            pending: if confirmed {
                None
            } else {
                pre.pending
            },
            optimistic: if shows_connected(state.networks) {
                None
            } else {
                pre.optimistic
            },
            failed: if confirmed {
                pre.failed.remove(pre.pending->0.ssid)
            } else {
                pre.failed
            },
            refresh_guard: pre.refresh_guard,
            loading: pre.loading,
        },
        commands: reported.push(CommandView::SetToggle(state.wifi_enabled)).push(CommandView::Publish),
    }
}

/// A scan has ended.
pub open spec fn on_scan_done(pre: OrchestratorView, result: Result<(), BackendError>) -> Step {
    let loading = after_stop(pre.loading);
    Step {
        next: OrchestratorView { loading, ..pre },
        commands: Seq::<CommandView>::empty().push(CommandView::Loading(loading > 0)).push(
            CommandView::Scanning(false),
        ).push(
            match result {
                Ok(_) => status(StatusKind::Info, "Scan complete"@),
                Err(err) => status(
                    StatusKind::Error,
                    "Scan failed: "@ + friendly_text(err.message()),
                ),
            },
        ).push(CommandView::Publish),
    }
}

/// The radio was switched, or could not be. After a failure the state is
/// loaded anew, so that the switch shows what is true.
pub open spec fn on_wifi_set(
    pre: OrchestratorView,
    enabled: bool,
    result: Result<(), BackendError>,
) -> Step {
    let loading = after_stop(pre.loading);
    let first = Seq::<CommandView>::empty().push(CommandView::Loading(loading > 0));
    Step {
        next: OrchestratorView { loading, ..pre },
        commands: match result {
            Ok(_) => first.push(
                status(
                    StatusKind::Success,
                    if enabled {
                        "Wi\u{2011}Fi enabled"@
                    } else {
                        "Wi\u{2011}Fi disabled"@
                    },
                ),
            ).push(CommandView::Publish),
            Err(err) => first.push(
                status(
                    StatusKind::Error,
                    "Failed to set Wi\u{2011}Fi: "@ + friendly_text(err.message()),
                ),
            ).push(reload()).push(CommandView::Publish),
        },
    }
}

/// The commands that follow an activation that the service has begun: watch
/// it where the service named it, load the state anew where it did not.
pub open spec fn follow_activation(
    first: Seq<CommandView>,
    ssid: Seq<char>,
    path: Option<String>,
) -> Seq<CommandView> {
    match path {
        Some(path) => first.push(CommandView::Watch { ssid, path: path@ }),
        None => first.push(reload()),
    }
}

/// A call to connect has come back. On success the attempt is pending. A
/// failure ends the attempt and is reported; where it looks like a matter of
/// the credential, the password is asked for. An attempt that came with a
/// password then marks its SSID as failed, and the dialog says that the
/// password was wrong.
pub open spec fn on_connect_done(
    pre: OrchestratorView,
    ssid: Seq<char>,
    result: Result<Option<String>, BackendError>,
    from_password: bool,
    was_saved: bool,
) -> Step {
    let loading = after_stop(pre.loading);
    let first = Seq::<CommandView>::empty().push(CommandView::Loading(loading > 0));
    match result {
        Ok(path) => Step {
            next: OrchestratorView {
                pending: Some(PendingView { ssid, was_saved, from_password }),
                loading,
                ..pre
            },
            commands: follow_activation(first, ssid, path).push(CommandView::Publish),
        },
        Err(err) => {
            let credential = wants_password(err.message());
            let shown = connect_error_text(err.message(), from_password);
            let told = first.push(status(StatusKind::Error, "Connect failed: "@ + shown));
            Step {
                next: OrchestratorView {
                    pending: None,
                    optimistic: None,
                    failed: if credential && from_password {
                        pre.failed.insert(ssid)
                    } else {
                        pre.failed
                    },
                    loading,
                    ..pre
                },
                commands: if credential {
                    told.push(
                        CommandView::PromptPassword {
                            ssid,
                            error: if from_password {
                                Some(wrong_password())
                            } else {
                                None
                            },
                            was_saved: true,
                        },
                    ).push(CommandView::Publish)
                } else {
                    told.push(CommandView::Publish)
                },
            }
        },
    }
}

/// A call to disconnect has come back. Whatever it says, nothing is pending
/// any more and the SSID no longer counts as failed.
pub open spec fn on_disconnect_done(
    pre: OrchestratorView,
    ssid: Seq<char>,
    result: Result<(), BackendError>,
) -> Step {
    let loading = after_stop(pre.loading);
    Step {
        next: OrchestratorView {
            pending: None,
            optimistic: None,
            failed: pre.failed.remove(ssid),
            loading,
            ..pre
        },
        commands: Seq::<CommandView>::empty().push(CommandView::Loading(loading > 0)).push(
            match result {
                Ok(_) => status(StatusKind::Success, "Disconnected from "@ + ssid),
                Err(err) => status(
                    StatusKind::Error,
                    "Disconnect failed: "@ + friendly_text(err.message()),
                ),
            },
        ).push(CommandView::Publish),
    }
}

/// A call to connect to a hidden network has come back. On success the
/// attempt is pending, as one that made its profile and came with a password.
pub open spec fn on_hidden_done(
    pre: OrchestratorView,
    ssid: Seq<char>,
    result: Result<Option<String>, BackendError>,
) -> Step {
    let loading = after_stop(pre.loading);
    let first = Seq::<CommandView>::empty().push(CommandView::Loading(loading > 0));
    match result {
        Ok(path) => Step {
            next: OrchestratorView {
                pending: Some(PendingView { ssid, was_saved: false, from_password: true }),
                loading,
                ..pre
            },
            commands: follow_activation(first, ssid, path).push(CommandView::Publish),
        },
        Err(err) => Step {
            next: OrchestratorView { loading, ..pre },
            commands: first.push(
                status(
                    StatusKind::Error,
                    "Hidden connect failed: "@ + friendly_text(err.message()),
                ),
            ).push(CommandView::Publish),
        },
    }
}

/// The pending attempt has come up: it is over, its SSID no longer counts as
/// failed, and the state is loaded anew.
pub open spec fn on_activated(pre: OrchestratorView, ssid: Seq<char>) -> Step {
    Step {
        next: OrchestratorView {
            pending: None,
            optimistic: None,
            failed: pre.failed.remove(ssid),
            ..pre
        },
        commands: Seq::<CommandView>::empty().push(reload()).push(CommandView::Publish),
    }
}

/// The pending attempt has gone down: it has failed. The failure is a matter
/// of the credential where the attempt came with a password or the network
/// is secured; then the SSID counts as failed and the password is asked for
/// again. A profile that was made for this attempt is forgotten. The state
/// is loaded anew.
pub open spec fn on_deactivated(pre: OrchestratorView, ssid: Seq<char>) -> Step {
    let attempt = pre.pending->0;
    let credential = attempt.from_password || is_secured(pre.snapshot.networks, ssid);
    let told = Seq::<CommandView>::empty().push(
        status(StatusKind::Error, activation_failed_text(ssid, credential)),
    );
    let cleaned = if attempt.was_saved {
        told
    } else {
        told.push(CommandView::Dispatch(OperationView::ForgetProfile(ssid)))
    };
    let reloaded = cleaned.push(reload());
    Step {
        next: OrchestratorView {
            pending: None,
            optimistic: None,
            failed: if credential {
                pre.failed.insert(ssid)
            } else {
                pre.failed
            },
            ..pre
        },
        commands: if credential {
            reloaded.push(
                CommandView::PromptPassword {
                    ssid,
                    error: Some("Incorrect password. Try again."@),
                    was_saved: attempt.was_saved,
                },
            ).push(CommandView::Publish)
        } else {
            reloaded.push(CommandView::Publish)
        },
    }
}

/// A watcher has seen a state. It counts only while an attempt for the same
/// SSID is pending, and only where the state is final.
pub open spec fn on_active_state(pre: OrchestratorView, ssid: Seq<char>, state: u32) -> Step {
    if pre.pending is Some && pre.pending->0.ssid == ssid && state == STATE_ACTIVATED {
        on_activated(pre, ssid)
    } else if pre.pending is Some && pre.pending->0.ssid == ssid && state == STATE_DEACTIVATED {
        on_deactivated(pre, ssid)
    } else {
        Step { next: pre, commands: Seq::empty() }
    }
}

/// The removal of a profile that was made for a failed attempt has ended.
pub open spec fn on_cleanup_result(
    pre: OrchestratorView,
    ssid: Seq<char>,
    result: Result<(), BackendError>,
) -> Step {
    Step {
        next: pre,
        commands: match result {
            Ok(_) => Seq::<CommandView>::empty().push(CommandView::Publish),
            Err(err) => Seq::<CommandView>::empty().push(
                status(
                    StatusKind::Error,
                    "Failed to remove saved profile for "@ + ssid + ": "@ + friendly_text(
                        err.message(),
                    ),
                ),
            ).push(CommandView::Publish),
        },
    }
}

/// Something has changed at the service. While the guard is set the request
/// is dropped; else the guard is set and one reload is scheduled.
pub open spec fn on_refresh_requested(pre: OrchestratorView) -> Step {
    if pre.refresh_guard {
        Step { next: pre, commands: Seq::empty() }
    } else {
        Step {
            next: OrchestratorView { refresh_guard: true, ..pre },
            commands: Seq::<CommandView>::empty().push(
                CommandView::ScheduleReload { delay_ms: DEBOUNCE_MS },
            ),
        }
    }
}

/// The time of the debounce is over: the reload is issued and the guard
/// cleared.
pub open spec fn on_debounce_elapsed(pre: OrchestratorView) -> Step {
    Step {
        next: OrchestratorView { refresh_guard: false, ..pre },
        commands: Seq::<CommandView>::empty().push(reload()),
    }
}

/// What an event does to the state, and the commands that it gives rise to.
pub open spec fn step(pre: OrchestratorView, event: UiEvent) -> Step {
    match event {
        UiEvent::StateLoaded(result) => on_state_loaded(pre, result),
        UiEvent::ScanDone(result) => on_scan_done(pre, result),
        UiEvent::WifiSet { enabled, result } => on_wifi_set(pre, enabled, result),
        UiEvent::ConnectDone { ssid, result, from_password, was_saved } => on_connect_done(
            pre,
            ssid@,
            result,
            from_password,
            was_saved,
        ),
        UiEvent::DisconnectDone { ssid, result } => on_disconnect_done(pre, ssid@, result),
        UiEvent::HiddenDone { ssid, result } => on_hidden_done(pre, ssid@, result),
        UiEvent::ActiveState { ssid, state } => on_active_state(pre, ssid@, state),
        UiEvent::CleanupResult { ssid, result } => on_cleanup_result(pre, ssid@, result),
        UiEvent::RefreshRequested => on_refresh_requested(pre),
    }
}

/// What is shown in the password dialog for an SSID whose last attempt
/// failed on its credential.
pub open spec fn wrong_password() -> Seq<char> {
    "Incorrect password. Try again."@
}

/// One more operation is under way, and the spinner says so.
pub open spec fn started(pre: OrchestratorView) -> Step {
    Step {
        next: OrchestratorView { loading: after_start(pre.loading), ..pre },
        commands: Seq::<CommandView>::empty().push(
            CommandView::Loading(after_start(pre.loading) > 0),
        ),
    }
}

/// The password that a dialog's field gives: none where the field holds
/// nothing but white space, else the field as it stands.
pub open spec fn password_from(text: Seq<char>) -> Option<Seq<char>> {
    if trimmed(text).len() == 0 {
        None
    } else {
        Some(text)
    }
}

/// A scan was asked for.
pub open spec fn on_request_scan(pre: OrchestratorView) -> Step {
    Step {
        next: started(pre).next,
        commands: started(pre).commands.push(CommandView::Scanning(true)).push(
            status(StatusKind::Info, "Scan requested"@),
        ).push(CommandView::Dispatch(OperationView::RequestScan)),
    }
}

/// The button to connect was pressed: a saved network is connected to at
/// once, for another the password is asked for first.
pub open spec fn on_connect(pre: OrchestratorView, ssid: Seq<char>, is_saved: bool) -> Step {
    if is_saved {
        Step {
            next: started(pre).next,
            commands: started(pre).commands.push(
                CommandView::Dispatch(
                    OperationView::Connect { ssid, password: None, was_saved: true },
                ),
            ),
        }
    } else {
        Step {
            next: pre,
            commands: Seq::<CommandView>::empty().push(
                CommandView::PromptPassword { ssid, error: None, was_saved: false },
            ),
        }
    }
}

/// A row was opened: the details of a saved network whose last attempt did
/// not fail, the password dialog for any other.
pub open spec fn on_open_network(pre: OrchestratorView, ssid: Seq<char>) -> Step {
    let failed = pre.failed.contains(ssid);
    Step {
        next: pre,
        commands: if is_saved(pre.snapshot.networks, ssid) && !failed {
            Seq::<CommandView>::empty().push(CommandView::ShowDetails(ssid))
        } else {
            Seq::<CommandView>::empty().push(
                CommandView::PromptPassword {
                    ssid,
                    error: if failed {
                        Some(wrong_password())
                    } else {
                        None
                    },
                    was_saved: false,
                },
            )
        },
    }
}

/// The password dialog was confirmed.
pub open spec fn on_submit_password(
    pre: OrchestratorView,
    ssid: Seq<char>,
    text: Seq<char>,
    was_saved: bool,
) -> Step {
    Step {
        next: started(pre).next,
        commands: started(pre).commands.push(
            CommandView::Dispatch(
                OperationView::Connect { ssid, password: password_from(text), was_saved },
            ),
        ),
    }
}

/// The dialog for a hidden network was confirmed. It needs a name, and
/// stays open with an error while it has none; an empty password field
/// means no password.
pub open spec fn on_connect_hidden(pre: OrchestratorView, ssid: Seq<char>, password: Seq<char>) -> Step {
    if trimmed(ssid).len() == 0 {
        Step {
            next: pre,
            commands: Seq::<CommandView>::empty().push(
                CommandView::DialogError("SSID is required"@),
            ),
        }
    } else {
        Step {
            next: started(pre).next,
            commands: started(pre).commands.push(
                CommandView::Dispatch(
                    OperationView::ConnectHidden {
                        ssid,
                        password: if password.len() == 0 {
                            None
                        } else {
                            Some(password)
                        },
                    },
                ),
            ).push(CommandView::CloseDialog),
        }
    }
}

/// The details dialog was confirmed. Fields that cannot be read are told in
/// the dialog. The addresses are written only where they are set by hand.
pub open spec fn on_save_settings(
    pre: OrchestratorView,
    ssid: Seq<char>,
    ip_text: Seq<char>,
    gateway_text: Seq<char>,
    dns_text: Seq<char>,
    use_manual: bool,
    auto_reconnect: bool,
) -> Step {
    Step {
        next: pre,
        commands: match parsed_inputs(ip_text, gateway_text, dns_text) {
            Err(message) => Seq::<CommandView>::empty().push(CommandView::DialogError(message)),
            Ok(parsed) => Seq::<CommandView>::empty().push(
                CommandView::ApplySettings {
                    ssid,
                    ip: if use_manual {
                        parsed.ip
                    } else {
                        None
                    },
                    prefix: parsed.prefix,
                    gateway: if use_manual {
                        parsed.gateway
                    } else {
                        None
                    },
                    dns: if use_manual {
                        parsed.dns
                    } else {
                        None
                    },
                    auto_reconnect,
                },
            ),
        },
    }
}

/// The settings were written. Each failure is told; where there is none,
/// the success is. The dialog is closed and the state loaded anew.
pub open spec fn on_settings_saved(
    pre: OrchestratorView,
    ip_result: Result<(), BackendError>,
    auto_result: Result<(), BackendError>,
) -> Step {
    let first = match ip_result {
        Ok(_) => Seq::<CommandView>::empty(),
        Err(err) => Seq::<CommandView>::empty().push(
            status(StatusKind::Error, "Failed to set IP/DNS: "@ + debug_text(err.message())),
        ),
    };
    let second = match auto_result {
        Ok(_) => first,
        Err(err) => first.push(
            status(
                StatusKind::Error,
                "Failed to set auto\u{2011}reconnect: "@ + debug_text(err.message()),
            ),
        ),
    };
    let told = if ip_result is Ok && auto_result is Ok {
        second.push(status(StatusKind::Success, "Saved network settings"@))
    } else {
        second
    };
    Step { next: pre, commands: told.push(CommandView::CloseDialog).push(reload()) }
}

/// A profile was forgotten at the user's wish, or could not be. Once it is
/// gone its SSID no longer counts as failed, and the state is loaded anew.
pub open spec fn on_profile_forgotten(
    pre: OrchestratorView,
    ssid: Seq<char>,
    result: Result<(), BackendError>,
) -> Step {
    match result {
        Ok(_) => Step {
            next: OrchestratorView { failed: pre.failed.remove(ssid), ..pre },
            commands: Seq::<CommandView>::empty().push(
                status(StatusKind::Success, "Network forgotten"@),
            ).push(CommandView::CloseDialog).push(reload()),
        },
        Err(err) => Step {
            next: pre,
            commands: Seq::<CommandView>::empty().push(
                status(StatusKind::Error, "Failed to forget: "@ + debug_text(err.message())),
            ),
        },
    }
}

/// What an intent does to the state, and the commands that it gives rise to.
pub open spec fn accept(pre: OrchestratorView, intent: Intent) -> Step {
    match intent {
        Intent::ToggleRadio(enabled) => Step {
            next: started(pre).next,
            commands: started(pre).commands.push(
                CommandView::Dispatch(OperationView::SetRadioEnabled(enabled)),
            ),
        },
        Intent::RequestScan => on_request_scan(pre),
        Intent::Connect { ssid, is_saved } => on_connect(pre, ssid@, is_saved),
        Intent::Disconnect(ssid) => Step {
            next: started(pre).next,
            commands: started(pre).commands.push(
                CommandView::Dispatch(OperationView::Disconnect(ssid@)),
            ),
        },
        Intent::OpenNetwork(ssid) => on_open_network(pre, ssid@),
        Intent::SubmitPassword { ssid, text, was_saved } => on_submit_password(
            pre,
            ssid@,
            text@,
            was_saved,
        ),
        Intent::ConnectHidden { ssid, password } => on_connect_hidden(pre, ssid@, password@),
        Intent::SaveSettings {
            ssid,
            ip_text,
            gateway_text,
            dns_text,
            use_manual,
            auto_reconnect,
        } => on_save_settings(
            pre,
            ssid@,
            ip_text@,
            gateway_text@,
            dns_text@,
            use_manual,
            auto_reconnect,
        ),
        Intent::SettingsSaved { ip_result, auto_result } => on_settings_saved(
            pre,
            ip_result,
            auto_result,
        ),
        Intent::ProfileForgotten { ssid, result } => on_profile_forgotten(pre, ssid@, result),
    }
}

/// What a run of events does, one after the other: the state at the end, and
/// all the commands in the order in which they arose.
pub open spec fn run(pre: OrchestratorView, events: Seq<UiEvent>) -> Step
    decreases events.len(),
{
    if events.len() == 0 {
        Step { next: pre, commands: Seq::empty() }
    } else {
        let before = run(pre, events.drop_last());
        let last = step(before.next, events.last());
        Step { next: last.next, commands: before.commands + last.commands }
    }
}

/// However many refresh requests arrive within one window of the debounce,
/// one reload is scheduled, none is issued before the window ends, and
/// exactly one is issued when it ends. After that the loop is as it was
/// before the first request.
pub proof fn lemma_one_reload_per_window(pre: OrchestratorView, events: Seq<UiEvent>)
    requires
        !pre.refresh_guard,
        events.len() >= 1,
        forall|i: int| 0 <= i < events.len() ==> events[i] is RefreshRequested,
    ensures
        run(pre, events).commands == seq![CommandView::ScheduleReload { delay_ms: DEBOUNCE_MS }],
        run(pre, events).next == (OrchestratorView { refresh_guard: true, ..pre }),
        on_debounce_elapsed(run(pre, events).next).commands == seq![reload()],
        on_debounce_elapsed(run(pre, events).next).next == pre,
    decreases events.len(),
{
    let first = seq![CommandView::ScheduleReload { delay_ms: DEBOUNCE_MS }];
    if events.len() == 1 {
        assert(events.drop_last().len() == 0);
        assert(run(pre, events.drop_last()).commands == Seq::<CommandView>::empty());
        assert(run(pre, events).commands =~= first);
    } else {
        lemma_one_reload_per_window(pre, events.drop_last());
        assert(run(pre, events).commands =~= first);
    }
    assert(on_debounce_elapsed(run(pre, events).next).commands =~= seq![reload()]);
}

/// A snapshot that shows the pending SSID as connected ends the attempt:
/// nothing is pending, no SSID is shown ahead of its confirmation, and the
/// SSID no longer counts as failed.
pub proof fn lemma_confirmation_clears_overlay(pre: OrchestratorView, state: AppState)
    requires
        pre.pending is Some,
        confirms(state@.networks, pre.pending->0.ssid),
    ensures
        step(pre, UiEvent::StateLoaded(Ok(state))).next.pending is None,
        step(pre, UiEvent::StateLoaded(Ok(state))).next.optimistic is None,
        !step(pre, UiEvent::StateLoaded(Ok(state))).next.failed.contains(pre.pending->0.ssid),
        step(pre, UiEvent::StateLoaded(Ok(state))).next.snapshot == state@,
{
    let ssid = pre.pending->0.ssid;
    let i = choose|i: int|
        0 <= i < state@.networks.len() && (#[trigger] state@.networks[i]).ssid == ssid
            && state@.networks[i].action == NetworkAction::Disconnect;
    assert(state@.networks[i].action == NetworkAction::Disconnect);
}

/// A watcher's report that the pending attempt has come up ends it in the
/// same way, and asks for one reload.
pub proof fn lemma_activation_clears_overlay(pre: OrchestratorView, event: UiEvent)
    requires
        pre.pending is Some,
        event matches UiEvent::ActiveState { ssid, state } && ssid@ == pre.pending->0.ssid && state
            == STATE_ACTIVATED,
    ensures
        step(pre, event).next.pending is None,
        step(pre, event).next.optimistic is None,
        !step(pre, event).next.failed.contains(pre.pending->0.ssid),
        step(pre, event).commands == seq![reload(), CommandView::Publish],
{
    assert(step(pre, event).commands =~= seq![reload(), CommandView::Publish]);
}

/// The command asks to forget a profile.
pub open spec fn is_forget(command: CommandView) -> bool {
    command matches CommandView::Dispatch(OperationView::ForgetProfile(_))
}

/// A failed attempt that made its own profile has that profile forgotten,
/// once; one that used a profile that was there before has nothing
/// forgotten.
pub proof fn lemma_failed_attempt_forgets_its_profile(pre: OrchestratorView, event: UiEvent)
    requires
        pre.pending is Some,
        event matches UiEvent::ActiveState { ssid, state } && ssid@ == pre.pending->0.ssid && state
            == STATE_DEACTIVATED,
    ensures
        pre.pending->0.was_saved ==> forall|i: int|
            0 <= i < step(pre, event).commands.len() ==> !is_forget(
                #[trigger] step(pre, event).commands[i],
            ),
        !pre.pending->0.was_saved ==> step(pre, event).commands[1] == CommandView::Dispatch(
            OperationView::ForgetProfile(pre.pending->0.ssid),
        ) && forall|i: int|
            0 <= i < step(pre, event).commands.len() && i != 1 ==> !is_forget(
                #[trigger] step(pre, event).commands[i],
            ),
        step(pre, event).next.pending is None,
        step(pre, event).next.optimistic is None,
{
}

/// Nothing but the failure of a pending attempt that made its own profile
/// makes the loop forget a profile.
pub proof fn lemma_forget_only_after_failed_attempt(pre: OrchestratorView, event: UiEvent, i: int)
    requires
        0 <= i < step(pre, event).commands.len(),
        is_forget(step(pre, event).commands[i]),
    ensures
        pre.pending is Some,
        !pre.pending->0.was_saved,
        event matches UiEvent::ActiveState { ssid, state } && ssid@ == pre.pending->0.ssid && state
            == STATE_DEACTIVATED,
        step(pre, event).commands[i] == CommandView::Dispatch(
            OperationView::ForgetProfile(pre.pending->0.ssid),
        ),
{
}

/// The event brings the failure of an operation.
pub open spec fn brings_failure(event: UiEvent) -> bool {
    match event {
        UiEvent::StateLoaded(result) => result is Err,
        UiEvent::ScanDone(result) => result is Err,
        UiEvent::WifiSet { result, .. } => result is Err,
        UiEvent::ConnectDone { result, .. } => result is Err,
        UiEvent::DisconnectDone { result, .. } => result is Err,
        UiEvent::HiddenDone { result, .. } => result is Err,
        UiEvent::CleanupResult { result, .. } => result is Err,
        UiEvent::ActiveState { .. } => false,
        UiEvent::RefreshRequested => false,
    }
}

/// Every failure of an operation is told to the user as an error.
pub proof fn lemma_failures_are_told(pre: OrchestratorView, event: UiEvent)
    requires
        brings_failure(event),
    ensures
        exists|i: int|
            0 <= i < step(pre, event).commands.len() && (#[trigger] step(pre, event).commands[i]
                matches CommandView::Status { kind, .. } && kind == StatusKind::Error),
{
    let commands = step(pre, event).commands;
    match event {
        UiEvent::StateLoaded(_) | UiEvent::CleanupResult { .. } => {
            assert(commands[0] matches CommandView::Status { kind, .. } && kind == StatusKind::Error);
        },
        UiEvent::ScanDone(_) => {
            assert(commands[2] matches CommandView::Status { kind, .. } && kind == StatusKind::Error);
        },
        _ => {
            assert(commands[1] matches CommandView::Status { kind, .. } && kind == StatusKind::Error);
        },
    }
}

/// The password is asked for only after a failure that looks like a matter
/// of the credential: a call to connect that failed with such wording, or an
/// activation that went down after an attempt with a password or for a
/// secured network.
pub proof fn lemma_prompt_only_for_credentials(pre: OrchestratorView, event: UiEvent, i: int)
    requires
        0 <= i < step(pre, event).commands.len(),
        step(pre, event).commands[i] is PromptPassword,
    ensures
        match event {
            UiEvent::ConnectDone { result, .. } => result matches Err(err) && wants_password(
                err.message(),
            ),
            UiEvent::ActiveState { ssid, state } => pre.pending is Some && pre.pending->0.ssid
                == ssid@ && state == STATE_DEACTIVATED && (pre.pending->0.from_password
                || is_secured(pre.snapshot.networks, ssid@)),
            _ => false,
        },
{
}

/// An event of a watcher for an SSID that is not pending changes nothing and
/// asks for nothing.
pub proof fn lemma_stale_watcher_event_is_dropped(pre: OrchestratorView, event: UiEvent)
    requires
        event matches UiEvent::ActiveState { ssid, .. } && (pre.pending is None
            || pre.pending->0.ssid != ssid@),
    ensures
        step(pre, event).next == pre,
        step(pre, event).commands.len() == 0,
{
}


/// The snapshot is replaced only by a reload, and then as a whole: no other
/// event touches it.
pub proof fn lemma_only_a_reload_replaces_the_snapshot(pre: OrchestratorView, event: UiEvent)
    ensures
        match event {
            UiEvent::StateLoaded(Ok(state)) => step(pre, event).next.snapshot == state@,
            UiEvent::StateLoaded(Err(_)) => step(pre, event).next.snapshot == fallback_view(),
            _ => step(pre, event).next.snapshot == pre.snapshot,
        },
{
}

/// As long as every reload brings a snapshot that is in order, the loop's
/// snapshot is in order.
pub proof fn lemma_snapshot_stays_in_order(pre: OrchestratorView, event: UiEvent)
    requires
        is_snapshot(pre.snapshot),
        event matches UiEvent::StateLoaded(Ok(state)) ==> state.well_formed(),
    ensures
        is_snapshot(step(pre, event).next.snapshot),
{
    lemma_only_a_reload_replaces_the_snapshot(pre, event);
}

/// While a reload is scheduled, no event schedules another one or lifts the
/// guard, whatever else arrives in between.
pub proof fn lemma_guard_holds_until_elapsed(pre: OrchestratorView, events: Seq<UiEvent>)
    requires
        pre.refresh_guard,
    ensures
        run(pre, events).next.refresh_guard,
        forall|i: int|
            0 <= i < run(pre, events).commands.len() ==> !(#[trigger] run(
                pre,
                events,
            ).commands[i] is ScheduleReload),
    decreases events.len(),
{
    if events.len() > 0 {
        lemma_guard_holds_until_elapsed(pre, events.drop_last());
        let before = run(pre, events.drop_last());
        let last = step(before.next, events.last());
        assert(last.next.refresh_guard);
        assert forall|i: int| 0 <= i < last.commands.len() implies !(#[trigger] last.commands[i]
            is ScheduleReload) by {}
        assert forall|i: int| 0 <= i < run(pre, events).commands.len() implies !(#[trigger] run(
            pre,
            events,
        ).commands[i] is ScheduleReload) by {
            if i < before.commands.len() {
                assert(run(pre, events).commands[i] == before.commands[i]);
            } else {
                assert(run(pre, events).commands[i] == last.commands[i - before.commands.len()]);
            }
        }
    }
}

/// An event on its own is a run of one.
pub proof fn lemma_run_of_one(pre: OrchestratorView, event: UiEvent)
    ensures
        run(pre, seq![event]) == step(pre, event),
{
    let events = seq![event];
    assert(events.drop_last().len() == 0);
    assert(events.last() == event);
    assert(run(pre, events.drop_last()).next == pre);
    assert(run(pre, events).next == step(pre, event).next);
    assert(run(pre, events).commands =~= step(pre, event).commands);
}

/// An intent changes neither the snapshot nor what is pending, and leaves
/// the guard of the debounce as it is: it can only start work, ask the user,
/// or, once a profile is forgotten, take its SSID off the list of failures.
pub proof fn lemma_intents_keep_the_snapshot(pre: OrchestratorView, intent: Intent)
    ensures
        accept(pre, intent).next.snapshot == pre.snapshot,
        accept(pre, intent).next.pending == pre.pending,
        accept(pre, intent).next.optimistic == pre.optimistic,
        accept(pre, intent).next.refresh_guard == pre.refresh_guard,
        !(intent is ProfileForgotten) ==> accept(pre, intent).next.failed == pre.failed,
{
}

/// The command hands an operation to the dispatcher.
pub open spec fn is_dispatch(command: CommandView) -> bool {
    command is Dispatch
}

/// An attempt with a password that fails with wording that looks like a
/// matter of the credential is over: its SSID counts as failed, the password
/// is asked for again with the word that it was wrong, and nothing is tried
/// again by itself.
pub proof fn lemma_refused_password_asks_again(pre: OrchestratorView, event: UiEvent)
    requires
        event matches UiEvent::ConnectDone { result, from_password, .. } && from_password && (
        result matches Err(err) && wants_password(err.message())),
    ensures
        step(pre, event).next.pending is None,
        step(pre, event).next.failed.contains(event->ConnectDone_ssid@),
        step(pre, event).commands.len() == 4,
        step(pre, event).commands[2] == (CommandView::PromptPassword {
            ssid: event->ConnectDone_ssid@,
            error: Some(wrong_password()),
            was_saved: true,
        }),
        forall|i: int|
            0 <= i < step(pre, event).commands.len() ==> !is_dispatch(
                #[trigger] step(pre, event).commands[i],
            ),
{
}

} // verus!
