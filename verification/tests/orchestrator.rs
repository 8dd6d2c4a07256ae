use yufi::backend::mock::MockBackend;
use yufi::backend::BackendError;
use yufi::models::AppState;
use yufi::dispatcher::failure_event;
use yufi::events::{Command, Intent, Operation, StatusKind, UiEvent, DEBOUNCE_MS};
use yufi::orchestrator::{fallback_state, knows_as_saved, knows_as_secured, LoadingTracker, Orchestrator};

fn unavailable(message: &str) -> BackendError {
    BackendError::Unavailable(message.to_string())
}

fn mock() -> AppState {
    MockBackend::new().mock_state()
}

fn show(commands: &[Command]) -> Vec<String> {
    commands.iter().map(|c| format!("{c:?}")).collect()
}

fn reloads(commands: &[Command]) -> usize {
    commands.iter().filter(|c| matches!(c, Command::Dispatch(Operation::ReloadState))).count()
}

fn forgets(commands: &[Command]) -> Vec<String> {
    commands
        .iter()
        .filter_map(|c| match c {
            Command::Dispatch(Operation::ForgetProfile(ssid)) => Some(ssid.clone()),
            _ => None,
        })
        .collect()
}

fn connected(ssid: &str) -> AppState {
    let mut state = mock();
    for n in state.networks.iter_mut() {
        n.is_active = n.ssid == ssid;
        n.action = if n.ssid == ssid {
            yufi::models::NetworkAction::Disconnect
        } else {
            yufi::models::NetworkAction::Connect
        };
    }
    state
}

#[test]
fn a_new_loop_has_nothing_in_flight() {
    let o = Orchestrator::new(mock());
    assert_eq!(o.snapshot().networks.len(), 5);
    assert!(o.pending().is_none());
    assert!(o.optimistic_active().is_none());
    assert!(o.failed_connects().to_vec().is_empty());
    assert!(!o.refresh_scheduled());
    assert!(!o.is_loading());
}

#[test]
fn a_burst_of_refresh_requests_gives_one_reload() {
    let mut o = Orchestrator::new(mock());
    let mut all = Vec::new();
    for _ in 0..25 {
        all.extend(o.handle_event(UiEvent::RefreshRequested));
    }
    assert_eq!(show(&all), vec![format!("ScheduleReload {{ delay_ms: {DEBOUNCE_MS} }}")]);
    assert_eq!(DEBOUNCE_MS, 150);
    assert!(o.refresh_scheduled());
    assert_eq!(reloads(&all), 0);
    let fired = o.debounce_elapsed();
    assert_eq!(fired.len(), 1);
    assert_eq!(reloads(&fired), 1);
    assert!(!o.refresh_scheduled());
    let next = o.handle_event(UiEvent::RefreshRequested);
    assert_eq!(next.len(), 1);
}

#[test]
fn guest_network_is_connected_after_the_password_is_asked_for() {
    let mut o = Orchestrator::new(mock());
    // The row's button is pressed; the network has no profile, so the password is asked for.
    let commands =
        o.submit_intent(Intent::Connect { ssid: "Guest_Network".to_string(), is_saved: false });
    assert_eq!(
        show(&commands),
        vec!["PromptPassword { ssid: \"Guest_Network\", error: None, was_saved: false }"]
    );
    // The dialog is confirmed with an empty field: an attempt without a password.
    let commands = o.submit_intent(Intent::SubmitPassword {
        ssid: "Guest_Network".to_string(),
        text: String::new(),
        was_saved: false,
    });
    let first = match commands.into_iter().last() {
        Some(Command::Dispatch(operation)) => operation,
        other => panic!("expected an operation, got {other:?}"),
    };
    assert!(matches!(
        &first,
        Operation::Connect { ssid, password: None, was_saved: false } if ssid == "Guest_Network"
    ));
    // The service refuses for want of a credential.
    o.set_optimistic_active(Some("Guest_Network".to_string()));
    let refused = failure_event(first, unavailable("Secrets were required, but not provided"));
    assert!(matches!(&refused, UiEvent::ConnectDone { from_password: false, was_saved: false, .. }));
    let commands = o.handle_event(refused);
    assert!(o.pending().is_none());
    assert!(o.optimistic_active().is_none());
    assert!(!o.has_failed("Guest_Network"));
    assert_eq!(
        show(&commands),
        vec![
            "Loading(false)",
            "Status { kind: Error, text: \"Connect failed: Secrets were required, but not provided\" }",
            "PromptPassword { ssid: \"Guest_Network\", error: None, was_saved: true }",
            "Publish",
        ]
    );
    // The password "hunter2" is submitted, and the service begins to activate.
    let commands = o.submit_intent(Intent::SubmitPassword {
        ssid: "Guest_Network".to_string(),
        text: "hunter2".to_string(),
        was_saved: true,
    });
    assert_eq!(
        show(&commands),
        vec![
            "Loading(true)",
            "Dispatch(Connect { ssid: \"Guest_Network\", password: Some(\"hunter2\"), was_saved: true })",
        ]
    );
    let commands = o.handle_event(UiEvent::ConnectDone {
        ssid: "Guest_Network".to_string(),
        result: Ok(Some("/org/freedesktop/NetworkManager/ActiveConnection/7".to_string())),
        from_password: true,
        was_saved: true,
    });
    let pending = o.pending().clone().unwrap();
    assert_eq!(pending.ssid, "Guest_Network");
    assert!(pending.from_password);
    assert!(pending.was_saved);
    assert_eq!(
        show(&commands),
        vec![
            "Loading(false)".to_string(),
            "Watch { ssid: \"Guest_Network\", path: \"/org/freedesktop/NetworkManager/ActiveConnection/7\" }"
                .to_string(),
            "Publish".to_string(),
        ]
    );
    o.set_optimistic_active(Some("Guest_Network".to_string()));
    // The watcher sees the connection come up, by way of "activating".
    assert!(o
        .handle_event(UiEvent::ActiveState { ssid: "Guest_Network".to_string(), state: 1 })
        .is_empty());
    assert!(o.pending().is_some());
    let commands =
        o.handle_event(UiEvent::ActiveState { ssid: "Guest_Network".to_string(), state: 2 });
    assert!(o.pending().is_none());
    assert!(o.optimistic_active().is_none());
    assert!(!o.has_failed("Guest_Network"));
    assert_eq!(reloads(&commands), 1);
    assert_eq!(show(&commands), vec!["Dispatch(ReloadState)".to_string(), "Publish".to_string()]);
    assert!(forgets(&commands).is_empty());
}

#[test]
fn a_confirming_snapshot_clears_the_overlay() {
    let mut o = Orchestrator::new(mock());
    o.handle_event(UiEvent::ConnectDone {
        ssid: "Guest_Network".to_string(),
        result: Ok(None),
        from_password: true,
        was_saved: false,
    });
    o.handle_event(UiEvent::ActiveState { ssid: "Guest_Network".to_string(), state: 4 });
    assert!(o.has_failed("Guest_Network"));
    o.handle_event(UiEvent::ConnectDone {
        ssid: "Guest_Network".to_string(),
        result: Ok(None),
        from_password: true,
        was_saved: false,
    });
    o.set_optimistic_active(Some("Guest_Network".to_string()));
    let commands = o.handle_event(UiEvent::StateLoaded(Ok(connected("Guest_Network"))));
    assert!(o.pending().is_none());
    assert!(o.optimistic_active().is_none());
    assert!(!o.has_failed("Guest_Network"));
    assert_eq!(show(&commands), vec!["SetToggle(true)".to_string(), "Publish".to_string()]);
    assert!(o.snapshot().networks.iter().any(|n| n.ssid == "Guest_Network" && n.is_active));
}

#[test]
fn a_snapshot_that_confirms_another_network_keeps_the_attempt() {
    let mut o = Orchestrator::new(mock());
    o.handle_event(UiEvent::ConnectDone {
        ssid: "Guest_Network".to_string(),
        result: Ok(None),
        from_password: false,
        was_saved: true,
    });
    o.set_optimistic_active(Some("Guest_Network".to_string()));
    o.handle_event(UiEvent::StateLoaded(Ok(connected("Office_Main"))));
    assert!(o.pending().is_some());
    assert!(o.optimistic_active().is_none());
}

#[test]
fn a_snapshot_without_a_connection_keeps_the_optimistic_ssid() {
    let mut o = Orchestrator::new(mock());
    o.set_optimistic_active(Some("Guest_Network".to_string()));
    o.handle_event(UiEvent::StateLoaded(Ok(connected("nobody"))));
    assert_eq!(o.optimistic_active().as_deref(), Some("Guest_Network"));
}

#[test]
fn a_failed_attempt_forgets_only_a_profile_of_its_own() {
    for was_saved in [false, true] {
        let mut o = Orchestrator::new(mock());
        o.handle_event(UiEvent::ConnectDone {
            ssid: "Coffee_Shop_Free".to_string(),
            result: Ok(Some("/ac/1".to_string())),
            from_password: false,
            was_saved,
        });
        let commands =
            o.handle_event(UiEvent::ActiveState { ssid: "Coffee_Shop_Free".to_string(), state: 4 });
        if was_saved {
            assert!(forgets(&commands).is_empty());
        } else {
            assert_eq!(forgets(&commands), vec!["Coffee_Shop_Free".to_string()]);
        }
        assert_eq!(reloads(&commands), 1);
        assert!(o.pending().is_none());
        // An open network that fails to associate is no matter of the password.
        assert!(!o.has_failed("Coffee_Shop_Free"));
        assert!(!commands.iter().any(|c| matches!(c, Command::PromptPassword { .. })));
        assert_eq!(
            show(&commands)[0],
            "Status { kind: Error, text: \"Failed to connect to Coffee_Shop_Free. Failed to connect. Check signal and try again.\" }"
        );
    }
}

#[test]
fn a_failed_attempt_for_a_secured_network_asks_again() {
    let mut o = Orchestrator::new(mock());
    o.handle_event(UiEvent::ConnectDone {
        ssid: "Guest_Network".to_string(),
        result: Ok(None),
        from_password: false,
        was_saved: false,
    });
    let commands =
        o.handle_event(UiEvent::ActiveState { ssid: "Guest_Network".to_string(), state: 4 });
    assert!(o.has_failed("Guest_Network"));
    assert_eq!(
        show(&commands),
        vec![
            "Status { kind: Error, text: \"Failed to connect to Guest_Network. Incorrect password. Try again.\" }".to_string(),
            "Dispatch(ForgetProfile(\"Guest_Network\"))".to_string(),
            "Dispatch(ReloadState)".to_string(),
            "PromptPassword { ssid: \"Guest_Network\", error: Some(\"Incorrect password. Try again.\"), was_saved: false }".to_string(),
            "Publish".to_string(),
        ]
    );
}

#[test]
fn a_watcher_event_for_another_ssid_is_dropped() {
    let mut o = Orchestrator::new(mock());
    assert!(o
        .handle_event(UiEvent::ActiveState { ssid: "Guest_Network".to_string(), state: 4 })
        .is_empty());
    o.handle_event(UiEvent::ConnectDone {
        ssid: "Guest_Network".to_string(),
        result: Ok(None),
        from_password: true,
        was_saved: false,
    });
    assert!(o
        .handle_event(UiEvent::ActiveState { ssid: "Office_Main".to_string(), state: 4 })
        .is_empty());
    assert!(o.pending().is_some());
    assert!(!o.has_failed("Office_Main"));
}

#[test]
fn a_failed_connect_with_a_password_marks_the_ssid() {
    let mut o = Orchestrator::new(mock());
    let commands = o.handle_event(UiEvent::ConnectDone {
        ssid: "Guest_Network".to_string(),
        result: Err(unavailable("Invalid password supplied")),
        from_password: true,
        was_saved: true,
    });
    assert!(o.has_failed("Guest_Network"));
    assert_eq!(
        show(&commands),
        vec![
            "Loading(false)".to_string(),
            "Status { kind: Error, text: \"Connect failed: Incorrect password. Try again.\" }".to_string(),
            "PromptPassword { ssid: \"Guest_Network\", error: Some(\"Incorrect password. Try again.\"), was_saved: true }".to_string(),
            "Publish".to_string(),
        ]
    );
}

#[test]
fn a_failed_connect_of_another_kind_only_tells() {
    let mut o = Orchestrator::new(mock());
    let commands = o.handle_event(UiEvent::ConnectDone {
        ssid: "Guest_Network".to_string(),
        result: Err(unavailable("SSID not found")),
        from_password: true,
        was_saved: true,
    });
    assert!(!o.has_failed("Guest_Network"));
    assert_eq!(
        show(&commands),
        vec![
            "Loading(false)".to_string(),
            "Status { kind: Error, text: \"Connect failed: SSID not found\" }".to_string(),
            "Publish".to_string(),
        ]
    );
}

#[test]
fn a_disconnect_clears_the_overlay_either_way() {
    for ok in [true, false] {
        let mut o = Orchestrator::new(mock());
        o.handle_event(UiEvent::ConnectDone {
            ssid: "Guest_Network".to_string(),
            result: Err(unavailable("bad psk")),
            from_password: true,
            was_saved: true,
        });
        assert!(o.has_failed("Guest_Network"));
        o.set_optimistic_active(Some("Guest_Network".to_string()));
        let result = if ok { Ok(()) } else { Err(unavailable("No active connection")) };
        let commands =
            o.handle_event(UiEvent::DisconnectDone { ssid: "Guest_Network".to_string(), result });
        assert!(!o.has_failed("Guest_Network"));
        assert!(o.optimistic_active().is_none());
        assert!(o.pending().is_none());
        let expected = if ok {
            "Status { kind: Success, text: \"Disconnected from Guest_Network\" }"
        } else {
            "Status { kind: Error, text: \"Disconnect failed: No active connection\" }"
        };
        assert_eq!(show(&commands)[1], expected);
    }
}

#[test]
fn a_hidden_connect_is_pending_as_unsaved_with_password() {
    let mut o = Orchestrator::new(mock());
    let commands = o.handle_event(UiEvent::HiddenDone {
        ssid: "Cellar".to_string(),
        result: Ok(None),
    });
    let pending = o.pending().clone().unwrap();
    assert_eq!(pending.ssid, "Cellar");
    assert!(!pending.was_saved);
    assert!(pending.from_password);
    assert_eq!(reloads(&commands), 1);
    let commands = o.handle_event(UiEvent::HiddenDone {
        ssid: "Cellar".to_string(),
        result: Err(unavailable("No Wi\u{2011}Fi device found")),
    });
    assert_eq!(
        show(&commands)[1],
        "Status { kind: Error, text: \"Hidden connect failed: No Wi\u{2011}Fi device found.\" }"
    );
    assert!(o.pending().is_some());
}

#[test]
fn a_failed_reload_falls_back_to_a_dark_radio() {
    let mut o = Orchestrator::new(mock());
    let commands = o.handle_event(UiEvent::StateLoaded(Err(unavailable("bus is gone"))));
    assert!(!o.snapshot().wifi_enabled);
    assert!(o.snapshot().networks.is_empty());
    assert_eq!(
        show(&commands),
        vec![
            "Status { kind: Error, text: \"NetworkManager error: Unavailable(\\\"bus is gone\\\")\" }".to_string(),
            "SetToggle(false)".to_string(),
            "Publish".to_string(),
        ]
    );
    let state = fallback_state(unavailable("x"));
    assert!(!state.wifi_enabled && state.networks.is_empty());
}

#[test]
fn scan_and_radio_results_are_told() {
    let mut o = Orchestrator::new(mock());
    let commands = o.handle_event(UiEvent::ScanDone(Ok(())));
    assert_eq!(
        show(&commands),
        vec![
            "Loading(false)".to_string(),
            "Scanning(false)".to_string(),
            "Status { kind: Info, text: \"Scan complete\" }".to_string(),
            "Publish".to_string(),
        ]
    );
    let commands = o.handle_event(UiEvent::ScanDone(Err(unavailable("no agents"))));
    assert_eq!(
        show(&commands)[2],
        "Status { kind: Error, text: \"Scan failed: No secrets agent. Start a polkit agent (e.g. polkit-gnome).\" }"
    );
    let commands = o.handle_event(UiEvent::WifiSet { enabled: true, result: Ok(()) });
    assert_eq!(show(&commands)[1], "Status { kind: Success, text: \"Wi\u{2011}Fi enabled\" }");
    assert_eq!(reloads(&commands), 0);
    let commands = o.handle_event(UiEvent::WifiSet { enabled: false, result: Ok(()) });
    assert_eq!(show(&commands)[1], "Status { kind: Success, text: \"Wi\u{2011}Fi disabled\" }");
    let commands =
        o.handle_event(UiEvent::WifiSet { enabled: true, result: Err(unavailable("rfkill")) });
    assert_eq!(
        show(&commands)[1],
        "Status { kind: Error, text: \"Failed to set Wi\u{2011}Fi: rfkill\" }"
    );
    assert_eq!(reloads(&commands), 1);
}

#[test]
fn a_failed_cleanup_is_told() {
    let mut o = Orchestrator::new(mock());
    let commands = o.handle_event(UiEvent::CleanupResult {
        ssid: "Guest_Network".to_string(),
        result: Err(unavailable("Connection not found")),
    });
    assert_eq!(
        show(&commands),
        vec![
            "Status { kind: Error, text: \"Failed to remove saved profile for Guest_Network: Connection not found\" }".to_string(),
            "Publish".to_string(),
        ]
    );
    let commands = o.handle_event(UiEvent::CleanupResult {
        ssid: "Guest_Network".to_string(),
        result: Ok(()),
    });
    assert_eq!(show(&commands), vec!["Publish".to_string()]);
}

#[test]
fn loading_counts_down_to_zero_and_stays_there() {
    let mut t = LoadingTracker::new();
    assert!(!t.is_active());
    t.start();
    t.start();
    assert!(t.is_active());
    t.stop();
    assert!(t.is_active());
    t.stop();
    assert!(!t.is_active());
    t.stop();
    assert!(!t.is_active());
    assert!(matches!(StatusKind::Info, StatusKind::Info));
}

#[test]
fn the_snapshot_answers_for_saved_and_secured() {
    let state = mock();
    assert!(knows_as_secured(&state.networks, "Guest_Network"));
    assert!(!knows_as_secured(&state.networks, "Coffee_Shop_Free"));
    assert!(!knows_as_secured(&state.networks, "Unknown"));
    assert!(knows_as_saved(&state.networks, "Office_Main"));
    assert!(!knows_as_saved(&state.networks, "Guest_Network"));
    assert!(!knows_as_saved(&state.networks, "Unknown"));
}

#[test]
fn waiting_events_are_applied_in_their_order() {
    let events = || {
        vec![
            UiEvent::RefreshRequested,
            UiEvent::ConnectDone {
                ssid: "Guest_Network".to_string(),
                result: Ok(Some("/ac/9".to_string())),
                from_password: true,
                was_saved: false,
            },
            UiEvent::RefreshRequested,
            UiEvent::ActiveState { ssid: "Guest_Network".to_string(), state: 4 },
            UiEvent::ActiveState { ssid: "Guest_Network".to_string(), state: 4 },
        ]
    };
    let mut together = Orchestrator::new(mock());
    let all = together.handle_events(events());
    let mut one_by_one = Orchestrator::new(mock());
    let mut each = Vec::new();
    for event in events() {
        each.extend(one_by_one.handle_event(event));
    }
    assert_eq!(show(&all), show(&each));
    assert_eq!(all.len(), 1 + 3 + 0 + 5 + 0);
    assert_eq!(forgets(&all), vec!["Guest_Network".to_string()]);
    assert!(together.has_failed("Guest_Network"));
    assert!(together.pending().is_none());
    assert!(together.refresh_scheduled());
    assert!(Orchestrator::new(mock()).handle_events(Vec::new()).is_empty());
}

#[test]
fn a_refused_password_is_called_wrong_whatever_the_wording() {
    for words in ["Secrets were required, but not provided", "no wireless-security setting"] {
        let mut o = Orchestrator::new(mock());
        let commands = o.handle_event(UiEvent::ConnectDone {
            ssid: "Guest_Network".to_string(),
            result: Err(unavailable(words)),
            from_password: true,
            was_saved: false,
        });
        assert!(o.has_failed("Guest_Network"));
        assert!(o.pending().is_none());
        assert_eq!(
            show(&commands),
            vec![
                "Loading(false)".to_string(),
                format!("Status {{ kind: Error, text: \"Connect failed: {words}\" }}"),
                "PromptPassword { ssid: \"Guest_Network\", error: Some(\"Incorrect password. Try again.\"), was_saved: true }".to_string(),
                "Publish".to_string(),
            ]
        );
        assert!(!commands.iter().any(|c| matches!(c, Command::Dispatch(_))));
    }
}
