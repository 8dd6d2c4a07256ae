use yufi::backend::mock::MockBackend;
use yufi::backend::BackendError;
use yufi::events::{Command, Intent, UiEvent};
use yufi::orchestrator::{Orchestrator};

fn show(commands: &[Command]) -> Vec<String> {
    commands.iter().map(|c| format!("{c:?}")).collect()
}

fn fresh() -> Orchestrator {
    Orchestrator::new(MockBackend::new().mock_state())
}

#[test]
fn toggling_the_radio_dispatches_the_switch() {
    let mut o = fresh();
    let commands = o.submit_intent(Intent::ToggleRadio(false));
    assert_eq!(show(&commands), vec!["Loading(true)", "Dispatch(SetRadioEnabled(false))"]);
    assert!(o.is_loading());
    o.handle_event(UiEvent::WifiSet { enabled: false, result: Ok(()) });
    assert!(!o.is_loading());
}

#[test]
fn asking_for_a_scan_shows_it_and_dispatches() {
    let mut o = fresh();
    let commands = o.submit_intent(Intent::RequestScan);
    assert_eq!(
        show(&commands),
        vec![
            "Loading(true)",
            "Scanning(true)",
            "Status { kind: Info, text: \"Scan requested\" }",
            "Dispatch(RequestScan)"
        ]
    );
}

#[test]
fn a_saved_network_is_connected_to_at_once() {
    let mut o = fresh();
    let commands =
        o.submit_intent(Intent::Connect { ssid: "Office_Main".to_string(), is_saved: true });
    assert_eq!(
        show(&commands),
        vec![
            "Loading(true)",
            "Dispatch(Connect { ssid: \"Office_Main\", password: None, was_saved: true })"
        ]
    );
}

#[test]
fn an_unsaved_network_asks_for_the_password_first() {
    let mut o = fresh();
    let commands =
        o.submit_intent(Intent::Connect { ssid: "Guest_Network".to_string(), is_saved: false });
    assert_eq!(
        show(&commands),
        vec!["PromptPassword { ssid: \"Guest_Network\", error: None, was_saved: false }"]
    );
    assert!(!o.is_loading());
}

#[test]
fn a_submitted_password_is_handed_on_as_typed() {
    let mut o = fresh();
    let commands = o.submit_intent(Intent::SubmitPassword {
        ssid: "Guest_Network".to_string(),
        text: " hunter2 ".to_string(),
        was_saved: false,
    });
    assert_eq!(
        show(&commands),
        vec![
            "Loading(true)",
            "Dispatch(Connect { ssid: \"Guest_Network\", password: Some(\" hunter2 \"), was_saved: false })"
        ]
    );
    let commands = o.submit_intent(Intent::SubmitPassword {
        ssid: "Coffee_Shop_Free".to_string(),
        text: "   ".to_string(),
        was_saved: true,
    });
    assert_eq!(
        show(&commands)[1],
        "Dispatch(Connect { ssid: \"Coffee_Shop_Free\", password: None, was_saved: true })"
    );
}

#[test]
fn disconnecting_dispatches() {
    let mut o = fresh();
    let commands = o.submit_intent(Intent::Disconnect("Home_Fiber_5G".to_string()));
    assert_eq!(show(&commands), vec!["Loading(true)", "Dispatch(Disconnect(\"Home_Fiber_5G\"))"]);
}

#[test]
fn opening_a_row_shows_details_or_the_password_dialog() {
    let mut o = fresh();
    assert_eq!(
        show(&o.submit_intent(Intent::OpenNetwork("Office_Main".to_string()))),
        vec!["ShowDetails(\"Office_Main\")"]
    );
    assert_eq!(
        show(&o.submit_intent(Intent::OpenNetwork("Guest_Network".to_string()))),
        vec!["PromptPassword { ssid: \"Guest_Network\", error: None, was_saved: false }"]
    );
    // A saved network whose last attempt failed asks for the password again.
    o.handle_event(UiEvent::ConnectDone {
        ssid: "Office_Main".to_string(),
        result: Err(BackendError::Unavailable("wrong psk".to_string())),
        from_password: true,
        was_saved: true,
    });
    assert_eq!(
        show(&o.submit_intent(Intent::OpenNetwork("Office_Main".to_string()))),
        vec!["PromptPassword { ssid: \"Office_Main\", error: Some(\"Incorrect password. Try again.\"), was_saved: false }"]
    );
}

#[test]
fn a_hidden_network_needs_a_name() {
    let mut o = fresh();
    let commands = o.submit_intent(Intent::ConnectHidden {
        ssid: "  ".to_string(),
        password: "secret".to_string(),
    });
    assert_eq!(show(&commands), vec!["DialogError(\"SSID is required\")"]);
    assert!(!o.is_loading());
    let commands = o.submit_intent(Intent::ConnectHidden {
        ssid: "Cellar".to_string(),
        password: String::new(),
    });
    assert_eq!(
        show(&commands),
        vec![
            "Loading(true)",
            "Dispatch(ConnectHidden { ssid: \"Cellar\", password: None })",
            "CloseDialog"
        ]
    );
    let commands = o.submit_intent(Intent::ConnectHidden {
        ssid: "Cellar".to_string(),
        password: " ".to_string(),
    });
    assert_eq!(
        show(&commands)[1],
        "Dispatch(ConnectHidden { ssid: \"Cellar\", password: Some(\" \") })"
    );
}

#[test]
fn settings_are_written_by_hand_only_on_request() {
    let mut o = fresh();
    let save = |use_manual: bool| Intent::SaveSettings {
        ssid: "Office_Main".to_string(),
        ip_text: "10.0.0.2/16".to_string(),
        gateway_text: "10.0.0.1".to_string(),
        dns_text: "1.1.1.1".to_string(),
        use_manual,
        auto_reconnect: false,
    };
    assert_eq!(
        show(&o.submit_intent(save(true))),
        vec!["ApplySettings { ssid: \"Office_Main\", ip: Some(\"10.0.0.2\"), prefix: Some(16), gateway: Some(\"10.0.0.1\"), dns: Some([\"1.1.1.1\"]), auto_reconnect: false }"]
    );
    assert_eq!(
        show(&o.submit_intent(save(false))),
        vec!["ApplySettings { ssid: \"Office_Main\", ip: None, prefix: Some(16), gateway: None, dns: None, auto_reconnect: false }"]
    );
    let bad = Intent::SaveSettings {
        ssid: "Office_Main".to_string(),
        ip_text: "10.0.0".to_string(),
        gateway_text: String::new(),
        dns_text: String::new(),
        use_manual: true,
        auto_reconnect: true,
    };
    assert_eq!(show(&o.submit_intent(bad)), vec!["DialogError(\"Invalid IP address\")"]);
}

#[test]
fn saved_settings_are_told_and_reloaded() {
    let mut o = fresh();
    let err = |m: &str| Err(BackendError::Unavailable(m.to_string()));
    assert_eq!(
        show(&o.submit_intent(Intent::SettingsSaved { ip_result: Ok(()), auto_result: Ok(()) })),
        vec![
            "Status { kind: Success, text: \"Saved network settings\" }",
            "CloseDialog",
            "Dispatch(ReloadState)"
        ]
    );
    assert_eq!(
        show(&o.submit_intent(Intent::SettingsSaved { ip_result: err("a"), auto_result: err("b") })),
        vec![
            "Status { kind: Error, text: \"Failed to set IP/DNS: Unavailable(\\\"a\\\")\" }",
            "Status { kind: Error, text: \"Failed to set auto\u{2011}reconnect: Unavailable(\\\"b\\\")\" }",
            "CloseDialog",
            "Dispatch(ReloadState)"
        ]
    );
    assert_eq!(
        show(&o.submit_intent(Intent::SettingsSaved { ip_result: Ok(()), auto_result: err("b") }))
            .len(),
        3
    );
}

#[test]
fn a_forgotten_profile_no_longer_counts_as_failed() {
    let mut o = fresh();
    o.handle_event(UiEvent::ConnectDone {
        ssid: "Office_Main".to_string(),
        result: Err(BackendError::Unavailable("wrong psk".to_string())),
        from_password: true,
        was_saved: true,
    });
    assert!(o.has_failed("Office_Main"));
    let commands = o.submit_intent(Intent::ProfileForgotten {
        ssid: "Office_Main".to_string(),
        result: Err(BackendError::Unavailable("busy".to_string())),
    });
    assert_eq!(
        show(&commands),
        vec!["Status { kind: Error, text: \"Failed to forget: Unavailable(\\\"busy\\\")\" }"]
    );
    assert!(o.has_failed("Office_Main"));
    let commands = o.submit_intent(Intent::ProfileForgotten {
        ssid: "Office_Main".to_string(),
        result: Ok(()),
    });
    assert_eq!(
        show(&commands),
        vec![
            "Status { kind: Success, text: \"Network forgotten\" }",
            "CloseDialog",
            "Dispatch(ReloadState)"
        ]
    );
    assert!(!o.has_failed("Office_Main"));
}
