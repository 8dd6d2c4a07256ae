use yufi::backend::mock::MockBackend;
use yufi::backend::BackendError;
use yufi::models::{NetworkAction, NetworkDetails};
use yufi::events::StatusKind;
use yufi::ssid_set::SsidSet;
use yufi::view::{
    build_row, details_form, effective_action_for, empty_label_for, filter_state,
    join_with_commas, populate_network_list, reveal_password, row_name, show_status,
    ssid_from_row, Reveal, RowControl, LOCK_CLOSED, LOCK_OPEN,
};

#[test]
fn radio_off_offers_no_action() {
    let mut state = MockBackend::new().mock_state();
    state.wifi_enabled = false;
    let n = state.networks[0].clone();
    assert_eq!(effective_action_for(&state, &n, None), NetworkAction::NoAction);
    assert_eq!(effective_action_for(&state, &n, Some("Home_Fiber_5G")), NetworkAction::NoAction);
}

#[test]
fn optimistic_ssid_overrides_the_snapshot() {
    let state = MockBackend::new().mock_state();
    let home = state.networks[0].clone();
    let guest = state.networks[3].clone();
    assert_eq!(effective_action_for(&state, &home, None), NetworkAction::Disconnect);
    assert_eq!(effective_action_for(&state, &guest, None), NetworkAction::Connect);
    assert_eq!(
        effective_action_for(&state, &home, Some("Guest_Network")),
        NetworkAction::Connect
    );
    assert_eq!(
        effective_action_for(&state, &guest, Some("Guest_Network")),
        NetworkAction::Disconnect
    );
    let office = state.networks[1].clone();
    assert_eq!(effective_action_for(&state, &office, None), NetworkAction::Connect);
}

#[test]
fn filter_keeps_the_names_that_hold_the_query() {
    let state = MockBackend::new().mock_state();
    let names = |q: &str| -> Vec<String> {
        filter_state(&state, q).networks.iter().map(|n| n.ssid.clone()).collect()
    };
    assert_eq!(names("").len(), 5);
    assert_eq!(names("   ").len(), 5);
    assert_eq!(names("OFFICE"), vec!["Office_Main"]);
    assert_eq!(names("  net "), vec!["Guest_Network"]);
    assert_eq!(names("_"), vec![
        "Home_Fiber_5G",
        "Office_Main",
        "Coffee_Shop_Free",
        "Guest_Network",
        "Linksys_502"
    ]);
    assert_eq!(names("f"), vec!["Home_Fiber_5G", "Office_Main", "Coffee_Shop_Free"]);
    assert!(names("zzz").is_empty());
    assert!(filter_state(&state, "x").wifi_enabled);
}

#[test]
fn empty_label_says_why_the_list_is_empty() {
    let mut state = MockBackend::new().mock_state();
    assert_eq!(empty_label_for(&state, "", 5), None);
    assert_eq!(empty_label_for(&state, "zzz", 0), Some("No matching networks"));
    assert_eq!(empty_label_for(&state, "   ", 0), None);
    assert_eq!(empty_label_for(&state, "zzz", 1), None);
    state.networks.clear();
    assert_eq!(empty_label_for(&state, "zzz", 0), Some("No networks found"));
    state.wifi_enabled = false;
    assert_eq!(empty_label_for(&state, "", 0), Some("Wi-Fi is disabled"));
}

#[test]
fn rows_show_the_overlay() {
    let state = MockBackend::new().mock_state();
    let mut failed = SsidSet::new();
    failed.insert("Office_Main".to_string());
    let rows = populate_network_list(&state, None, Some("Guest_Network"), &failed);
    assert_eq!(rows.len(), 5);
    assert_eq!(rows[0].ssid, "Home_Fiber_5G");
    assert_eq!(rows[0].control, RowControl::DisconnectButton);
    assert_eq!(rows[0].lock_icon, LOCK_CLOSED);
    assert_eq!(rows[0].signal_icon, "network-wireless-signal-excellent");
    assert!(rows[0].is_saved);
    assert!(!rows[0].has_error);
    assert_eq!(rows[1].control, RowControl::ConnectButton);
    assert_eq!(rows[1].signal_icon, "network-wireless-signal-ok");
    assert!(rows[1].has_error);
    assert_eq!(rows[2].lock_icon, LOCK_OPEN);
    assert_eq!(rows[3].control, RowControl::Connecting);
    assert_eq!(LOCK_CLOSED, "changes-prevent-symbolic");
    assert_eq!(LOCK_OPEN, "changes-allow-symbolic");
    let rows = populate_network_list(&state, Some("Linksys_502"), None, &SsidSet::new());
    assert_eq!(rows[0].control, RowControl::ConnectButton);
    assert_eq!(rows[4].control, RowControl::DisconnectButton);
    let row = build_row(&state, &state.networks[3], None, None, &SsidSet::new());
    assert_eq!(row.control, RowControl::ConnectButton);
    assert!(row.is_secure);
}

#[test]
fn notes_and_empty_messages_are_not_shown() {
    assert_eq!(show_status(StatusKind::Info, "Scan complete"), None);
    assert_eq!(show_status(StatusKind::Error, ""), None);
    assert_eq!(show_status(StatusKind::Success, ""), None);
    let shown = show_status(StatusKind::Error, "Connect failed").unwrap();
    assert_eq!(shown.timeout_ms, 5000);
    assert_eq!(shown.style, "yufi-status-error");
    let shown = show_status(StatusKind::Success, "Saved network settings").unwrap();
    assert_eq!(shown.timeout_ms, 3000);
    assert_eq!(shown.style, "yufi-status-ok");
}

#[test]
fn row_names_lead_back_to_the_ssid() {
    assert_eq!(row_name("Guest_Network"), "ssid:Guest_Network");
    assert_eq!(ssid_from_row("ssid:Guest_Network").as_deref(), Some("Guest_Network"));
    assert_eq!(ssid_from_row("ssid:").as_deref(), Some(""));
    assert_eq!(ssid_from_row("ssid"), None);
    assert_eq!(ssid_from_row("SSID:x"), None);
    assert_eq!(ssid_from_row(""), None);
    assert_eq!(ssid_from_row(&row_name("a:b é")).as_deref(), Some("a:b é"));
}

#[test]
fn details_form_shows_what_is_set_by_hand() {
    let form = details_form(&NetworkDetails::default());
    assert_eq!(form.ip_text, "");
    assert_eq!(form.gateway_text, "");
    assert_eq!(form.dns_text, "");
    assert!(form.use_dhcp);
    assert!(form.auto_reconnect);
    let details = NetworkDetails {
        ip_address: Some("10.0.0.2".to_string()),
        prefix: Some(24),
        gateway: None,
        dns_servers: vec!["1.1.1.1".to_string(), "8.8.8.8".to_string()],
        auto_reconnect: Some(false),
    };
    let form = details_form(&details);
    assert_eq!(form.ip_text, "10.0.0.2");
    assert_eq!(form.dns_text, "1.1.1.1, 8.8.8.8");
    assert!(!form.use_dhcp);
    assert!(!form.auto_reconnect);
    assert_eq!(join_with_commas(&vec!["a".to_string()]), "a");
    assert_eq!(join_with_commas(&Vec::new()), "");
}

#[test]
fn reveal_password_tells_the_three_cases_apart() {
    assert!(matches!(reveal_password(Ok(Some("hunter2".to_string()))), Reveal::Show(p) if p == "hunter2"));
    assert!(matches!(reveal_password(Ok(None)), Reveal::Nothing));
    let failed = reveal_password(Err(BackendError::Unavailable("No agents".to_string())));
    assert!(matches!(
        failed,
        Reveal::Failed(m) if m == "Password unavailable: no secrets agent. Start a polkit agent (e.g. polkit-gnome)."
    ));
}
