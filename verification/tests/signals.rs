use yufi::backend::values::Entry;
use yufi::events::UiEvent;
use yufi::signals::{
    activation_state_from, device_change_is_relevant, manager_change_is_relevant, watch_event,
    watch_notice,
};
use yufi::watcher::{is_terminal, ActivationState, Watcher, STATE_ACTIVATED, STATE_DEACTIVATED};
use zbus::zvariant::{OwnedValue, Str};

fn changed(keys: &[&str]) -> Vec<Entry> {
    keys.iter().map(|k| Entry { key: k.to_string(), value: OwnedValue::from(true) }).collect()
}

fn state(code: u32) -> Vec<Entry> {
    vec![Entry { key: "State".to_string(), value: OwnedValue::from(code) }]
}

#[test]
fn manager_notices_matter_for_three_properties() {
    let nm = "org.freedesktop.NetworkManager";
    assert!(manager_change_is_relevant(nm, &changed(&["ActiveConnections"])));
    assert!(manager_change_is_relevant(nm, &changed(&["Version", "WirelessEnabled"])));
    assert!(manager_change_is_relevant(nm, &changed(&["PrimaryConnection"])));
    assert!(!manager_change_is_relevant(nm, &changed(&["Version"])));
    assert!(!manager_change_is_relevant(nm, &changed(&[])));
    assert!(!manager_change_is_relevant(
        "org.freedesktop.NetworkManager.Device",
        &changed(&["ActiveConnections"])
    ));
}

#[test]
fn device_notices_matter_for_three_properties() {
    let wireless = "org.freedesktop.NetworkManager.Device.Wireless";
    let device = "org.freedesktop.NetworkManager.Device";
    assert!(device_change_is_relevant(wireless, &changed(&["LastScan"])));
    assert!(device_change_is_relevant(wireless, &changed(&["ActiveAccessPoint"])));
    assert!(device_change_is_relevant(device, &changed(&["ActiveConnection"])));
    assert!(!device_change_is_relevant(device, &changed(&["Bitrate"])));
    assert!(!device_change_is_relevant("org.freedesktop.NetworkManager", &changed(&["LastScan"])));
}

#[test]
fn the_state_is_read_from_notices_of_the_active_connection() {
    let active = "org.freedesktop.NetworkManager.Connection.Active";
    assert_eq!(activation_state_from(active, &state(2)), Some(2));
    assert_eq!(activation_state_from(active, &changed(&["Vpn"])), None);
    assert_eq!(activation_state_from("org.freedesktop.NetworkManager", &state(2)), None);
    let odd = vec![Entry { key: "State".to_string(), value: OwnedValue::from(Str::from("2")) }];
    assert_eq!(activation_state_from(active, &odd), None);
}

#[test]
fn states_have_the_numbers_of_the_service() {
    assert_eq!(ActivationState::from_code(0), Some(ActivationState::Unknown));
    assert_eq!(ActivationState::from_code(1), Some(ActivationState::Activating));
    assert_eq!(ActivationState::from_code(2), Some(ActivationState::Activated));
    assert_eq!(ActivationState::from_code(3), Some(ActivationState::Deactivating));
    assert_eq!(ActivationState::from_code(4), Some(ActivationState::Deactivated));
    assert_eq!(ActivationState::from_code(5), None);
    for code in 0..5 {
        let s = ActivationState::from_code(code).unwrap();
        assert_eq!(s.code(), code);
        assert_eq!(s.is_terminal(), code == 2 || code == 4);
        assert_eq!(is_terminal(code), code == 2 || code == 4);
    }
    assert_eq!(STATE_ACTIVATED, 2);
    assert_eq!(STATE_DEACTIVATED, 4);
    assert!(!is_terminal(7));
}

#[test]
fn a_watcher_reports_until_the_first_final_state() {
    let mut w = Watcher::new("Guest_Network".to_string());
    assert_eq!(w.ssid(), "Guest_Network");
    let mut seen = Vec::new();
    for code in [1, 1, 0, 2, 3, 4, 2] {
        if let Some(UiEvent::ActiveState { ssid, state }) = watch_event(&mut w, code) {
            assert_eq!(ssid, "Guest_Network");
            seen.push(state);
        }
    }
    assert_eq!(seen, vec![1, 1, 0, 2]);
    assert!(w.is_finished());
}

#[test]
fn a_watcher_that_starts_at_a_final_state_reports_once() {
    let mut w = Watcher::new("Cafe".to_string());
    assert_eq!(w.observe(4), Some(4));
    assert!(w.is_finished());
    assert_eq!(w.observe(1), None);
    assert_eq!(w.observe(2), None);
}

#[test]
fn a_watcher_passes_over_notices_that_tell_of_no_state() {
    let active = "org.freedesktop.NetworkManager.Connection.Active";
    let mut w = Watcher::new("Cafe".to_string());
    assert!(watch_notice(&mut w, active, &changed(&["Vpn"])).is_none());
    assert!(watch_notice(&mut w, "org.freedesktop.DBus.Properties", &state(2)).is_none());
    assert!(!w.is_finished());
    assert!(matches!(
        watch_notice(&mut w, active, &state(1)),
        Some(UiEvent::ActiveState { state: 1, .. })
    ));
    assert!(matches!(
        watch_notice(&mut w, active, &state(4)),
        Some(UiEvent::ActiveState { state: 4, .. })
    ));
    assert!(w.is_finished());
    assert!(watch_notice(&mut w, active, &state(2)).is_none());
}
