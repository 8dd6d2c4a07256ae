use yufi::backend::mock::MockBackend;
use yufi::backend::nm::NetworkManagerBackend;
use yufi::backend::{Backend, BackendError};
use yufi::models::{NetworkAction, NetworkDetails};

#[test]
fn mock_state_lists_five_networks() {
    let state = MockBackend::new().mock_state();
    assert!(state.wifi_enabled);
    let names: Vec<&str> = state.networks.iter().map(|n| n.ssid.as_str()).collect();
    assert_eq!(
        names,
        vec!["Home_Fiber_5G", "Office_Main", "Coffee_Shop_Free", "Guest_Network", "Linksys_502"]
    );
    let strengths: Vec<u8> = state.networks.iter().map(|n| n.strength).collect();
    assert_eq!(strengths, vec![90, 60, 55, 48, 15]);
    assert!(state.networks[0].is_active);
    assert_eq!(state.networks[0].action, NetworkAction::Disconnect);
    assert_eq!(state.networks[0].signal_icon, "network-wireless-signal-excellent");
    assert_eq!(state.networks[3].action, NetworkAction::Connect);
    assert!(state.networks[3].is_secure);
    assert!(!state.networks[3].is_saved);
    assert_eq!(state.networks[4].signal_icon, "network-wireless-signal-none");
    let icons: Vec<&str> = state.networks.iter().map(|n| n.signal_icon).collect();
    assert_eq!(
        icons,
        vec![
            "network-wireless-signal-excellent",
            "network-wireless-signal-ok",
            "network-wireless-signal-ok",
            "network-wireless-signal-ok",
            "network-wireless-signal-none",
        ]
    );
    for network in state.networks.iter().skip(1) {
        assert_eq!(network.action, NetworkAction::Connect);
    }
}

#[test]
fn mock_backend_accepts_everything() {
    let backend = MockBackend::new();
    assert_eq!(backend.load_state().unwrap().networks.len(), 5);
    assert!(backend.set_wifi_enabled(false).is_ok());
    assert!(backend.request_scan().is_ok());
    assert!(backend.connect_network("Guest_Network", Some("hunter2")).unwrap().is_none());
    assert!(backend.disconnect_network("Home_Fiber_5G").is_ok());
    assert!(backend.connect_hidden("Hidden", "wpa-psk", None).unwrap().is_none());
    assert!(backend.set_ip_dns("Office_Main", Some("10.0.0.2"), Some(24), None, None).is_ok());
    assert!(backend.get_saved_password("Office_Main").unwrap().is_none());
    assert!(backend.set_autoreconnect("Office_Main", true).is_ok());
    assert!(backend.forget_network("Office_Main").is_ok());
    let details = backend.get_network_details("Office_Main").unwrap();
    assert!(details.ip_address.is_none());
    assert!(details.prefix.is_none());
    assert!(details.gateway.is_none());
    assert!(details.dns_servers.is_empty());
    assert!(details.auto_reconnect.is_none());
}

#[test]
fn default_details_are_empty() {
    let details = NetworkDetails::default();
    assert!(details.ip_address.is_none());
    assert!(details.dns_servers.is_empty());
    let copy = details.clone();
    assert!(copy.auto_reconnect.is_none());
}

#[test]
fn backend_error_keeps_its_words() {
    let err = BackendError::Unavailable("No active connection".to_string());
    assert_eq!(err.text(), "No active connection");
    assert_eq!(err.clone().text(), "No active connection");
}

#[test]
fn network_manager_backend_can_be_made() {
    let _backend = NetworkManagerBackend::new();
}
