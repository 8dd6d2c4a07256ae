use std::cell::RefCell;
use yufi::backend::mock::MockBackend;
use yufi::backend::{Backend, BackendError, BackendResult};
use yufi::dispatcher::{failure_event, perform, HIDDEN_SECURITY};
use yufi::models::{AppState, NetworkDetails};
use yufi::events::{Operation, UiEvent};

struct Recorder {
    calls: RefCell<Vec<String>>,
}

impl Recorder {
    fn new() -> Self {
        Recorder { calls: RefCell::new(Vec::new()) }
    }

    fn note(&self, call: String) {
        self.calls.borrow_mut().push(call);
    }
}

impl Backend for Recorder {
    fn load_state(&self) -> BackendResult<AppState> {
        self.note("load_state".to_string());
        Ok(MockBackend::new().mock_state())
    }

    fn set_wifi_enabled(&self, enabled: bool) -> BackendResult<()> {
        self.note(format!("set_wifi_enabled {enabled}"));
        Ok(())
    }

    fn request_scan(&self) -> BackendResult<()> {
        self.note("request_scan".to_string());
        Err(BackendError::Unavailable("busy".to_string()))
    }

    fn connect_network(&self, ssid: &str, password: Option<&str>) -> BackendResult<Option<String>> {
        self.note(format!("connect_network {ssid} {password:?}"));
        Ok(Some("/ac/1".to_string()))
    }

    fn disconnect_network(&self, ssid: &str) -> BackendResult<()> {
        self.note(format!("disconnect_network {ssid}"));
        Ok(())
    }

    fn connect_hidden(
        &self,
        ssid: &str,
        security: &str,
        password: Option<&str>,
    ) -> BackendResult<Option<String>> {
        self.note(format!("connect_hidden {ssid} {security} {password:?}"));
        Ok(None)
    }

    fn get_network_details(&self, _ssid: &str) -> BackendResult<NetworkDetails> {
        Ok(NetworkDetails::default())
    }

    fn set_ip_dns(
        &self,
        _ssid: &str,
        _ip: Option<&str>,
        _prefix: Option<u32>,
        _gateway: Option<&str>,
        _dns: Option<Vec<String>>,
    ) -> BackendResult<()> {
        Ok(())
    }

    fn get_saved_password(&self, _ssid: &str) -> BackendResult<Option<String>> {
        Ok(None)
    }

    fn set_autoreconnect(&self, _ssid: &str, _enabled: bool) -> BackendResult<()> {
        Ok(())
    }

    fn forget_network(&self, ssid: &str) -> BackendResult<()> {
        self.note(format!("forget_network {ssid}"));
        Ok(())
    }
}

#[test]
fn each_operation_calls_its_method_and_gives_its_event() {
    let backend = Recorder::new();
    let events = vec![
        perform(&backend, Operation::RequestScan),
        perform(&backend, Operation::SetRadioEnabled(true)),
        perform(
            &backend,
            Operation::Connect {
                ssid: "Guest_Network".to_string(),
                password: Some("hunter2".to_string()),
                was_saved: false,
            },
        ),
        perform(
            &backend,
            Operation::Connect {
                ssid: "Office_Main".to_string(),
                password: None,
                was_saved: true,
            },
        ),
        perform(&backend, Operation::Disconnect("Home_Fiber_5G".to_string())),
        perform(
            &backend,
            Operation::ConnectHidden { ssid: "Cellar".to_string(), password: None },
        ),
        perform(&backend, Operation::ReloadState),
        perform(&backend, Operation::ForgetProfile("Guest_Network".to_string())),
    ];
    assert_eq!(
        *backend.calls.borrow(),
        vec![
            "request_scan",
            "set_wifi_enabled true",
            "connect_network Guest_Network Some(\"hunter2\")",
            "connect_network Office_Main None",
            "disconnect_network Home_Fiber_5G",
            "connect_hidden Cellar wpa-psk None",
            "load_state",
            "forget_network Guest_Network",
        ]
    );
    assert_eq!(HIDDEN_SECURITY, "wpa-psk");
    assert!(matches!(&events[0], UiEvent::ScanDone(Err(_))));
    assert!(matches!(&events[1], UiEvent::WifiSet { enabled: true, result: Ok(()) }));
    assert!(matches!(
        &events[2],
        UiEvent::ConnectDone { ssid, result: Ok(Some(path)), from_password: true, was_saved: false }
            if ssid == "Guest_Network" && path == "/ac/1"
    ));
    assert!(matches!(
        &events[3],
        UiEvent::ConnectDone { ssid, from_password: false, was_saved: true, .. } if ssid == "Office_Main"
    ));
    assert!(matches!(&events[4], UiEvent::DisconnectDone { ssid, result: Ok(()) } if ssid == "Home_Fiber_5G"));
    assert!(matches!(&events[5], UiEvent::HiddenDone { ssid, result: Ok(None) } if ssid == "Cellar"));
    assert!(matches!(&events[6], UiEvent::StateLoaded(Ok(state)) if state.networks.len() == 5));
    assert!(matches!(&events[7], UiEvent::CleanupResult { ssid, result: Ok(()) } if ssid == "Guest_Network"));
}

#[test]
fn a_broken_worker_still_gives_a_failure_event() {
    let gone = || BackendError::Unavailable("service unavailable".to_string());
    assert!(matches!(
        failure_event(Operation::RequestScan, gone()),
        UiEvent::ScanDone(Err(e)) if e.text() == "service unavailable"
    ));
    assert!(matches!(
        failure_event(Operation::SetRadioEnabled(false), gone()),
        UiEvent::WifiSet { enabled: false, result: Err(_) }
    ));
    assert!(matches!(
        failure_event(
            Operation::Connect { ssid: "a".to_string(), password: Some("p".to_string()), was_saved: true },
            gone()
        ),
        UiEvent::ConnectDone { ssid, result: Err(_), from_password: true, was_saved: true } if ssid == "a"
    ));
    assert!(matches!(
        failure_event(Operation::Disconnect("a".to_string()), gone()),
        UiEvent::DisconnectDone { ssid, result: Err(_) } if ssid == "a"
    ));
    assert!(matches!(
        failure_event(Operation::ConnectHidden { ssid: "a".to_string(), password: None }, gone()),
        UiEvent::HiddenDone { ssid, result: Err(_) } if ssid == "a"
    ));
    assert!(matches!(failure_event(Operation::ReloadState, gone()), UiEvent::StateLoaded(Err(_))));
    assert!(matches!(
        failure_event(Operation::ForgetProfile("a".to_string()), gone()),
        UiEvent::CleanupResult { ssid, result: Err(_) } if ssid == "a"
    ));
}
