//! Carrying out one operation against a backend, and packing what came of it
//! into the one completion event that the loop is owed.

use vstd::prelude::*;
use crate::backend::{Backend, BackendError};
use crate::events::{Operation, UiEvent};

verus! {

/// The security that a hidden network is joined with.
pub const HIDDEN_SECURITY: &'static str = "wpa-psk";

/// The event that completes `operation` with the failure `error`.
pub open spec fn completes_with_failure(
    operation: Operation,
    error: BackendError,
    event: UiEvent,
) -> bool {
    match operation {
        Operation::RequestScan => event == UiEvent::ScanDone(Err(error)),
        Operation::SetRadioEnabled(enabled) => event == (UiEvent::WifiSet {
            enabled,
            result: Err(error),
        }),
        Operation::Connect { ssid, password, was_saved } => event == (UiEvent::ConnectDone {
            ssid,
            result: Err(error),
            from_password: password is Some,
            was_saved,
        }),
        Operation::Disconnect(ssid) => event == (UiEvent::DisconnectDone {
            ssid,
            result: Err(error),
        }),
        Operation::ConnectHidden { ssid, .. } => event == (UiEvent::HiddenDone {
            ssid,
            result: Err(error),
        }),
        Operation::ReloadState => event == UiEvent::StateLoaded(Err(error)),
        Operation::ForgetProfile(ssid) => event == (UiEvent::CleanupResult {
            ssid,
            result: Err(error),
        }),
    }
}

/// The words that are handed to the backend stand for the password that the
/// operation carries, if it carries one.
pub open spec fn same_secret(password: Option<String>, handed: Option<&str>) -> bool {
    match (password, handed) {
        (Some(p), Some(h)) => p@ == h@,
        (None, None) => true,
        _ => false,
    }
}

/// `event` is a completion of `operation` by `backend`: it is of the kind
/// that belongs to the operation, it names the operation's SSID and flags,
/// and the result in it is one that the backend's method gives for the
/// operation's arguments.
pub open spec fn completes<B: Backend>(backend: &B, operation: Operation, event: UiEvent) -> bool {
    match operation {
        Operation::RequestScan => event matches UiEvent::ScanDone(result) && call_ensures(
            B::request_scan,
            (backend,),
            result,
        ),
        Operation::SetRadioEnabled(on) => event matches UiEvent::WifiSet { enabled, result }
            && enabled == on && call_ensures(B::set_wifi_enabled, (backend, on), result),
        Operation::Connect { ssid, password, was_saved } => event matches UiEvent::ConnectDone {
            ssid: named,
            result,
            from_password,
            was_saved: saved,
        } && named == ssid && from_password == (password is Some) && saved == was_saved
            && exists|name: &str, secret: Option<&str>|
            name@ == ssid@ && same_secret(password, secret) && #[trigger] call_ensures(
                B::connect_network,
                (backend, name, secret),
                result,
            ),
        Operation::Disconnect(ssid) => event matches UiEvent::DisconnectDone { ssid: named, result }
            && named == ssid && exists|name: &str|
            name@ == ssid@ && #[trigger] call_ensures(B::disconnect_network, (backend, name), result),
        Operation::ConnectHidden { ssid, password } => event matches UiEvent::HiddenDone {
            ssid: named,
            result,
        } && named == ssid && exists|name: &str, secret: Option<&str>|
            name@ == ssid@ && same_secret(password, secret) && #[trigger] call_ensures(
                B::connect_hidden,
                (backend, name, HIDDEN_SECURITY, secret),
                result,
            ),
        Operation::ReloadState => event matches UiEvent::StateLoaded(result) && call_ensures(
            B::load_state,
            (backend,),
            result,
        ) && (result matches Ok(state) ==> state.well_formed()),
        Operation::ForgetProfile(ssid) => event matches UiEvent::CleanupResult {
            ssid: named,
            result,
        } && named == ssid && exists|name: &str|
            name@ == ssid@ && #[trigger] call_ensures(B::forget_network, (backend, name), result),
    }
}

/// Carries out `operation` against `backend` and gives the event that
/// completes it.
pub fn perform<B: Backend>(backend: &B, operation: Operation) -> (event: UiEvent)
    ensures
        completes(backend, operation, event),
{
    match operation {
        Operation::RequestScan => UiEvent::ScanDone(backend.request_scan()),
        Operation::SetRadioEnabled(enabled) => UiEvent::WifiSet {
            enabled,
            result: backend.set_wifi_enabled(enabled),
        },
        Operation::Connect { ssid, password, was_saved } => {
            let from_password = password.is_some();
            let result = match &password {
                Some(password) => backend.connect_network(ssid.as_str(), Some(password.as_str())),
                None => backend.connect_network(ssid.as_str(), None),
            };
            UiEvent::ConnectDone { ssid, result, from_password, was_saved }
        },
        Operation::Disconnect(ssid) => {
            let result = backend.disconnect_network(ssid.as_str());
            UiEvent::DisconnectDone { ssid, result }
        },
        Operation::ConnectHidden { ssid, password } => {
            let result = match &password {
                Some(password) => backend.connect_hidden(
                    ssid.as_str(),
                    HIDDEN_SECURITY,
                    Some(password.as_str()),
                ),
                None => backend.connect_hidden(ssid.as_str(), HIDDEN_SECURITY, None),
            };
            UiEvent::HiddenDone { ssid, result }
        },
        Operation::ReloadState => UiEvent::StateLoaded(backend.load_state()),
        Operation::ForgetProfile(ssid) => {
            let result = backend.forget_network(ssid.as_str());
            UiEvent::CleanupResult { ssid, result }
        },
    }
}

/// The event that completes `operation` when the work on it broke down
/// before the backend gave an answer: a failure with the words given.
pub fn failure_event(operation: Operation, error: BackendError) -> (event: UiEvent)
    ensures
        completes_with_failure(operation, error, event),
{
    match operation {
        Operation::RequestScan => UiEvent::ScanDone(Err(error)),
        Operation::SetRadioEnabled(enabled) => UiEvent::WifiSet { enabled, result: Err(error) },
        Operation::Connect { ssid, password, was_saved } => UiEvent::ConnectDone {
            ssid,
            result: Err(error),
            from_password: password.is_some(),
            was_saved,
        },
        Operation::Disconnect(ssid) => UiEvent::DisconnectDone { ssid, result: Err(error) },
        Operation::ConnectHidden { ssid, password: _ } => UiEvent::HiddenDone {
            ssid,
            result: Err(error),
        },
        Operation::ReloadState => UiEvent::StateLoaded(Err(error)),
        Operation::ForgetProfile(ssid) => UiEvent::CleanupResult { ssid, result: Err(error) },
    }
}

} // verus!
