//! Which of the service's change notices matter. The service tells of every
//! property that changes; only some of them change what the panel shows.

use vstd::prelude::*;
use crate::backend::nm_consts::{
    ACTIVE_INTERFACE, DEVICE_INTERFACE, MANAGER_INTERFACE, WIFI_DEVICE_INTERFACE,
};
use crate::backend::settings::{get_value, lookup};
use crate::backend::values::{number_in, owned_value_to_u32, Entry};
use crate::events::UiEvent;
use crate::text::str_eq;
use crate::watcher::{finished_after, passed_on, Watcher};

verus! {

/// The notice names the property `key` among those that changed.
pub open spec fn names(changed: Seq<Entry>, key: Seq<char>) -> bool {
    lookup(changed, key) is Some
}

/// A notice of the manager asks for a refresh where it is about the manager
/// itself and names its active connections, its primary connection, or the
/// state of the radio.
pub open spec fn manager_change_matters(interface: Seq<char>, changed: Seq<Entry>) -> bool {
    interface == MANAGER_INTERFACE@ && (names(changed, "ActiveConnections"@) || names(
        changed,
        "WirelessEnabled"@,
    ) || names(changed, "PrimaryConnection"@))
}

/// A notice of the wireless device asks for a refresh where it is about the
/// device and names its active access point, its active connection, or its
/// last scan.
pub open spec fn device_change_matters(interface: Seq<char>, changed: Seq<Entry>) -> bool {
    (interface == WIFI_DEVICE_INTERFACE@ || interface == DEVICE_INTERFACE@) && (names(
        changed,
        "ActiveAccessPoint"@,
    ) || names(changed, "ActiveConnection"@) || names(changed, "LastScan"@))
}

/// The state that a notice of an active connection tells of: the number
/// under `State`, where the notice is about the connection and names one.
pub open spec fn state_told(interface: Seq<char>, changed: Seq<Entry>) -> Option<u32> {
    if interface == ACTIVE_INTERFACE@ {
        match lookup(changed, "State"@) {
            Some(value) => number_in(value),
            None => None,
        }
    } else {
        None
    }
}

/// Whether a notice of the manager asks for a refresh.
pub fn manager_change_is_relevant(interface: &str, changed: &Vec<Entry>) -> (r: bool)
    ensures
        r == manager_change_matters(interface@, changed@),
{
    str_eq(interface, MANAGER_INTERFACE) && (get_value(changed, "ActiveConnections").is_some()
        || get_value(changed, "WirelessEnabled").is_some() || get_value(
        changed,
        "PrimaryConnection",
    ).is_some())
}

/// Whether a notice of the wireless device asks for a refresh.
pub fn device_change_is_relevant(interface: &str, changed: &Vec<Entry>) -> (r: bool)
    ensures
        r == device_change_matters(interface@, changed@),
{
    (str_eq(interface, WIFI_DEVICE_INTERFACE) || str_eq(interface, DEVICE_INTERFACE)) && (
    get_value(changed, "ActiveAccessPoint").is_some() || get_value(
        changed,
        "ActiveConnection",
    ).is_some() || get_value(changed, "LastScan").is_some())
}

/// The state that a notice of an active connection tells of, if any.
pub fn activation_state_from(interface: &str, changed: &Vec<Entry>) -> (state: Option<u32>)
    ensures
        state == state_told(interface@, changed@),
{
    if !str_eq(interface, ACTIVE_INTERFACE) {
        return None;
    }
    match get_value(changed, "State") {
        Some(value) => match owned_value_to_u32(value) {
            Ok(state) => Some(state),
            Err(_) => None,
        },
        None => None,
    }
}

/// What the watcher hands to the loop when it is shown a state: the event
/// that tells of it, as long as the watch goes on.
pub fn watch_event(watcher: &mut Watcher, code: u32) -> (event: Option<UiEvent>)
    ensures
        final(watcher).ssid_text() == old(watcher).ssid_text(),
        final(watcher).finished() == finished_after(old(watcher).finished(), code),
        match passed_on(old(watcher).finished(), code) {
            Some(told) => event matches Some(UiEvent::ActiveState { ssid, state }) && ssid@
                == old(watcher).ssid_text() && state == told,
            None => event is None,
        },
{
    match watcher.observe(code) {
        Some(state) => Some(UiEvent::ActiveState { ssid: watcher.ssid().to_string(), state }),
        None => None,
    }
}

/// What the watcher hands to the loop for a notice of change: the event for
/// the state that the notice tells of, if it tells of one and the watch
/// goes on.
pub fn watch_notice(watcher: &mut Watcher, interface: &str, changed: &Vec<Entry>) -> (event:
    Option<UiEvent>)
    ensures
        final(watcher).ssid_text() == old(watcher).ssid_text(),
        match state_told(interface@, changed@) {
            None => event is None && final(watcher).finished() == old(watcher).finished(),
            Some(code) => final(watcher).finished() == finished_after(
                old(watcher).finished(),
                code,
            ) && match passed_on(old(watcher).finished(), code) {
                Some(told) => event matches Some(UiEvent::ActiveState { ssid, state }) && ssid@
                    == old(watcher).ssid_text() && state == told,
                None => event is None,
            },
        },
{
    match activation_state_from(interface, changed) {
        Some(code) => watch_event(watcher, code),
        None => None,
    }
}

} // verus!
