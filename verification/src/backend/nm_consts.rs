//! The names under which NetworkManager is found on the bus.

use vstd::prelude::*;

verus! {

/// The name of the service on the bus.
pub const BUS_NAME: &'static str = "org.freedesktop.NetworkManager";

/// The path of the manager.
pub const OBJECT_PATH: &'static str = "/org/freedesktop/NetworkManager";

/// The interface of the manager.
pub const MANAGER_INTERFACE: &'static str = "org.freedesktop.NetworkManager";

/// The interface of any device.
pub const DEVICE_INTERFACE: &'static str = "org.freedesktop.NetworkManager.Device";

/// The interface of a wireless device.
pub const WIFI_DEVICE_INTERFACE: &'static str = "org.freedesktop.NetworkManager.Device.Wireless";

/// The interface of an access point.
pub const AP_INTERFACE: &'static str = "org.freedesktop.NetworkManager.AccessPoint";

/// The path of the store of profiles.
pub const SETTINGS_PATH: &'static str = "/org/freedesktop/NetworkManager/Settings";

/// The interface of the store of profiles.
pub const SETTINGS_INTERFACE: &'static str = "org.freedesktop.NetworkManager.Settings";

/// The interface of one profile.
pub const CONNECTION_INTERFACE: &'static str = "org.freedesktop.NetworkManager.Settings.Connection";

/// The interface of an active connection.
pub const ACTIVE_INTERFACE: &'static str = "org.freedesktop.NetworkManager.Connection.Active";

/// The interface through which changes of properties are told.
pub const PROPERTIES_INTERFACE: &'static str = "org.freedesktop.DBus.Properties";

} // verus!
