//! What a network service has to offer the panel, and the one kind of failure
//! it reports.

pub mod mock;
pub mod nm;
pub mod nm_consts;
pub mod values;
pub mod settings;

use vstd::prelude::*;
use vstd::string::*;
use crate::models::{AppState, NetworkDetails};
use crate::text::{debug_quoted, quote};

verus! {

/// A failure of the network service. There is one kind: the service could not
/// do what was asked, and says why in words meant for a person.
#[derive(Debug)]
pub enum BackendError {
    Unavailable(String),
}

impl BackendError {
    /// The words the service gave for the failure.
    pub open spec fn message(&self) -> Seq<char> {
        match self {
            BackendError::Unavailable(message) => message@,
        }
    }

    /// The words the service gave for the failure.
    pub fn text(&self) -> (message: &str)
        ensures
            message@ == self.message(),
    {
        match self {
            BackendError::Unavailable(message) => message.as_str(),
        }
    }
}

impl Clone for BackendError {
    fn clone(&self) -> (res: Self)
        ensures
            res == *self,
    {
        match self {
            BackendError::Unavailable(message) => BackendError::Unavailable(message.clone()),
        }
    }
}

/// How an error with the words `message` reads when it is shown for
/// debugging: the name of its kind, and its words in quotes between brackets.
pub open spec fn debug_text(message: Seq<char>) -> Seq<char> {
    "Unavailable("@ + debug_quoted(message) + ")"@
}

/// How the error reads when it is shown for debugging.
pub fn debug_string(err: &BackendError) -> (r: String)
    ensures
        r@ == debug_text(err.message()),
{
    let mut r = "Unavailable(".to_string();
    let words = quote(err.text());
    r.append(words.as_str());
    r.append(")");
    r
}

/// What a call to the service comes back with.
pub type BackendResult<T> = Result<T, BackendError>;

/// The operations of a network service. Each is one round trip and fails by
/// itself. A state that comes back from `load_state` is a snapshot: in list
/// order, with one entry for each SSID.
pub trait Backend {
    fn load_state(&self) -> (r: BackendResult<AppState>)
        ensures
            r matches Ok(state) ==> state.well_formed(),
    ;

    fn set_wifi_enabled(&self, enabled: bool) -> BackendResult<()>;

    fn request_scan(&self) -> BackendResult<()>;

    /// On success, the path of the activation that the service started, where
    /// it gave one.
    fn connect_network(&self, ssid: &str, password: Option<&str>) -> BackendResult<Option<String>>;

    fn disconnect_network(&self, ssid: &str) -> BackendResult<()>;

    /// On success, the path of the activation that the service started, where
    /// it gave one.
    fn connect_hidden(&self, ssid: &str, security: &str, password: Option<&str>) -> BackendResult<
        Option<String>,
    >;

    fn get_network_details(&self, ssid: &str) -> BackendResult<NetworkDetails>;

    fn set_ip_dns(
        &self,
        ssid: &str,
        ip: Option<&str>,
        prefix: Option<u32>,
        gateway: Option<&str>,
        dns: Option<Vec<String>>,
    ) -> BackendResult<()>;

    fn get_saved_password(&self, ssid: &str) -> BackendResult<Option<String>>;

    fn set_autoreconnect(&self, ssid: &str, enabled: bool) -> BackendResult<()>;

    fn forget_network(&self, ssid: &str) -> BackendResult<()>;
}

} // verus!
