//! The confirmed picture of the radio and the networks around it.

use vstd::prelude::*;

verus! {

/// What a row of the list offers for its network.
#[derive(Clone, Copy, Debug, PartialEq, Eq, Structural)]
pub enum NetworkAction {
    NoAction,
    Connect,
    Disconnect,
}

/// One network of a snapshot, named by its SSID.
#[derive(Debug)]
pub struct Network {
    pub ssid: String,
    pub signal_icon: &'static str,
    pub action: NetworkAction,
    pub strength: u8,
    pub is_active: bool,
    pub is_saved: bool,
    pub is_secure: bool,
}

/// A network as contracts see it.
pub struct NetworkView {
    pub ssid: Seq<char>,
    pub signal_icon: Seq<char>,
    pub action: NetworkAction,
    pub strength: u8,
    pub is_active: bool,
    pub is_saved: bool,
    pub is_secure: bool,
}

impl View for Network {
    type V = NetworkView;

    open spec fn view(&self) -> NetworkView {
        NetworkView {
            ssid: self.ssid@,
            signal_icon: self.signal_icon@,
            action: self.action,
            strength: self.strength,
            is_active: self.is_active,
            is_saved: self.is_saved,
            is_secure: self.is_secure,
        }
    }
}

impl Clone for Network {
    fn clone(&self) -> (res: Self)
        ensures
            res == *self,
    {
        Network {
            ssid: self.ssid.clone(),
            signal_icon: self.signal_icon,
            action: self.action,
            strength: self.strength,
            is_active: self.is_active,
            is_saved: self.is_saved,
            is_secure: self.is_secure,
        }
    }
}

/// The views of a run of networks, in order.
pub open spec fn network_views(networks: Seq<Network>) -> Seq<NetworkView> {
    networks.map_values(|n: Network| n@)
}

/// The texts of a run of strings, in order.
pub open spec fn texts(strings: Seq<String>) -> Seq<Seq<char>> {
    strings.map_values(|s: String| s@)
}

/// The text of a string that may be absent.
pub open spec fn opt_text(s: Option<String>) -> Option<Seq<char>> {
    match s {
        Some(s) => Some(s@),
        None => None,
    }
}

/// The texts of a list of strings that may be absent.
pub open spec fn opt_texts(list: Option<Vec<String>>) -> Option<Seq<Seq<char>>> {
    match list {
        Some(list) => Some(texts(list@)),
        None => None,
    }
}

/// A copy of a vector of strings.
pub fn clone_strings(strings: &Vec<String>) -> (out: Vec<String>)
    ensures
        out@ == strings@,
{
    let mut out: Vec<String> = Vec::new();
    let mut i: usize = 0;
    while i < strings.len()
        invariant
            i <= strings.len(),
            out@ == strings@.take(i as int),
        decreases strings.len() - i,
    {
        out.push(strings[i].clone());
        assert(strings@.take(i + 1) =~= strings@.take(i as int).push(strings@[i as int]));
        i += 1;
    }
    assert(strings@.take(strings.len() as int) =~= strings@);
    out
}

/// A copy of a string that may be absent.
pub fn clone_opt_string(s: &Option<String>) -> (out: Option<String>)
    ensures
        out == *s,
{
    match s {
        Some(s) => Some(s.clone()),
        None => None,
    }
}

/// The radio flag and the networks in sight, as the last reload found them.
#[derive(Debug)]
pub struct AppState {
    pub wifi_enabled: bool,
    pub networks: Vec<Network>,
}

/// A snapshot as contracts see it.
pub struct AppStateView {
    pub wifi_enabled: bool,
    pub networks: Seq<NetworkView>,
}

impl View for AppState {
    type V = AppStateView;

    open spec fn view(&self) -> AppStateView {
        AppStateView {
            wifi_enabled: self.wifi_enabled,
            networks: network_views(self.networks@),
        }
    }
}

impl Clone for AppState {
    fn clone(&self) -> (res: Self)
        ensures
            res.wifi_enabled == self.wifi_enabled,
            res.networks@ == self.networks@,
    {
        let mut networks: Vec<Network> = Vec::new();
        let mut i: usize = 0;
        while i < self.networks.len()
            invariant
                i <= self.networks.len(),
                networks@ == self.networks@.take(i as int),
            decreases self.networks.len() - i,
        {
            networks.push(self.networks[i].clone());
            assert(self.networks@.take(i + 1) =~= self.networks@.take(i as int).push(
                self.networks@[i as int],
            ));
            i += 1;
        }
        assert(self.networks@.take(self.networks.len() as int) =~= self.networks@);
        AppState { wifi_enabled: self.wifi_enabled, networks }
    }
}

/// The settings of a saved profile that the details dialog shows.
#[derive(Debug)]
pub struct NetworkDetails {
    pub ip_address: Option<String>,
    pub prefix: Option<u32>,
    pub gateway: Option<String>,
    pub dns_servers: Vec<String>,
    pub auto_reconnect: Option<bool>,
}

impl Default for NetworkDetails {
    fn default() -> (res: Self)
        ensures
            res.ip_address is None,
            res.prefix is None,
            res.gateway is None,
            res.dns_servers@.len() == 0,
            res.auto_reconnect is None,
    {
        NetworkDetails {
            ip_address: None,
            prefix: None,
            gateway: None,
            dns_servers: Vec::new(),
            auto_reconnect: None,
        }
    }
}

impl Clone for NetworkDetails {
    fn clone(&self) -> (res: Self)
        ensures
            res.ip_address == self.ip_address,
            res.prefix == self.prefix,
            res.gateway == self.gateway,
            res.dns_servers@ == self.dns_servers@,
            res.auto_reconnect == self.auto_reconnect,
    {
        NetworkDetails {
            ip_address: clone_opt_string(&self.ip_address),
            prefix: self.prefix,
            gateway: clone_opt_string(&self.gateway),
            dns_servers: clone_strings(&self.dns_servers),
            auto_reconnect: self.auto_reconnect,
        }
    }
}

} // verus!
