//! A network service that is always there and never changes: five networks,
//! the first of them connected.

use vstd::prelude::*;
use crate::backend::{Backend, BackendResult};
use crate::models::{AppState, Network, NetworkDetails, NetworkView};
use crate::snapshot::{
    base_action_of, icon_name, network_from, network_of, precedes, signal_level, Sighting,
    SightingView,
};

verus! {

/// A backend without a service behind it.
pub struct MockBackend;

/// What the mock service sees of its five access points.
pub open spec fn mock_sightings() -> Seq<SightingView> {
    seq![
        SightingView {
            ssid: "Home_Fiber_5G"@,
            strength: 90,
            is_active: true,
            is_saved: true,
            is_secure: true,
        },
        SightingView {
            ssid: "Office_Main"@,
            strength: 60,
            is_active: false,
            is_saved: true,
            is_secure: true,
        },
        SightingView {
            ssid: "Coffee_Shop_Free"@,
            strength: 55,
            is_active: false,
            is_saved: false,
            is_secure: false,
        },
        SightingView {
            ssid: "Guest_Network"@,
            strength: 48,
            is_active: false,
            is_saved: false,
            is_secure: true,
        },
        SightingView {
            ssid: "Linksys_502"@,
            strength: 15,
            is_active: false,
            is_saved: false,
            is_secure: false,
        },
    ]
}

/// The five networks of the mock service, with the radio on: each with the
/// icon of its strength, the first to disconnect from, the others to connect
/// to.
pub open spec fn mock_networks() -> Seq<NetworkView> {
    mock_sightings().map_values(|s: SightingView| network_from(s, true))
}

/// One access point of the mock service.
fn mock_sighting(ssid: &str, strength: u8, is_active: bool, is_saved: bool, is_secure: bool) -> (s:
    Sighting)
    ensures
        s@ == (SightingView { ssid: ssid@, strength, is_active, is_saved, is_secure }),
{
    Sighting { ssid: ssid.to_string(), strength, is_active, is_saved, is_secure }
}

impl MockBackend {
    /// The mock backend.
    pub fn new() -> (backend: Self) {
        MockBackend
    }

    /// The state that the mock service reports: the radio on, and its five
    /// networks, in list order.
    pub fn mock_state(&self) -> (state: AppState)
        ensures
            state.wifi_enabled,
            state@.networks == mock_networks(),
            state.well_formed(),
    {
        let mut networks: Vec<Network> = Vec::new();
        networks.push(network_of(&mock_sighting("Home_Fiber_5G", 90, true, true, true), true));
        networks.push(network_of(&mock_sighting("Office_Main", 60, false, true, true), true));
        networks.push(network_of(&mock_sighting("Coffee_Shop_Free", 55, false, false, false), true));
        networks.push(network_of(&mock_sighting("Guest_Network", 48, false, false, true), true));
        networks.push(network_of(&mock_sighting("Linksys_502", 15, false, false, false), true));
        let state = AppState { wifi_enabled: true, networks };
        proof {
            let nets = state@.networks;
            let seen = mock_sightings();
            assert(nets =~= mock_networks());
            reveal_strlit("Home_Fiber_5G");
            reveal_strlit("Office_Main");
            reveal_strlit("Coffee_Shop_Free");
            reveal_strlit("Guest_Network");
            reveal_strlit("Linksys_502");
            assert(nets[0] == network_from(seen[0], true));
            assert(nets[1] == network_from(seen[1], true));
            assert(nets[2] == network_from(seen[2], true));
            assert(nets[3] == network_from(seen[3], true));
            assert(nets[4] == network_from(seen[4], true));
            assert(nets[0].ssid[0] == 'H' && nets[1].ssid[0] == 'O' && nets[2].ssid[0] == 'C'
                && nets[3].ssid[0] == 'G' && nets[4].ssid[0] == 'L');
            assert forall|i: int, j: int| 0 <= i < j < nets.len() implies precedes(
                nets[i],
                nets[j],
            ) && nets[i].ssid != nets[j].ssid by {
                assert(nets.len() == 5);
                if i == 0 {
                    assert(nets[j].strength < 90 && !nets[j].is_active);
                } else if i == 1 {
                    assert(nets[j].strength < 60 && !nets[j].is_active);
                } else if i == 2 {
                    assert(nets[j].strength < 55 && !nets[j].is_active);
                } else {
                    assert(i == 3 && j == 4);
                }
                assert(nets[i].ssid[0] != nets[j].ssid[0]);
            }
            assert forall|i: int| 0 <= i < nets.len() implies (#[trigger] nets[i]).signal_icon
                == icon_name(signal_level(nets[i].strength)) && nets[i].action == base_action_of(
                true,
                nets[i].is_active,
            ) by {
                assert(nets.len() == 5);
            }
        }
        state
    }
}

impl Backend for MockBackend {
    fn load_state(&self) -> (r: BackendResult<AppState>)
        ensures
            r matches Ok(state) && state.wifi_enabled && state@.networks == mock_networks(),
    {
        Ok(self.mock_state())
    }

    fn set_wifi_enabled(&self, _enabled: bool) -> (r: BackendResult<()>)
        ensures
            r is Ok,
    {
        Ok(())
    }

    fn request_scan(&self) -> (r: BackendResult<()>)
        ensures
            r is Ok,
    {
        Ok(())
    }

    fn connect_network(&self, _ssid: &str, _password: Option<&str>) -> (r: BackendResult<
        Option<String>,
    >)
        ensures
            r == Ok::<Option<String>, crate::backend::BackendError>(None),
    {
        Ok(None)
    }

    fn disconnect_network(&self, _ssid: &str) -> (r: BackendResult<()>)
        ensures
            r is Ok,
    {
        Ok(())
    }

    fn connect_hidden(&self, _ssid: &str, _security: &str, _password: Option<&str>) -> (r:
        BackendResult<Option<String>>)
        ensures
            r == Ok::<Option<String>, crate::backend::BackendError>(None),
    {
        Ok(None)
    }

    fn get_network_details(&self, _ssid: &str) -> (r: BackendResult<NetworkDetails>)
        ensures
            r matches Ok(details) && details.ip_address is None && details.prefix is None
                && details.gateway is None && details.dns_servers@.len() == 0
                && details.auto_reconnect is None,
    {
        Ok(NetworkDetails::default())
    }

    fn set_ip_dns(
        &self,
        _ssid: &str,
        _ip: Option<&str>,
        _prefix: Option<u32>,
        _gateway: Option<&str>,
        _dns: Option<Vec<String>>,
    ) -> (r: BackendResult<()>)
        ensures
            r is Ok,
    {
        Ok(())
    }

    fn get_saved_password(&self, _ssid: &str) -> (r: BackendResult<Option<String>>)
        ensures
            r == Ok::<Option<String>, crate::backend::BackendError>(None),
    {
        Ok(None)
    }

    fn set_autoreconnect(&self, _ssid: &str, _enabled: bool) -> (r: BackendResult<()>)
        ensures
            r is Ok,
    {
        Ok(())
    }

    fn forget_network(&self, _ssid: &str) -> (r: BackendResult<()>)
        ensures
            r is Ok,
    {
        Ok(())
    }
}

} // verus!
