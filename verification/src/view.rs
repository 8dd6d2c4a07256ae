//! What the list, its rows and the status line show: worked out from the
//! snapshot and the overlay, and handed to whoever draws it.

use vstd::prelude::*;
use vstd::string::*;
use crate::backend::BackendError;
use crate::messages::{password_error_message, password_error_text};
use crate::models::{
    network_views, opt_text, texts, AppState, Network, NetworkAction, NetworkDetails, NetworkView,
};
use crate::events::StatusKind;
use crate::ssid_set::SsidSet;
use crate::text::{
    chars_of, contains_chars, has_substring, lowercase, str_eq, to_lowercase, trim, trimmed,
};

verus! {

/// What a row offers once the overlay is taken into account: nothing while
/// the radio is off; with an SSID shown ahead of its confirmation, to
/// disconnect from that one and to connect to any other; else what the
/// snapshot says.
pub open spec fn effective_action(
    wifi_enabled: bool,
    network: NetworkView,
    optimistic: Option<Seq<char>>,
) -> NetworkAction {
    if !wifi_enabled {
        NetworkAction::NoAction
    } else {
        match optimistic {
            Some(active) => if network.ssid == active {
                NetworkAction::Disconnect
            } else {
                NetworkAction::Connect
            },
            None => network.action,
        }
    }
}

/// The text of a string slice that may be absent.
pub open spec fn opt_str_text(s: Option<&str>) -> Option<Seq<char>> {
    match s {
        Some(s) => Some(s@),
        None => None,
    }
}

/// What the row of `network` offers.
pub fn effective_action_for(state: &AppState, network: &Network, optimistic_active: Option<&str>) -> (action:
    NetworkAction)
    ensures
        action == effective_action(state.wifi_enabled, network@, opt_str_text(optimistic_active)),
{
    if !state.wifi_enabled {
        return NetworkAction::NoAction;
    }
    match optimistic_active {
        Some(active) => {
            if str_eq(network.ssid.as_str(), active) {
                NetworkAction::Disconnect
            } else {
                NetworkAction::Connect
            }
        },
        None => network.action,
    }
}

/// The form in which a query is held against the names: without the white
/// space around it, in lower case.
pub open spec fn query_key(query: Seq<char>) -> Seq<char> {
    lowercase(trimmed(query))
}

/// The name `ssid` answers the query: its lower-case form holds the query's.
pub open spec fn answers_query(ssid: Seq<char>, query: Seq<char>) -> bool {
    has_substring(lowercase(ssid), query_key(query))
}

/// The networks that answer the query, in their order. An empty query is
/// answered by all.
pub open spec fn filtered(networks: Seq<NetworkView>, query: Seq<char>) -> Seq<NetworkView> {
    if query_key(query).len() == 0 {
        networks
    } else {
        networks.filter(|n: NetworkView| answers_query(n.ssid, query))
    }
}

/// The snapshot cut down to the networks whose names answer the query.
pub fn filter_state(state: &AppState, query: &str) -> (shown: AppState)
    ensures
        shown.wifi_enabled == state.wifi_enabled,
        shown@.networks == filtered(state@.networks, query@),
{
    let key_string = to_lowercase(trim(query));
    let key = chars_of(key_string.as_str());
    if key.len() == 0 {
        let shown = state.clone();
        assert(shown@.networks == state@.networks);
        return shown;
    }
    let ghost all = state@.networks;
    let ghost pred = |n: NetworkView| answers_query(n.ssid, query@);
    let mut networks: Vec<Network> = Vec::new();
    let mut i: usize = 0;
    assert(all.take(0) =~= Seq::<NetworkView>::empty());
    assert(network_views(networks@) =~= all.take(0).filter(pred)) by {
        reveal(Seq::filter);
    }
    while i < state.networks.len()
        invariant
            i <= state.networks.len(),
            all == network_views(state.networks@),
            key@ == query_key(query@),
            pred == (|n: NetworkView| answers_query(n.ssid, query@)),
            network_views(networks@) == all.take(i as int).filter(pred),
        decreases state.networks.len() - i,
    {
        let name = to_lowercase(state.networks[i].ssid.as_str());
        let name_chars = chars_of(name.as_str());
        let ghost before = network_views(networks@);
        proof {
            reveal(Seq::filter);
            assert(all.take(i + 1).drop_last() =~= all.take(i as int));
            assert(all.take(i + 1).last() == state.networks@[i as int]@);
        }
        if contains_chars(&name_chars, &key) {
            networks.push(state.networks[i].clone());
            assert(network_views(networks@) =~= before.push(state.networks@[i as int]@));
        }
        i += 1;
    }
    assert(all.take(state.networks.len() as int) =~= all);
    AppState { wifi_enabled: state.wifi_enabled, networks }
}

/// What is written in place of the list when it has no rows: that the radio
/// is off, that nothing is in sight, or that nothing answers the query.
pub open spec fn empty_label(
    wifi_enabled: bool,
    networks: nat,
    query: Seq<char>,
    filtered_len: nat,
) -> Option<Seq<char>> {
    if !wifi_enabled {
        Some("Wi-Fi is disabled"@)
    } else if networks == 0 {
        Some("No networks found"@)
    } else if trimmed(query).len() != 0 && filtered_len == 0 {
        Some("No matching networks"@)
    } else {
        None
    }
}

/// What to write in place of the list, should it have no rows.
pub fn empty_label_for(state: &AppState, query: &str, filtered_len: usize) -> (label: Option<
    &'static str,
>)
    ensures
        opt_str_text(label) == empty_label(
            state.wifi_enabled,
            state.networks@.len(),
            query@,
            filtered_len as nat,
        ),
{
    if !state.wifi_enabled {
        return Some("Wi-Fi is disabled");
    }
    if state.networks.len() == 0 {
        return Some("No networks found");
    }
    if !trim(query).is_empty() && filtered_len == 0 {
        return Some("No matching networks");
    }
    None
}

/// What stands under the name in a row.
#[derive(Clone, Copy, Debug, PartialEq, Eq, Structural)]
pub enum RowControl {
    /// Nothing.
    Empty,
    /// A spinner: the attempt for this network is under way.
    Connecting,
    /// The button to connect.
    ConnectButton,
    /// The button to disconnect.
    DisconnectButton,
}

/// The icon for a network that asks for a credential.
pub const LOCK_CLOSED: &'static str = "changes-prevent-symbolic";

/// The icon for an open network.
pub const LOCK_OPEN: &'static str = "changes-allow-symbolic";

/// One row of the list, ready to be drawn.
#[derive(Debug)]
pub struct Row {
    pub ssid: String,
    pub signal_icon: &'static str,
    pub lock_icon: &'static str,
    pub is_saved: bool,
    pub is_secure: bool,
    pub has_error: bool,
    pub control: RowControl,
}

/// A row as contracts see it.
pub struct RowView {
    pub ssid: Seq<char>,
    pub signal_icon: Seq<char>,
    pub lock_icon: Seq<char>,
    pub is_saved: bool,
    pub is_secure: bool,
    pub has_error: bool,
    pub control: RowControl,
}

impl View for Row {
    type V = RowView;

    open spec fn view(&self) -> RowView {
        RowView {
            ssid: self.ssid@,
            signal_icon: self.signal_icon@,
            lock_icon: self.lock_icon@,
            is_saved: self.is_saved,
            is_secure: self.is_secure,
            has_error: self.has_error,
            control: self.control,
        }
    }
}

/// What stands under the name: a spinner in place of the button to connect
/// while the attempt is under way.
pub open spec fn control_for(action: NetworkAction, is_connecting: bool) -> RowControl {
    match action {
        NetworkAction::Connect => if is_connecting {
            RowControl::Connecting
        } else {
            RowControl::ConnectButton
        },
        NetworkAction::Disconnect => RowControl::DisconnectButton,
        NetworkAction::NoAction => RowControl::Empty,
    }
}

/// The row of a network under the overlay.
pub open spec fn row_of(
    wifi_enabled: bool,
    network: NetworkView,
    optimistic: Option<Seq<char>>,
    pending: Option<Seq<char>>,
    failed: Set<Seq<char>>,
) -> RowView {
    RowView {
        ssid: network.ssid,
        signal_icon: network.signal_icon,
        lock_icon: if network.is_secure {
            LOCK_CLOSED@
        } else {
            LOCK_OPEN@
        },
        is_saved: network.is_saved,
        is_secure: network.is_secure,
        has_error: failed.contains(network.ssid),
        control: control_for(
            effective_action(wifi_enabled, network, optimistic),
            pending == Some(network.ssid),
        ),
    }
}

/// The row of one network.
pub fn build_row(
    state: &AppState,
    network: &Network,
    optimistic_active: Option<&str>,
    pending_ssid: Option<&str>,
    failed_connects: &SsidSet,
) -> (row: Row)
    ensures
        row@ == row_of(
            state.wifi_enabled,
            network@,
            opt_str_text(optimistic_active),
            opt_str_text(pending_ssid),
            failed_connects@,
        ),
{
    let action = effective_action_for(state, network, optimistic_active);
    let is_connecting = match pending_ssid {
        Some(pending) => str_eq(pending, network.ssid.as_str()),
        None => false,
    };
    let control = match action {
        NetworkAction::Connect => if is_connecting {
            RowControl::Connecting
        } else {
            RowControl::ConnectButton
        },
        NetworkAction::Disconnect => RowControl::DisconnectButton,
        NetworkAction::NoAction => RowControl::Empty,
    };
    Row {
        ssid: network.ssid.clone(),
        signal_icon: network.signal_icon,
        lock_icon: if network.is_secure {
            LOCK_CLOSED
        } else {
            LOCK_OPEN
        },
        is_saved: network.is_saved,
        is_secure: network.is_secure,
        has_error: failed_connects.contains(network.ssid.as_str()),
        control,
    }
}

/// The rows of the list: one for each network of `state`, in its order.
pub fn populate_network_list(
    state: &AppState,
    optimistic_active: Option<&str>,
    pending_ssid: Option<&str>,
    failed_connects: &SsidSet,
) -> (rows: Vec<Row>)
    ensures
        rows@.len() == state.networks@.len(),
        forall|i: int|
            0 <= i < rows@.len() ==> (#[trigger] rows@[i])@ == row_of(
                state.wifi_enabled,
                state.networks@[i]@,
                opt_str_text(optimistic_active),
                opt_str_text(pending_ssid),
                failed_connects@,
            ),
{
    let mut rows: Vec<Row> = Vec::new();
    let mut i: usize = 0;
    while i < state.networks.len()
        invariant
            i <= state.networks.len(),
            rows@.len() == i,
            forall|j: int|
                0 <= j < i ==> (#[trigger] rows@[j])@ == row_of(
                    state.wifi_enabled,
                    state.networks@[j]@,
                    opt_str_text(optimistic_active),
                    opt_str_text(pending_ssid),
                    failed_connects@,
                ),
        decreases state.networks.len() - i,
    {
        rows.push(
            build_row(state, &state.networks[i], optimistic_active, pending_ssid, failed_connects),
        );
        i += 1;
    }
    rows
}

/// How long a status message stays, in milliseconds, and the style it is
/// shown in.
#[derive(Clone, Copy, Debug, PartialEq, Eq)]
pub struct StatusDisplay {
    pub style: &'static str,
    pub timeout_ms: u32,
}

/// Whether a status message is shown at all: one that has words, and more
/// weight than a mere note.
pub open spec fn status_is_shown(kind: StatusKind, text: Seq<char>) -> bool {
    text.len() != 0 && kind != StatusKind::Info
}

/// How a status message is shown, if it is: an error for five seconds, a
/// success for three.
pub fn show_status(kind: StatusKind, text: &str) -> (display: Option<StatusDisplay>)
    ensures
        display is Some <==> status_is_shown(kind, text@),
        display matches Some(d) ==> d.timeout_ms == (if kind == StatusKind::Error {
            5000u32
        } else {
            3000u32
        }) && d.style@ == (if kind == StatusKind::Error {
            "yufi-status-error"@
        } else {
            "yufi-status-ok"@
        }),
{
    if text.is_empty() {
        return None;
    }
    match kind {
        StatusKind::Info => None,
        StatusKind::Success => Some(StatusDisplay { style: "yufi-status-ok", timeout_ms: 3000 }),
        StatusKind::Error => Some(StatusDisplay { style: "yufi-status-error", timeout_ms: 5000 }),
    }
}

/// The name that the row of `ssid` goes by among the widgets.
pub open spec fn row_name_of(ssid: Seq<char>) -> Seq<char> {
    "ssid:"@ + ssid
}

/// The name that the row of `ssid` goes by among the widgets.
pub fn row_name(ssid: &str) -> (name: String)
    ensures
        name@ == row_name_of(ssid@),
{
    let mut name = "ssid:".to_string();
    name.append(ssid);
    name
}

/// The SSID that a row's name stands for: what follows `ssid:`.
pub open spec fn ssid_of_row_name(name: Seq<char>) -> Option<Seq<char>> {
    if name.len() >= 5 && name.take(5) == "ssid:"@ {
        Some(name.skip(5))
    } else {
        None
    }
}

/// The SSID of the row with the name `name`, if it is the row of a network.
pub fn ssid_from_row(name: &str) -> (ssid: Option<String>)
    ensures
        opt_text(ssid) == ssid_of_row_name(name@),
{
    proof {
        reveal_strlit("ssid:");
    }
    let chars = chars_of(name);
    let n = chars.len();
    if n < 5 {
        return None;
    }
    if chars[0] == 's' && chars[1] == 's' && chars[2] == 'i' && chars[3] == 'd' && chars[4] == ':' {
        assert(name@.take(5) =~= "ssid:"@);
        assert(name@.subrange(5, n as int) =~= name@.skip(5));
        Some(name.substring_char(5, n).to_string())
    } else {
        assert(name@.take(5) != "ssid:"@) by {
            if name@.take(5) == "ssid:"@ {
                assert(name@.take(5)[0] == 's' && name@.take(5)[1] == 's' && name@.take(5)[2]
                    == 'i' && name@.take(5)[3] == 'd' && name@.take(5)[4] == ':');
            }
        }
        None
    }
}

/// A row's name leads back to its SSID.
pub proof fn lemma_row_name_round_trip(ssid: Seq<char>)
    ensures
        ssid_of_row_name(row_name_of(ssid)) == Some(ssid),
{
    reveal_strlit("ssid:");
    assert(row_name_of(ssid).take(5) =~= "ssid:"@);
    assert(row_name_of(ssid).skip(5) =~= ssid);
}

/// The texts of `list` with `", "` between them.
pub open spec fn joined(list: Seq<Seq<char>>) -> Seq<char>
    decreases list.len(),
{
    if list.len() == 0 {
        Seq::empty()
    } else if list.len() == 1 {
        list[0]
    } else {
        joined(list.drop_last()) + ", "@ + list.last()
    }
}

/// The strings of `list` with `", "` between them.
pub fn join_with_commas(list: &Vec<String>) -> (r: String)
    ensures
        r@ == joined(texts(list@)),
{
    let mut r = String::new();
    let mut i: usize = 0;
    let ghost all = texts(list@);
    assert(all.take(0) =~= Seq::<Seq<char>>::empty());
    while i < list.len()
        invariant
            i <= list.len(),
            all == texts(list@),
            r@ == joined(all.take(i as int)),
        decreases list.len() - i,
    {
        proof {
            assert(all.take(i + 1).drop_last() =~= all.take(i as int));
            assert(all.take(i + 1).last() == list@[i as int]@);
            if i == 0 {
                assert(Seq::<char>::empty() + list@[0]@ =~= list@[0]@);
            }
        }
        if i > 0 {
            r.append(", ");
        }
        r.append(list[i].as_str());
        i += 1;
    }
    assert(all.take(list.len() as int) =~= all);
    r
}

/// What the details dialog shows when it opens.
#[derive(Debug)]
pub struct DetailsForm {
    pub ip_text: String,
    pub gateway_text: String,
    pub dns_text: String,
    pub use_dhcp: bool,
    pub auto_reconnect: bool,
}

/// The fields of the details dialog for a profile with these settings. The
/// addresses are set by hand where the profile names any; the profile is
/// taken to reconnect by itself unless it says otherwise.
pub fn details_form(details: &NetworkDetails) -> (form: DetailsForm)
    ensures
        form.ip_text@ == (match details.ip_address {
            Some(ip) => ip@,
            None => Seq::<char>::empty(),
        }),
        form.gateway_text@ == (match details.gateway {
            Some(gateway) => gateway@,
            None => Seq::<char>::empty(),
        }),
        form.dns_text@ == joined(texts(details.dns_servers@)),
        form.use_dhcp == (details.ip_address is None && details.gateway is None
            && details.dns_servers@.len() == 0),
        form.auto_reconnect == (match details.auto_reconnect {
            Some(auto) => auto,
            None => true,
        }),
{
    let ip_text = match &details.ip_address {
        Some(ip) => ip.clone(),
        None => String::new(),
    };
    let gateway_text = match &details.gateway {
        Some(gateway) => gateway.clone(),
        None => String::new(),
    };
    let has_manual = details.ip_address.is_some() || details.gateway.is_some()
        || details.dns_servers.len() > 0;
    DetailsForm {
        ip_text,
        gateway_text,
        dns_text: join_with_commas(&details.dns_servers),
        use_dhcp: !has_manual,
        auto_reconnect: match details.auto_reconnect {
            Some(auto) => auto,
            None => true,
        },
    }
}

/// What comes of the wish to see a saved password.
#[derive(Debug)]
pub enum Reveal {
    /// The password, to be shown in the field.
    Show(String),
    /// The profile has no password.
    Nothing,
    /// The password could not be read; the words say why.
    Failed(String),
}

/// What to make of the answer to the wish to see a saved password.
pub fn reveal_password(result: Result<Option<String>, BackendError>) -> (outcome: Reveal)
    ensures
        match result {
            Ok(Some(password)) => outcome matches Reveal::Show(shown) && shown@ == password@,
            Ok(None) => outcome is Nothing,
            Err(err) => outcome matches Reveal::Failed(message) && message@ == password_error_text(
                err.message(),
            ),
        },
{
    match result {
        Ok(Some(password)) => Reveal::Show(password),
        Ok(None) => Reveal::Nothing,
        Err(err) => Reveal::Failed(password_error_message(&err)),
    }
}

} // verus!
