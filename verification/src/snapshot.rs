//! From the access points in sight to the snapshot of networks: one network
//! for each SSID, in the order in which the list shows them.

use vstd::prelude::*;
use vstd::utf8::encode_utf8;
use crate::models::{AppState, AppStateView, Network, NetworkAction, NetworkView};
use crate::text::{
    lemma_bytes_lt_asymmetric, lemma_bytes_lt_irreflexive, lemma_bytes_lt_total,
    lemma_bytes_lt_transitive, lemma_utf8_injective, str_eq, str_lt, text_lt,
};

verus! {

/// The five classes into which signal strength is grouped for display.
#[derive(Clone, Copy, Debug, PartialEq, Eq, Structural)]
pub enum SignalLevel {
    Lowest,
    Weak,
    Fair,
    Good,
    Excellent,
}

/// The class of a strength: the upper bounds 20, 40, 60 and 80 belong to the
/// class below them.
pub open spec fn signal_level(strength: u8) -> SignalLevel {
    if strength <= 20 {
        SignalLevel::Lowest
    } else if strength <= 40 {
        SignalLevel::Weak
    } else if strength <= 60 {
        SignalLevel::Fair
    } else if strength <= 80 {
        SignalLevel::Good
    } else {
        SignalLevel::Excellent
    }
}

/// The place of a class among the five, from 0 for the lowest.
pub open spec fn level_rank(level: SignalLevel) -> nat {
    match level {
        SignalLevel::Lowest => 0,
        SignalLevel::Weak => 1,
        SignalLevel::Fair => 2,
        SignalLevel::Good => 3,
        SignalLevel::Excellent => 4,
    }
}

/// The name of the icon that stands for a class.
pub open spec fn icon_name(level: SignalLevel) -> Seq<char> {
    match level {
        SignalLevel::Lowest => "network-wireless-signal-none"@,
        SignalLevel::Weak => "network-wireless-signal-weak"@,
        SignalLevel::Fair => "network-wireless-signal-ok"@,
        SignalLevel::Good => "network-wireless-signal-good"@,
        SignalLevel::Excellent => "network-wireless-signal-excellent"@,
    }
}

/// The class of a strength.
pub fn strength_class(strength: u8) -> (level: SignalLevel)
    ensures
        level == signal_level(strength),
{
    if strength <= 20 {
        SignalLevel::Lowest
    } else if strength <= 40 {
        SignalLevel::Weak
    } else if strength <= 60 {
        SignalLevel::Fair
    } else if strength <= 80 {
        SignalLevel::Good
    } else {
        SignalLevel::Excellent
    }
}

/// The icon shown for a strength.
pub fn icon_for_strength(strength: u8) -> (icon: &'static str)
    ensures
        icon@ == icon_name(signal_level(strength)),
{
    match strength_class(strength) {
        SignalLevel::Lowest => "network-wireless-signal-none",
        SignalLevel::Weak => "network-wireless-signal-weak",
        SignalLevel::Fair => "network-wireless-signal-ok",
        SignalLevel::Good => "network-wireless-signal-good",
        SignalLevel::Excellent => "network-wireless-signal-excellent",
    }
}

/// The five ranges of strength fall into five classes, one after the other:
/// 0 to 20, 21 to 40, 41 to 60, 61 to 80, and everything above.
pub proof fn lemma_levels_partition(strength: u8)
    ensures
        level_rank(signal_level(strength)) == 0 <==> strength <= 20,
        level_rank(signal_level(strength)) == 1 <==> 21 <= strength <= 40,
        level_rank(signal_level(strength)) == 2 <==> 41 <= strength <= 60,
        level_rank(signal_level(strength)) == 3 <==> 61 <= strength <= 80,
        level_rank(signal_level(strength)) == 4 <==> 81 <= strength,
{
}

/// A stronger signal never falls into a lower class.
pub proof fn lemma_levels_monotonic(weaker: u8, stronger: u8)
    requires
        weaker <= stronger,
    ensures
        level_rank(signal_level(weaker)) <= level_rank(signal_level(stronger)),
{
}

/// Different classes have different ranks and different icons.
pub proof fn lemma_levels_distinct(a: SignalLevel, b: SignalLevel)
    requires
        a != b,
    ensures
        level_rank(a) != level_rank(b),
        icon_name(a) != icon_name(b),
{
    reveal_strlit("network-wireless-signal-none");
    reveal_strlit("network-wireless-signal-weak");
    reveal_strlit("network-wireless-signal-ok");
    reveal_strlit("network-wireless-signal-good");
    reveal_strlit("network-wireless-signal-excellent");
    assert(icon_name(SignalLevel::Lowest)[24] == 'n');
    assert(icon_name(SignalLevel::Weak)[24] == 'w');
    assert(icon_name(SignalLevel::Fair)[24] == 'o');
    assert(icon_name(SignalLevel::Good)[24] == 'g');
    assert(icon_name(SignalLevel::Excellent)[24] == 'e');
}

/// What a network offers before any overlay: nothing while the radio is off,
/// to disconnect where it is the active one, to connect otherwise.
pub open spec fn base_action_of(wifi_enabled: bool, is_active: bool) -> NetworkAction {
    if !wifi_enabled {
        NetworkAction::NoAction
    } else if is_active {
        NetworkAction::Disconnect
    } else {
        NetworkAction::Connect
    }
}

/// The base action of a network.
pub fn base_action(wifi_enabled: bool, is_active: bool) -> (action: NetworkAction)
    ensures
        action == base_action_of(wifi_enabled, is_active),
{
    if !wifi_enabled {
        NetworkAction::NoAction
    } else if is_active {
        NetworkAction::Disconnect
    } else {
        NetworkAction::Connect
    }
}

/// One access point as a scan reported it.
#[derive(Debug)]
pub struct Sighting {
    pub ssid: String,
    pub strength: u8,
    pub is_active: bool,
    pub is_saved: bool,
    pub is_secure: bool,
}

/// A sighting as contracts see it.
pub struct SightingView {
    pub ssid: Seq<char>,
    pub strength: u8,
    pub is_active: bool,
    pub is_saved: bool,
    pub is_secure: bool,
}

impl View for Sighting {
    type V = SightingView;

    open spec fn view(&self) -> SightingView {
        SightingView {
            ssid: self.ssid@,
            strength: self.strength,
            is_active: self.is_active,
            is_saved: self.is_saved,
            is_secure: self.is_secure,
        }
    }
}

impl Clone for Sighting {
    fn clone(&self) -> (res: Self)
        ensures
            res == *self,
    {
        Sighting {
            ssid: self.ssid.clone(),
            strength: self.strength,
            is_active: self.is_active,
            is_saved: self.is_saved,
            is_secure: self.is_secure,
        }
    }
}

/// The views of a run of sightings, in order.
pub open spec fn sighting_views(sightings: Seq<Sighting>) -> Seq<SightingView> {
    sightings.map_values(|s: Sighting| s@)
}

/// How a sighting ranks among those of its SSID: any active one above every
/// inactive one, and by strength within each group.
pub open spec fn sighting_rank(s: SightingView) -> int {
    if s.is_active {
        256 + s.strength
    } else {
        s.strength as int
    }
}

/// A higher rank means: active where the other is not, or stronger where
/// both are alike in that.
pub proof fn lemma_rank_meaning(a: SightingView, b: SightingView)
    ensures
        sighting_rank(a) > sighting_rank(b) <==> (a.is_active && !b.is_active) || (a.is_active
            == b.is_active && a.strength > b.strength),
        sighting_rank(a) == sighting_rank(b) <==> a.is_active == b.is_active && a.strength
            == b.strength,
{
}

/// Among the first `upto` sightings, the one at `w` is the one kept for its
/// SSID: none of them with that SSID ranks higher, and every earlier one
/// ranks lower.
pub open spec fn wins_among(s: Seq<SightingView>, w: int, upto: int) -> bool {
    &&& 0 <= w < upto <= s.len()
    &&& s[w].ssid.len() > 0
    &&& forall|j: int|
        0 <= j < upto && #[trigger] s[j].ssid == s[w].ssid ==> {
            &&& sighting_rank(s[j]) <= sighting_rank(s[w])
            &&& j < w ==> sighting_rank(s[j]) < sighting_rank(s[w])
        }
}

/// The sighting at `w` is the one kept for its SSID.
pub open spec fn is_winner(s: Seq<SightingView>, w: int) -> bool {
    wins_among(s, w, s.len() as int)
}

/// The network that a kept sighting becomes.
pub open spec fn network_from(s: SightingView, wifi_enabled: bool) -> NetworkView {
    NetworkView {
        ssid: s.ssid,
        signal_icon: icon_name(signal_level(s.strength)),
        action: base_action_of(wifi_enabled, s.is_active),
        strength: s.strength,
        is_active: s.is_active,
        is_saved: s.is_saved,
        is_secure: s.is_secure,
    }
}

/// The order of the list: active before inactive, then the stronger first,
/// then by SSID.
pub open spec fn comes_before(
    a_active: bool,
    a_strength: u8,
    a_ssid: Seq<char>,
    b_active: bool,
    b_strength: u8,
    b_ssid: Seq<char>,
) -> bool {
    if a_active != b_active {
        a_active
    } else if a_strength != b_strength {
        a_strength > b_strength
    } else {
        text_lt(a_ssid, b_ssid)
    }
}

/// Network `a` stands above network `b` in the list.
pub open spec fn precedes(a: NetworkView, b: NetworkView) -> bool {
    comes_before(a.is_active, a.strength, a.ssid, b.is_active, b.strength, b.ssid)
}

/// No network stands above itself.
pub proof fn lemma_precedes_irreflexive(a: NetworkView)
    ensures
        !precedes(a, a),
{
    lemma_bytes_lt_irreflexive(encode_utf8(a.ssid));
}

/// Of two networks at most one stands above the other.
pub proof fn lemma_precedes_asymmetric(a: NetworkView, b: NetworkView)
    ensures
        !(precedes(a, b) && precedes(b, a)),
{
    lemma_bytes_lt_asymmetric(encode_utf8(a.ssid), encode_utf8(b.ssid));
}

/// The order of the list is transitive.
pub proof fn lemma_precedes_transitive(a: NetworkView, b: NetworkView, c: NetworkView)
    requires
        precedes(a, b),
        precedes(b, c),
    ensures
        precedes(a, c),
{
    if a.is_active == b.is_active && b.is_active == c.is_active && a.strength == b.strength
        && b.strength == c.strength {
        lemma_bytes_lt_transitive(encode_utf8(a.ssid), encode_utf8(b.ssid), encode_utf8(c.ssid));
    }
}

/// Two networks with different SSIDs are ordered one way or the other.
pub proof fn lemma_precedes_total(a: NetworkView, b: NetworkView)
    requires
        a.ssid != b.ssid,
    ensures
        precedes(a, b) || precedes(b, a),
{
    lemma_utf8_injective(a.ssid, b.ssid);
    lemma_bytes_lt_total(encode_utf8(a.ssid), encode_utf8(b.ssid));
}

/// Each network stands above all that follow it.
pub open spec fn strictly_ordered(networks: Seq<NetworkView>) -> bool {
    forall|i: int, j: int| 0 <= i < j < networks.len() ==> precedes(networks[i], networks[j])
}

/// No SSID occurs twice.
pub open spec fn distinct_ssids(networks: Seq<NetworkView>) -> bool {
    forall|i: int, j: int|
        0 <= i < j < networks.len() ==> networks[i].ssid != networks[j].ssid
}

/// `network` is what the sighting kept for some SSID becomes.
pub open spec fn made_from_winner(
    network: NetworkView,
    wifi_enabled: bool,
    s: Seq<SightingView>,
) -> bool {
    exists|w: int| is_winner(s, w) && network == network_from(#[trigger] s[w], wifi_enabled)
}

/// One of `networks` has the name `ssid`.
pub open spec fn lists_ssid(networks: Seq<NetworkView>, ssid: Seq<char>) -> bool {
    exists|i: int| 0 <= i < networks.len() && (#[trigger] networks[i]).ssid == ssid
}

/// `networks` is the snapshot of the sightings `s`: in list order, one
/// network for each SSID in sight, and each of them made from the sighting
/// kept for it.
pub open spec fn is_snapshot_of(
    networks: Seq<NetworkView>,
    wifi_enabled: bool,
    s: Seq<SightingView>,
) -> bool {
    &&& strictly_ordered(networks)
    &&& distinct_ssids(networks)
    &&& forall|i: int|
        0 <= i < networks.len() ==> made_from_winner(#[trigger] networks[i], wifi_enabled, s)
    &&& forall|k: int|
        0 <= k < s.len() && s[k].ssid.len() > 0 ==> #[trigger] lists_ssid(networks, s[k].ssid)
}

/// One of the sightings at the indices `kept` has the name `ssid`.
pub open spec fn keeps_ssid(s: Seq<SightingView>, kept: Seq<usize>, ssid: Seq<char>) -> bool {
    exists|p: int| 0 <= p < kept.len() && kept[p] < s.len() && s[#[trigger] kept[p] as int].ssid == ssid
}

/// Each network shows the icon of its strength and offers what the radio
/// and its own activity allow.
pub open spec fn derived_fields(snapshot: AppStateView) -> bool {
    forall|i: int|
        0 <= i < snapshot.networks.len() ==> (#[trigger] snapshot.networks[i]).signal_icon
            == icon_name(signal_level(snapshot.networks[i].strength)) && snapshot.networks[i].action
            == base_action_of(snapshot.wifi_enabled, snapshot.networks[i].is_active)
}

/// The invariant of a snapshot: list order, one entry for each SSID, and in
/// each entry the icon and the action that follow from the rest.
pub open spec fn is_snapshot(snapshot: AppStateView) -> bool {
    &&& strictly_ordered(snapshot.networks)
    &&& distinct_ssids(snapshot.networks)
    &&& derived_fields(snapshot)
}

impl AppState {
    /// The invariant of a snapshot.
    pub open spec fn well_formed(&self) -> bool {
        is_snapshot(self@)
    }
}


/// For each SSID one sighting is kept, and no more.
pub proof fn lemma_winner_unique(s: Seq<SightingView>, v: int, w: int)
    requires
        is_winner(s, v),
        is_winner(s, w),
        s[v].ssid == s[w].ssid,
    ensures
        v == w,
{
}

/// Sightings that all share one SSID become exactly one network. It is made
/// from one of them; it is active if any of them is, and none of those that
/// are alike to it in that is stronger.
pub proof fn lemma_one_ssid_one_network(
    networks: Seq<NetworkView>,
    wifi_enabled: bool,
    s: Seq<SightingView>,
)
    requires
        s.len() > 0,
        s[0].ssid.len() > 0,
        forall|k: int| 0 <= k < s.len() ==> (#[trigger] s[k]).ssid == s[0].ssid,
        is_snapshot_of(networks, wifi_enabled, s),
    ensures
        networks.len() == 1,
        networks[0].ssid == s[0].ssid,
        exists|k: int| 0 <= k < s.len() && networks[0] == network_from(#[trigger] s[k], wifi_enabled),
        forall|k: int| 0 <= k < s.len() && (#[trigger] s[k]).is_active ==> networks[0].is_active,
        forall|k: int|
            0 <= k < s.len() && (#[trigger] s[k]).is_active == networks[0].is_active
                ==> s[k].strength <= networks[0].strength,
{
    assert(lists_ssid(networks, s[0].ssid));
    assert forall|i: int| 0 <= i < networks.len() implies (#[trigger] networks[i]).ssid == s[0].ssid by {
        assert(made_from_winner(networks[i], wifi_enabled, s));
    }
    if networks.len() > 1 {
        assert(networks[0].ssid == networks[1].ssid);
    }
    assert(made_from_winner(networks[0], wifi_enabled, s));
    let w = choose|w: int| is_winner(s, w) && networks[0] == network_from(#[trigger] s[w], wifi_enabled);
    assert forall|k: int| 0 <= k < s.len() implies sighting_rank(#[trigger] s[k]) <= sighting_rank(
        s[w],
    ) by {
        assert(s[k].ssid == s[w].ssid);
    }
}

/// Where in `b` the network `a[i]` stands.
spec fn place_in(a: Seq<NetworkView>, b: Seq<NetworkView>, i: int) -> int {
    choose|j: int| 0 <= j < b.len() && b[j] == a[i]
}

/// All of `a` occurs in `b`.
spec fn all_in(a: Seq<NetworkView>, b: Seq<NetworkView>) -> bool {
    forall|i: int| 0 <= i < a.len() ==> b.contains(#[trigger] a[i])
}

proof fn lemma_place_rises(a: Seq<NetworkView>, b: Seq<NetworkView>, i: int)
    requires
        strictly_ordered(a),
        strictly_ordered(b),
        all_in(a, b),
        0 <= i,
        i + 1 < a.len(),
    ensures
        0 <= place_in(a, b, i) < place_in(a, b, i + 1) < b.len(),
{
    assert(b.contains(a[i]));
    assert(b.contains(a[i + 1]));
    let x = place_in(a, b, i);
    let y = place_in(a, b, i + 1);
    assert(precedes(a[i], a[i + 1]));
    if x == y {
        lemma_precedes_irreflexive(a[i]);
    } else if y < x {
        assert(precedes(b[y], b[x]));
        lemma_precedes_asymmetric(a[i], a[i + 1]);
    }
}

proof fn lemma_place_lower(a: Seq<NetworkView>, b: Seq<NetworkView>, i: int)
    requires
        strictly_ordered(a),
        strictly_ordered(b),
        all_in(a, b),
        0 <= i < a.len(),
    ensures
        i <= place_in(a, b, i) < b.len(),
    decreases i,
{
    assert(b.contains(a[i]));
    if i > 0 {
        lemma_place_lower(a, b, i - 1);
        lemma_place_rises(a, b, i - 1);
    }
}

proof fn lemma_place_upper(a: Seq<NetworkView>, b: Seq<NetworkView>, i: int)
    requires
        strictly_ordered(a),
        strictly_ordered(b),
        all_in(a, b),
        0 <= i < a.len(),
    ensures
        place_in(a, b, i) <= b.len() - a.len() + i,
    decreases a.len() - i,
{
    assert(b.contains(a[i]));
    if i + 1 < a.len() {
        lemma_place_upper(a, b, i + 1);
        lemma_place_rises(a, b, i);
    }
}

/// Two lists in strict order that hold the same networks are the same list.
proof fn lemma_same_members_same_list(a: Seq<NetworkView>, b: Seq<NetworkView>)
    requires
        strictly_ordered(a),
        strictly_ordered(b),
        all_in(a, b),
        all_in(b, a),
    ensures
        a == b,
{
    if a.len() > 0 {
        lemma_place_lower(a, b, a.len() - 1);
    }
    if b.len() > 0 {
        lemma_place_lower(b, a, b.len() - 1);
    }
    assert(a.len() == b.len());
    assert forall|i: int| 0 <= i < a.len() implies a[i] == b[i] by {
        lemma_place_lower(a, b, i);
        lemma_place_upper(a, b, i);
        assert(b.contains(a[i]));
    }
    assert(a =~= b);
}

proof fn lemma_snapshot_members(
    a: Seq<NetworkView>,
    b: Seq<NetworkView>,
    wifi_enabled: bool,
    s: Seq<SightingView>,
)
    requires
        is_snapshot_of(a, wifi_enabled, s),
        is_snapshot_of(b, wifi_enabled, s),
    ensures
        all_in(a, b),
{
    assert forall|i: int| 0 <= i < a.len() implies b.contains(#[trigger] a[i]) by {
        assert(made_from_winner(a[i], wifi_enabled, s));
        let w = choose|w: int| is_winner(s, w) && a[i] == network_from(#[trigger] s[w], wifi_enabled);
        assert(lists_ssid(b, s[w].ssid));
        let j = choose|j: int| 0 <= j < b.len() && (#[trigger] b[j]).ssid == s[w].ssid;
        assert(made_from_winner(b[j], wifi_enabled, s));
        let v = choose|v: int| is_winner(s, v) && b[j] == network_from(#[trigger] s[v], wifi_enabled);
        lemma_winner_unique(s, v, w);
    }
}

/// The sightings and the radio flag decide the snapshot: a reload that meets
/// the same sightings gives the same list, whatever the order in which it
/// worked through them.
pub proof fn lemma_snapshot_unique(
    a: Seq<NetworkView>,
    b: Seq<NetworkView>,
    wifi_enabled: bool,
    s: Seq<SightingView>,
)
    requires
        is_snapshot_of(a, wifi_enabled, s),
        is_snapshot_of(b, wifi_enabled, s),
    ensures
        a == b,
{
    lemma_snapshot_members(a, b, wifi_enabled, s);
    lemma_snapshot_members(b, a, wifi_enabled, s);
    lemma_same_members_same_list(a, b);
}

/// Each network is the best of its name: it is active where any sighting of
/// its SSID is, and among the sightings that are alike to it in that, none
/// is stronger.
pub open spec fn best_of_its_name(networks: Seq<NetworkView>, s: Seq<SightingView>) -> bool {
    forall|i: int, k: int|
        0 <= i < networks.len() && 0 <= k < s.len() && (#[trigger] s[k]).ssid
            == (#[trigger] networks[i]).ssid ==> (s[k].is_active ==> networks[i].is_active) && (
        s[k].is_active == networks[i].is_active ==> s[k].strength <= networks[i].strength)
}

/// In a snapshot each network is the best of its name, whatever else is in
/// sight.
pub proof fn lemma_each_network_is_the_best(
    networks: Seq<NetworkView>,
    wifi_enabled: bool,
    s: Seq<SightingView>,
)
    requires
        is_snapshot_of(networks, wifi_enabled, s),
    ensures
        best_of_its_name(networks, s),
        forall|i: int|
            0 <= i < networks.len() ==> exists|k: int|
                0 <= k < s.len() && #[trigger] networks[i] == network_from(
                    #[trigger] s[k],
                    wifi_enabled,
                ),
{
    assert forall|i: int, k: int|
        0 <= i < networks.len() && 0 <= k < s.len() && (#[trigger] s[k]).ssid
            == (#[trigger] networks[i]).ssid implies (s[k].is_active ==> networks[i].is_active)
        && (s[k].is_active == networks[i].is_active ==> s[k].strength <= networks[i].strength) by {
        assert(made_from_winner(networks[i], wifi_enabled, s));
        let w = choose|w: int|
            is_winner(s, w) && networks[i] == network_from(#[trigger] s[w], wifi_enabled);
        assert(sighting_rank(s[k]) <= sighting_rank(s[w]));
    }
    assert forall|i: int| 0 <= i < networks.len() implies exists|k: int|
        0 <= k < s.len() && #[trigger] networks[i] == network_from(#[trigger] s[k], wifi_enabled) by {
        assert(made_from_winner(networks[i], wifi_enabled, s));
        let w = choose|w: int|
            is_winner(s, w) && networks[i] == network_from(#[trigger] s[w], wifi_enabled);
        assert(0 <= w < s.len() && networks[i] == network_from(s[w], wifi_enabled));
    }
}

/// The snapshot of the sightings `s`: the one list that is in list order,
/// has one network for each SSID in sight, and each of them made from the
/// sighting kept for it.
pub open spec fn snapshot_of(wifi_enabled: bool, s: Seq<SightingView>) -> Seq<NetworkView> {
    choose|networks: Seq<NetworkView>| is_snapshot_of(networks, wifi_enabled, s)
}

/// A list that is a snapshot of the sightings is the snapshot of them.
pub proof fn lemma_is_the_snapshot(
    networks: Seq<NetworkView>,
    wifi_enabled: bool,
    s: Seq<SightingView>,
)
    requires
        is_snapshot_of(networks, wifi_enabled, s),
    ensures
        networks == snapshot_of(wifi_enabled, s),
{
    lemma_snapshot_unique(networks, snapshot_of(wifi_enabled, s), wifi_enabled, s);
}

/// The rank of a sighting as a number that fits a machine word.
fn rank_of(s: &Sighting) -> (rank: u16)
    ensures
        rank == sighting_rank(s@),
{
    if s.is_active {
        256 + (s.strength as u16)
    } else {
        s.strength as u16
    }
}

/// Whether sighting `a` stands above sighting `b` in the list.
fn sighting_precedes(a: &Sighting, b: &Sighting) -> (r: bool)
    ensures
        r == precedes(network_from(a@, true), network_from(b@, true)),
{
    if a.is_active != b.is_active {
        a.is_active
    } else if a.strength != b.strength {
        a.strength > b.strength
    } else {
        str_lt(a.ssid.as_str(), b.ssid.as_str())
    }
}

/// Where among `kept` the SSID of sighting `k` already stands, if it does.
fn find_kept(sightings: &Vec<Sighting>, kept: &Vec<usize>, k: usize) -> (found: Option<usize>)
    requires
        k < sightings.len(),
        forall|p: int| 0 <= p < kept@.len() ==> #[trigger] kept@[p] < sightings.len(),
    ensures
        match found {
            Some(p) => p < kept@.len() && sightings@[kept@[p as int] as int].ssid@
                == sightings@[k as int].ssid@,
            None => !keeps_ssid(sighting_views(sightings@), kept@, sightings@[k as int].ssid@),
        },
{
    let ghost s = sighting_views(sightings@);
    let mut p: usize = 0;
    while p < kept.len()
        invariant
            p <= kept.len(),
            k < sightings.len(),
            s == sighting_views(sightings@),
            forall|q: int| 0 <= q < kept@.len() ==> #[trigger] kept@[q] < sightings.len(),
            forall|q: int| 0 <= q < p ==> s[#[trigger] kept@[q] as int].ssid != s[k as int].ssid,
        decreases kept.len() - p,
    {
        assert(kept@[p as int] < sightings.len());
        if str_eq(sightings[kept[p]].ssid.as_str(), sightings[k].ssid.as_str()) {
            return Some(p);
        }
        p += 1;
    }
    None
}

/// For each SSID in sight, the index of the sighting that is kept for it:
/// the highest in rank, and the first of those where several rank alike.
/// Sightings without a name are passed over. The indices come in the order
/// in which their SSIDs were first seen.
pub fn best_per_ssid(sightings: &Vec<Sighting>) -> (kept: Vec<usize>)
    ensures
        forall|p: int|
            0 <= p < kept@.len() ==> is_winner(sighting_views(sightings@), #[trigger] kept@[p] as int),
        forall|p: int, q: int|
            0 <= p < q < kept@.len() ==> sightings@[kept@[p] as int].ssid@ != sightings@[kept@[q] as int].ssid@,
        forall|k: int|
            0 <= k < sightings@.len() && sightings@[k].ssid@.len() > 0 ==> #[trigger] keeps_ssid(
                sighting_views(sightings@),
                kept@,
                sightings@[k].ssid@,
            ),
{
    let ghost s = sighting_views(sightings@);
    let mut kept: Vec<usize> = Vec::new();
    let mut k: usize = 0;
    while k < sightings.len()
        invariant
            k <= sightings.len(),
            s == sighting_views(sightings@),
            forall|p: int| 0 <= p < kept@.len() ==> wins_among(s, #[trigger] kept@[p] as int, k as int),
            forall|p: int, q: int|
                0 <= p < q < kept@.len() ==> s[kept@[p] as int].ssid != s[kept@[q] as int].ssid,
            forall|j: int|
                0 <= j < k && s[j].ssid.len() > 0 ==> #[trigger] keeps_ssid(s, kept@, s[j].ssid),
        decreases sightings.len() - k,
    {
        let ghost before = kept@;
        if !sightings[k].ssid.as_str().is_empty() {
            match find_kept(sightings, &kept, k) {
                Some(p) => {
                    let w = kept[p];
                    assert(wins_among(s, w as int, k as int));
                    if rank_of(&sightings[k]) > rank_of(&sightings[w]) {
                        kept.set(p, k);
                        proof {
                            lemma_replace_kept(s, before, kept@, p as int, k);
                        }
                    } else {
                        proof {
                            lemma_keep_kept(s, kept@, p as int, k as int);
                        }
                    }
                },
                None => {
                    kept.push(k);
                    proof {
                        lemma_push_kept(s, before, kept@, k);
                    }
                },
            }
        } else {
            proof {
                lemma_skip_unnamed(s, kept@, k as int);
            }
        }
        k += 1;
    }
    proof {
        assert forall|j: int| 0 <= j < sightings@.len() && sightings@[j].ssid@.len() > 0 implies #[trigger] keeps_ssid(
            sighting_views(sightings@),
            kept@,
            sightings@[j].ssid@,
        ) by {
            assert(keeps_ssid(s, kept@, s[j].ssid));
        }
        assert forall|p: int, q: int| 0 <= p < q < kept@.len() implies sightings@[kept@[p] as int].ssid@
            != sightings@[kept@[q] as int].ssid@ by {
            assert(wins_among(s, kept@[p] as int, k as int));
            assert(wins_among(s, kept@[q] as int, k as int));
            assert(s[kept@[p] as int].ssid != s[kept@[q] as int].ssid);
        }
    }
    kept
}

/// What holds of the kept indices once `k` sightings were looked at.
spec fn kept_upto(s: Seq<SightingView>, kept: Seq<usize>, k: int) -> bool {
    &&& forall|p: int| 0 <= p < kept.len() ==> wins_among(s, #[trigger] kept[p] as int, k)
    &&& forall|p: int, q: int|
        0 <= p < q < kept.len() ==> s[kept[p] as int].ssid != s[kept[q] as int].ssid
    &&& forall|j: int| 0 <= j < k && s[j].ssid.len() > 0 ==> #[trigger] keeps_ssid(s, kept, s[j].ssid)
}

/// A sighting that outranks the one kept for its SSID takes its place.
proof fn lemma_replace_kept(
    s: Seq<SightingView>,
    before: Seq<usize>,
    after: Seq<usize>,
    p: int,
    at: usize,
)
    requires
        at < s.len(),
        kept_upto(s, before, at as int),
        0 <= p < before.len(),
        s[at as int].ssid.len() > 0,
        s[before[p] as int].ssid == s[at as int].ssid,
        sighting_rank(s[at as int]) > sighting_rank(s[before[p] as int]),
        after == before.update(p, at),
    ensures
        kept_upto(s, after, at + 1),
{
    let k = at as int;
    let w = before[p] as int;
    assert(wins_among(s, w, k));
    assert forall|q: int| 0 <= q < after.len() implies wins_among(s, #[trigger] after[q] as int, k + 1) by {
        if q != p {
            assert(wins_among(s, before[q] as int, k));
            assert(s[before[q] as int].ssid != s[before[p] as int].ssid);
        }
    }
    assert forall|a: int, b: int| 0 <= a < b < after.len() implies s[after[a] as int].ssid
        != s[after[b] as int].ssid by {
        assert(s[before[a] as int].ssid != s[before[b] as int].ssid);
    }
    assert forall|j: int| 0 <= j < k + 1 && s[j].ssid.len() > 0 implies #[trigger] keeps_ssid(
        s,
        after,
        s[j].ssid,
    ) by {
        if j < k {
            assert(keeps_ssid(s, before, s[j].ssid));
            let q = choose|q: int|
                0 <= q < before.len() && before[q] < s.len() && s[#[trigger] before[q] as int].ssid
                    == s[j].ssid;
            assert(s[after[q] as int].ssid == s[j].ssid);
        } else {
            assert(s[after[p] as int].ssid == s[j].ssid);
        }
    }
}

/// A sighting that does not outrank the one kept for its SSID changes nothing.
proof fn lemma_keep_kept(s: Seq<SightingView>, kept: Seq<usize>, p: int, k: int)
    requires
        0 <= k < s.len(),
        kept_upto(s, kept, k),
        0 <= p < kept.len(),
        s[kept[p] as int].ssid == s[k].ssid,
        sighting_rank(s[k]) <= sighting_rank(s[kept[p] as int]),
    ensures
        kept_upto(s, kept, k + 1),
{
    assert forall|q: int| 0 <= q < kept.len() implies wins_among(s, #[trigger] kept[q] as int, k + 1) by {
        assert(wins_among(s, kept[q] as int, k));
        if q != p {
            assert(s[kept[q] as int].ssid != s[kept[p] as int].ssid);
        }
    }
    assert forall|j: int| 0 <= j < k + 1 && s[j].ssid.len() > 0 implies #[trigger] keeps_ssid(
        s,
        kept,
        s[j].ssid,
    ) by {
        if j == k {
            assert(wins_among(s, kept[p] as int, k));
            assert(s[kept[p] as int].ssid == s[j].ssid);
        }
    }
}

/// The first sighting of an SSID is kept for it.
proof fn lemma_push_kept(s: Seq<SightingView>, before: Seq<usize>, after: Seq<usize>, at: usize)
    requires
        at < s.len(),
        kept_upto(s, before, at as int),
        s[at as int].ssid.len() > 0,
        !keeps_ssid(s, before, s[at as int].ssid),
        after == before.push(at),
    ensures
        kept_upto(s, after, at + 1),
{
    let k = at as int;
    assert forall|j: int| 0 <= j < k implies s[j].ssid != s[k].ssid by {
        if s[j].ssid == s[k].ssid {
            assert(keeps_ssid(s, before, s[j].ssid));
        }
    }
    assert forall|q: int| 0 <= q < after.len() implies wins_among(s, #[trigger] after[q] as int, k + 1) by {
        if q < before.len() {
            assert(wins_among(s, before[q] as int, k));
            assert(s[before[q] as int].ssid != s[k].ssid);
        }
    }
    assert forall|a: int, b: int| 0 <= a < b < after.len() implies s[after[a] as int].ssid
        != s[after[b] as int].ssid by {
        if b == before.len() {
            assert(wins_among(s, before[a] as int, k));
        } else {
            assert(s[before[a] as int].ssid != s[before[b] as int].ssid);
        }
    }
    assert forall|j: int| 0 <= j < k + 1 && s[j].ssid.len() > 0 implies #[trigger] keeps_ssid(
        s,
        after,
        s[j].ssid,
    ) by {
        if j < k {
            assert(keeps_ssid(s, before, s[j].ssid));
            let q = choose|q: int|
                0 <= q < before.len() && before[q] < s.len() && s[#[trigger] before[q] as int].ssid
                    == s[j].ssid;
            assert(s[after[q] as int].ssid == s[j].ssid);
        } else {
            assert(s[after[before.len() as int] as int].ssid == s[j].ssid);
        }
    }
}

/// A sighting without a name changes nothing.
proof fn lemma_skip_unnamed(s: Seq<SightingView>, kept: Seq<usize>, k: int)
    requires
        0 <= k < s.len(),
        kept_upto(s, kept, k),
        s[k].ssid.len() == 0,
    ensures
        kept_upto(s, kept, k + 1),
{
    assert forall|q: int| 0 <= q < kept.len() implies wins_among(s, #[trigger] kept[q] as int, k + 1) by {
        assert(wins_among(s, kept[q] as int, k));
    }
}

/// The kept sightings in list order.
fn in_list_order(sightings: &Vec<Sighting>, kept: &Vec<usize>) -> (order: Vec<usize>)
    requires
        forall|p: int| 0 <= p < kept@.len() ==> #[trigger] kept@[p] < sightings.len(),
        forall|p: int, q: int|
            0 <= p < q < kept@.len() ==> sightings@[kept@[p] as int].ssid@ != sightings@[kept@[q] as int].ssid@,
    ensures
        order@.len() == kept@.len(),
        forall|i: int| 0 <= i < order@.len() ==> kept@.contains(#[trigger] order@[i]),
        forall|p: int| 0 <= p < kept@.len() ==> order@.contains(#[trigger] kept@[p]),
        forall|i: int, j: int|
            0 <= i < j < order@.len() ==> precedes(
                network_from(sightings@[order@[i] as int]@, true),
                network_from(sightings@[order@[j] as int]@, true),
            ),
{
    let mut order: Vec<usize> = Vec::new();
    let mut t: usize = 0;
    while t < kept.len()
        invariant
            t <= kept.len(),
            order@.len() == t,
            forall|p: int| 0 <= p < kept@.len() ==> #[trigger] kept@[p] < sightings.len(),
            forall|p: int, q: int|
                0 <= p < q < kept@.len() ==> sightings@[kept@[p] as int].ssid@
                    != sightings@[kept@[q] as int].ssid@,
            forall|i: int|
                0 <= i < order@.len() ==> exists|p: int| 0 <= p < t && kept@[p] == #[trigger] order@[i],
            forall|p: int| 0 <= p < t ==> order@.contains(#[trigger] kept@[p]),
            forall|i: int, j: int|
                0 <= i < j < order@.len() ==> precedes(
                    network_from(sightings@[order@[i] as int]@, true),
                    network_from(sightings@[order@[j] as int]@, true),
                ),
        decreases kept.len() - t,
    {
        let w = kept[t];
        let ghost before = order@;
        let ghost new_net = network_from(sightings@[w as int]@, true);
        let mut pos: usize = 0;
        while pos < order.len() && !sighting_precedes(&sightings[w], &sightings[order[pos]])
            invariant
                pos <= order.len(),
                w < sightings.len(),
                order@ == before,
                new_net == network_from(sightings@[w as int]@, true),
                forall|i: int| 0 <= i < order@.len() ==> #[trigger] order@[i] < sightings.len(),
                forall|i: int|
                    0 <= i < pos ==> !precedes(
                        new_net,
                        network_from(sightings@[#[trigger] order@[i] as int]@, true),
                    ),
            decreases order.len() - pos,
        {
            pos += 1;
        }
        order.insert(pos, w);
        proof {
            assert forall|i: int| 0 <= i < order@.len() implies exists|p: int|
                0 <= p < t + 1 && kept@[p] == #[trigger] order@[i] by {
                if i < pos {
                    assert(order@[i] == before[i]);
                } else if i == pos {
                    assert(kept@[t as int] == order@[i]);
                } else {
                    assert(order@[i] == before[i - 1]);
                }
            }
            assert forall|p: int| 0 <= p < t + 1 implies order@.contains(#[trigger] kept@[p]) by {
                if p < t {
                    assert(before.contains(kept@[p]));
                    let i = choose|i: int| 0 <= i < before.len() && before[i] == kept@[p];
                    if i < pos {
                        assert(order@[i] == kept@[p]);
                    } else {
                        assert(order@[i + 1] == kept@[p]);
                    }
                } else {
                    assert(order@[pos as int] == kept@[p]);
                }
            }
            assert forall|i: int| 0 <= i < before.len() implies #[trigger] precedes(
                network_from(sightings@[before[i] as int]@, true),
                new_net,
            ) || precedes(new_net, network_from(sightings@[before[i] as int]@, true)) by {
                let p = choose|p: int| 0 <= p < t && kept@[p] == before[i];
                assert(sightings@[kept@[p] as int].ssid@ != sightings@[kept@[t as int] as int].ssid@);
                lemma_precedes_total(network_from(sightings@[before[i] as int]@, true), new_net);
            }
            assert forall|i: int, j: int| 0 <= i < j < order@.len() implies precedes(
                network_from(sightings@[order@[i] as int]@, true),
                network_from(sightings@[order@[j] as int]@, true),
            ) by {
                let a = network_from(sightings@[order@[i] as int]@, true);
                let b = network_from(sightings@[order@[j] as int]@, true);
                if j < pos {
                    assert(order@[i] == before[i] && order@[j] == before[j]);
                } else if j == pos {
                    assert(order@[i] == before[i]);
                    assert(precedes(a, new_net) || precedes(new_net, a));
                } else if i < pos {
                    assert(order@[i] == before[i] && order@[j] == before[j - 1]);
                } else if i == pos {
                    assert(order@[j] == before[j - 1]);
                    let c = network_from(sightings@[before[pos as int] as int]@, true);
                    assert(precedes(new_net, c));
                    if j - 1 > pos {
                        assert(precedes(c, b));
                        lemma_precedes_transitive(new_net, c, b);
                    }
                } else {
                    assert(order@[i] == before[i - 1] && order@[j] == before[j - 1]);
                }
            }
        }
        t += 1;
    }
    proof {
        assert forall|i: int| 0 <= i < order@.len() implies kept@.contains(#[trigger] order@[i]) by {
            let p = choose|p: int| 0 <= p < t && kept@[p] == order@[i];
            assert(kept@[p] == order@[i]);
        }
    }
    order
}

/// The network that a sighting becomes.
pub fn network_of(sighting: &Sighting, wifi_enabled: bool) -> (network: Network)
    ensures
        network@ == network_from(sighting@, wifi_enabled),
{
    Network {
        ssid: sighting.ssid.clone(),
        signal_icon: icon_for_strength(sighting.strength),
        action: base_action(wifi_enabled, sighting.is_active),
        strength: sighting.strength,
        is_active: sighting.is_active,
        is_saved: sighting.is_saved,
        is_secure: sighting.is_secure,
    }
}

/// Networks made from the kept sightings, taken in list order, are the
/// snapshot.
proof fn lemma_snapshot_from_order(
    nets: Seq<NetworkView>,
    wifi_enabled: bool,
    s: Seq<SightingView>,
    order: Seq<usize>,
)
    requires
        nets.len() == order.len(),
        forall|j: int| 0 <= j < order.len() ==> is_winner(s, #[trigger] order[j] as int),
        forall|j: int|
            0 <= j < order.len() ==> #[trigger] nets[j] == network_from(
                s[order[j] as int],
                wifi_enabled,
            ),
        forall|a: int, b: int|
            0 <= a < b < order.len() ==> precedes(
                network_from(s[order[a] as int], true),
                network_from(s[order[b] as int], true),
            ),
        forall|k: int| 0 <= k < s.len() && s[k].ssid.len() > 0 ==> #[trigger] keeps_ssid(s, order, s[k].ssid),
    ensures
        is_snapshot_of(nets, wifi_enabled, s),
{
    assert forall|a: int, b: int| 0 <= a < b < nets.len() implies precedes(nets[a], nets[b]) by {
        assert(precedes(
            network_from(s[order[a] as int], true),
            network_from(s[order[b] as int], true),
        ));
        assert(nets[a] == network_from(s[order[a] as int], wifi_enabled));
        assert(nets[b] == network_from(s[order[b] as int], wifi_enabled));
    }
    assert forall|a: int, b: int| 0 <= a < b < nets.len() implies nets[a].ssid != nets[b].ssid by {
        let wa = order[a] as int;
        let wb = order[b] as int;
        assert(is_winner(s, wa) && is_winner(s, wb));
        assert(precedes(nets[a], nets[b]));
        assert(nets[a] == network_from(s[wa], wifi_enabled));
        assert(nets[b] == network_from(s[wb], wifi_enabled));
        if nets[a].ssid == nets[b].ssid {
            if wa == wb {
                lemma_precedes_irreflexive(nets[a]);
            } else {
                assert(s[wa].ssid == s[wb].ssid);
            }
        }
    }
    assert forall|j: int| 0 <= j < nets.len() implies made_from_winner(
        #[trigger] nets[j],
        wifi_enabled,
        s,
    ) by {
        assert(is_winner(s, order[j] as int));
        assert(nets[j] == network_from(s[order[j] as int], wifi_enabled));
    }
    assert forall|k: int| 0 <= k < s.len() && s[k].ssid.len() > 0 implies #[trigger] lists_ssid(
        nets,
        s[k].ssid,
    ) by {
        assert(keeps_ssid(s, order, s[k].ssid));
        let j = choose|j: int|
            0 <= j < order.len() && order[j] < s.len() && s[#[trigger] order[j] as int].ssid
                == s[k].ssid;
        assert(nets[j] == network_from(s[order[j] as int], wifi_enabled));
        assert(nets[j].ssid == s[k].ssid);
    }
}

/// The snapshot of what a scan reported: one network for each SSID, made
/// from the sighting that ranks highest for it, in list order.
pub fn build_state(wifi_enabled: bool, sightings: &Vec<Sighting>) -> (state: AppState)
    ensures
        state.wifi_enabled == wifi_enabled,
        state@.networks == snapshot_of(wifi_enabled, sighting_views(sightings@)),
        is_snapshot_of(state@.networks, wifi_enabled, sighting_views(sightings@)),
        best_of_its_name(state@.networks, sighting_views(sightings@)),
        state.well_formed(),
{
    let ghost s = sighting_views(sightings@);
    let kept = best_per_ssid(sightings);
    proof {
        assert forall|p: int| 0 <= p < kept@.len() implies #[trigger] kept@[p] < sightings.len() by {
            assert(is_winner(s, kept@[p] as int));
        }
    }
    let order = in_list_order(sightings, &kept);
    let mut networks: Vec<Network> = Vec::new();
    let mut i: usize = 0;
    while i < order.len()
        invariant
            i <= order.len(),
            networks@.len() == i,
            forall|j: int| 0 <= j < order@.len() ==> kept@.contains(#[trigger] order@[j]),
            forall|p: int| 0 <= p < kept@.len() ==> #[trigger] kept@[p] < sightings.len(),
            forall|j: int|
                0 <= j < i ==> (#[trigger] networks@[j])@ == network_from(
                    sightings@[order@[j] as int]@,
                    wifi_enabled,
                ),
        decreases order.len() - i,
    {
        assert(kept@.contains(order@[i as int]));
        networks.push(network_of(&sightings[order[i]], wifi_enabled));
        i += 1;
    }
    let state = AppState { wifi_enabled, networks };
    proof {
        let nets = state@.networks;
        assert forall|j: int| 0 <= j < order@.len() implies is_winner(s, #[trigger] order@[j] as int) by {
            assert(kept@.contains(order@[j]));
        }
        assert forall|j: int| 0 <= j < order@.len() implies #[trigger] nets[j] == network_from(
            s[order@[j] as int],
            wifi_enabled,
        ) by {
            assert(nets[j] == state.networks@[j]@);
            assert(kept@.contains(order@[j]));
        }
        assert forall|a: int, b: int| 0 <= a < b < order@.len() implies precedes(
            network_from(s[order@[a] as int], true),
            network_from(s[order@[b] as int], true),
        ) by {
            assert(kept@.contains(order@[a]) && kept@.contains(order@[b]));
            assert(precedes(
                network_from(sightings@[order@[a] as int]@, true),
                network_from(sightings@[order@[b] as int]@, true),
            ));
        }
        assert forall|k: int| 0 <= k < s.len() && s[k].ssid.len() > 0 implies #[trigger] keeps_ssid(
            s,
            order@,
            s[k].ssid,
        ) by {
            assert(keeps_ssid(s, kept@, sightings@[k].ssid@));
            let p = choose|p: int|
                0 <= p < kept@.len() && kept@[p] < s.len() && s[#[trigger] kept@[p] as int].ssid
                    == s[k].ssid;
            assert(order@.contains(kept@[p]));
            let j = choose|j: int| 0 <= j < order@.len() && order@[j] == kept@[p];
            assert(s[order@[j] as int].ssid == s[k].ssid);
        }
        lemma_snapshot_from_order(nets, wifi_enabled, s, order@);
        lemma_is_the_snapshot(nets, wifi_enabled, s);
        lemma_each_network_is_the_best(nets, wifi_enabled, s);
        assert forall|j: int| 0 <= j < nets.len() implies (#[trigger] nets[j]).signal_icon
            == icon_name(signal_level(nets[j].strength)) && nets[j].action == base_action_of(
            wifi_enabled,
            nets[j].is_active,
        ) by {
            assert(nets[j] == network_from(s[order@[j] as int], wifi_enabled));
        }
    }
    state
}

} // verus!
