//! The backend that speaks to NetworkManager, without the bus: what it makes
//! of what the service tells, and what it hands to the service, for each of
//! its operations.

use vstd::prelude::*;
use vstd::string::*;
use vstd::utf8::encode_utf8;
use zbus::zvariant::OwnedValue;
use crate::backend::settings::{
    are_settings, distinct_keys, get_setting, get_value, lookup, put_entry, put_section,
    section_entries, setting, take_entries, Section,
};
use crate::backend::values::{
    bytes_in, flag_in, number_in, ov_array_dict, ov_bytes, ov_flag, ov_number, ov_str,
    owned_value_to_bool, owned_value_to_bytes, owned_value_to_string, owned_value_to_u32,
    dict_lists, dicts_in, holds_dicts, is_dict, is_scalar, readable, reading_of, surely_read,
    text_in, value_to_vec_dict, Entry, Reading,
};
use crate::backend::{BackendError, BackendResult};
use crate::inputs::{address_and_prefix, parse_ip_prefix};
use crate::models::{opt_text, opt_texts, texts, AppState, NetworkDetails};
use crate::snapshot::{
    best_of_its_name, build_state, is_snapshot_of, sighting_views, snapshot_of, Sighting,
    SightingView,
};
use crate::ssid_set::SsidSet;
use crate::text::{from_utf8_lossy, str_eq, trim, trimmed, utf8_lossy};
use crate::view::opt_str_text;

verus! {

/// The backend for the NetworkManager service on the system bus: what it
/// makes of what the service tells, for each of its operations. The calls
/// over the bus are made around it.
pub struct NetworkManagerBackend;

impl NetworkManagerBackend {
    /// The backend. It holds nothing: every call opens its own connection.
    pub fn new() -> (backend: Self) {
        NetworkManagerBackend
    }
}

/// The number by which the service marks a wireless device.
pub const NM_DEVICE_TYPE_WIFI: u32 = 2;

/// The path that stands for no object at all.
pub const NO_OBJECT: &'static str = "/";

/// Whether a device of this type is a wireless one.
pub fn is_wifi_device(device_type: u32) -> (r: bool)
    ensures
        r == (device_type == NM_DEVICE_TYPE_WIFI),
{
    device_type == NM_DEVICE_TYPE_WIFI
}

/// The failure with the given words.
pub fn unavailable(message: &str) -> (err: BackendError)
    ensures
        err.message() == message@,
{
    BackendError::Unavailable(message.to_string())
}

/// The failure of a machine without a wireless device.
pub fn no_wifi_device() -> (err: BackendError)
    ensures
        err.message() == "No Wi\u{2011}Fi device found"@,
{
    unavailable("No Wi\u{2011}Fi device found")
}

/// The name that the bytes of an SSID spell, without the white space around
/// it.
pub open spec fn ssid_text(bytes: Seq<u8>) -> Seq<char> {
    trimmed(utf8_lossy(bytes))
}

/// The name that the bytes of an SSID spell, if they spell one at all.
pub open spec fn ssid_of_bytes(bytes: Seq<u8>) -> Option<Seq<char>> {
    if ssid_text(bytes).len() == 0 {
        None
    } else {
        Some(ssid_text(bytes))
    }
}

/// The name that the bytes of an SSID spell, which may be empty.
pub fn decode_ssid(bytes: &[u8]) -> (ssid: String)
    ensures
        ssid@ == ssid_text(bytes@),
{
    let text = from_utf8_lossy(bytes);
    trim(text.as_str()).to_string()
}

/// The name that the bytes of an SSID spell, if they spell one at all.
pub fn ssid_from_bytes(bytes: &[u8]) -> (ssid: Option<String>)
    ensures
        opt_text(ssid) == ssid_of_bytes(bytes@),
{
    let ssid = decode_ssid(bytes);
    if ssid.as_str().is_empty() {
        None
    } else {
        Some(ssid)
    }
}

/// The name in a value that holds the bytes of an SSID.
pub open spec fn ssid_in(value: OwnedValue) -> Option<Seq<char>> {
    match bytes_in(value) {
        Some(bytes) => ssid_of_bytes(bytes),
        None => None,
    }
}

/// The name in a value that holds the bytes of an SSID, if it holds bytes
/// and they spell a name.
pub fn ssid_from_value(value: &OwnedValue) -> (ssid: Option<String>)
    ensures
        opt_text(ssid) == ssid_in(*value),
{
    match owned_value_to_bytes(value) {
        Some(bytes) => ssid_from_bytes(bytes.as_slice()),
        None => None,
    }
}

/// Whether the access point at `ap_path` with the name `ssid` is the one in
/// use: the device names it as its active access point, or the active
/// connection goes by its name.
pub fn sighting_is_active(ap_path: &str, active_ap: &str, ssid: &str, active_ssid: Option<&str>) -> (r:
    bool)
    ensures
        r == (ap_path@ == active_ap@ || opt_str_text(active_ssid) == Some(ssid@)),
{
    if str_eq(ap_path, active_ap) {
        return true;
    }
    match active_ssid {
        Some(active) => str_eq(active, ssid),
        None => false,
    }
}

/// The bit by which an access point announces privacy.
pub const AP_FLAG_PRIVACY: u32 = 1;

/// Whether an access point asks for a credential: it announces privacy, or
/// any kind of WPA or RSN security.
pub fn access_point_is_secure(flags: u32, wpa_flags: u32, rsn_flags: u32) -> (r: bool)
    ensures
        r == ((flags & AP_FLAG_PRIVACY) != 0 || wpa_flags != 0 || rsn_flags != 0),
{
    (flags & AP_FLAG_PRIVACY) != 0 || wpa_flags != 0 || rsn_flags != 0
}

/// An access point in sight, by name and strength.
#[derive(Debug)]
pub struct AccessPoint {
    pub ssid: String,
    pub strength: u8,
}

/// An access point in sight bears the name `ssid`.
pub open spec fn in_sight(aps: Seq<AccessPoint>, ssid: Seq<char>) -> bool {
    exists|j: int| 0 <= j < aps.len() && (#[trigger] aps[j]).ssid@ == ssid
}

/// The access point at `i` is the one to connect to for `ssid`: it has the
/// name, none with the name is stronger, and those before it are weaker.
pub open spec fn is_strongest(aps: Seq<AccessPoint>, ssid: Seq<char>, i: int) -> bool {
    &&& 0 <= i < aps.len()
    &&& aps[i].ssid@ == ssid
    &&& forall|j: int|
        0 <= j < aps.len() && (#[trigger] aps[j]).ssid@ == ssid ==> aps[j].strength
            <= aps[i].strength && (j < i ==> aps[j].strength < aps[i].strength)
}

/// The access point to connect to for `ssid`: the strongest with that name,
/// and the first of those where several are alike. Where none has the name,
/// the SSID is not found.
pub fn find_ap_for_ssid(aps: &Vec<AccessPoint>, ssid: &str) -> (r: BackendResult<usize>)
    ensures
        match r {
            Ok(i) => is_strongest(aps@, ssid@, i as int),
            Err(err) => err.message() == "SSID not found"@ && forall|j: int|
                0 <= j < aps@.len() ==> (#[trigger] aps@[j]).ssid@ != ssid@,
        },
{
    let mut best: Option<usize> = None;
    let mut k: usize = 0;
    while k < aps.len()
        invariant
            k <= aps.len(),
            match best {
                Some(i) => i < k && aps@[i as int].ssid@ == ssid@ && forall|j: int|
                    0 <= j < k && (#[trigger] aps@[j]).ssid@ == ssid@ ==> aps@[j].strength
                        <= aps@[i as int].strength && (j < i ==> aps@[j].strength
                        < aps@[i as int].strength),
                None => forall|j: int| 0 <= j < k ==> (#[trigger] aps@[j]).ssid@ != ssid@,
            },
        decreases aps.len() - k,
    {
        if str_eq(aps[k].ssid.as_str(), ssid) {
            match best {
                Some(i) => {
                    if aps[i].strength < aps[k].strength {
                        best = Some(k);
                    }
                },
                None => {
                    best = Some(k);
                },
            }
        }
        k += 1;
    }
    match best {
        Some(i) => Ok(i),
        None => Err(unavailable("SSID not found")),
    }
}

/// What was looked for, or the failure with the given words where it was
/// not found.
pub fn found_or(found: Option<String>, message: &str) -> (r: BackendResult<String>)
    ensures
        match found {
            Some(path) => r == Ok::<String, BackendError>(path),
            None => r matches Err(err) && err.message() == message@,
        },
{
    match found {
        Some(path) => Ok(path),
        None => Err(unavailable(message)),
    }
}

/// The name of the network that a profile is for.
pub open spec fn profile_ssid_of(settings: Seq<Section>) -> Option<Seq<char>> {
    match setting(settings, "802-11-wireless"@, "ssid"@) {
        Some(value) => ssid_in(value),
        None => None,
    }
}

/// The name of the network that a profile is for, if it is one for a
/// wireless network.
pub fn profile_ssid(settings: &Vec<Section>) -> (ssid: Option<String>)
    ensures
        opt_text(ssid) == profile_ssid_of(settings@),
{
    match get_setting(settings, "802-11-wireless", "ssid") {
        Some(value) => ssid_from_value(value),
        None => None,
    }
}

/// Whether a profile is one for the network `ssid`.
pub fn profile_matches(settings: &Vec<Section>, ssid: &str) -> (r: bool)
    ensures
        r == (profile_ssid_of(settings@) == Some(ssid@)),
{
    match profile_ssid(settings) {
        Some(current) => str_eq(current.as_str(), ssid),
        None => false,
    }
}

/// Whether a device names an active connection: any path but the one that
/// stands for none.
pub fn has_active_connection(path: &str) -> (r: bool)
    ensures
        r == (path@ != NO_OBJECT@),
{
    !str_eq(path, NO_OBJECT)
}

/// The name that an active connection goes by: that of its wireless
/// network, or else the name of its profile.
pub open spec fn active_ssid_of(settings: Seq<Section>) -> Option<Seq<char>> {
    if profile_ssid_of(settings) is Some {
        profile_ssid_of(settings)
    } else {
        match setting(settings, "connection"@, "id"@) {
            Some(value) => text_in(value),
            None => None,
        }
    }
}

/// The name that the active connection with these settings goes by.
pub fn active_ssid(settings: &Vec<Section>) -> (ssid: Option<String>)
    ensures
        opt_text(ssid) == active_ssid_of(settings@),
{
    match profile_ssid(settings) {
        Some(ssid) => {
            return Some(ssid);
        },
        None => {},
    }
    match get_setting(settings, "connection", "id") {
        Some(value) => match owned_value_to_string(value) {
            Ok(id) => Some(id),
            Err(_) => None,
        },
        None => None,
    }
}

/// The text under `key` in the section `name`.
pub open spec fn text_setting(settings: Seq<Section>, name: Seq<char>, key: Seq<char>) -> Option<
    Seq<char>,
> {
    match setting(settings, name, key) {
        Some(value) => text_in(value),
        None => None,
    }
}

/// The flag under `key` in the section `name`.
pub open spec fn flag_setting(settings: Seq<Section>, name: Seq<char>, key: Seq<char>) -> Option<
    bool,
> {
    match setting(settings, name, key) {
        Some(value) => flag_in(value),
        None => None,
    }
}

/// `settings` are those of a new profile for `ssid`: a wireless connection
/// in infrastructure mode that goes by the name of the network and connects
/// by itself, marked as hidden where the network is, and with a security
/// section exactly where a password is given.
pub open spec fn is_new_profile(
    settings: Seq<Section>,
    ssid: Seq<char>,
    password: Option<Seq<char>>,
    hidden: bool,
) -> bool {
    &&& text_setting(settings, "connection"@, "type"@) == Some("802-11-wireless"@)
    &&& text_setting(settings, "connection"@, "id"@) == Some(ssid)
    &&& flag_setting(settings, "connection"@, "autoconnect"@) == Some(true)
    &&& setting(settings, "802-11-wireless"@, "ssid"@) matches Some(value) && bytes_in(value)
        == Some(encode_utf8(ssid))
    &&& text_setting(settings, "802-11-wireless"@, "mode"@) == Some("infrastructure"@)
    &&& if hidden {
        flag_setting(settings, "802-11-wireless"@, "hidden"@) == Some(true)
    } else {
        setting(settings, "802-11-wireless"@, "hidden"@) is None
    }
    &&& match password {
        Some(password) => text_setting(settings, "802-11-wireless-security"@, "key-mgmt"@)
            == Some("wpa-psk"@) && text_setting(settings, "802-11-wireless-security"@, "psk"@)
            == Some(password),
        None => section_entries(settings, "802-11-wireless-security"@) is None,
    }
    &&& has_only_profile_keys(settings, hidden)
    &&& are_settings(settings)
}

/// The settings hold nothing beside what a new profile has: no section but
/// the three of a wireless connection, and in each of them no key but its
/// own.
pub open spec fn has_only_profile_keys(settings: Seq<Section>, hidden: bool) -> bool {
    &&& forall|name: Seq<char>|
        #[trigger] section_entries(settings, name) is Some ==> name == "connection"@ || name
            == "802-11-wireless"@ || name == "802-11-wireless-security"@
    &&& forall|key: Seq<char>|
        #[trigger] setting(settings, "connection"@, key) is Some ==> key == "type"@ || key == "id"@
            || key == "autoconnect"@
    &&& forall|key: Seq<char>|
        #[trigger] setting(settings, "802-11-wireless"@, key) is Some ==> key == "ssid"@ || key
            == "mode"@ || (hidden && key == "hidden"@)
    &&& forall|key: Seq<char>|
        #[trigger] setting(settings, "802-11-wireless-security"@, key) is Some ==> key
            == "key-mgmt"@ || key == "psk"@
}

/// The names of the three sections differ.
proof fn lemma_section_names_differ()
    ensures
        "connection"@ != "802-11-wireless"@,
        "connection"@ != "802-11-wireless-security"@,
        "802-11-wireless"@ != "802-11-wireless-security"@,
        "connection"@ != "ipv4"@,
{
    reveal_strlit("connection");
    reveal_strlit("802-11-wireless");
    reveal_strlit("802-11-wireless-security");
    reveal_strlit("ipv4");
    assert("connection"@[0] == 'c');
    assert("802-11-wireless"@[0] == '8');
    assert("802-11-wireless-security"@[0] == '8');
    assert("ipv4"@[0] == 'i');
    assert("802-11-wireless"@.len() == 15);
    assert("802-11-wireless-security"@.len() == 24);
}

/// The keys of the settings differ.
proof fn lemma_keys_differ()
    ensures
        "type"@ != "id"@,
        "type"@ != "autoconnect"@,
        "id"@ != "autoconnect"@,
        "ssid"@ != "mode"@,
        "ssid"@ != "hidden"@,
        "mode"@ != "hidden"@,
        "key-mgmt"@ != "psk"@,
{
    reveal_strlit("type");
    reveal_strlit("id");
    reveal_strlit("autoconnect");
    reveal_strlit("ssid");
    reveal_strlit("mode");
    reveal_strlit("hidden");
    reveal_strlit("key-mgmt");
    reveal_strlit("psk");
    assert("type"@[0] == 't');
    assert("id"@[0] == 'i');
    assert("autoconnect"@[0] == 'a');
    assert("ssid"@[0] == 's');
    assert("mode"@[0] == 'm');
    assert("hidden"@[0] == 'h');
    assert("key-mgmt"@[0] == 'k');
    assert("psk"@[0] == 'p');
}

/// The settings of a new profile for the network `ssid`.
pub fn new_connection(ssid: &str, password: Option<&str>, hidden: bool) -> (r: BackendResult<
    Vec<Section>,
>)
    ensures
        r matches Ok(settings) && is_new_profile(settings@, ssid@, opt_str_text(password), hidden),
{
    proof {
        lemma_section_names_differ();
        lemma_keys_differ();
    }
    let mut settings: Vec<Section> = Vec::new();
    assert(are_settings(settings@));
    assert(forall|name: Seq<char>| section_entries(settings@, name) is None);

    let mut connection: Vec<Entry> = Vec::new();
    assert(forall|key: Seq<char>| lookup(connection@, key) is None);
    put_entry(&mut connection, "type".to_string(), ov_str("802-11-wireless"));
    put_entry(&mut connection, "id".to_string(), ov_str(ssid));
    put_entry(&mut connection, "autoconnect".to_string(), ov_flag(true));
    put_section(&mut settings, "connection".to_string(), connection);

    let bytes = match ov_bytes(ssid.as_bytes_vec()) {
        Ok(bytes) => bytes,
        Err(err) => {
            return Err(err);
        },
    };
    let mut wireless: Vec<Entry> = Vec::new();
    assert(forall|key: Seq<char>| lookup(wireless@, key) is None);
    put_entry(&mut wireless, "ssid".to_string(), bytes);
    put_entry(&mut wireless, "mode".to_string(), ov_str("infrastructure"));
    if hidden {
        put_entry(&mut wireless, "hidden".to_string(), ov_flag(true));
    }
    put_section(&mut settings, "802-11-wireless".to_string(), wireless);

    match password {
        Some(password) => {
            let mut security: Vec<Entry> = Vec::new();
            assert(forall|key: Seq<char>| lookup(security@, key) is None);
            put_entry(&mut security, "key-mgmt".to_string(), ov_str("wpa-psk"));
            put_entry(&mut security, "psk".to_string(), ov_str(password));
            put_section(&mut settings, "802-11-wireless-security".to_string(), security);
        },
        None => {},
    }
    Ok(settings)
}

/// How a network is connected to.
#[derive(Debug)]
pub enum Activation {
    /// Activate the saved profile at this path.
    Existing { connection: String },
    /// Add a profile with these settings and activate it.
    Fresh { settings: Vec<Section> },
}

/// How to connect to `ssid`: by its saved profile where there is one, else
/// by a new profile.
pub fn plan_activation(saved: Option<String>, ssid: &str, password: Option<&str>, hidden: bool) -> (r:
    BackendResult<Activation>)
    ensures
        match saved {
            Some(path) => r matches Ok(Activation::Existing { connection }) && connection == path,
            None => r matches Ok(Activation::Fresh { settings }) && is_new_profile(
                settings@,
                ssid@,
                opt_str_text(password),
                hidden,
            ),
        },
{
    match saved {
        Some(connection) => Ok(Activation::Existing { connection }),
        None => match new_connection(ssid, password, hidden) {
            Ok(settings) => Ok(Activation::Fresh { settings }),
            Err(err) => Err(err),
        },
    }
}


/// The text under `key` in a dictionary.
pub open spec fn text_under(dict: Seq<Entry>, key: Seq<char>) -> Option<Seq<char>> {
    match lookup(dict, key) {
        Some(value) => text_in(value),
        None => None,
    }
}

/// The number under `key` in a dictionary.
pub open spec fn number_under(dict: Seq<Entry>, key: Seq<char>) -> Option<u32> {
    match lookup(dict, key) {
        Some(value) => number_in(value),
        None => None,
    }
}

/// The address and the prefix length that the first of the dictionaries
/// names. Where it lacks either, there is no address, whatever the
/// dictionaries after it say.
pub open spec fn first_address_of(dicts: Seq<Seq<Entry>>) -> Option<(Seq<char>, u32)> {
    if dicts.len() > 0 && text_under(dicts[0], "address"@) is Some && number_under(
        dicts[0],
        "prefix"@,
    ) is Some {
        Some((text_under(dicts[0], "address"@)->0, number_under(dicts[0], "prefix"@)->0))
    } else {
        None
    }
}

/// The address and the prefix length that the first of the dictionaries
/// names.
pub fn first_address(dicts: &Vec<Vec<Entry>>) -> (r: Option<(String, u32)>)
    ensures
        match first_address_of(dict_lists(dicts@)) {
            Some((address, prefix)) => r matches Some(pair) && pair.0@ == address && pair.1
                == prefix,
            None => r is None,
        },
{
    if dicts.len() == 0 {
        return None;
    }
    let first = &dicts[0];
    assert(dict_lists(dicts@)[0] == first@);
    let address = match get_value(first, "address") {
        Some(value) => value,
        None => {
            return None;
        },
    };
    let prefix = match get_value(first, "prefix") {
        Some(value) => value,
        None => {
            return None;
        },
    };
    let addr = match owned_value_to_string(address) {
        Ok(addr) => addr,
        Err(_) => {
            return None;
        },
    };
    let pre = match owned_value_to_u32(prefix) {
        Ok(pre) => pre,
        Err(_) => {
            return None;
        },
    };
    Some((addr, pre))
}

/// The addresses that the dictionaries name, in their order; a dictionary
/// without one is passed over.
pub open spec fn addresses_of(dicts: Seq<Seq<Entry>>) -> Seq<Seq<char>>
    decreases dicts.len(),
{
    if dicts.len() == 0 {
        Seq::empty()
    } else {
        let before = addresses_of(dicts.drop_last());
        match text_under(dicts.last(), "address"@) {
            Some(address) => before.push(address),
            None => before,
        }
    }
}

/// The addresses that the dictionaries name.
pub fn dns_addresses(dicts: &Vec<Vec<Entry>>) -> (r: Vec<String>)
    ensures
        texts(r@) == addresses_of(dict_lists(dicts@)),
{
    let ghost all = dict_lists(dicts@);
    let mut r: Vec<String> = Vec::new();
    let mut i: usize = 0;
    assert(all.take(0) =~= Seq::<Seq<Entry>>::empty());
    assert(texts(r@) =~= Seq::<Seq<char>>::empty());
    while i < dicts.len()
        invariant
            i <= dicts.len(),
            all == dict_lists(dicts@),
            texts(r@) == addresses_of(all.take(i as int)),
        decreases dicts.len() - i,
    {
        proof {
            assert(all.take(i + 1).drop_last() =~= all.take(i as int));
            assert(all.take(i + 1).last() == dicts@[i as int]@);
        }
        let ghost before = texts(r@);
        match get_value(&dicts[i], "address") {
            Some(value) => match owned_value_to_string(value) {
                Ok(address) => {
                    r.push(address);
                    assert(texts(r@) =~= before.push(address@));
                },
                Err(_) => {},
            },
            None => {},
        }
        i += 1;
    }
    assert(all.take(dicts.len() as int) =~= all);
    r
}

/// The address and the prefix length in a value that holds the addresses of
/// a profile: those that the first dictionary in the value names. Where the
/// bus library cannot copy the value there is none.
pub fn first_address_from_value(value: &OwnedValue) -> (r: Option<(String, u32)>)
    ensures
        address_text(r) == address_in(*value) || (r is None && !surely_read(*value)),
        is_scalar(*value) ==> r is None,
{
    let read = value_to_vec_dict(value);
    match &read {
        Some(dicts) => {
            proof {
                lemma_lists_name_the_same(dict_lists(dicts@), dicts_in(*value)->0);
            }
            first_address(dicts)
        },
        None => None,
    }
}

/// The name servers in a value that holds those of a profile: the addresses
/// that the dictionaries in the value name, in their order. Where the bus
/// library cannot copy the value there are none.
pub fn dns_from_value(value: &OwnedValue) -> (r: Vec<String>)
    ensures
        texts(r@) == servers_in(*value) || (r@.len() == 0 && !surely_read(*value)),
        is_scalar(*value) ==> r@.len() == 0,
{
    let read = value_to_vec_dict(value);
    match &read {
        Some(dicts) => {
            proof {
                lemma_lists_name_the_same(dict_lists(dicts@), dicts_in(*value)->0);
            }
            dns_addresses(dicts)
        },
        None => Vec::new(),
    }
}

/// An address and its prefix length as contracts see them.
pub open spec fn address_text(address: Option<(String, u32)>) -> Option<(Seq<char>, u32)> {
    match address {
        Some((address, prefix)) => Some((address@, prefix)),
        None => None,
    }
}

/// The text under `key` in a dictionary of a value.
pub open spec fn text_named(dict: Map<Seq<char>, Reading>, key: Seq<char>) -> Option<Seq<char>> {
    if dict.contains_key(key) {
        dict[key].text
    } else {
        None
    }
}

/// The number under `key` in a dictionary of a value.
pub open spec fn number_named(dict: Map<Seq<char>, Reading>, key: Seq<char>) -> Option<u32> {
    if dict.contains_key(key) {
        dict[key].number
    } else {
        None
    }
}

/// The address and the prefix length that the first of the dictionaries of
/// a value names. Where it lacks either, there is no address.
pub open spec fn first_address_named(named: Seq<Map<Seq<char>, Reading>>) -> Option<
    (Seq<char>, u32),
> {
    if named.len() > 0 && text_named(named[0], "address"@) is Some && number_named(
        named[0],
        "prefix"@,
    ) is Some {
        Some((text_named(named[0], "address"@)->0, number_named(named[0], "prefix"@)->0))
    } else {
        None
    }
}

/// The addresses that the dictionaries of a value name, in their order; a
/// dictionary without one is passed over.
pub open spec fn addresses_named(named: Seq<Map<Seq<char>, Reading>>) -> Seq<Seq<char>>
    decreases named.len(),
{
    if named.len() == 0 {
        Seq::empty()
    } else {
        let before = addresses_named(named.drop_last());
        match text_named(named.last(), "address"@) {
            Some(address) => before.push(address),
            None => before,
        }
    }
}

/// The address and the prefix length in a value: those that the first of
/// its dictionaries names, and none where it holds no dictionaries.
pub open spec fn address_in(value: OwnedValue) -> Option<(Seq<char>, u32)> {
    match dicts_in(value) {
        Some(named) => first_address_named(named),
        None => None,
    }
}

/// The name servers in a value: the addresses that its dictionaries name,
/// and none where it holds no dictionaries.
pub open spec fn servers_in(value: OwnedValue) -> Seq<Seq<char>> {
    match dicts_in(value) {
        Some(named) => addresses_named(named),
        None => Seq::empty(),
    }
}

/// Lists of entries name the same address and the same name servers as the
/// dictionaries that they are.
proof fn lemma_lists_name_the_same(dicts: Seq<Seq<Entry>>, named: Seq<Map<Seq<char>, Reading>>)
    requires
        named.len() == dicts.len(),
        forall|i: int| 0 <= i < dicts.len() ==> is_dict(#[trigger] dicts[i], named[i]),
    ensures
        first_address_of(dicts) == first_address_named(named),
        addresses_of(dicts) == addresses_named(named),
    decreases dicts.len(),
{
    if dicts.len() > 0 {
        assert(is_dict(dicts[0], named[0]));
        assert(is_dict(dicts.last(), named.last()));
        assert(text_under(dicts[0], "address"@) == text_named(named[0], "address"@));
        assert(number_under(dicts[0], "prefix"@) == number_named(named[0], "prefix"@));
        let shorter = dicts.drop_last();
        let fewer = named.drop_last();
        assert forall|i: int| 0 <= i < shorter.len() implies is_dict(
            #[trigger] shorter[i],
            fewer[i],
        ) by {
            assert(is_dict(dicts[i], named[i]));
        }
        lemma_lists_name_the_same(shorter, fewer);
        assert(text_under(dicts.last(), "address"@) == text_named(named.last(), "address"@));
    }
}

/// The address and the prefix length of the details, where they name both.
pub open spec fn details_address(details: NetworkDetails) -> Option<(Seq<char>, u32)> {
    match (details.ip_address, details.prefix) {
        (Some(address), Some(prefix)) => Some((address@, prefix)),
        _ => None,
    }
}

/// What is to be written into the IPv4 section of a profile.
#[derive(Debug)]
pub struct Ipv4Plan {
    pub address: Option<(String, u32)>,
    pub gateway: Option<String>,
    pub dns: Vec<String>,
}

/// A plan as contracts see it.
pub struct Ipv4PlanView {
    pub address: Option<(Seq<char>, u32)>,
    pub gateway: Option<Seq<char>>,
    pub dns: Seq<Seq<char>>,
}

impl View for Ipv4Plan {
    type V = Ipv4PlanView;

    open spec fn view(&self) -> Ipv4PlanView {
        Ipv4PlanView {
            address: match self.address {
                Some((address, prefix)) => Some((address@, prefix)),
                None => None,
            },
            gateway: opt_text(self.gateway),
            dns: texts(self.dns@),
        }
    }
}

impl Ipv4PlanView {
    /// Whether the plan sets anything by hand.
    pub open spec fn manual(self) -> bool {
        self.address is Some || self.gateway is Some || self.dns.len() > 0
    }
}

/// The name servers of a list: each without the white space around it, the
/// empty ones left out.
pub open spec fn named_servers(list: Seq<Seq<char>>) -> Seq<Seq<char>>
    decreases list.len(),
{
    if list.len() == 0 {
        Seq::empty()
    } else {
        let before = named_servers(list.drop_last());
        if trimmed(list.last()).len() == 0 {
            before
        } else {
            before.push(trimmed(list.last()))
        }
    }
}

/// What is to be written for these wishes: nothing at all where neither an
/// address nor a gateway nor name servers are given. An address may carry
/// its prefix length after a slash; a prefix length given beside it goes
/// first, and 24 stands in where there is none.
pub open spec fn ip_plan_of(
    ip: Option<Seq<char>>,
    prefix: Option<u32>,
    gateway: Option<Seq<char>>,
    dns: Option<Seq<Seq<char>>>,
) -> Option<Ipv4PlanView> {
    if ip is None && gateway is None && dns is None {
        None
    } else {
        Some(
            Ipv4PlanView {
                address: match ip {
                    Some(ip) => Some(
                        (
                            address_and_prefix(ip).0,
                            match prefix {
                                Some(prefix) => prefix,
                                None => address_and_prefix(ip).1,
                            },
                        ),
                    ),
                    None => None,
                },
                gateway,
                dns: match dns {
                    Some(list) => named_servers(list),
                    None => Seq::empty(),
                },
            },
        )
    }
}

/// The name servers of a list, each without the white space around it, the
/// empty ones left out.
fn clean_servers(list: &Vec<String>) -> (r: Vec<String>)
    ensures
        texts(r@) == named_servers(texts(list@)),
{
    let ghost all = texts(list@);
    let mut r: Vec<String> = Vec::new();
    let mut i: usize = 0;
    assert(all.take(0) =~= Seq::<Seq<char>>::empty());
    assert(texts(r@) =~= Seq::<Seq<char>>::empty());
    while i < list.len()
        invariant
            i <= list.len(),
            all == texts(list@),
            texts(r@) == named_servers(all.take(i as int)),
        decreases list.len() - i,
    {
        proof {
            assert(all.take(i + 1).drop_last() =~= all.take(i as int));
            assert(all.take(i + 1).last() == list@[i as int]@);
        }
        let ghost before = texts(r@);
        let server = trim(list[i].as_str());
        if !server.is_empty() {
            r.push(server.to_string());
            assert(texts(r@) =~= before.push(server@));
        }
        i += 1;
    }
    assert(all.take(list.len() as int) =~= all);
    r
}

/// Works out what is to be written into a profile for these wishes, if
/// anything.
pub fn plan_ip_dns(
    ip: Option<&str>,
    prefix: Option<u32>,
    gateway: Option<&str>,
    dns: Option<Vec<String>>,
) -> (plan: Option<Ipv4Plan>)
    ensures
        match ip_plan_of(opt_str_text(ip), prefix, opt_str_text(gateway), opt_texts(dns)) {
            Some(view) => plan matches Some(p) && p@ == view,
            None => plan is None,
        },
{
    if ip.is_none() && dns.is_none() && gateway.is_none() {
        return None;
    }
    let address = match ip {
        Some(ip) => {
            let (address, default_prefix) = parse_ip_prefix(ip);
            let prefix = match prefix {
                Some(prefix) => prefix,
                None => default_prefix,
            };
            Some((address, prefix))
        },
        None => None,
    };
    let gateway = match gateway {
        Some(gateway) => Some(gateway.to_string()),
        None => None,
    };
    let dns = match &dns {
        Some(list) => clean_servers(list),
        None => {
            let none: Vec<String> = Vec::new();
            assert(texts(none@) =~= Seq::<Seq<char>>::empty());
            none
        },
    };
    Some(Ipv4Plan { address, gateway, dns })
}

/// Something can be read of every value of the entries.
pub open spec fn entries_readable(dict: Seq<Entry>) -> bool {
    forall|j: int| 0 <= j < dict.len() ==> readable(reading_of((#[trigger] dict[j]).value))
}

/// The entries are the dictionary of an address: the address as a text, its
/// prefix length as a number, and nothing else.
pub open spec fn is_address_dict(dict: Seq<Entry>, address: Seq<char>, prefix: u32) -> bool {
    &&& distinct_keys(dict)
    &&& entries_readable(dict)
    &&& text_under(dict, "address"@) == Some(address)
    &&& number_under(dict, "prefix"@) == Some(prefix)
    &&& forall|key: Seq<char>|
        #[trigger] lookup(dict, key) is Some ==> key == "address"@ || key == "prefix"@
}

/// The entries are the dictionary of a name server: its address as a text,
/// and nothing else.
pub open spec fn is_server_dict(dict: Seq<Entry>, server: Seq<char>) -> bool {
    &&& distinct_keys(dict)
    &&& entries_readable(dict)
    &&& text_under(dict, "address"@) == Some(server)
    &&& forall|key: Seq<char>| #[trigger] lookup(dict, key) is Some ==> key == "address"@
}

/// The value holds one dictionary, that of the address and its prefix
/// length.
pub open spec fn holds_address(value: OwnedValue, address: Seq<char>, prefix: u32) -> bool {
    &&& dicts_in(value) matches Some(named) && named.len() == 1 && text_named(
        named[0],
        "address"@,
    ) == Some(address) && number_named(named[0], "prefix"@) == Some(prefix) && forall|
        key: Seq<char>,
    |
        #[trigger] named[0].contains_key(key) ==> key == "address"@ || key == "prefix"@
    &&& surely_read(value)
}

/// The value holds one dictionary for each of the name servers, in their
/// order, with the address of the server and nothing else.
pub open spec fn holds_servers(value: OwnedValue, servers: Seq<Seq<char>>) -> bool {
    &&& dicts_in(value) matches Some(named) && named.len() == servers.len() && forall|i: int|
        0 <= i < named.len() ==> text_named(#[trigger] named[i], "address"@) == Some(servers[i])
            && forall|key: Seq<char>| #[trigger] named[i].contains_key(key) ==> key == "address"@
    &&& surely_read(value)
}

/// A value that holds the dictionary of an address holds that address.
proof fn lemma_holds_address(value: OwnedValue, dicts: Seq<Seq<Entry>>, address: Seq<char>, prefix: u32)
    requires
        holds_dicts(value, dicts),
        dicts.len() == 1,
        is_address_dict(dicts[0], address, prefix),
    ensures
        holds_address(value, address, prefix),
        address_in(value) == Some((address, prefix)),
{
    let named = dicts_in(value)->0;
    assert(is_dict(dicts[0], named[0]));
    assert(lookup(dicts[0], "address"@) is Some);
    assert(lookup(dicts[0], "prefix"@) is Some);
    assert forall|key: Seq<char>| #[trigger] named[0].contains_key(key) implies key == "address"@
        || key == "prefix"@ by {
        assert(lookup(dicts[0], key) is Some);
    }
    lemma_readable_dicts(value, dicts);
}

/// A value that holds dictionaries of which everything can be read is sure
/// to be read.
proof fn lemma_readable_dicts(value: OwnedValue, dicts: Seq<Seq<Entry>>)
    requires
        holds_dicts(value, dicts),
        forall|i: int| 0 <= i < dicts.len() ==> entries_readable(#[trigger] dicts[i]),
    ensures
        surely_read(value),
{
    let named = dicts_in(value)->0;
    assert forall|i: int, key: Seq<char>|
        0 <= i < named.len() && (#[trigger] named[i].contains_key(key)) implies readable(
        named[i][key],
    ) by {
        assert(is_dict(dicts[i], named[i]));
        assert(entries_readable(dicts[i]));
        assert(lookup(dicts[i], key) is Some);
        let j = choose|j: int| crate::backend::settings::key_at(dicts[i], key, j);
        assert(crate::backend::settings::key_at(dicts[i], key, j));
        assert(readable(reading_of(dicts[i][j].value)));
    }
}

/// A value that holds the dictionaries of name servers holds those servers.
proof fn lemma_holds_servers(value: OwnedValue, dicts: Seq<Seq<Entry>>, servers: Seq<Seq<char>>)
    requires
        holds_dicts(value, dicts),
        dicts.len() == servers.len(),
        forall|i: int| 0 <= i < dicts.len() ==> is_server_dict(#[trigger] dicts[i], servers[i]),
    ensures
        holds_servers(value, servers),
{
    let named = dicts_in(value)->0;
    assert forall|i: int| 0 <= i < named.len() implies text_named(
        #[trigger] named[i],
        "address"@,
    ) == Some(servers[i]) && forall|key: Seq<char>| #[trigger]
        named[i].contains_key(key) ==> key == "address"@ by {
        assert(is_dict(dicts[i], named[i]));
        assert(is_server_dict(dicts[i], servers[i]));
        assert(lookup(dicts[i], "address"@) is Some);
        assert forall|key: Seq<char>| #[trigger] named[i].contains_key(key) implies key
            == "address"@ by {
            assert(lookup(dicts[i], key) is Some);
        }
    }
    assert forall|i: int| 0 <= i < dicts.len() implies entries_readable(#[trigger] dicts[i]) by {
        assert(is_server_dict(dicts[i], servers[i]));
    }
    lemma_readable_dicts(value, dicts);
}

/// The dictionary that names an address and its prefix length.
pub fn address_dict(address: &str, prefix: u32) -> (dict: Vec<Entry>)
    ensures
        is_address_dict(dict@, address@, prefix),
{
    proof {
        reveal_strlit("address");
        reveal_strlit("prefix");
        assert("address"@[0] == 'a' && "prefix"@[0] == 'p');
    }
    let mut dict: Vec<Entry> = Vec::new();
    assert(forall|key: Seq<char>| lookup(dict@, key) is None);
    let text = ov_str(address);
    put_entry(&mut dict, "address".to_string(), text);
    let ghost first = dict@;
    assert(entries_readable(first));
    let number = ov_number(prefix);
    put_entry(&mut dict, "prefix".to_string(), number);
    proof {
        assert forall|j: int| 0 <= j < dict@.len() implies readable(
            reading_of((#[trigger] dict@[j]).value),
        ) by {
            if dict@[j].value != number {
                assert(first.contains(dict@[j]));
            }
        }
    }
    dict
}

/// The dictionary that names a name server.
fn server_dict(server: &str) -> (dict: Vec<Entry>)
    ensures
        is_server_dict(dict@, server@),
{
    let mut dict: Vec<Entry> = Vec::new();
    assert(forall|key: Seq<char>| lookup(dict@, key) is None);
    put_entry(&mut dict, "address".to_string(), ov_str(server));
    dict
}

/// The dictionaries that name the name servers, one for each, in their
/// order.
pub fn dns_dicts(servers: &Vec<String>) -> (dicts: Vec<Vec<Entry>>)
    ensures
        dicts@.len() == servers@.len(),
        forall|i: int|
            0 <= i < dicts@.len() ==> is_server_dict((#[trigger] dicts@[i])@, servers@[i]@),
{
    let mut dicts: Vec<Vec<Entry>> = Vec::new();
    let mut i: usize = 0;
    while i < servers.len()
        invariant
            i <= servers.len(),
            dicts@.len() == i,
            forall|j: int| 0 <= j < i ==> is_server_dict((#[trigger] dicts@[j])@, servers@[j]@),
        decreases servers.len() - i,
    {
        dicts.push(server_dict(servers[i].as_str()));
        i += 1;
    }
    dicts
}

/// The keys of the IPv4 section differ.
proof fn lemma_ipv4_keys_differ()
    ensures
        "method"@ != "address-data"@,
        "method"@ != "gateway"@,
        "method"@ != "dns-data"@,
        "method"@ != "ignore-auto-dns"@,
        "address-data"@ != "gateway"@,
        "address-data"@ != "dns-data"@,
        "address-data"@ != "ignore-auto-dns"@,
        "gateway"@ != "dns-data"@,
        "gateway"@ != "ignore-auto-dns"@,
        "dns-data"@ != "ignore-auto-dns"@,
{
    reveal_strlit("method");
    reveal_strlit("address-data");
    reveal_strlit("gateway");
    reveal_strlit("dns-data");
    reveal_strlit("ignore-auto-dns");
    assert("method"@[0] == 'm');
    assert("address-data"@[0] == 'a');
    assert("gateway"@[0] == 'g');
    assert("dns-data"@[0] == 'd');
    assert("ignore-auto-dns"@[0] == 'i');
}

/// A key of the IPv4 section that a plan may write.
pub open spec fn is_ipv4_plan_key(key: Seq<char>) -> bool {
    key == "method"@ || key == "address-data"@ || key == "gateway"@ || key == "dns-data"@ || key
        == "ignore-auto-dns"@
}

/// `after` are the settings `before` with the plan written into their IPv4
/// section: the method is manual where anything is set by hand, the gateway
/// is the plan's, the address data hold the plan's address and prefix
/// length, the name-server data hold the plan's servers in their order, and
/// with name servers those that the network hands out are ignored.
/// Everything else is as it was.
pub open spec fn has_ip_plan(before: Seq<Section>, plan: Ipv4PlanView, after: Seq<Section>) -> bool {
    &&& forall|name: Seq<char>|
        name != "ipv4"@ ==> section_entries(after, name) == section_entries(before, name)
    &&& section_entries(after, "ipv4"@) is Some
    &&& forall|key: Seq<char>|
        !is_ipv4_plan_key(key) ==> setting(after, "ipv4"@, key) == setting(before, "ipv4"@, key)
    &&& if plan.manual() {
        text_setting(after, "ipv4"@, "method"@) == Some("manual"@)
    } else {
        setting(after, "ipv4"@, "method"@) == setting(before, "ipv4"@, "method"@)
    }
    &&& match plan.gateway {
        Some(gateway) => text_setting(after, "ipv4"@, "gateway"@) == Some(gateway),
        None => setting(after, "ipv4"@, "gateway"@) == setting(before, "ipv4"@, "gateway"@),
    }
    &&& match plan.address {
        Some((address, prefix)) => setting(after, "ipv4"@, "address-data"@) matches Some(value)
            && holds_address(value, address, prefix),
        None => setting(after, "ipv4"@, "address-data"@) == setting(
            before,
            "ipv4"@,
            "address-data"@,
        ),
    }
    &&& if plan.dns.len() > 0 {
        (setting(after, "ipv4"@, "dns-data"@) matches Some(value) && holds_servers(
            value,
            plan.dns,
        )) && flag_setting(after, "ipv4"@, "ignore-auto-dns"@) == Some(true)
    } else {
        setting(after, "ipv4"@, "dns-data"@) == setting(before, "ipv4"@, "dns-data"@) && setting(
            after,
            "ipv4"@,
            "ignore-auto-dns"@,
        ) == setting(before, "ipv4"@, "ignore-auto-dns"@)
    }
}

/// Dictionaries that each name one server name those servers, in order.
proof fn lemma_named_servers(named: Seq<Map<Seq<char>, Reading>>, servers: Seq<Seq<char>>)
    requires
        named.len() == servers.len(),
        forall|i: int|
            0 <= i < named.len() ==> text_named(#[trigger] named[i], "address"@) == Some(servers[i]),
    ensures
        addresses_named(named) == servers,
    decreases named.len(),
{
    if named.len() > 0 {
        let fewer = named.drop_last();
        assert forall|i: int| 0 <= i < fewer.len() implies text_named(
            #[trigger] fewer[i],
            "address"@,
        ) == Some(servers.drop_last()[i]) by {
            assert(fewer[i] == named[i]);
        }
        lemma_named_servers(fewer, servers.drop_last());
        assert(text_named(named.last(), "address"@) == Some(servers.last()));
        assert(servers.drop_last().push(servers.last()) =~= servers);
    } else {
        assert(servers =~= Seq::<Seq<char>>::empty());
    }
}

/// What a plan has written is what is read back: the value under
/// `address-data` is sure to be read and holds the plan's address and prefix
/// length, and the value under `dns-data` is sure to be read and holds the
/// plan's name servers in their order.
pub proof fn lemma_written_plan_reads_back(
    before: Seq<Section>,
    plan: Ipv4PlanView,
    after: Seq<Section>,
)
    requires
        has_ip_plan(before, plan, after),
    ensures
        plan.address is Some ==> (setting(after, "ipv4"@, "address-data"@) matches Some(value)
            && surely_read(value) && address_in(value) == plan.address),
        plan.dns.len() > 0 ==> (setting(after, "ipv4"@, "dns-data"@) matches Some(value)
            && surely_read(value) && servers_in(value) == plan.dns),
{
    if plan.dns.len() > 0 {
        let value = setting(after, "ipv4"@, "dns-data"@)->0;
        lemma_named_servers(dicts_in(value)->0, plan.dns);
    }
}

/// What the service tells of one access point.
#[derive(Debug)]
pub struct AccessPointReading {
    pub path: String,
    pub ssid: Vec<u8>,
    pub strength: u8,
    pub flags: u32,
    pub wpa_flags: u32,
    pub rsn_flags: u32,
}

/// The sighting that a reading amounts to: the access point by its decoded
/// name, in use where the device names its path or the active connection
/// goes by its name, saved where a profile is for its name, and secured
/// where it announces privacy or any kind of WPA or RSN security.
pub open spec fn sighting_of(
    reading: AccessPointReading,
    active_ap: Seq<char>,
    active_ssid: Option<Seq<char>>,
    saved: Set<Seq<char>>,
) -> SightingView {
    SightingView {
        ssid: ssid_text(reading.ssid@),
        strength: reading.strength,
        is_active: reading.path@ == active_ap || active_ssid == Some(ssid_text(reading.ssid@)),
        is_saved: saved.contains(ssid_text(reading.ssid@)),
        is_secure: (reading.flags & AP_FLAG_PRIVACY) != 0 || reading.wpa_flags != 0
            || reading.rsn_flags != 0,
    }
}

/// The sightings that a run of readings amounts to, in order.
pub open spec fn sightings_of(
    readings: Seq<AccessPointReading>,
    active_ap: Seq<char>,
    active_ssid: Option<Seq<char>>,
    saved: Set<Seq<char>>,
) -> Seq<SightingView> {
    readings.map_values(|r: AccessPointReading| sighting_of(r, active_ap, active_ssid, saved))
}

/// The names of the networks that the profiles are for.
pub open spec fn profile_ssids(profiles: Seq<Vec<Section>>) -> Set<Seq<char>> {
    Set::new(
        |ssid: Seq<char>|
            exists|i: int|
                0 <= i < profiles.len() && profile_ssid_of((#[trigger] profiles[i])@) == Some(ssid),
    )
}

/// The names of the networks that have a saved profile.
pub fn saved_ssids(profiles: &Vec<Vec<Section>>) -> (saved: SsidSet)
    ensures
        saved@ == profile_ssids(profiles@),
{
    let mut saved = SsidSet::new();
    let mut i: usize = 0;
    assert(saved@ =~= profile_ssids(profiles@.take(0)));
    while i < profiles.len()
        invariant
            i <= profiles.len(),
            saved@ == profile_ssids(profiles@.take(i as int)),
        decreases profiles.len() - i,
    {
        let ghost before = saved@;
        let ghost done = profiles@.take(i as int);
        let ghost next = profiles@.take(i + 1);
        match profile_ssid(&profiles[i]) {
            Some(ssid) => {
                saved.insert(ssid);
            },
            None => {},
        }
        proof {
            assert forall|ssid: Seq<char>| saved@.contains(ssid) == profile_ssids(next).contains(
                ssid,
            ) by {
                if profile_ssids(next).contains(ssid) {
                    let k = choose|k: int|
                        0 <= k < next.len() && profile_ssid_of((#[trigger] next[k])@) == Some(ssid);
                    if k < i {
                        assert(done[k] == next[k]);
                        assert(profile_ssids(done).contains(ssid));
                    }
                }
                if before.contains(ssid) {
                    let k = choose|k: int|
                        0 <= k < done.len() && profile_ssid_of((#[trigger] done[k])@) == Some(ssid);
                    assert(next[k] == done[k]);
                }
                if profile_ssid_of(profiles@[i as int]@) == Some(ssid) {
                    assert(next[i as int] == profiles@[i as int]);
                }
            }
            assert(saved@ =~= profile_ssids(next));
        }
        i += 1;
    }
    assert(profiles@.take(profiles.len() as int) =~= profiles@);
    saved
}

impl NetworkManagerBackend {
    /// The state of the radio and the networks in sight, from what the service
    /// told: the snapshot of the sightings that the readings amount to. It
    /// has one network for each name in sight, and that one is the best of
    /// its name: any active sighting goes before every inactive one, and the
    /// stronger before the weaker. The same readings give the same state.
    pub fn load_state(
        &self,
        wifi_enabled: bool,
        readings: &Vec<AccessPointReading>,
        active_ap: &str,
        active_ssid: Option<&str>,
        saved: &SsidSet,
    ) -> (state: AppState)
        ensures
            state.wifi_enabled == wifi_enabled,
            state@.networks == snapshot_of(
                wifi_enabled,
                sightings_of(readings@, active_ap@, opt_str_text(active_ssid), saved@),
            ),
            is_snapshot_of(
                state@.networks,
                wifi_enabled,
                sightings_of(readings@, active_ap@, opt_str_text(active_ssid), saved@),
            ),
            best_of_its_name(
                state@.networks,
                sightings_of(readings@, active_ap@, opt_str_text(active_ssid), saved@),
            ),
            state.well_formed(),
    {
        let ghost wanted = sightings_of(readings@, active_ap@, opt_str_text(active_ssid), saved@);
        let mut sightings: Vec<Sighting> = Vec::new();
        let mut i: usize = 0;
        while i < readings.len()
            invariant
                i <= readings.len(),
                wanted == sightings_of(readings@, active_ap@, opt_str_text(active_ssid), saved@),
                sightings@.len() == i,
                forall|j: int| 0 <= j < i ==> (#[trigger] sightings@[j])@ == wanted[j],
            decreases readings.len() - i,
        {
            let reading = &readings[i];
            let ssid = decode_ssid(reading.ssid.as_slice());
            let is_active = sighting_is_active(
                reading.path.as_str(),
                active_ap,
                ssid.as_str(),
                active_ssid,
            );
            let is_saved = saved.contains(ssid.as_str());
            let is_secure = access_point_is_secure(reading.flags, reading.wpa_flags, reading.rsn_flags);
            sightings.push(Sighting { ssid, strength: reading.strength, is_active, is_saved, is_secure });
            i += 1;
        }
        assert(sighting_views(sightings@) =~= wanted);
        build_state(wifi_enabled, &sightings)
    }

    /// What the details dialog shows of a profile's settings: whether it
    /// connects by itself, the gateway, the first address with its prefix
    /// length, and the name servers. The address and the name servers are those
    /// in the values under `address-data` and `dns-data`; they are missing only
    /// where the settings have no such value or the bus library cannot copy it.
    pub fn get_network_details(&self, settings: &Vec<Section>) -> (details: NetworkDetails)
        ensures
            details.auto_reconnect == flag_setting(settings@, "connection"@, "autoconnect"@),
            opt_text(details.gateway) == text_setting(settings@, "ipv4"@, "gateway"@),
            details.ip_address is Some <==> details.prefix is Some,
            match setting(settings@, "ipv4"@, "address-data"@) {
                Some(value) => details_address(details) == address_in(value) || (details.ip_address
                    is None && !surely_read(value)),
                None => details.ip_address is None,
            },
            match setting(settings@, "ipv4"@, "dns-data"@) {
                Some(value) => texts(details.dns_servers@) == servers_in(value) || (
                details.dns_servers@.len() == 0 && !surely_read(value)),
                None => details.dns_servers@.len() == 0,
            },
    {
        let mut details = NetworkDetails::default();
        match get_setting(settings, "connection", "autoconnect") {
            Some(value) => match owned_value_to_bool(value) {
                Ok(flag) => {
                    details.auto_reconnect = Some(flag);
                },
                Err(_) => {},
            },
            None => {},
        }
        match get_setting(settings, "ipv4", "address-data") {
            Some(value) => match first_address_from_value(value) {
                Some((address, prefix)) => {
                    details.ip_address = Some(address);
                    details.prefix = Some(prefix);
                },
                None => {},
            },
            None => {},
        }
        match get_setting(settings, "ipv4", "gateway") {
            Some(value) => match owned_value_to_string(value) {
                Ok(gateway) => {
                    details.gateway = Some(gateway);
                },
                Err(_) => {},
            },
            None => {},
        }
        match get_setting(settings, "ipv4", "dns-data") {
            Some(value) => {
                details.dns_servers = dns_from_value(value);
            },
            None => {},
        }
        details
    }

    /// Writes a plan into the settings of a profile. Everything that is
    /// written is a text, a number or a flag, so the bus library makes the
    /// values and the plan is always written.
    pub fn write_ip_plan(&self, settings: Vec<Section>, plan: &Ipv4Plan) -> (r: BackendResult<
        Vec<Section>,
    >)
        ensures
            r matches Ok(after) && has_ip_plan(settings@, plan@, after@) && (are_settings(settings@)
                ==> are_settings(after@)),
    {
        proof {
            lemma_ipv4_keys_differ();
        }
        let ghost before = settings@;
        let ghost old_entries = match section_entries(before, "ipv4"@) {
            Some(entries) => entries,
            None => Seq::<Entry>::empty(),
        };
        let mut settings = settings;
        let mut ipv4 = take_entries(&mut settings, "ipv4");
        assert(ipv4@ == old_entries);
        assert(forall|key: Seq<char>| lookup(old_entries, key) == setting(before, "ipv4"@, key)) by {
            assert forall|key: Seq<char>| lookup(old_entries, key) == setting(before, "ipv4"@, key) by {
                if section_entries(before, "ipv4"@) is None {
                    assert(lookup(Seq::<Entry>::empty(), key) is None);
                }
            }
        }
        let mut manual = false;
        match &plan.address {
            Some((address, prefix)) => {
                let mut dicts: Vec<Vec<Entry>> = Vec::new();
                dicts.push(address_dict(address.as_str(), *prefix));
                let ghost lists = dict_lists(dicts@);
                assert(lists.len() == 1 && lists[0] == dicts@[0]@);
                assert(crate::backend::values::all_readable(lists)) by {
                    assert(entries_readable(lists[0]));
                }
                let value = match ov_array_dict(dicts) {
                    Ok(value) => value,
                    Err(err) => {
                        return Err(err);
                    },
                };
                proof {
                    lemma_holds_address(value, lists, address@, *prefix);
                }
                put_entry(&mut ipv4, "address-data".to_string(), value);
                manual = true;
            },
            None => {},
        }
        match &plan.gateway {
            Some(gateway) => {
                put_entry(&mut ipv4, "gateway".to_string(), ov_str(gateway.as_str()));
                manual = true;
            },
            None => {},
        }
        if plan.dns.len() > 0 {
            let dicts = dns_dicts(&plan.dns);
            let ghost lists = dict_lists(dicts@);
            let ghost servers = texts(plan.dns@);
            proof {
                assert forall|i: int| 0 <= i < lists.len() implies is_server_dict(
                    #[trigger] lists[i],
                    servers[i],
                ) by {
                    assert(is_server_dict(dicts@[i]@, plan.dns@[i]@));
                }
                assert(crate::backend::values::all_readable(lists)) by {
                    assert forall|i: int, j: int|
                        0 <= i < lists.len() && 0 <= j < lists[i].len() implies readable(
                        reading_of(#[trigger] lists[i][j].value),
                    ) by {
                        assert(is_server_dict(lists[i], servers[i]));
                        assert(entries_readable(lists[i]));
                    }
                }
            }
            let value = match ov_array_dict(dicts) {
                Ok(value) => value,
                Err(err) => {
                    return Err(err);
                },
            };
            proof {
                lemma_holds_servers(value, lists, servers);
            }
            put_entry(&mut ipv4, "dns-data".to_string(), value);
            put_entry(&mut ipv4, "ignore-auto-dns".to_string(), ov_flag(true));
            manual = true;
        }
        if manual {
            put_entry(&mut ipv4, "method".to_string(), ov_str("manual"));
        }
        put_section(&mut settings, "ipv4".to_string(), ipv4);
        Ok(settings)
    }

    /// The secret in the answer of the service: the pre-shared key where there
    /// is one, else the first WEP key. A secret that is no text is a failure.
    pub fn get_saved_password(&self, secrets: &Vec<Section>) -> (r: BackendResult<Option<String>>)
        ensures
            match section_entries(secrets@, "802-11-wireless-security"@) {
                None => r matches Ok(None),
                Some(section) => match lookup(section, "psk"@) {
                    Some(value) => match text_in(value) {
                        Some(text) => r matches Ok(Some(s)) && s@ == text,
                        None => r is Err,
                    },
                    None => match lookup(section, "wep-key0"@) {
                        Some(value) => match text_in(value) {
                            Some(text) => r matches Ok(Some(s)) && s@ == text,
                            None => r is Err,
                        },
                        None => r matches Ok(None),
                    },
                },
            },
    {
        let section = match crate::backend::settings::find_section(secrets, "802-11-wireless-security") {
            Some(i) => &secrets[i].entries,
            None => {
                return Ok(None);
            },
        };
        match get_value(section, "psk") {
            Some(value) => {
                return match owned_value_to_string(value) {
                    Ok(text) => Ok(Some(text)),
                    Err(err) => Err(err),
                };
            },
            None => {},
        }
        match get_value(section, "wep-key0") {
            Some(value) => {
                return match owned_value_to_string(value) {
                    Ok(text) => Ok(Some(text)),
                    Err(err) => Err(err),
                };
            },
            None => {},
        }
        Ok(None)
    }

    /// Writes into the settings whether the profile connects by itself. Nothing
    /// else in them changes.
    pub fn set_autoreconnect(&self, settings: &mut Vec<Section>, enabled: bool)
        ensures
            flag_setting(final(settings)@, "connection"@, "autoconnect"@) == Some(enabled),
            forall|key: Seq<char>|
                key != "autoconnect"@ ==> setting(final(settings)@, "connection"@, key) == setting(
                    old(settings)@,
                    "connection"@,
                    key,
                ),
            forall|name: Seq<char>|
                name != "connection"@ ==> section_entries(final(settings)@, name) == section_entries(
                    old(settings)@,
                    name,
                ),
            are_settings(old(settings)@) ==> are_settings(final(settings)@),
    {
        let mut connection = take_entries(settings, "connection");
        put_entry(&mut connection, "autoconnect".to_string(), ov_flag(enabled));
        put_section(settings, "connection".to_string(), connection);
        proof {
            assert forall|key: Seq<char>| key != "autoconnect"@ implies setting(
                settings@,
                "connection"@,
                key,
            ) == setting(old(settings)@, "connection"@, key) by {
                if section_entries(old(settings)@, "connection"@) is None {
                    assert(lookup(Seq::<Entry>::empty(), key) is None);
                }
            }
        }
    }

    /// How to connect to the network `ssid`, given the access points in
    /// sight and what the search for a saved profile gave. A name that no
    /// access point bears is not found, whatever else is so. Else a search
    /// that failed fails the attempt; a saved profile is activated as it is,
    /// and without one a new profile is made. With the plan comes the place of
    /// the access point to connect to: the strongest of the name.
    pub fn connect_network(
        &self,
        aps: &Vec<AccessPoint>,
        saved: BackendResult<Option<String>>,
        ssid: &str,
        password: Option<&str>,
    ) -> (r: BackendResult<(usize, Activation)>)
        ensures
            !in_sight(aps@, ssid@) ==> (r matches Err(err) && err.message() == "SSID not found"@),
            in_sight(aps@, ssid@) ==> match saved {
                Err(e) => r matches Err(err) && err == e,
                Ok(Some(path)) => r matches Ok((i, Activation::Existing { connection }))
                    && is_strongest(aps@, ssid@, i as int) && connection == path,
                Ok(None) => r matches Ok((i, Activation::Fresh { settings })) && is_strongest(
                    aps@,
                    ssid@,
                    i as int,
                ) && is_new_profile(settings@, ssid@, opt_str_text(password), false),
            },
    {
        let index = match find_ap_for_ssid(aps, ssid) {
            Ok(index) => index,
            Err(err) => {
                return Err(err);
            },
        };
        assert(in_sight(aps@, ssid@)) by {
            assert(aps@[index as int].ssid@ == ssid@);
        }
        let saved = match saved {
            Ok(saved) => saved,
            Err(err) => {
                return Err(err);
            },
        };
        match plan_activation(saved, ssid, password, false) {
            Ok(activation) => Ok((index, activation)),
            Err(err) => Err(err),
        }
    }

    /// What to write into a profile for these wishes, given what the read of
    /// its settings gave. Where neither an address nor a gateway nor name
    /// servers are wished for, nothing is written, whatever the read gave.
    /// Else a read that failed fails the change, and the settings to send
    /// back are those that were read with the plan for the wishes written
    /// into them.
    pub fn set_ip_dns(
        &self,
        settings: BackendResult<Vec<Section>>,
        ip: Option<&str>,
        prefix: Option<u32>,
        gateway: Option<&str>,
        dns: Option<Vec<String>>,
    ) -> (r: BackendResult<Option<Vec<Section>>>)
        ensures
            match ip_plan_of(opt_str_text(ip), prefix, opt_str_text(gateway), opt_texts(dns)) {
                None => r matches Ok(None),
                Some(plan) => match settings {
                    Err(e) => r matches Err(err) && err == e,
                    Ok(before) => r matches Ok(Some(after)) && has_ip_plan(before@, plan, after@)
                        && (are_settings(before@) ==> are_settings(after@)),
                },
            },
    {
        let plan = match plan_ip_dns(ip, prefix, gateway, dns) {
            Some(plan) => plan,
            None => {
                return Ok(None);
            },
        };
        let settings = match settings {
            Ok(settings) => settings,
            Err(err) => {
                return Err(err);
            },
        };
        match self.write_ip_plan(settings, &plan) {
            Ok(after) => Ok(Some(after)),
            Err(err) => Err(err),
        }
    }

    /// How to connect to the hidden network `ssid`: by its saved profile
    /// where there is one, else by a new profile that is marked as hidden.
    pub fn connect_hidden(&self, saved: Option<String>, ssid: &str, password: Option<&str>) -> (r:
        BackendResult<Activation>)
        ensures
            match saved {
                Some(path) => r matches Ok(Activation::Existing { connection }) && connection
                    == path,
                None => r matches Ok(Activation::Fresh { settings }) && is_new_profile(
                    settings@,
                    ssid@,
                    opt_str_text(password),
                    true,
                ),
            },
    {
        plan_activation(saved, ssid, password, true)
    }
}

} // verus!
