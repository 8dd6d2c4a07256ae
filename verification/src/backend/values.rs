//! The values that travel over the bus. A value is closed to the proofs;
//! what can be read out of it is named here, and the calls that read it or
//! make it are believed to agree with those names.

use vstd::prelude::*;
use zbus::zvariant::OwnedValue;
use crate::backend::settings::{distinct_keys, lookup};
use crate::backend::{BackendError, BackendResult};

verus! {

/// A value of the bus library, of which the proofs know only that it is
/// one.
#[verifier::external_type_specification]
#[verifier::external_body]
pub struct ExOwnedValue(zbus::zvariant::OwnedValue);

/// The text that `String::try_from` reads out of a copy of the value: that of
/// a value that holds a string, and none for any other.
pub uninterp spec fn text_in(value: OwnedValue) -> Option<Seq<char>>;

/// The flag that `bool::try_from` reads out of a copy of the value: that of
/// a value that holds a boolean, and none for any other.
pub uninterp spec fn flag_in(value: OwnedValue) -> Option<bool>;

/// The number that `u32::try_from` reads out of a copy of the value: that of
/// a value that holds an unsigned 32-bit integer, and none for any other.
pub uninterp spec fn number_in(value: OwnedValue) -> Option<u32>;

/// The bytes that `Vec::<u8>::try_from` reads out of a copy of the value:
/// those of an array of bytes, and none for any other value.
pub uninterp spec fn bytes_in(value: OwnedValue) -> Option<Seq<u8>>;

/// One setting of a profile: a key and the value under it.
#[derive(Debug)]
pub struct Entry {
    pub key: String,
    pub value: OwnedValue,
}

/// Makes a string value with `OwnedValue::from` of a `Str`. A string is read
/// back out of it as the same text.
#[verifier::external_body]
pub(crate) fn ov_str(value: &str) -> (r: OwnedValue)
    ensures
        text_in(r) == Some(value@),
{
    OwnedValue::from(zbus::zvariant::Str::from(value))
}

/// Makes a boolean value with `OwnedValue::from`. The same flag is read back
/// out of it.
#[verifier::external_body]
pub(crate) fn ov_flag(value: bool) -> (r: OwnedValue)
    ensures
        flag_in(r) == Some(value),
{
    OwnedValue::from(value)
}

/// Makes a value of an unsigned 32-bit integer with `OwnedValue::from`. The
/// same number is read back out of it.
#[verifier::external_body]
pub(crate) fn ov_number(value: u32) -> (r: OwnedValue)
    ensures
        number_in(r) == Some(value),
{
    OwnedValue::from(value)
}

/// Makes an array of bytes with `Array::from` and `OwnedValue::try_from`.
/// Owning a value fails only for file descriptors, so this succeeds, and the
/// same bytes are read back out of the array.
#[verifier::external_body]
pub(crate) fn ov_bytes(bytes: Vec<u8>) -> (r: BackendResult<OwnedValue>)
    ensures
        r is Ok,
        r matches Ok(value) ==> bytes_in(value) == Some(bytes@),
{
    OwnedValue::try_from(zbus::zvariant::Array::from(bytes)).map_err(
        |e| BackendError::Unavailable(e.to_string()),
    )
}

/// Reads a string with `OwnedValue::try_clone` and `String::try_from`. It is
/// there exactly for a value that holds a string.
#[verifier::external_body]
pub(crate) fn owned_value_to_string(value: &OwnedValue) -> (r: BackendResult<String>)
    ensures
        match text_in(*value) {
            Some(text) => r matches Ok(s) && s@ == text,
            None => r is Err,
        },
{
    let owned = value.try_clone().map_err(|e| BackendError::Unavailable(e.to_string()))?;
    String::try_from(owned).map_err(|e| BackendError::Unavailable(e.to_string()))
}

/// Reads a flag with `OwnedValue::try_clone` and `bool::try_from`. It is
/// there exactly for a value that holds a boolean.
#[verifier::external_body]
pub(crate) fn owned_value_to_bool(value: &OwnedValue) -> (r: BackendResult<bool>)
    ensures
        match flag_in(*value) {
            Some(flag) => r matches Ok(b) && b == flag,
            None => r is Err,
        },
{
    let owned = value.try_clone().map_err(|e| BackendError::Unavailable(e.to_string()))?;
    bool::try_from(owned).map_err(|e| BackendError::Unavailable(e.to_string()))
}

/// Reads a number with `OwnedValue::try_clone` and `u32::try_from`. It is
/// there exactly for a value that holds an unsigned 32-bit integer.
#[verifier::external_body]
pub(crate) fn owned_value_to_u32(value: &OwnedValue) -> (r: BackendResult<u32>)
    ensures
        match number_in(*value) {
            Some(number) => r matches Ok(n) && n == number,
            None => r is Err,
        },
{
    let owned = value.try_clone().map_err(|e| BackendError::Unavailable(e.to_string()))?;
    u32::try_from(owned).map_err(|e| BackendError::Unavailable(e.to_string()))
}

/// Reads bytes with `OwnedValue::try_clone` and `Vec::<u8>::try_from`. They
/// are there exactly for an array of bytes.
#[verifier::external_body]
pub(crate) fn owned_value_to_bytes(value: &OwnedValue) -> (r: Option<Vec<u8>>)
    ensures
        match bytes_in(*value) {
            Some(bytes) => r matches Some(v) && v@ == bytes,
            None => r is None,
        },
{
    let owned = value.try_clone().ok()?;
    Vec::<u8>::try_from(owned).ok()
}

/// What can be read of a value as a text, a flag, a number or bytes.
pub struct Reading {
    pub text: Option<Seq<char>>,
    pub flag: Option<bool>,
    pub number: Option<u32>,
    pub bytes: Option<Seq<u8>>,
}

/// What can be read of `value`.
pub open spec fn reading_of(value: OwnedValue) -> Reading {
    Reading {
        text: text_in(value),
        flag: flag_in(value),
        number: number_in(value),
        bytes: bytes_in(value),
    }
}

/// Something can be read of the value: it holds a text, a flag, a number or
/// bytes, and so no file descriptor.
pub open spec fn readable(reading: Reading) -> bool {
    reading.text is Some || reading.flag is Some || reading.number is Some || reading.bytes is Some
}

/// The dictionaries in a value: for an array of dictionaries with texts for
/// keys, each dictionary as the map from its keys to what can be read of the
/// values under them; none for any other value. It is what
/// `Vec::<HashMap<String, OwnedValue>>::try_from` reads out of a copy of the
/// value, wherever the copy can be had.
pub uninterp spec fn dicts_in(value: OwnedValue) -> Option<Seq<Map<Seq<char>, Reading>>>;

/// The dictionaries of a list, each as the run of its entries.
pub open spec fn dict_lists(dicts: Seq<Vec<Entry>>) -> Seq<Seq<Entry>> {
    dicts.map_values(|dict: Vec<Entry>| dict@)
}

/// The entries are the dictionary `named`: they have its keys, each once,
/// and under each key a value of which the same can be read.
pub open spec fn is_dict(entries: Seq<Entry>, named: Map<Seq<char>, Reading>) -> bool {
    &&& distinct_keys(entries)
    &&& forall|key: Seq<char>|
        match #[trigger] lookup(entries, key) {
            Some(value) => named.contains_key(key) && named[key] == reading_of(value),
            None => !named.contains_key(key),
        }
}

/// The value holds the dictionaries `dicts`, in their order.
pub open spec fn holds_dicts(value: OwnedValue, dicts: Seq<Seq<Entry>>) -> bool {
    dicts_in(value) matches Some(named) && named.len() == dicts.len() && forall|i: int|
        0 <= i < dicts.len() ==> is_dict(#[trigger] dicts[i], named[i])
}

/// Something can be read of every value in the lists.
pub open spec fn all_readable(dicts: Seq<Seq<Entry>>) -> bool {
    forall|i: int, j: int|
        0 <= i < dicts.len() && 0 <= j < dicts[i].len() ==> readable(
            reading_of(#[trigger] dicts[i][j].value),
        )
}

/// The value holds dictionaries, and something can be read of every value in
/// them. Such a value holds no file descriptor, so it can always be copied
/// and read.
pub open spec fn surely_read(value: OwnedValue) -> bool {
    dicts_in(value) matches Some(named) && forall|i: int, key: Seq<char>|
        0 <= i < named.len() && (#[trigger] named[i].contains_key(key)) ==> readable(named[i][key])
}

/// The value holds a text, a flag or a number, and so no array.
pub open spec fn is_scalar(value: OwnedValue) -> bool {
    text_in(value) is Some || flag_in(value) is Some || number_in(value) is Some
}

/// Makes an array of dictionaries with `Array::from` and
/// `OwnedValue::try_from`, each dictionary from the entries of one list. A
/// value is put into its dictionary as a variant and taken out of the variant
/// when the dictionary is read, so the value that is made holds the
/// dictionaries of the lists. Owning a value fails only for file
/// descriptors, so this succeeds where something can be read of every value.
#[verifier::external_body]
pub(crate) fn ov_array_dict(dicts: Vec<Vec<Entry>>) -> (r: BackendResult<OwnedValue>)
    requires
        forall|i: int| 0 <= i < dicts@.len() ==> distinct_keys((#[trigger] dicts@[i])@),
    ensures
        r matches Ok(value) ==> holds_dicts(value, dict_lists(dicts@)),
        all_readable(dict_lists(dicts@)) ==> r is Ok,
{
    let maps: Vec<std::collections::HashMap<String, OwnedValue>> = dicts.into_iter().map(
        |dict| dict.into_iter().map(|entry| (entry.key, entry.value)).collect(),
    ).collect();
    OwnedValue::try_from(zbus::zvariant::Array::from(maps)).map_err(
        |e| BackendError::Unavailable(e.to_string()),
    )
}

/// Reads an array of dictionaries with `OwnedValue::try_clone` and
/// `Vec::<HashMap<String, OwnedValue>>::try_from`, and hands each dictionary
/// out as the list of its entries, in no particular order. What is read is
/// the dictionaries in the value. Nothing is read from a value that holds
/// none, such as a text, a flag or a number. The copy can fail for want of
/// file descriptors, so the dictionaries are sure to be read only where
/// something can be read of every value in them.
#[verifier::external_body]
pub(crate) fn value_to_vec_dict(value: &OwnedValue) -> (r: Option<Vec<Vec<Entry>>>)
    ensures
        r matches Some(dicts) ==> holds_dicts(*value, dict_lists(dicts@)),
        dicts_in(*value) is None ==> r is None,
        is_scalar(*value) ==> r is None,
        surely_read(*value) ==> r is Some,
{
    let owned = value.try_clone().ok()?;
    let maps = Vec::<std::collections::HashMap<String, OwnedValue>>::try_from(owned).ok()?;
    Some(
        maps.into_iter().map(
            |map| map.into_iter().map(|(key, value)| Entry { key, value }).collect(),
        ).collect(),
    )
}

} // verus!
