//! What a failure is taken to mean, and the words shown for it. The service
//! gives no error codes, so its wording is searched for tell-tale parts,
//! without regard to case.

use vstd::prelude::*;
use vstd::string::*;
use crate::backend::{debug_string, debug_text, BackendError};
use crate::text::{chars_of, contains_chars, has_substring, lowercase, to_lowercase};

verus! {

/// The wording speaks of a credential that is missing or wrong.
pub open spec fn wants_password(message: Seq<char>) -> bool {
    let msg = lowercase(message);
    has_substring(msg, "secrets"@) || has_substring(msg, "password"@) || has_substring(msg, "psk"@)
        || has_substring(msg, "wireless-security"@)
}

/// The wording says that no agent is there to hand out secrets.
pub open spec fn lacks_agent(message: Seq<char>) -> bool {
    let msg = lowercase(message);
    has_substring(msg, "nosecrets"@) || has_substring(msg, "no agents"@) || has_substring(
        msg,
        "no agent"@,
    )
}

/// The wording says that the machine has no wireless device.
pub open spec fn lacks_device(message: Seq<char>) -> bool {
    let msg = lowercase(message);
    has_substring(msg, "no wi"@) && has_substring(msg, "device"@)
}

/// The wording speaks of a password that was refused.
pub open spec fn refuses_password(message: Seq<char>) -> bool {
    let msg = lowercase(message);
    has_substring(msg, "auth"@) || has_substring(msg, "password"@) || has_substring(msg, "psk"@)
}

/// The words shown for a failure.
pub open spec fn friendly_text(message: Seq<char>) -> Seq<char> {
    if lacks_agent(message) {
        "No secrets agent. Start a polkit agent (e.g. polkit-gnome)."@
    } else if lacks_device(message) {
        "No Wi\u{2011}Fi device found."@
    } else {
        message
    }
}

/// The words shown when a saved password could not be read.
pub open spec fn password_error_text(message: Seq<char>) -> Seq<char> {
    if lacks_agent(message) {
        "Password unavailable: no secrets agent. Start a polkit agent (e.g. polkit-gnome)."@
    } else {
        "Failed to load password: "@ + debug_text(message)
    }
}

/// The words shown when an attempt to connect failed. After an attempt with a
/// password, wording that speaks of the password is taken as a refusal.
pub open spec fn connect_error_text(message: Seq<char>, from_password: bool) -> Seq<char> {
    if from_password && refuses_password(message) {
        "Incorrect password. Try again."@
    } else {
        friendly_text(message)
    }
}

/// Whether `needle` occurs in the characters `hay`.
fn has(hay: &Vec<char>, needle: &str) -> (r: bool)
    ensures
        r == has_substring(hay@, needle@),
{
    let n = chars_of(needle);
    contains_chars(hay, &n)
}

/// The characters of the lower-case form of the error's words.
fn lowered(err: &BackendError) -> (msg: Vec<char>)
    ensures
        msg@ == lowercase(err.message()),
{
    let lower = to_lowercase(err.text());
    chars_of(lower.as_str())
}

/// Whether the failure looks like a credential that is missing or wrong.
pub fn needs_password(err: &BackendError) -> (r: bool)
    ensures
        r == wants_password(err.message()),
{
    let msg = lowered(err);
    has(&msg, "secrets") || has(&msg, "password") || has(&msg, "psk") || has(
        &msg,
        "wireless-security",
    )
}

/// Whether the failure looks like a password that was refused.
pub fn password_refused(err: &BackendError) -> (r: bool)
    ensures
        r == refuses_password(err.message()),
{
    let msg = lowered(err);
    has(&msg, "auth") || has(&msg, "password") || has(&msg, "psk")
}

/// Whether the failure says that no secrets agent is running.
fn no_agent(msg: &Vec<char>) -> (r: bool)
    ensures
        r == (has_substring(msg@, "nosecrets"@) || has_substring(msg@, "no agents"@)
            || has_substring(msg@, "no agent"@)),
{
    has(msg, "nosecrets") || has(msg, "no agents") || has(msg, "no agent")
}

/// The words to show for a failure: a hint where the cause is known, the
/// service's own words otherwise.
pub fn friendly_error(err: &BackendError) -> (r: String)
    ensures
        r@ == friendly_text(err.message()),
{
    let msg = lowered(err);
    if no_agent(&msg) {
        return "No secrets agent. Start a polkit agent (e.g. polkit-gnome).".to_string();
    }
    if has(&msg, "no wi") && has(&msg, "device") {
        return "No Wi\u{2011}Fi device found.".to_string();
    }
    err.text().to_string()
}

/// The words to show when a saved password could not be read.
pub fn password_error_message(err: &BackendError) -> (r: String)
    ensures
        r@ == password_error_text(err.message()),
{
    let msg = lowered(err);
    if no_agent(&msg) {
        return "Password unavailable: no secrets agent. Start a polkit agent (e.g. polkit-gnome).".to_string();
    }
    let mut r = "Failed to load password: ".to_string();
    let shown = debug_string(err);
    r.append(shown.as_str());
    r
}

/// The words to show when an attempt to connect failed.
pub fn connect_error_message(err: &BackendError, from_password: bool) -> (r: String)
    ensures
        r@ == connect_error_text(err.message(), from_password),
{
    if from_password && password_refused(err) {
        return "Incorrect password. Try again.".to_string();
    }
    friendly_error(err)
}

} // verus!
