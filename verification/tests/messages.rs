use yufi::backend::BackendError;
use yufi::messages::{
    connect_error_message, friendly_error, needs_password, password_error_message,
    password_refused,
};

fn unavailable(message: &str) -> BackendError {
    BackendError::Unavailable(message.to_string())
}

#[test]
fn credential_wording_is_found_without_regard_to_case() {
    assert!(needs_password(&unavailable("Secrets were required, but not provided")));
    assert!(needs_password(&unavailable("Invalid PASSWORD")));
    assert!(needs_password(&unavailable("802-11-wireless-security.psk: property is invalid")));
    assert!(needs_password(&unavailable("missing 802-11-Wireless-Security setting")));
    assert!(!needs_password(&unavailable("SSID not found")));
    assert!(!needs_password(&unavailable("")));
}

#[test]
fn refused_passwords_are_recognised() {
    assert!(password_refused(&unavailable("Authentication failed")));
    assert!(password_refused(&unavailable("bad psk")));
    assert!(!password_refused(&unavailable("Secrets were required")));
}

#[test]
fn friendly_error_gives_hints_for_known_causes() {
    assert_eq!(
        friendly_error(&unavailable("org.freedesktop.NetworkManager.AgentManager.NoSecrets")),
        "No secrets agent. Start a polkit agent (e.g. polkit-gnome)."
    );
    assert_eq!(
        friendly_error(&unavailable("No agents were available for this request")),
        "No secrets agent. Start a polkit agent (e.g. polkit-gnome)."
    );
    assert_eq!(friendly_error(&unavailable("No Wi\u{2011}Fi device found")), "No Wi\u{2011}Fi device found.");
    assert_eq!(friendly_error(&unavailable("no wifi DEVICE here")), "No Wi\u{2011}Fi device found.");
    assert_eq!(friendly_error(&unavailable("SSID not found")), "SSID not found");
    assert_eq!(friendly_error(&unavailable("device only")), "device only");
}

#[test]
fn password_error_message_names_the_missing_agent() {
    assert_eq!(
        password_error_message(&unavailable("No agent")),
        "Password unavailable: no secrets agent. Start a polkit agent (e.g. polkit-gnome)."
    );
    assert_eq!(
        password_error_message(&unavailable("Connection \"x\" not found")),
        "Failed to load password: Unavailable(\"Connection \\\"x\\\" not found\")"
    );
}

#[test]
fn connect_error_message_depends_on_the_password() {
    let err = unavailable("Authentication rejected");
    assert_eq!(connect_error_message(&err, true), "Incorrect password. Try again.");
    assert_eq!(connect_error_message(&err, false), "Authentication rejected");
    let err = unavailable("SSID not found");
    assert_eq!(connect_error_message(&err, true), "SSID not found");
}
