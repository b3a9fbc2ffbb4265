use spr_nostr::config::{Config, Mode, DEFAULT_PORT};

fn config(port: u16, mode: Mode, require_auth: bool) -> Config {
    Config {
        port,
        mode,
        require_auth,
        relay_name: String::new(),
        relay_description: String::new(),
        relay_pubkey: String::new(),
        relay_contact: String::new(),
    }
}

#[test]
fn default_is_valid() {
    let c = Config::default();
    assert_eq!(c.port, DEFAULT_PORT);
    assert_eq!(c.mode, Mode::Both);
    assert!(!c.require_auth);
    assert!(c.validate().is_ok());
}

#[test]
fn rejects_port_zero() {
    let c = config(0, Mode::Both, false);
    assert!(c.validate().is_err());
}

#[test]
fn default_has_empty_relay_texts() {
    let c = Config::default();
    assert_eq!(c.port, 7777);
    assert!(c.relay_name.is_empty());
    assert!(c.relay_description.is_empty());
    assert!(c.relay_pubkey.is_empty());
    assert!(c.relay_contact.is_empty());
    assert_eq!(Mode::default(), Mode::Both);
}

#[test]
fn port_zero_error_message() {
    let err = config(0, Mode::Read, true).validate().unwrap_err();
    assert_eq!(err, "Port must be between 1 and 65535");
}

#[test]
fn every_nonzero_port_is_valid() {
    for port in [1u16, 80, 7777, 65535] {
        for mode in [Mode::Read, Mode::Write, Mode::Both] {
            assert!(config(port, mode, false).validate().is_ok());
            assert!(config(port, mode, true).validate().is_ok());
        }
    }
}
