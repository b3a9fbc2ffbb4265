use spr_nostr::config::{Config, Mode};
use spr_nostr::nip11::{
    build_relay_info, build_relay_info_json, json_or_empty, non_empty, supported_nips, SOFTWARE,
};

fn cfg(auth: bool) -> Config {
    Config {
        port: 7777,
        mode: Mode::Both,
        require_auth: auth,
        relay_name: "My Relay".to_string(),
        relay_description: "A relay".to_string(),
        relay_pubkey: String::new(),
        relay_contact: "mailto:me@example.com".to_string(),
    }
}

#[test]
fn nips_include_42_only_when_auth_required() {
    assert!(!supported_nips(&cfg(false)).contains(&42));
    assert!(supported_nips(&cfg(true)).contains(&42));
    for n in [1u16, 9, 11, 45, 77] {
        assert!(supported_nips(&cfg(false)).contains(&n), "missing {n}");
    }
}

#[test]
fn empty_fields_become_none() {
    let doc = build_relay_info(&cfg(false));
    assert_eq!(doc.name.as_deref(), Some("My Relay"));
    assert_eq!(
        doc.pubkey, None,
        "empty pubkey must be None, not Some(\"\")"
    );
    assert_eq!(doc.contact.as_deref(), Some("mailto:me@example.com"));
    assert_eq!(doc.software.as_deref(), Some(SOFTWARE));
    assert!(doc.version.as_deref().unwrap().starts_with('v'));
}

#[test]
fn json_contains_expected_keys() {
    let json = build_relay_info_json(&cfg(true));
    assert!(json.contains("\"name\":\"My Relay\""), "{json}");
    assert!(json.contains("\"supported_nips\""), "{json}");
    assert!(json.contains("42"), "{json}");
    assert!(json.contains("\"software\""), "{json}");
}

#[test]
fn supported_nips_exact_lists() {
    assert_eq!(supported_nips(&cfg(false)), vec![1, 9, 11, 45, 77]);
    assert_eq!(supported_nips(&cfg(true)), vec![1, 9, 11, 42, 45, 77]);
}

#[test]
fn non_empty_trims_unicode_whitespace() {
    assert_eq!(non_empty(""), None);
    assert_eq!(non_empty(" \t\r\n"), None);
    assert_eq!(non_empty("\u{3000}\u{a0}"), None);
    assert_eq!(non_empty("  My Relay \n").as_deref(), Some("My Relay"));
    assert_eq!(non_empty("\u{2003}x y\u{85}").as_deref(), Some("x y"));
    assert_eq!(non_empty("é").as_deref(), Some("é"));
}

#[test]
fn document_fields_are_trimmed() {
    let mut c = cfg(false);
    c.relay_name = "  spaced  ".to_string();
    c.relay_description = "   ".to_string();
    let doc = build_relay_info(&c);
    assert_eq!(doc.name.as_deref(), Some("spaced"));
    assert_eq!(doc.description, None);
    assert_eq!(doc.supported_nips, Some(vec![1, 9, 11, 45, 77]));
}

#[test]
fn json_body_without_optional_texts() {
    let mut c = cfg(false);
    c.relay_name = String::new();
    let json = build_relay_info_json(&c);
    assert!(json.starts_with('{'), "{json}");
    assert!(json.contains("\"name\":null"), "{json}");
    assert!(json.contains("\"supported_nips\":[1,9,11,45,77]"), "{json}");
    assert!(!json.contains("42"), "{json}");
}

#[test]
fn json_or_empty_passes_text_through() {
    assert_eq!(json_or_empty(Ok("{\"a\":1}".to_string())), "{\"a\":1}");
    let err = serde_json::from_str::<u8>("x").unwrap_err();
    assert_eq!(json_or_empty(Err(err)), "{}");
}
