use spr_nostr::http::{
    classify, derive_accept_key, find_crlf_crlf, hands_over_to_relay, landing_response,
    nip11_response, preflight_response, response_for, scan_head, switching_protocols_response,
    HeadScan, ReqKind, MAX_HEAD,
};

#[test]
fn detects_websocket_upgrade() {
    let head = "GET / HTTP/1.1\r\nHost: x\r\nUpgrade: websocket\r\n\
                Connection: Upgrade\r\nSec-WebSocket-Key: dGhlIHNhbXBsZQ==\r\n\
                Sec-WebSocket-Version: 13\r\n\r\n";
    assert_eq!(
        classify(head),
        ReqKind::WebSocket("dGhlIHNhbXBsZQ==".to_string())
    );
}

#[test]
fn detects_nip11() {
    let head = "GET / HTTP/1.1\r\nHost: x\r\nAccept: application/nostr+json\r\n\r\n";
    assert_eq!(classify(head), ReqKind::Nip11);
}

#[test]
fn websocket_wins_over_accept_header() {
    let head = "GET / HTTP/1.1\r\nUpgrade: websocket\r\nConnection: Upgrade\r\n\
                Sec-WebSocket-Key: abc\r\nAccept: application/nostr+json\r\n\r\n";
    assert_eq!(classify(head), ReqKind::WebSocket("abc".to_string()));
}

#[test]
fn plain_get_is_other() {
    let head = "GET / HTTP/1.1\r\nHost: x\r\nAccept: text/html\r\n\r\n";
    assert_eq!(classify(head), ReqKind::Other);
}

#[test]
fn options_is_preflight() {
    let head = "OPTIONS / HTTP/1.1\r\nHost: x\r\nAccess-Control-Request-Method: GET\r\n\r\n";
    assert_eq!(classify(head), ReqKind::Options);
}

#[test]
fn header_lookup_is_case_insensitive() {
    let head = "GET / HTTP/1.1\r\nACCEPT: Application/Nostr+JSON\r\n\r\n";
    assert_eq!(classify(head), ReqKind::Nip11);
}

#[test]
fn accept_key_matches_rfc6455_example() {
    assert_eq!(
        derive_accept_key(b"dGhlIHNhbXBsZSBub25jZQ=="),
        "s3pPLMBiTxaQ9kYGzzhZRbK+xOo="
    );
}

#[test]
fn upgrade_without_key_falls_through() {
    let head = "GET / HTTP/1.1\r\nUpgrade: websocket\r\nConnection: Upgrade\r\n\
                Accept: application/nostr+json\r\n\r\n";
    assert_eq!(classify(head), ReqKind::Nip11);
    let head = "GET / HTTP/1.1\r\nUpgrade: websocket\r\nConnection: Upgrade\r\n\r\n";
    assert_eq!(classify(head), ReqKind::Other);
}

#[test]
fn upgrade_needs_connection_header() {
    let head = "GET / HTTP/1.1\r\nUpgrade: websocket\r\nSec-WebSocket-Key: abc\r\n\r\n";
    assert_eq!(classify(head), ReqKind::Other);
    let head = "GET / HTTP/1.1\r\nUpgrade: websocket\r\nConnection: keep-alive, Upgrade\r\n\
                Sec-WebSocket-Key: abc\r\n\r\n";
    assert_eq!(classify(head), ReqKind::WebSocket("abc".to_string()));
}

#[test]
fn header_values_and_keys_are_trimmed() {
    let head = "GET / HTTP/1.1\r\n  accept \t:   application/nostr+json  \r\n\r\n";
    assert_eq!(classify(head), ReqKind::Nip11);
    let head = "GET / HTTP/1.1\r\nUPGRADE:WebSocket\r\nconnection:upgrade\r\n\
                sec-websocket-key:   k e y   \r\n\r\n";
    assert_eq!(classify(head), ReqKind::WebSocket("k e y".to_string()));
}

#[test]
fn method_is_case_insensitive_and_head_counts() {
    assert_eq!(
        classify("head / HTTP/1.1\r\nAccept: application/nostr+json\r\n\r\n"),
        ReqKind::Nip11
    );
    assert_eq!(classify("options * HTTP/1.1\r\n\r\n"), ReqKind::Options);
    assert_eq!(
        classify("POST / HTTP/1.1\r\nAccept: application/nostr+json\r\n\r\n"),
        ReqKind::Other
    );
}

#[test]
fn request_line_is_not_a_header() {
    assert_eq!(classify("Accept: application/nostr+json"), ReqKind::Other);
    assert_eq!(classify(""), ReqKind::Other);
}

#[test]
fn first_matching_header_wins() {
    let head = "GET / HTTP/1.1\r\nAccept: text/html\r\nAccept: application/nostr+json\r\n\r\n";
    assert_eq!(classify(head), ReqKind::Other);
}

#[test]
fn accept_key_other_inputs() {
    assert_eq!(derive_accept_key(b""), "Kfh9QIsMVZcl6xEPYxPHzW8SZ8w=");
    assert_ne!(derive_accept_key(b"abc"), "abc");
    assert_eq!(derive_accept_key(b"abc").len(), 28);
    let k = derive_accept_key(b"dGhlIHNhbXBsZSBub25jZQ==");
    assert!(k.ends_with('=') && !k.ends_with("=="));
}

#[test]
fn finds_blank_line() {
    assert_eq!(find_crlf_crlf(b"GET / HTTP/1.1\r\n\r\nbody"), Some(14));
    assert_eq!(find_crlf_crlf(b"\r\n\r\n"), Some(0));
    assert_eq!(find_crlf_crlf(b"\r\n\r"), None);
    assert_eq!(find_crlf_crlf(b""), None);
    assert_eq!(find_crlf_crlf(b"a\r\n\r\r\n\r\n"), Some(4));
}

#[test]
fn scan_head_decisions() {
    assert_eq!(scan_head(b"", MAX_HEAD), HeadScan::Closed);
    assert_eq!(scan_head(b"GET / HTTP/1.1\r\n\r\n", MAX_HEAD), HeadScan::Complete(18));
    assert_eq!(scan_head(b"GET / HTTP/1.1\r\n", MAX_HEAD), HeadScan::Incomplete);
    assert_eq!(scan_head(b"GET / HTTP/1.1\r\n", 16), HeadScan::TooLarge);
    assert_eq!(MAX_HEAD, 16384);
}

#[test]
fn handshake_response_text() {
    assert_eq!(
        switching_protocols_response("xyz="),
        "HTTP/1.1 101 Switching Protocols\r\nUpgrade: websocket\r\nConnection: Upgrade\r\n\
         Sec-WebSocket-Accept: xyz=\r\n\r\n"
    );
    let r = response_for(&ReqKind::WebSocket("dGhlIHNhbXBsZSBub25jZQ==".to_string()), "{}");
    assert!(r.ends_with("Sec-WebSocket-Accept: s3pPLMBiTxaQ9kYGzzhZRbK+xOo=\r\n\r\n"));
    assert!(hands_over_to_relay(&ReqKind::WebSocket("a".to_string())));
    assert!(!hands_over_to_relay(&ReqKind::Nip11));
}

#[test]
fn nip11_response_counts_bytes() {
    let r = nip11_response("{\"name\":\"é\"}");
    assert!(r.starts_with("HTTP/1.1 200 OK\r\nContent-Type: application/nostr+json\r\n"));
    assert!(r.contains("Access-Control-Allow-Origin: *\r\n"));
    assert!(r.contains("Content-Length: 13\r\nConnection: close\r\n\r\n{\"name\":\"é\"}"));
    assert_eq!(response_for(&ReqKind::Nip11, "{}"), nip11_response("{}"));
}

#[test]
fn preflight_and_landing_responses() {
    assert_eq!(
        preflight_response(),
        "HTTP/1.1 204 No Content\r\nAccess-Control-Allow-Origin: *\r\n\
         Access-Control-Allow-Methods: GET, OPTIONS\r\nAccess-Control-Allow-Headers: *\r\n\
         Content-Length: 0\r\nConnection: close\r\n\r\n"
    );
    let body = "This is a Nostr relay. Connect over WebSocket, or request its \
                NIP-11 document with `Accept: application/nostr+json`.";
    let expected = format!(
        "HTTP/1.1 200 OK\r\nContent-Type: text/plain; charset=utf-8\r\n\
         Access-Control-Allow-Origin: *\r\nContent-Length: {}\r\nConnection: close\r\n\r\n{}",
        body.len(),
        body
    );
    assert_eq!(landing_response(), expected);
    assert_eq!(response_for(&ReqKind::Other, "{}"), expected);
    assert_eq!(response_for(&ReqKind::Options, "{}"), preflight_response());
}
