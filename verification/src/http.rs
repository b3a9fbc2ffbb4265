//! The HTTP front of the relay port: classifying a request head, deriving the
//! WebSocket accept key, scanning peeked bytes for the end of the head, and
//! the response heads written back for each kind of request.
use vstd::prelude::*;
use vstd::utf8::encode_utf8;

use base64::prelude::{Engine as _, BASE64_STANDARD};
use nostr::hashes::sha1::Hash as Sha1Hash;

use crate::text::{
    ascii_lower, decimal_value, lemma_decimal, matches_ci_at,     chars_of, decimal, push_decimal, contains_ci, contains_ci_range, eq_ignore_ascii_case, eq_ignore_ascii_case_range,
    index_of, index_of_from, index_of_range, string_from_range, trim, trim_range, upper_equals,
    upper_equals_range,
};

verus! {

broadcast use vstd::string::group_string_axioms;

/// Largest request head accepted, in bytes.
pub const MAX_HEAD: usize = 16 * 1024;

/// What the incoming HTTP request is.
#[derive(Debug, PartialEq, Eq)]
pub enum ReqKind {
    /// WebSocket upgrade; carries the `Sec-WebSocket-Key`.
    WebSocket(String),
    /// NIP-11 relay information document request.
    Nip11,
    /// CORS preflight.
    Options,
    /// Anything else (serve a landing page).
    Other,
}

/// The mathematical counterpart of [`ReqKind`].
pub enum RequestClass {
    WebSocket(Seq<char>),
    Nip11,
    Options,
    Other,
}

impl View for ReqKind {
    type V = RequestClass;

    open spec fn view(&self) -> RequestClass {
        match self {
            ReqKind::WebSocket(key) => RequestClass::WebSocket(key@),
            ReqKind::Nip11 => RequestClass::Nip11,
            ReqKind::Options => RequestClass::Options,
            ReqKind::Other => RequestClass::Other,
        }
    }
}

// ---------------------------------------------------------------------------
// Request heads, as sequences of characters
// ---------------------------------------------------------------------------

/// A `"\r\n"` starts at `i`.
pub open spec fn is_crlf_at(s: Seq<char>, i: int) -> bool {
    &&& 0 <= i
    &&& i + 1 < s.len()
    &&& s[i] == '\r'
    &&& s[i + 1] == '\n'
}

/// The first `"\r\n"` at or after `from`.
pub open spec fn next_crlf(s: Seq<char>, from: int) -> Option<int>
    decreases s.len() - from,
{
    if from < 0 || from + 1 >= s.len() {
        None
    } else if is_crlf_at(s, from) {
        Some(from)
    } else {
        next_crlf(s, from + 1)
    }
}

/// Where the line starting at `from` ends: at the next `"\r\n"`, or at the end.
pub open spec fn line_end(s: Seq<char>, from: int) -> int {
    match next_crlf(s, from) {
        Some(e) => e,
        None => s.len() as int,
    }
}

pub proof fn lemma_next_crlf(s: Seq<char>, from: int)
    ensures
        next_crlf(s, from) matches Some(e) ==> from <= e && is_crlf_at(s, e),
        0 <= from && next_crlf(s, from) is None ==> forall|k: int| from <= k ==> !is_crlf_at(s, k),
        0 <= from <= s.len() ==> from <= line_end(s, from) <= s.len(),
    decreases s.len() - from,
{
    if from < 0 || from + 1 >= s.len() {
    } else if is_crlf_at(s, from) {
    } else {
        lemma_next_crlf(s, from + 1);
        assert forall|k: int| from <= k && next_crlf(s, from) is None implies !is_crlf_at(s, k) by {
            if k == from {
            }
        }
    }
}

/// `(k, v)` when the line splits at its first `:` into a key and a value,
/// as `str::split_once(':')` gives them.
pub open spec fn split_colon(line: Seq<char>) -> Option<(Seq<char>, Seq<char>)> {
    match index_of(line, ':') {
        Some(c) => Some((line.subrange(0, c), line.subrange(c + 1, line.len() as int))),
        None => None,
    }
}

/// The value of the first header line at or after position `p` whose trimmed
/// key equals `name` ignoring ASCII case; the value is trimmed.
pub open spec fn header_from(h: Seq<char>, name: Seq<char>, p: int) -> Option<Seq<char>>
    decreases h.len() - p,
{
    if p < 0 || p > h.len() {
        None
    } else {
        let line = h.subrange(p, line_end(h, p));
        let hit = match split_colon(line) {
            Some((k, _)) => eq_ignore_ascii_case(trim(k), name),
            None => false,
        };
        if hit {
            Some(trim(split_colon(line).unwrap().1))
        } else {
            match next_crlf(h, p) {
                Some(e) => {
                    proof {
                        lemma_next_crlf(h, p);
                    }
                    header_from(h, name, e + 2)
                },
                None => None,
            }
        }
    }
}

/// Header lookup: the lines after the request line are searched in order.
pub open spec fn header(h: Seq<char>, name: Seq<char>) -> Option<Seq<char>> {
    match next_crlf(h, 0) {
        Some(e) => header_from(h, name, e + 2),
        None => None,
    }
}

/// The first line of the head.
pub open spec fn request_line(h: Seq<char>) -> Seq<char> {
    h.subrange(0, line_end(h, 0))
}

/// The method: the request line up to its first space.
pub open spec fn request_method(h: Seq<char>) -> Seq<char> {
    let rl = request_line(h);
    match index_of(rl, ' ') {
        Some(k) => rl.subrange(0, k),
        None => rl,
    }
}

/// A header `name` is present and its value contains `needle`, ignoring case.
pub open spec fn header_contains(h: Seq<char>, name: Seq<char>, needle: Seq<char>) -> bool {
    header(h, name) matches Some(v) && contains_ci(v, needle)
}

/// The request asks for a WebSocket upgrade.
pub open spec fn is_upgrade(h: Seq<char>) -> bool {
    header_contains(h, "upgrade"@, "websocket"@) && header_contains(h, "connection"@, "upgrade"@)
}

/// The class of a request head. An upgrade that carries a key wins over
/// everything; then `OPTIONS`; then a `GET` or `HEAD` that accepts
/// `application/nostr+json`; all else is `Other`.
pub open spec fn classify_spec(h: Seq<char>) -> RequestClass {
    if is_upgrade(h) && header(h, "sec-websocket-key"@) is Some {
        RequestClass::WebSocket(header(h, "sec-websocket-key"@).unwrap())
    } else if upper_equals(request_method(h), "OPTIONS"@) {
        RequestClass::Options
    } else if (upper_equals(request_method(h), "GET"@) || upper_equals(request_method(h), "HEAD"@))
        && header_contains(h, "accept"@, "application/nostr+json"@) {
        RequestClass::Nip11
    } else {
        RequestClass::Other
    }
}

// ---------------------------------------------------------------------------
// Executable classification
// ---------------------------------------------------------------------------

/// The first `"\r\n"` in `cs` at or after `from`.
fn find_crlf(cs: &Vec<char>, from: usize) -> (r: Option<usize>)
    requires
        from <= cs@.len(),
    ensures
        match r {
            Some(e) => next_crlf(cs@, from as int) == Some(e as int),
            None => next_crlf(cs@, from as int) is None,
        },
        r matches Some(e) ==> from <= e && e + 1 < cs.len(),
{
    let mut i = from;
    while i < cs.len() && i + 1 < cs.len()
        invariant
            from <= i <= cs@.len(),
            next_crlf(cs@, from as int) == next_crlf(cs@, i as int),
        decreases cs@.len() - i,
    {
        if cs[i] == '\r' && cs[i + 1] == '\n' {
            return Some(i);
        }
        i += 1;
    }
    None
}

/// The bounds of `header(cs, name)` within `cs`.
fn header_range(cs: &Vec<char>, name: &Vec<char>) -> (r: Option<(usize, usize)>)
    ensures
        match r {
            Some((a, b)) => a <= b <= cs@.len() && header(cs@, name@) == Some(
                cs@.subrange(a as int, b as int),
            ),
            None => header(cs@, name@) is None,
        },
{
    let ghost h = cs@;
    let mut p: usize = match find_crlf(cs, 0) {
        Some(e) => e + 2,
        None => return None,
    };
    proof {
        lemma_next_crlf(h, 0);
    }
    loop
        invariant
            h == cs@,
            p <= cs@.len(),
            header(h, name@) == header_from(h, name@, p as int),
        decreases cs@.len() - p,
    {
        let next = find_crlf(cs, p);
        let e = match next {
            Some(e) => e,
            None => cs.len(),
        };
        proof {
            lemma_next_crlf(h, p as int);
        }
        let ghost line = h.subrange(p as int, e as int);
        assert(line_end(h, p as int) == e);
        match index_of_range(cs, p, e, ':') {
            Some(c) => {
                assert(line.subrange(0, c as int) == h.subrange(p as int, p + c));
                assert(line.subrange(c + 1, line.len() as int) == h.subrange(p + c + 1, e as int));
                let (ka, kb) = trim_range(cs, p, p + c);
                if eq_ignore_ascii_case_range(cs, ka, kb, name) {
                    let (va, vb) = trim_range(cs, p + c + 1, e);
                    return Some((va, vb));
                }
            },
            None => {},
        }
        match next {
            Some(e2) => {
                p = e2 + 2;
            },
            None => {
                return None;
            },
        }
    }
}

/// Whether header `name` is present and its value contains `needle`.
fn header_contains_exec(cs: &Vec<char>, name: &str, needle: &str) -> (b: bool)
    ensures
        b == header_contains(cs@, name@, needle@),
{
    let name_cs = chars_of(name);
    let needle_cs = chars_of(needle);
    match header_range(cs, &name_cs) {
        Some((a, b)) => contains_ci_range(cs, a, b, &needle_cs),
        None => false,
    }
}

/// Classify a raw HTTP request head (request line + headers, no body).
pub fn classify(head: &str) -> (kind: ReqKind)
    ensures
        kind@ == classify_spec(head@),
{
    let cs = chars_of(head);
    let ghost h = cs@;

    let is_upgrade = header_contains_exec(&cs, "upgrade", "websocket") && header_contains_exec(
        &cs,
        "connection",
        "upgrade",
    );
    if is_upgrade {
        let key_name = chars_of("sec-websocket-key");
        if let Some((a, b)) = header_range(&cs, &key_name) {
            return ReqKind::WebSocket(string_from_range(&cs, a, b));
        }
    }
    // The method: the request line up to its first space.

    let rl_end = match find_crlf(&cs, 0) {
        Some(e) => e,
        None => cs.len(),
    };
    proof {
        lemma_next_crlf(h, 0);
    }
    let m_end = match index_of_range(&cs, 0, rl_end, ' ') {
        Some(k) => k,
        None => rl_end,
    };
    assert(request_line(h) == h.subrange(0, rl_end as int));
    assert(request_method(h) == h.subrange(0, m_end as int)) by {
        if let Some(k) = index_of(request_line(h), ' ') {
            assert(request_line(h).subrange(0, k) == h.subrange(0, k));
        }
    }
    if upper_equals_range(&cs, 0, m_end, &chars_of("OPTIONS")) {
        return ReqKind::Options;
    }
    let get_or_head = upper_equals_range(&cs, 0, m_end, &chars_of("GET")) || upper_equals_range(
        &cs,
        0,
        m_end,
        &chars_of("HEAD"),
    );
    if get_or_head && header_contains_exec(&cs, "accept", "application/nostr+json") {
        return ReqKind::Nip11;
    }
    ReqKind::Other
}

// ---------------------------------------------------------------------------
// The WebSocket accept key (RFC 6455)
// ---------------------------------------------------------------------------

/// The SHA-1 digest of `data`.
pub uninterp spec fn sha1_digest(data: Seq<u8>) -> Seq<u8>;

/// `data` encoded in standard Base64 with padding.
pub uninterp spec fn base64_standard(data: Seq<u8>) -> Seq<char>;

/// SHA-1 of `data` through `bitcoin_hashes::sha1::Hash::hash` (as re-exported
/// by `nostr::hashes`). Claimed: the result is the named digest of the input,
/// and it is 20 bytes long (the type's byte array is `[u8; 20]`).
#[verifier::external_body]
fn sha1(data: &[u8]) -> (d: Vec<u8>)
    ensures
        d@ == sha1_digest(data@),
        d@.len() == 20,
{
    <Sha1Hash as nostr::hashes::Hash>::to_byte_array(
        <Sha1Hash as nostr::hashes::Hash>::hash(data),
    ).to_vec()
}

/// A character of the standard Base64 alphabet: `A`-`Z`, `a`-`z`, `0`-`9`,
/// `+` and `/`.
pub open spec fn is_base64_char(c: char) -> bool {
    ||| 'A' <= c <= 'Z'
    ||| 'a' <= c <= 'z'
    ||| '0' <= c <= '9'
    ||| c == '+'
    ||| c == '/'
}

/// How many `=` padding characters standard Base64 appends for `n` input bytes.
pub open spec fn base64_padding(n: nat) -> nat {
    if n % 3 == 1 {
        2
    } else if n % 3 == 2 {
        1
    } else {
        0
    }
}

/// The shape of a padded standard Base64 text for `n` input bytes: four
/// characters per started group of three bytes, alphabet characters followed
/// by the `=` padding.
pub open spec fn is_padded_base64(s: Seq<char>, n: nat) -> bool {
    &&& s.len() == 4 * ((n + 2) / 3)
    &&& forall|i: int| 0 <= i < s.len() - base64_padding(n) ==> is_base64_char(#[trigger] s[i])
    &&& forall|i: int| s.len() - base64_padding(n) <= i < s.len() ==> #[trigger] s[i] == '='
}

/// Standard Base64 encoding through `base64::engine::Engine::encode` on
/// `BASE64_STANDARD`. Claimed: the result is the named encoding of the input;
/// its length is `encoded_len(n, true)` (four characters per started group of
/// three bytes), it is made of alphabet characters followed by the padding
/// that `add_padding` writes (two `=` when `n % 3 == 1`, one when
/// `n % 3 == 2`). `encode` panics when that length overflows `usize`, so the
/// input is bounded.
#[verifier::external_body]
fn base64_encode(data: &[u8]) -> (s: String)
    requires
        4 * ((data@.len() + 2) / 3) <= usize::MAX,
    ensures
        s@ == base64_standard(data@),
        is_padded_base64(s@, data@.len()),
{
    BASE64_STANDARD.encode(data)
}

/// The GUID that RFC 6455 appends to the client's key.
pub open spec fn websocket_guid() -> Seq<char> {
    "258EAFA5-E914-47DA-95CA-C5AB0DC85B11"@
}

/// `Sec-WebSocket-Accept` for the bytes of a `Sec-WebSocket-Key`:
/// Base64 of the SHA-1 of the key followed by the GUID.
pub open spec fn accept_key(request_key: Seq<u8>) -> Seq<char> {
    base64_standard(sha1_digest(request_key + encode_utf8(websocket_guid())))
}

fn append_bytes(v: &mut Vec<u8>, s: &[u8])
    ensures
        final(v)@ == old(v)@ + s@,
{
    let mut i: usize = 0;
    while i < s.len()
        invariant
            0 <= i <= s@.len(),
            v@ == old(v)@ + s@.subrange(0, i as int),
        decreases s@.len() - i,
    {
        v.push(s[i]);
        assert(s@.subrange(0, i + 1) == s@.subrange(0, i as int).push(s@[i as int]));
        i += 1;
    }
    assert(s@.subrange(0, s@.len() as int) == s@);
}

/// Sec-WebSocket-Accept from Sec-WebSocket-Key (RFC 6455).
pub fn derive_accept_key(request_key: &[u8]) -> (accept: String)
    ensures
        accept@ == accept_key(request_key@),
        accept@.len() == 28,
        accept@[27] == '=',
        forall|i: int| 0 <= i < 27 ==> is_base64_char(#[trigger] accept@[i]),
{
    let mut input: Vec<u8> = Vec::new();
    append_bytes(&mut input, request_key);
    append_bytes(&mut input, "258EAFA5-E914-47DA-95CA-C5AB0DC85B11".as_bytes());
    assert(input@ == request_key@ + encode_utf8(websocket_guid()));
    let digest = sha1(input.as_slice());
    let accept = base64_encode(digest.as_slice());
    assert(base64_padding(20) == 1);
    accept
}

// ---------------------------------------------------------------------------
// Finding the end of the request head in peeked bytes
// ---------------------------------------------------------------------------

/// A blank line (`"\r\n\r\n"`) starts at byte `i`.
pub open spec fn is_blank_line_at(b: Seq<u8>, i: int) -> bool {
    &&& 0 <= i
    &&& i + 4 <= b.len()
    &&& b[i] == 13
    &&& b[i + 1] == 10
    &&& b[i + 2] == 13
    &&& b[i + 3] == 10
}

/// The first blank line at or after `from`.
pub open spec fn blank_line_from(b: Seq<u8>, from: int) -> Option<int>
    decreases b.len() - from,
{
    if from < 0 || from + 4 > b.len() {
        None
    } else if is_blank_line_at(b, from) {
        Some(from)
    } else {
        blank_line_from(b, from + 1)
    }
}

/// Position of the first `"\r\n\r\n"` in `b`.
pub fn find_crlf_crlf(b: &[u8]) -> (r: Option<usize>)
    ensures
        match r {
            Some(i) => blank_line_from(b@, 0) == Some(i as int),
            None => blank_line_from(b@, 0) is None,
        },
        r matches Some(i) ==> i + 4 <= b@.len(),
{
    let mut i: usize = 0;
    while i < b.len() && 4 <= b.len() - i
        invariant
            0 <= i <= b@.len(),
            blank_line_from(b@, 0) == blank_line_from(b@, i as int),
        decreases b@.len() - i,
    {
        if b[i] == 13 && b[i + 1] == 10 && b[i + 2] == 13 && b[i + 3] == 10 {
            return Some(i);
        }
        i += 1;
    }
    None
}

/// What the bytes peeked so far say about the request head.
#[derive(Debug, Clone, Copy, PartialEq, Eq, Structural)]
pub enum HeadScan {
    /// The peer closed the connection before sending anything.
    Closed,
    /// The head is complete; it is this many bytes long, blank line included.
    Complete(usize),
    /// The buffer is full and holds no blank line.
    TooLarge,
    /// More bytes are needed.
    Incomplete,
}

/// The decision taken on `peeked`, read into a buffer of `cap` bytes.
pub open spec fn head_scan_spec(peeked: Seq<u8>, cap: int) -> HeadScan {
    if peeked.len() == 0 {
        HeadScan::Closed
    } else if let Some(pos) = blank_line_from(peeked, 0) {
        HeadScan::Complete((pos + 4) as usize)
    } else if peeked.len() >= cap {
        HeadScan::TooLarge
    } else {
        HeadScan::Incomplete
    }
}

/// One step of reading the head: classify the bytes peeked so far.
pub fn scan_head(peeked: &[u8], cap: usize) -> (s: HeadScan)
    ensures
        s == head_scan_spec(peeked@, cap as int),
        s matches HeadScan::Complete(n) ==> 4 <= n <= peeked@.len(),
{
    if peeked.len() == 0 {
        return HeadScan::Closed;
    }
    if let Some(pos) = find_crlf_crlf(peeked) {
        return HeadScan::Complete(pos + 4);
    }
    if peeked.len() >= cap {
        HeadScan::TooLarge
    } else {
        HeadScan::Incomplete
    }
}

// ---------------------------------------------------------------------------
// Responses
// ---------------------------------------------------------------------------

/// The length in bytes of the UTF-8 encoding of `s`, as `str::len` returns it.
pub open spec fn byte_len(s: Seq<char>) -> nat {
    (encode_utf8(s).len() as usize) as nat
}

/// The `101` handshake answer carrying `accept`.
pub open spec fn switching_protocols_spec(accept: Seq<char>) -> Seq<char> {
    "HTTP/1.1 101 Switching Protocols\r\nUpgrade: websocket\r\nConnection: Upgrade\r\nSec-WebSocket-Accept: "@
        + accept + "\r\n\r\n"@
}

/// The NIP-11 answer: the document with permissive CORS; the length is in bytes.
pub open spec fn nip11_response_spec(json: Seq<char>) -> Seq<char> {
    "HTTP/1.1 200 OK\r\nContent-Type: application/nostr+json\r\nAccess-Control-Allow-Origin: *\r\nAccess-Control-Allow-Headers: *\r\nAccess-Control-Allow-Methods: GET, OPTIONS\r\nContent-Length: "@
        + decimal(byte_len(json)) + "\r\nConnection: close\r\n\r\n"@ + json
}

/// The CORS preflight answer.
pub open spec fn preflight_response_spec() -> Seq<char> {
    "HTTP/1.1 204 No Content\r\nAccess-Control-Allow-Origin: *\r\nAccess-Control-Allow-Methods: GET, OPTIONS\r\nAccess-Control-Allow-Headers: *\r\nContent-Length: 0\r\nConnection: close\r\n\r\n"@
}

/// The body of the landing page.
pub open spec fn landing_body() -> Seq<char> {
    "This is a Nostr relay. Connect over WebSocket, or request its NIP-11 document with `Accept: application/nostr+json`."@
}

/// The landing page answer.
pub open spec fn landing_response_spec() -> Seq<char> {
    "HTTP/1.1 200 OK\r\nContent-Type: text/plain; charset=utf-8\r\nAccess-Control-Allow-Origin: *\r\nContent-Length: "@
        + decimal(byte_len(landing_body())) + "\r\nConnection: close\r\n\r\n"@
        + landing_body()
}

/// What is written back for a request of class `kind`.
pub open spec fn response_spec(kind: RequestClass, nip11_json: Seq<char>) -> Seq<char> {
    match kind {
        RequestClass::WebSocket(key) => switching_protocols_spec(accept_key(encode_utf8(key))),
        RequestClass::Nip11 => nip11_response_spec(nip11_json),
        RequestClass::Options => preflight_response_spec(),
        RequestClass::Other => landing_response_spec(),
    }
}

/// The `101 Switching Protocols` handshake.
pub fn switching_protocols_response(accept: &str) -> (r: String)
    ensures
        r@ == switching_protocols_spec(accept@),
{
    let mut r = String::new();
    r.append(
        "HTTP/1.1 101 Switching Protocols\r\nUpgrade: websocket\r\nConnection: Upgrade\r\nSec-WebSocket-Accept: ",
    );
    r.append(accept);
    r.append("\r\n\r\n");
    r
}

/// The NIP-11 document with its HTTP head.
pub fn nip11_response(json: &str) -> (r: String)
    ensures
        r@ == nip11_response_spec(json@),
{
    let mut r = String::new();
    r.append(
        "HTTP/1.1 200 OK\r\nContent-Type: application/nostr+json\r\nAccess-Control-Allow-Origin: *\r\nAccess-Control-Allow-Headers: *\r\nAccess-Control-Allow-Methods: GET, OPTIONS\r\nContent-Length: ",
    );
    push_decimal(&mut r, json.len() as u64);
    r.append("\r\nConnection: close\r\n\r\n");
    r.append(json);
    r
}

/// The CORS preflight answer.
pub fn preflight_response() -> (r: String)
    ensures
        r@ == preflight_response_spec(),
{
    let mut r = String::new();
    r.append(
        "HTTP/1.1 204 No Content\r\nAccess-Control-Allow-Origin: *\r\nAccess-Control-Allow-Methods: GET, OPTIONS\r\nAccess-Control-Allow-Headers: *\r\nContent-Length: 0\r\nConnection: close\r\n\r\n",
    );
    r
}

/// The landing page.
pub fn landing_response() -> (r: String)
    ensures
        r@ == landing_response_spec(),
{
    let body = "This is a Nostr relay. Connect over WebSocket, or request its NIP-11 document with `Accept: application/nostr+json`.";
    let mut r = String::new();
    r.append(
        "HTTP/1.1 200 OK\r\nContent-Type: text/plain; charset=utf-8\r\nAccess-Control-Allow-Origin: *\r\nContent-Length: ",
    );
    push_decimal(&mut r, body.len() as u64);
    r.append("\r\nConnection: close\r\n\r\n");
    r.append(body);
    r
}

/// The answer to a request of kind `kind`; `nip11_json` is the document body.
pub fn response_for(kind: &ReqKind, nip11_json: &str) -> (r: String)
    ensures
        r@ == response_spec(kind@, nip11_json@),
{
    match kind {
        ReqKind::WebSocket(key) => {
            let accept = derive_accept_key(key.as_str().as_bytes());
            switching_protocols_response(accept.as_str())
        },
        ReqKind::Nip11 => nip11_response(nip11_json),
        ReqKind::Options => preflight_response(),
        ReqKind::Other => landing_response(),
    }
}

/// After answering, the connection is handed to the relay only for an upgrade.
pub fn hands_over_to_relay(kind: &ReqKind) -> (b: bool)
    ensures
        b == (kind@ is WebSocket),
{
    match kind {
        ReqKind::WebSocket(_) => true,
        _ => false,
    }
}

// ---------------------------------------------------------------------------
// Laws of classification
// ---------------------------------------------------------------------------

/// A WebSocket upgrade that carries a key is classified as such, whatever the
/// method and whatever `Accept` says.
pub proof fn lemma_upgrade_wins(h: Seq<char>)
    requires
        is_upgrade(h),
        header(h, "sec-websocket-key"@) is Some,
    ensures
        classify_spec(h) == RequestClass::WebSocket(header(h, "sec-websocket-key"@).unwrap()),
{
}

proof fn lemma_eq_ignore_case_same_name(k: Seq<char>, n1: Seq<char>, n2: Seq<char>)
    requires
        eq_ignore_ascii_case(n1, n2),
    ensures
        eq_ignore_ascii_case(k, n1) == eq_ignore_ascii_case(k, n2),
{
    if eq_ignore_ascii_case(k, n1) {
        assert forall|i: int| 0 <= i < k.len() implies ascii_lower(#[trigger] k[i]) == ascii_lower(
            n2[i],
        ) by {
            assert(ascii_lower(k[i]) == ascii_lower(n1[i]));
            assert(ascii_lower(n1[i]) == ascii_lower(n2[i]));
        }
    }
    if eq_ignore_ascii_case(k, n2) {
        assert forall|i: int| 0 <= i < k.len() implies ascii_lower(#[trigger] k[i]) == ascii_lower(
            n1[i],
        ) by {
            assert(ascii_lower(k[i]) == ascii_lower(n2[i]));
            assert(ascii_lower(n1[i]) == ascii_lower(n2[i]));
        }
    }
}

proof fn lemma_header_from_name_case(h: Seq<char>, n1: Seq<char>, n2: Seq<char>, p: int)
    requires
        eq_ignore_ascii_case(n1, n2),
    ensures
        header_from(h, n1, p) == header_from(h, n2, p),
    decreases h.len() - p,
{
    if 0 <= p <= h.len() {
        let line = h.subrange(p, line_end(h, p));
        if let Some((k, _)) = split_colon(line) {
            lemma_eq_ignore_case_same_name(trim(k), n1, n2);
        }
        lemma_next_crlf(h, p);
        if let Some(e) = next_crlf(h, p) {
            lemma_header_from_name_case(h, n1, n2, e + 2);
        }
    }
}

/// Header names are matched ignoring ASCII case: two names that differ only
/// in case find the same value.
pub proof fn lemma_header_name_ignores_case(h: Seq<char>, n1: Seq<char>, n2: Seq<char>)
    requires
        eq_ignore_ascii_case(n1, n2),
    ensures
        header(h, n1) == header(h, n2),
{
    if let Some(e) = next_crlf(h, 0) {
        lemma_header_from_name_case(h, n1, n2, e + 2);
    }
}

// ---------------------------------------------------------------------------
// Laws of classification by request contents
// ---------------------------------------------------------------------------

/// `s` begins with `t`.
pub open spec fn starts_with(s: Seq<char>, t: Seq<char>) -> bool {
    t.len() <= s.len() && s.subrange(0, t.len() as int) == t
}

/// `s` ends with `t`.
pub open spec fn ends_with(s: Seq<char>, t: Seq<char>) -> bool {
    t.len() <= s.len() && s.subrange(s.len() - t.len(), s.len() as int) == t
}

/// The head's `Accept` value contains `application/nostr+json` at some
/// position, ignoring ASCII case.
pub open spec fn accept_value_names_nip11(h: Seq<char>) -> bool {
    header(h, "accept"@) matches Some(v) && exists|i: int|
        matches_ci_at(v, "application/nostr+json"@, i)
}

/// The head carries an upgrade together with a key.
pub open spec fn upgrade_with_key(h: Seq<char>) -> bool {
    is_upgrade(h) && header(h, "sec-websocket-key"@) is Some
}

proof fn lemma_method_words(m: Seq<char>)
    ensures
        upper_equals(m, "GET"@) ==> !upper_equals(m, "OPTIONS"@),
        upper_equals(m, "HEAD"@) ==> !upper_equals(m, "OPTIONS"@),
{
    reveal_strlit("GET");
    reveal_strlit("HEAD");
    reveal_strlit("OPTIONS");
}

/// A `GET` or `HEAD` request (method compared ignoring ASCII case) without a
/// keyed upgrade, whose `Accept` value contains `application/nostr+json`
/// anywhere in it (ignoring ASCII case, e.g. among other media types), asks
/// for the NIP-11 document.
pub proof fn lemma_accept_anywhere_is_nip11(h: Seq<char>, v: Seq<char>, i: int)
    requires
        !upgrade_with_key(h),
        upper_equals(request_method(h), "GET"@) || upper_equals(request_method(h), "HEAD"@),
        header(h, "accept"@) == Some(v),
        0 <= i,
        i + ("application/nostr+json"@).len() <= v.len(),
        forall|j: int|
            0 <= j < ("application/nostr+json"@).len() ==> ascii_lower(#[trigger] v[i + j])
                == ascii_lower(("application/nostr+json"@)[j]),
    ensures
        classify_spec(h) == RequestClass::Nip11,
{
    lemma_method_words(request_method(h));
    assert(matches_ci_at(v, "application/nostr+json"@, i));
}

/// A request is classified as a NIP-11 request only when it is a `GET` or
/// `HEAD` without a keyed upgrade whose `Accept` value contains
/// `application/nostr+json` somewhere, ignoring ASCII case.
pub proof fn lemma_nip11_only_when_asked(h: Seq<char>)
    requires
        classify_spec(h) == RequestClass::Nip11,
    ensures
        !upgrade_with_key(h),
        upper_equals(request_method(h), "GET"@) || upper_equals(request_method(h), "HEAD"@),
        accept_value_names_nip11(h),
{
}

/// An `OPTIONS` request (method compared ignoring ASCII case) without a keyed
/// upgrade is a preflight, whatever else it carries.
pub proof fn lemma_options_is_preflight(h: Seq<char>)
    requires
        !upgrade_with_key(h),
        upper_equals(request_method(h), "OPTIONS"@),
    ensures
        classify_spec(h) == RequestClass::Options,
{
}

/// A request with a keyed upgrade is a WebSocket upgrade carrying exactly the
/// (trimmed) value of its `Sec-WebSocket-Key` header; no other request is.
pub proof fn lemma_websocket_carries_key(h: Seq<char>)
    ensures
        upgrade_with_key(h) <==> classify_spec(h) is WebSocket,
        classify_spec(h) matches RequestClass::WebSocket(k) ==> header(h, "sec-websocket-key"@)
            == Some(k),
{
}

/// Anything that is neither a keyed upgrade, nor `OPTIONS`, nor a `GET` /
/// `HEAD` accepting `application/nostr+json` gets the landing page.
pub proof fn lemma_other_requests(h: Seq<char>)
    requires
        !upgrade_with_key(h),
        !upper_equals(request_method(h), "OPTIONS"@),
        !((upper_equals(request_method(h), "GET"@) || upper_equals(request_method(h), "HEAD"@))
            && accept_value_names_nip11(h)),
    ensures
        classify_spec(h) == RequestClass::Other,
{
}

// ---------------------------------------------------------------------------
// Laws of the answers
// ---------------------------------------------------------------------------

/// The NIP-11 answer is a `200` with the `application/nostr+json` content
/// type that ends with the given document text, right after a
/// `Content-Length` line giving that text's length in bytes (a canonical
/// decimal) and the blank line; for every document text.
pub proof fn lemma_nip11_answer_carries_document(json: Seq<char>)
    ensures
        starts_with(
            response_spec(RequestClass::Nip11, json),
            "HTTP/1.1 200 OK\r\nContent-Type: application/nostr+json\r\n"@,
        ),
        ends_with(response_spec(RequestClass::Nip11, json), json),
        ends_with(
            response_spec(RequestClass::Nip11, json).subrange(
                0,
                response_spec(RequestClass::Nip11, json).len() - json.len(),
            ),
            "Content-Length: "@ + decimal(byte_len(json)) + "\r\nConnection: close\r\n\r\n"@,
        ),
        decimal_value(decimal(byte_len(json))) == byte_len(json),
{
    let a = "HTTP/1.1 200 OK\r\nContent-Type: application/nostr+json\r\nAccess-Control-Allow-Origin: *\r\nAccess-Control-Allow-Headers: *\r\nAccess-Control-Allow-Methods: GET, OPTIONS\r\nContent-Length: "@;
    let p = "HTTP/1.1 200 OK\r\nContent-Type: application/nostr+json\r\n"@;
    let a0 = "HTTP/1.1 200 OK\r\nContent-Type: application/nostr+json\r\nAccess-Control-Allow-Origin: *\r\nAccess-Control-Allow-Headers: *\r\nAccess-Control-Allow-Methods: GET, OPTIONS\r\n"@;
    let c = "Content-Length: "@;
    let d = decimal(byte_len(json));
    let e = "\r\nConnection: close\r\n\r\n"@;
    let r = response_spec(RequestClass::Nip11, json);
    reveal_strlit(
        "HTTP/1.1 200 OK\r\nContent-Type: application/nostr+json\r\nAccess-Control-Allow-Origin: *\r\nAccess-Control-Allow-Headers: *\r\nAccess-Control-Allow-Methods: GET, OPTIONS\r\nContent-Length: ",
    );
    reveal_strlit(
        "HTTP/1.1 200 OK\r\nContent-Type: application/nostr+json\r\nAccess-Control-Allow-Origin: *\r\nAccess-Control-Allow-Headers: *\r\nAccess-Control-Allow-Methods: GET, OPTIONS\r\n",
    );
    reveal_strlit("HTTP/1.1 200 OK\r\nContent-Type: application/nostr+json\r\n");
    reveal_strlit("Content-Length: ");
    assert(a == a0 + c);
    assert(r == a + d + e + json);
    assert(r.subrange(0, p.len() as int) == p);
    assert(r.subrange(r.len() - json.len(), r.len() as int) == json);
    let head = r.subrange(0, r.len() - json.len());
    assert(head == a0 + (c + d + e));
    assert(head.subrange(head.len() - (c + d + e).len(), head.len() as int) == c + d + e);
    lemma_decimal(byte_len(json));
}

/// The answer to a keyed upgrade is a `101 Switching Protocols` that ends
/// with the accept key derived from the request's key and the blank line.
pub proof fn lemma_handshake_answer(key: Seq<char>)
    ensures
        starts_with(
            response_spec(RequestClass::WebSocket(key), Seq::empty()),
            "HTTP/1.1 101 Switching Protocols\r\n"@,
        ),
        ends_with(
            response_spec(RequestClass::WebSocket(key), Seq::empty()),
            "Sec-WebSocket-Accept: "@ + accept_key(encode_utf8(key)) + "\r\n\r\n"@,
        ),
{
    let a0 = "HTTP/1.1 101 Switching Protocols\r\nUpgrade: websocket\r\nConnection: Upgrade\r\n"@;
    let a = "HTTP/1.1 101 Switching Protocols\r\nUpgrade: websocket\r\nConnection: Upgrade\r\nSec-WebSocket-Accept: "@;
    let s = "Sec-WebSocket-Accept: "@;
    let p = "HTTP/1.1 101 Switching Protocols\r\n"@;
    let tail = s + accept_key(encode_utf8(key)) + "\r\n\r\n"@;
    reveal_strlit("HTTP/1.1 101 Switching Protocols\r\nUpgrade: websocket\r\nConnection: Upgrade\r\n");
    reveal_strlit(
        "HTTP/1.1 101 Switching Protocols\r\nUpgrade: websocket\r\nConnection: Upgrade\r\nSec-WebSocket-Accept: ",
    );
    reveal_strlit("Sec-WebSocket-Accept: ");
    reveal_strlit("HTTP/1.1 101 Switching Protocols\r\n");
    let r = response_spec(RequestClass::WebSocket(key), Seq::empty());
    assert(a == a0 + s);
    assert(r == a0 + tail);
    assert(r.subrange(0, p.len() as int) == p);
    assert(r.subrange(r.len() - tail.len(), r.len() as int) == tail);
}

/// A request whose `Upgrade` value contains `websocket` and whose
/// `Connection` value contains `upgrade` (each anywhere in the value,
/// ignoring ASCII case), and which carries a `Sec-WebSocket-Key`, is a
/// WebSocket upgrade carrying that key, whatever its method and `Accept`.
pub proof fn lemma_upgrade_tokens_anywhere(
    h: Seq<char>,
    u: Seq<char>,
    i: int,
    c: Seq<char>,
    j: int,
    key: Seq<char>,
)
    requires
        header(h, "upgrade"@) == Some(u),
        matches_ci_at(u, "websocket"@, i),
        header(h, "connection"@) == Some(c),
        matches_ci_at(c, "upgrade"@, j),
        header(h, "sec-websocket-key"@) == Some(key),
    ensures
        classify_spec(h) == RequestClass::WebSocket(key),
{
}

/// The first blank line found is one, and none starts earlier.
pub proof fn lemma_blank_line_first(b: Seq<u8>, from: int)
    requires
        0 <= from,
    ensures
        blank_line_from(b, from) matches Some(i) ==> from <= i && is_blank_line_at(b, i) && forall|
            k: int,
        | from <= k < i ==> !is_blank_line_at(b, k),
        blank_line_from(b, from) is None ==> forall|k: int| from <= k ==> !is_blank_line_at(b, k),
    decreases b.len() - from,
{
    if from + 4 > b.len() {
    } else if is_blank_line_at(b, from) {
    } else {
        lemma_blank_line_first(b, from + 1);
    }
}

/// A complete head ends with its first `"\r\n\r\n"`: the reported length
/// covers the bytes up to and including the first blank line, and no blank
/// line starts earlier. Without a blank line, an empty peek means the peer
/// closed, a full buffer is too large, and anything else waits for more.
pub proof fn lemma_head_scan(peeked: Seq<u8>, cap: int)
    requires
        peeked.len() <= usize::MAX,
    ensures
        head_scan_spec(peeked, cap) matches HeadScan::Complete(n) ==> {
            &&& 4 <= n <= peeked.len()
            &&& peeked[n - 4] == 13 && peeked[n - 3] == 10 && peeked[n - 2] == 13 && peeked[n - 1]
                == 10
            &&& forall|k: int| 0 <= k < n - 4 ==> !is_blank_line_at(peeked, k)
        },
        (forall|k: int| 0 <= k ==> !is_blank_line_at(peeked, k)) ==> head_scan_spec(peeked, cap)
            == if peeked.len() == 0 {
            HeadScan::Closed
        } else if peeked.len() >= cap {
            HeadScan::TooLarge
        } else {
            HeadScan::Incomplete
        },
{
    lemma_blank_line_first(peeked, 0);
    if let Some(i) = blank_line_from(peeked, 0) {
        assert(i + 4 <= peeked.len());
        assert(((i + 4) as usize) as int == i + 4);
    }
}

// ---------------------------------------------------------------------------
// Laws of header lookup on well-formed heads
// ---------------------------------------------------------------------------

/// The line separator `"\r\n"`.
pub open spec fn crlf() -> Seq<char> {
    seq!['\r', '\n']
}

/// `s` contains no `"\r\n"`.
pub open spec fn has_no_crlf(s: Seq<char>) -> bool {
    forall|i: int| !#[trigger] is_crlf_at(s, i)
}

proof fn lemma_next_crlf_at(h: Seq<char>, from: int, e: int)
    requires
        0 <= from <= e,
        is_crlf_at(h, e),
        forall|k: int| from <= k < e ==> !#[trigger] is_crlf_at(h, k),
    ensures
        next_crlf(h, from) == Some(e),
    decreases e - from,
{
    if from < e {
        lemma_next_crlf_at(h, from + 1, e);
    }
}

proof fn lemma_index_of_at(s: Seq<char>, c: char, from: int, k: int)
    requires
        0 <= from <= k < s.len(),
        s[k] == c,
        forall|j: int| from <= j < k ==> s[j] != c,
    ensures
        index_of_from(s, c, from) == Some(k),
    decreases k - from,
{
    if from < k {
        lemma_index_of_at(s, c, from + 1, k);
    }
}

proof fn lemma_next_crlf_shift(pre: Seq<char>, s: Seq<char>, q: int)
    requires
        0 <= q,
    ensures
        next_crlf(pre + s, pre.len() + q) == match next_crlf(s, q) {
            Some(e) => Some(pre.len() + e),
            None => None,
        },
    decreases s.len() - q,
{
    let h = pre + s;
    if q + 1 >= s.len() {
    } else {
        assert(h[pre.len() + q] == s[q]);
        assert(h[pre.len() + q + 1] == s[q + 1]);
        if !is_crlf_at(s, q) {
            lemma_next_crlf_shift(pre, s, q + 1);
        }
    }
}

proof fn lemma_header_from_shift(pre: Seq<char>, s: Seq<char>, name: Seq<char>, q: int)
    requires
        0 <= q,
    ensures
        header_from(pre + s, name, pre.len() + q) == header_from(s, name, q),
    decreases s.len() - q,
{
    let h = pre + s;
    let p = pre.len() + q;
    if q <= s.len() {
        lemma_next_crlf_shift(pre, s, q);
        lemma_next_crlf(s, q);
        assert(line_end(h, p) == pre.len() + line_end(s, q));
        assert(h.subrange(p, line_end(h, p)) == s.subrange(q, line_end(s, q)));
        if let Some(e) = next_crlf(s, q) {
            lemma_header_from_shift(pre, s, name, e + 2);
        }
    }
}

/// On a head made of a request line, a first header line `k:v` and the rest
/// (lines separated by `"\r\n"`, `k` without a colon), looking up `name`
/// gives the trimmed `v` when the trimmed `k` equals `name` ignoring ASCII
/// case; otherwise the result is the same as on the head without that line.
/// Header lookup is therefore "the trimmed value of the first line whose
/// trimmed key matches".
pub proof fn lemma_header_first_line(
    rl: Seq<char>,
    k: Seq<char>,
    v: Seq<char>,
    rest: Seq<char>,
    name: Seq<char>,
)
    requires
        has_no_crlf(rl),
        has_no_crlf(k),
        has_no_crlf(v),
        forall|j: int| 0 <= j < k.len() ==> k[j] != ':',
    ensures
        header(rl + crlf() + k + seq![':'] + v + crlf() + rest, name) == if eq_ignore_ascii_case(
            trim(k),
            name,
        ) {
            Some(trim(v))
        } else {
            header(rl + crlf() + rest, name)
        },
{
    let line = k + seq![':'] + v;
    let pre1 = rl + crlf() + line + crlf();
    let h1 = pre1 + rest;
    assert(h1 == rl + crlf() + k + seq![':'] + v + crlf() + rest);
    let pre2 = rl + crlf();
    let h2 = pre2 + rest;
    let p: int = rl.len() as int + 2;
    // The request line ends at the first separator.
    assert forall|i: int| 0 <= i < rl.len() implies !#[trigger] is_crlf_at(h1, i) by {
        if i + 1 < rl.len() {
            assert(!is_crlf_at(rl, i));
        } else {
            assert(h1[i + 1] == '\r');
        }
    }
    assert(is_crlf_at(h1, rl.len() as int));
    lemma_next_crlf_at(h1, 0, rl.len() as int);
    // The header line ends at the next one.
    assert forall|i: int| p <= i < p + line.len() implies !#[trigger] is_crlf_at(h1, i) by {
        let o = i - p;
        assert(h1[i] == line[o]);
        if o + 1 < line.len() {
            assert(h1[i + 1] == line[o + 1]);
            if o + 1 < k.len() {
                assert(!is_crlf_at(k, o));
            } else if o + 1 == k.len() {
                assert(line[o + 1] == ':');
            } else if o == k.len() {
                assert(line[o] == ':');
            } else {
                assert(line[o] == v[o - k.len() - 1]);
                assert(line[o + 1] == v[o - k.len()]);
                assert(!is_crlf_at(v, o - k.len() - 1));
            }
        } else {
            assert(h1[i + 1] == '\r');
        }
    }
    assert(is_crlf_at(h1, p + line.len()));
    lemma_next_crlf_at(h1, p, p + line.len());
    assert(line_end(h1, p) == p + line.len());
    assert(h1.subrange(p, p + line.len()) == line);
    lemma_index_of_at(line, ':', 0, k.len() as int);
    assert(line.subrange(0, k.len() as int) == k);
    assert(line.subrange(k.len() + 1int, line.len() as int) == v);
    // Past that line, the search goes on in `rest`, as it does on `h2`.
    lemma_header_from_shift(pre1, rest, name, 0);
    assert(pre1.len() == p + line.len() + 2);
    assert forall|i: int| 0 <= i < rl.len() implies !#[trigger] is_crlf_at(h2, i) by {
        if i + 1 < rl.len() {
            assert(!is_crlf_at(rl, i));
        } else {
            assert(h2[i + 1] == '\r');
        }
    }
    assert(is_crlf_at(h2, rl.len() as int));
    lemma_next_crlf_at(h2, 0, rl.len() as int);
    lemma_header_from_shift(pre2, rest, name, 0);
}

/// The method is the text before the first space of the request line: for a
/// head that starts with a word `m` (no space, no carriage return) followed
/// by a space, the method is `m`.
pub proof fn lemma_request_method_word(m: Seq<char>, r: Seq<char>)
    requires
        forall|j: int| 0 <= j < m.len() ==> m[j] != ' ' && m[j] != '\r',
    ensures
        request_method(m + seq![' '] + r) == m,
{
    let h = m + seq![' '] + r;
    lemma_next_crlf(h, 0);
    assert(h[m.len() as int] == ' ');
    assert forall|i: int| 0 <= i <= m.len() implies !#[trigger] is_crlf_at(h, i) by {
        if i < m.len() {
            assert(h[i] == m[i]);
        }
    }
    let e = line_end(h, 0);
    assert(e > m.len());
    let rl = request_line(h);
    assert(rl == h.subrange(0, e));
    assert forall|j: int| 0 <= j < m.len() implies rl[j] != ' ' by {
        assert(rl[j] == m[j]);
    }
    assert(rl[m.len() as int] == ' ');
    lemma_index_of_at(rl, ' ', 0, m.len() as int);
    assert(rl.subrange(0, m.len() as int) == m);
}

} // verus!
