//! NIP-11 Relay Information Document, built from our own config, and its JSON
//! body (serialized through rust-nostr's `RelayInformationDocument`).
use vstd::prelude::*;

use nostr::nips::nip11::RelayInformationDocument;

use crate::config::{Config, ConfigView};
use crate::text::{
    chars_of, is_whitespace, lemma_trim_bounds, lemma_trim_empty_iff_blank, string_from_range, trim,
    trim_range,
};

verus! {

broadcast use vstd::string::group_string_axioms;

/// Software identifier advertised in the NIP-11 document.
pub const SOFTWARE: &'static str = "https://github.com/spr-networks/spr-nostr";

/// Software version advertised in the NIP-11 document.
pub const VERSION: &'static str = "v0.1.0";

/// The relay information document this relay serves.
#[derive(Debug, Clone, PartialEq, Eq)]
pub struct RelayInfo {
    pub name: Option<String>,
    pub description: Option<String>,
    pub pubkey: Option<String>,
    pub contact: Option<String>,
    pub supported_nips: Option<Vec<u16>>,
    pub software: Option<String>,
    pub version: Option<String>,
}

/// The mathematical counterpart of [`RelayInfo`].
pub struct RelayInfoView {
    pub name: Option<Seq<char>>,
    pub description: Option<Seq<char>>,
    pub pubkey: Option<Seq<char>>,
    pub contact: Option<Seq<char>>,
    pub supported_nips: Option<Seq<u16>>,
    pub software: Option<Seq<char>>,
    pub version: Option<Seq<char>>,
}

impl View for RelayInfo {
    type V = RelayInfoView;

    open spec fn view(&self) -> RelayInfoView {
        RelayInfoView {
            name: self.name.deep_view(),
            description: self.description.deep_view(),
            pubkey: self.pubkey.deep_view(),
            contact: self.contact.deep_view(),
            supported_nips: self.supported_nips.deep_view(),
            software: self.software.deep_view(),
            version: self.version.deep_view(),
        }
    }
}

/// The NIPs this relay implements: 1 (basic protocol), 9 (deletion),
/// 11 (this document), 45 (COUNT) and 77 (negentropy), plus 42 (client
/// authentication) exactly when it is required; in ascending order.
pub open spec fn supported_nips_spec(require_auth: bool) -> Seq<u16> {
    if require_auth {
        seq![1u16, 9u16, 11u16, 42u16, 45u16, 77u16]
    } else {
        seq![1u16, 9u16, 11u16, 45u16, 77u16]
    }
}

/// A text field as the document carries it: trimmed, and absent when blank.
pub open spec fn non_empty_spec(s: Seq<char>) -> Option<Seq<char>> {
    if trim(s).len() == 0 {
        None
    } else {
        Some(trim(s))
    }
}

/// The document for a configuration.
pub open spec fn relay_info_spec(c: ConfigView) -> RelayInfoView {
    RelayInfoView {
        name: non_empty_spec(c.relay_name),
        description: non_empty_spec(c.relay_description),
        pubkey: non_empty_spec(c.relay_pubkey),
        contact: non_empty_spec(c.relay_contact),
        supported_nips: Some(supported_nips_spec(c.require_auth)),
        software: Some(SOFTWARE@),
        version: Some(VERSION@),
    }
}

/// The NIPs advertised for `cfg`.
pub fn supported_nips(cfg: &Config) -> (nips: Vec<u16>)
    ensures
        nips@ == supported_nips_spec(cfg.require_auth),
{
    let mut nips: Vec<u16> = Vec::new();
    nips.push(1);
    nips.push(9);
    nips.push(11);
    if cfg.require_auth {
        nips.push(42);
    }
    nips.push(45);
    nips.push(77);
    nips
}

/// `s` trimmed, or `None` when nothing but whitespace is left.
pub fn non_empty(s: &str) -> (r: Option<String>)
    ensures
        r.deep_view() == non_empty_spec(s@),
{
    let cs = chars_of(s);
    let (a, b) = trim_range(&cs, 0, cs.len());
    assert(cs@.subrange(0, cs@.len() as int) == s@);
    if a == b {
        None
    } else {
        Some(string_from_range(&cs, a, b))
    }
}

/// Build the NIP-11 document from config. Unset text fields are left as `None`.
pub fn build_relay_info(cfg: &Config) -> (doc: RelayInfo)
    ensures
        doc@ == relay_info_spec(cfg@),
{
    let nips = supported_nips(cfg);
    assert(nips.deep_view() == nips@);
    let software = SOFTWARE.to_owned();
    let version = VERSION.to_owned();
    assert(software@ == SOFTWARE@);
    RelayInfo {
        name: non_empty(cfg.relay_name.as_str()),
        description: non_empty(cfg.relay_description.as_str()),
        pubkey: non_empty(cfg.relay_pubkey.as_str()),
        contact: non_empty(cfg.relay_contact.as_str()),
        supported_nips: Some(nips),
        software: Some(software),
        version: Some(version),
    }
}

/// `serde_json::Error`, carried opaquely as the failure of serialization.
#[verifier::external_type_specification]
#[verifier::external_body]
pub struct ExJsonError(serde_json::Error);

/// The JSON text of a relay information document.
pub uninterp spec fn relay_info_json(info: RelayInfoView) -> Seq<char>;

/// `serde_json::to_string` on the `nostr::nips::nip11::RelayInformationDocument`
/// that carries these fields (all others unset). Claimed: it succeeds, and the
/// text is the named JSON of the document. `to_string` fails only when a
/// `Serialize` impl fails or a map has non-string keys; the document derives
/// `Serialize` over strings, integers, sequences and unset options, writing
/// into a `Vec`, so neither can happen.
#[verifier::external_body]
fn serialize_relay_info(info: &RelayInfo) -> (r: Result<String, serde_json::Error>)
    ensures
        r is Ok,
        r matches Ok(s) ==> s@ == relay_info_json(info@),
{
    let mut doc = RelayInformationDocument::new();
    doc.name = info.name.clone();
    doc.description = info.description.clone();
    doc.pubkey = info.pubkey.clone();
    doc.contact = info.contact.clone();
    doc.supported_nips = info.supported_nips.clone();
    doc.software = info.software.clone();
    doc.version = info.version.clone();
    serde_json::to_string(&doc)
}

/// The body served for a serialization outcome: the JSON text, or `{}` when
/// serialization failed.
pub fn json_or_empty(r: Result<String, serde_json::Error>) -> (body: String)
    ensures
        r matches Ok(s) ==> body == s,
        r is Err ==> body@ == "{}"@,
{
    match r {
        Ok(s) => s,
        Err(_) => "{}".to_owned(),
    }
}

/// Serialize the NIP-11 document to the JSON body clients receive.
pub fn build_relay_info_json(cfg: &Config) -> (body: String)
    ensures
        body@ == relay_info_json(relay_info_spec(cfg@)),
{
    let doc = build_relay_info(cfg);
    json_or_empty(serialize_relay_info(&doc))
}

/// NIP-42 is advertised exactly when authentication is required; the core
/// NIPs always are; the list is strictly ascending.
pub proof fn lemma_supported_nips(require_auth: bool)
    ensures
        supported_nips_spec(require_auth).contains(42u16) <==> require_auth,
        supported_nips_spec(require_auth).contains(1u16),
        supported_nips_spec(require_auth).contains(9u16),
        supported_nips_spec(require_auth).contains(11u16),
        supported_nips_spec(require_auth).contains(45u16),
        supported_nips_spec(require_auth).contains(77u16),
        forall|i: int, j: int|
            0 <= i < j < supported_nips_spec(require_auth).len() ==> supported_nips_spec(
                require_auth,
            )[i] < supported_nips_spec(require_auth)[j],
{
    let s = supported_nips_spec(require_auth);
    if require_auth {
        assert(s[3] == 42u16);
        assert(s[0] == 1u16 && s[1] == 9u16 && s[2] == 11u16 && s[4] == 45u16 && s[5] == 77u16);
    } else {
        assert(s[0] == 1u16 && s[1] == 9u16 && s[2] == 11u16 && s[3] == 45u16 && s[4] == 77u16);
        assert(!s.contains(42u16));
    }
}

proof fn lemma_non_empty_text(s: Seq<char>)
    ensures
        non_empty_spec(s) is Some <==> exists|k: int|
            0 <= k < s.len() && !is_whitespace(#[trigger] s[k]),
        non_empty_spec(s) matches Some(d) ==> d == trim(s) && d.len() > 0 && !is_whitespace(d[0])
            && !is_whitespace(d.last()),
{
    lemma_trim_empty_iff_blank(s);
    let (a, b) = lemma_trim_bounds(s);
    if a < b {
        assert(trim(s)[0] == s[a]);
        assert(trim(s).last() == s[b - 1]);
    }
}

/// The document carries each configured text (name, description, owner
/// public key, contact) exactly when it holds a non-whitespace character, and
/// then carries it trimmed: without surrounding whitespace, starting and
/// ending with a non-whitespace character.
pub proof fn lemma_document_texts(c: ConfigView)
    ensures
        relay_info_spec(c).name is Some <==> exists|k: int|
            0 <= k < c.relay_name.len() && !is_whitespace(#[trigger] c.relay_name[k]),
        relay_info_spec(c).name matches Some(d) ==> d == trim(c.relay_name) && d.len() > 0,
        relay_info_spec(c).description is Some <==> exists|k: int|
            0 <= k < c.relay_description.len() && !is_whitespace(
                #[trigger] c.relay_description[k],
            ),
        relay_info_spec(c).description matches Some(d) ==> d == trim(c.relay_description) && d.len()
            > 0,
        relay_info_spec(c).pubkey is Some <==> exists|k: int|
            0 <= k < c.relay_pubkey.len() && !is_whitespace(#[trigger] c.relay_pubkey[k]),
        relay_info_spec(c).pubkey matches Some(d) ==> d == trim(c.relay_pubkey) && d.len() > 0,
        relay_info_spec(c).contact is Some <==> exists|k: int|
            0 <= k < c.relay_contact.len() && !is_whitespace(#[trigger] c.relay_contact[k]),
        relay_info_spec(c).contact matches Some(d) ==> d == trim(c.relay_contact) && d.len() > 0,
{
    lemma_non_empty_text(c.relay_name);
    lemma_non_empty_text(c.relay_description);
    lemma_non_empty_text(c.relay_pubkey);
    lemma_non_empty_text(c.relay_contact);
}

/// The advertised NIPs are exactly 1, 9, 11, 45 and 77, with 42 in addition
/// when authentication is required, and nothing else.
pub proof fn lemma_supported_nips_exactly(require_auth: bool)
    ensures
        supported_nips_spec(require_auth).len() == if require_auth { 6nat } else { 5nat },
        forall|i: int|
            0 <= i < supported_nips_spec(require_auth).len() ==> {
                let n = #[trigger] supported_nips_spec(require_auth)[i];
                n == 1 || n == 9 || n == 11 || n == 45 || n == 77 || (require_auth && n == 42)
            },
{
}

} // verus!
