//! Plugin configuration: the settings the relay is built from, their
//! defaults, and their validation. Reading and writing the JSON file is done
//! by the binary around this library.
use vstd::prelude::*;

verus! {

/// Default port the relay listens on (on the container IP of the spr-nostr
/// bridge). 7777 is a common default for standalone Nostr relays.
pub const DEFAULT_PORT: u16 = 7777;

/// Relay access mode.
///
///   * `Read`  — every incoming EVENT is rejected (read-only).
///   * `Write` — every incoming REQ is rejected (write-only).
///   * `Both`  — no restriction.
#[derive(Debug, Clone, Copy, PartialEq, Eq, Structural)]
pub enum Mode {
    Read,
    Write,
    Both,
}

impl Default for Mode {
    fn default() -> (m: Self)
        ensures
            m == Mode::Both,
    {
        Mode::Both
    }
}

/// Persisted plugin configuration.
#[derive(Debug, Clone, PartialEq, Eq)]
pub struct Config {
    /// TCP port the relay listens on (container IP, spr-nostr bridge).
    pub port: u16,
    /// Access mode (read / write / both).
    pub mode: Mode,
    /// Require NIP-42 client authentication (for both reads and writes).
    pub require_auth: bool,
    /// NIP-11 relay name (empty = omitted).
    pub relay_name: String,
    /// NIP-11 description (empty = omitted).
    pub relay_description: String,
    /// NIP-11 owner public key (empty = omitted).
    pub relay_pubkey: String,
    /// NIP-11 owner contact (empty = omitted).
    pub relay_contact: String,
}

/// The mathematical counterpart of [`Config`].
pub struct ConfigView {
    pub port: u16,
    pub mode: Mode,
    pub require_auth: bool,
    pub relay_name: Seq<char>,
    pub relay_description: Seq<char>,
    pub relay_pubkey: Seq<char>,
    pub relay_contact: Seq<char>,
}

impl View for Config {
    type V = ConfigView;

    open spec fn view(&self) -> ConfigView {
        ConfigView {
            port: self.port,
            mode: self.mode,
            require_auth: self.require_auth,
            relay_name: self.relay_name@,
            relay_description: self.relay_description@,
            relay_pubkey: self.relay_pubkey@,
            relay_contact: self.relay_contact@,
        }
    }
}

/// The configuration used when none has been saved: port 7777, both
/// directions, no authentication, and no NIP-11 text.
pub open spec fn default_config() -> ConfigView {
    ConfigView {
        port: DEFAULT_PORT,
        mode: Mode::Both,
        require_auth: false,
        relay_name: Seq::empty(),
        relay_description: Seq::empty(),
        relay_pubkey: Seq::empty(),
        relay_contact: Seq::empty(),
    }
}

/// A configuration is valid when its port is in `1..=65535`.
pub open spec fn is_valid(c: ConfigView) -> bool {
    c.port >= 1
}

/// The message a configuration with port 0 is refused with.
pub open spec fn port_range_message() -> Seq<char> {
    "Port must be between 1 and 65535"@
}

impl Default for Config {
    fn default() -> (c: Self)
        ensures
            c@ == default_config(),
    {
        Config {
            port: DEFAULT_PORT,
            mode: Mode::Both,
            require_auth: false,
            relay_name: String::new(),
            relay_description: String::new(),
            relay_pubkey: String::new(),
            relay_contact: String::new(),
        }
    }
}

impl Config {
    /// Validate all user-controllable fields. `Mode` is a closed enum,
    /// `require_auth` is a bool and the NIP-11 texts are free-form, so only
    /// the port needs range checking.
    pub fn validate(&self) -> (r: Result<(), String>)
        ensures
            r is Ok <==> is_valid(self@),
            r matches Err(m) ==> m@ == port_range_message(),
    {
        if self.port < 1 {
            return Err("Port must be between 1 and 65535".to_owned());
        }
        Ok(())
    }
}

/// The default configuration passes validation.
pub proof fn lemma_default_is_valid()
    ensures
        is_valid(default_config()),
{
}

/// Validation refuses exactly port 0: every other port, with any mode,
/// authentication setting and texts, is accepted.
pub proof fn lemma_valid_iff_port_nonzero(c: ConfigView)
    ensures
        is_valid(c) <==> c.port != 0,
{
}

} // verus!
