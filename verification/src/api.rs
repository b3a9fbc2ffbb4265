//! The values the management API answers with: the copyable relay address,
//! the status report, and the host shown in the address.
use vstd::prelude::*;

use crate::config::{Config, Mode};
use crate::nip11::VERSION;
use crate::supervisor::Snapshot;
use crate::text::{decimal, push_decimal};

verus! {

broadcast use vstd::string::group_string_axioms;

/// The relay engine reported by `/status`.
pub const ENGINE: &'static str = "nostr-relay-builder 0.44.1";

/// `ws://{host}:{port}`.
pub open spec fn relay_url_spec(host: Seq<char>, port: u16) -> Seq<char> {
    "ws://"@ + host + ":"@ + decimal(port as nat)
}

/// The copyable relay address.
pub fn relay_url(host: &str, port: u16) -> (url: String)
    ensures
        url@ == relay_url_spec(host@, port),
{
    let mut url = String::new();
    url.append("ws://");
    url.append(host);
    url.append(":");
    push_decimal(&mut url, port as u64);
    url
}

/// The answer of `GET /address`.
#[derive(Debug, Clone, PartialEq, Eq)]
pub struct AddressResp {
    pub address: String,
    pub host: String,
    pub port: u16,
}

/// The answer of `GET /status`.
#[derive(Debug, Clone, PartialEq, Eq)]
pub struct StatusResp {
    pub running: bool,
    pub address: String,
    pub host: String,
    pub port: u16,
    pub mode: Mode,
    pub require_auth: bool,
    pub version: String,
    pub engine: String,
    /// The NIP-11 document is served from the relay port, so this is true.
    pub nip11_supported: bool,
    pub uptime_seconds: u64,
    pub db_bytes: u64,
}

/// The address answer for the configured port and the displayed host.
pub fn build_address(cfg: &Config, host: &str) -> (r: AddressResp)
    ensures
        r.address@ == relay_url_spec(host@, cfg.port),
        r.host@ == host@,
        r.port == cfg.port,
{
    AddressResp { address: relay_url(host, cfg.port), host: host.to_owned(), port: cfg.port }
}

/// The status answer: configuration, relay state and store size.
pub fn build_status(cfg: &Config, host: &str, snap: Snapshot, db_bytes: u64) -> (r: StatusResp)
    ensures
        r.running == snap.running,
        r.address@ == relay_url_spec(host@, cfg.port),
        r.host@ == host@,
        r.port == cfg.port,
        r.mode == cfg.mode,
        r.require_auth == cfg.require_auth,
        r.version@ == VERSION@,
        r.engine@ == ENGINE@,
        r.nip11_supported,
        r.uptime_seconds == snap.uptime_seconds,
        r.db_bytes == db_bytes,
{
    StatusResp {
        running: snap.running,
        address: relay_url(host, cfg.port),
        host: host.to_owned(),
        port: cfg.port,
        mode: cfg.mode,
        require_auth: cfg.require_auth,
        version: VERSION.to_owned(),
        engine: ENGINE.to_owned(),
        nip11_supported: true,
        uptime_seconds: snap.uptime_seconds,
        db_bytes,
    }
}

/// The host shown in the copyable address (never the unspecified address):
/// the discovered container IP, else the bind IP unless it is unspecified,
/// else the loopback address.
pub open spec fn display_host_spec(
    discovered: Option<Seq<char>>,
    bind_ip: Seq<char>,
    bind_unspecified: bool,
) -> Seq<char> {
    match discovered {
        Some(ip) => ip,
        None => if !bind_unspecified {
            bind_ip
        } else {
            "127.0.0.1"@
        },
    }
}

/// Choose the host shown in the copyable address.
pub fn display_host(discovered: Option<&str>, bind_ip: &str, bind_unspecified: bool) -> (host:
    String)
    ensures
        host@ == display_host_spec(
            match discovered {
                Some(d) => Some(d@),
                None => None,
            },
            bind_ip@,
            bind_unspecified,
        ),
{
    match discovered {
        Some(ip) => ip.to_owned(),
        None => if !bind_unspecified {
            bind_ip.to_owned()
        } else {
            "127.0.0.1".to_owned()
        },
    }
}

/// What the last step of applying a new configuration (`PUT /config`) came to.
pub enum PutConfigEvent {
    /// The new configuration was validated.
    Validated(Result<(), String>),
    /// Persisting it was tried.
    Saved(Result<(), String>),
    /// Rebuilding the relay from it was tried.
    Restarted(Result<(), String>),
}

/// What to do next when applying a new configuration.
#[derive(Debug, PartialEq, Eq)]
pub enum PutConfigAction {
    /// Persist the new configuration.
    Save,
    /// Make it the current configuration, then rebuild the relay from it.
    CommitAndRestart,
    /// Answer with the new configuration.
    Accept,
    /// Answer with this HTTP status and message, and change nothing more.
    Reject { status: u16, message: String },
}

/// The policy for `PUT /config`: validate, then persist, then apply. An
/// invalid configuration is refused with 400 before anything is written; a
/// failed save is answered with 500 and neither changes the current
/// configuration nor restarts the relay; a failed restart is answered with
/// 500 after the configuration was saved and applied.
pub fn put_config_step(event: PutConfigEvent) -> (action: PutConfigAction)
    ensures
        match event {
            PutConfigEvent::Validated(Ok(())) => action == PutConfigAction::Save,
            PutConfigEvent::Validated(Err(e)) => action matches PutConfigAction::Reject {
                status,
                message,
            } && status == 400 && message@ == e@,
            PutConfigEvent::Saved(Ok(())) => action == PutConfigAction::CommitAndRestart,
            PutConfigEvent::Saved(Err(e)) => action matches PutConfigAction::Reject {
                status,
                message,
            } && status == 500 && message@ == "saving config: "@ + e@,
            PutConfigEvent::Restarted(Ok(())) => action == PutConfigAction::Accept,
            PutConfigEvent::Restarted(Err(e)) => action matches PutConfigAction::Reject {
                status,
                message,
            } && status == 500 && message@ == "config saved but relay restart failed: "@ + e@,
        },
{
    match event {
        PutConfigEvent::Validated(Ok(())) => PutConfigAction::Save,
        PutConfigEvent::Validated(Err(e)) => PutConfigAction::Reject { status: 400, message: e },
        PutConfigEvent::Saved(Ok(())) => PutConfigAction::CommitAndRestart,
        PutConfigEvent::Saved(Err(e)) => {
            let mut message = String::new();
            message.append("saving config: ");
            message.append(e.as_str());
            PutConfigAction::Reject { status: 500, message }
        },
        PutConfigEvent::Restarted(Ok(())) => PutConfigAction::Accept,
        PutConfigEvent::Restarted(Err(e)) => {
            let mut message = String::new();
            message.append("config saved but relay restart failed: ");
            message.append(e.as_str());
            PutConfigAction::Reject { status: 500, message }
        },
    }
}

} // verus!
