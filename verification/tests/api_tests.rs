use spr_nostr::api::{
    build_address, build_status, display_host, put_config_step, relay_url, PutConfigAction,
    PutConfigEvent, ENGINE,
};
use spr_nostr::config::{Config, Mode};
use spr_nostr::nip11::VERSION;
use spr_nostr::supervisor::{
    relay_plan, restart_step, RelayState, RestartStep, Snapshot, RESTART_ATTEMPTS,
};

#[test]
fn relay_url_formats_host_and_port() {
    assert_eq!(relay_url("172.18.0.5", 7777), "ws://172.18.0.5:7777");
    assert_eq!(relay_url("h", 0), "ws://h:0");
    assert_eq!(relay_url("h", 65535), "ws://h:65535");
    assert_eq!(relay_url("h", 10), "ws://h:10");
}

#[test]
fn address_and_status_answers() {
    let mut cfg = Config::default();
    cfg.port = 8000;
    cfg.mode = Mode::Read;
    let a = build_address(&cfg, "10.0.0.2");
    assert_eq!(a.address, "ws://10.0.0.2:8000");
    assert_eq!(a.host, "10.0.0.2");
    assert_eq!(a.port, 8000);
    let s = build_status(&cfg, "10.0.0.2", Snapshot { running: true, uptime_seconds: 42 }, 1024);
    assert!(s.running);
    assert_eq!(s.address, "ws://10.0.0.2:8000");
    assert_eq!(s.mode, Mode::Read);
    assert!(!s.require_auth);
    assert_eq!(s.version, VERSION);
    assert_eq!(s.engine, ENGINE);
    assert!(s.nip11_supported);
    assert_eq!(s.uptime_seconds, 42);
    assert_eq!(s.db_bytes, 1024);
}

#[test]
fn display_host_choices() {
    assert_eq!(display_host(Some("172.18.0.5"), "0.0.0.0", true), "172.18.0.5");
    assert_eq!(display_host(None, "10.1.1.1", false), "10.1.1.1");
    assert_eq!(display_host(None, "0.0.0.0", true), "127.0.0.1");
}

#[test]
fn plans_follow_mode_and_auth() {
    let mut cfg = Config::default();
    for (mode, writes, queries) in [
        (Mode::Read, true, false),
        (Mode::Write, false, true),
        (Mode::Both, false, false),
    ] {
        for auth in [false, true] {
            cfg.mode = mode;
            cfg.require_auth = auth;
            let p = relay_plan(&cfg);
            assert_eq!(p.reject_writes, writes);
            assert_eq!(p.reject_queries, queries);
            assert_eq!(p.nip42, auth);
            assert_eq!(p.port, cfg.port);
        }
    }
}

#[test]
fn start_snapshot_stop() {
    let mut st = RelayState::new();
    assert_eq!(st.snapshot(5_000_000_000), Snapshot { running: false, uptime_seconds: 0 });
    st.mark_started(1_000_000_000);
    assert!(st.is_running());
    assert_eq!(st.snapshot(3_999_999_999), Snapshot { running: true, uptime_seconds: 2 });
    assert_eq!(st.snapshot(500), Snapshot { running: true, uptime_seconds: 0 });
    st.mark_stopped();
    assert!(!st.is_running());
    assert_eq!(st.snapshot(9_000_000_000), Snapshot { running: false, uptime_seconds: 0 });
}

#[test]
fn restart_gives_up_after_all_attempts() {
    assert_eq!(RESTART_ATTEMPTS, 10);
    assert_eq!(restart_step(0, true), RestartStep::Done);
    assert_eq!(restart_step(0, false), RestartStep::Retry(1));
    assert_eq!(restart_step(8, false), RestartStep::Retry(9));
    assert_eq!(restart_step(9, false), RestartStep::GiveUp);
    let mut attempt = 0;
    let mut tries = 0;
    loop {
        tries += 1;
        match restart_step(attempt, false) {
            RestartStep::Retry(n) => attempt = n,
            RestartStep::GiveUp => break,
            RestartStep::Done => unreachable!(),
        }
    }
    assert_eq!(tries, 10);
}

#[test]
fn put_config_policy() {
    assert_eq!(put_config_step(PutConfigEvent::Validated(Ok(()))), PutConfigAction::Save);
    assert_eq!(
        put_config_step(PutConfigEvent::Validated(Err("bad port".to_string()))),
        PutConfigAction::Reject { status: 400, message: "bad port".to_string() }
    );
    assert_eq!(
        put_config_step(PutConfigEvent::Saved(Ok(()))),
        PutConfigAction::CommitAndRestart
    );
    assert_eq!(
        put_config_step(PutConfigEvent::Saved(Err("disk full".to_string()))),
        PutConfigAction::Reject { status: 500, message: "saving config: disk full".to_string() }
    );
    assert_eq!(put_config_step(PutConfigEvent::Restarted(Ok(()))), PutConfigAction::Accept);
    assert_eq!(
        put_config_step(PutConfigEvent::Restarted(Err("in use".to_string()))),
        PutConfigAction::Reject {
            status: 500,
            message: "config saved but relay restart failed: in use".to_string()
        }
    );
}
