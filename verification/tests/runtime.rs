use wormhole::config::{AuthMethod, AuthProfile, SshConfig, TunnelType};
use wormhole::connections::{ActiveConnections, MAX_ACTIVE_CONNECTIONS};
use wormhole::runtime::{
    active_tunnel_connection_count, port_tested, tunnel_bytes_total, RuntimeState, StartAction,
    TrafficDelta,
};
use wormhole::service::{
    service_failure, service_failure_kind, should_mark_needs_auth, stop_report,
    ServiceFailureKind, ServiceStatus, StartRun, TunnelStatus,
};

fn base_config() -> SshConfig {
    SshConfig {
        id: "test-id".to_string(),
        name: "Test tunnel".to_string(),
        host: "example.com".to_string(),
        port: 22,
        username: "me".to_string(),
        auth_method: AuthMethod::Key,
        key_path: Some("/Users/me/.ssh/id_ed25519".to_string()),
        tunnel_type: TunnelType::Local,
        local_port: 18080,
        remote_host: Some("127.0.0.1".to_string()),
        remote_port: Some(80),
        auth_profile: AuthProfile::Normal,
        auto_reconnect: true,
    }
}

fn with_id(id: &str) -> SshConfig {
    SshConfig {
        id: id.to_string(),
        ..base_config()
    }
}

fn status(total: usize, running: usize, clients: usize) -> ServiceStatus {
    ServiceStatus {
        total,
        running,
        clients,
        traffic_bytes_per_second: 0,
        traffic_bytes_total: 0,
    }
}

#[test]
fn preflight_rejects_external_local_port_listener() {
    let config = base_config();
    let mut runtime: RuntimeState<u32> = RuntimeState::new();
    let (step, handle) = runtime.begin_start(&config, false);
    assert!(matches!(step, StartAction::TestPort));
    assert_eq!(handle, None);

    let error = match port_tested(&config, Err("Address already in use".to_string())) {
        StartAction::Fail(error) => error,
        other => panic!("{other:?}"),
    };
    assert!(error.contains(&format!(
        "Local port {} is already in use",
        config.local_port
    )));
    assert_eq!(
        error,
        "Local port 18080 is already in use: Address already in use"
    );
}

#[test]
fn terminate_managed_children_clears_runtime_state() {
    let config = base_config();
    let mut runtime: RuntimeState<u32> = RuntimeState::new();
    runtime.start_failed(&config, "authentication failed");
    runtime.begin_start(&config, false);
    assert!(runtime.is_desired("test-id"));
    assert!(runtime.login_needed("test-id"));

    let handles = runtime.terminate_managed_children();

    assert!(handles.is_empty());
    assert_eq!(runtime.tunnel_count(), 0);
    assert!(!runtime.is_desired("test-id"));
    assert!(!runtime.login_needed("test-id"));
    assert!(runtime.is_idle());
}

/// A tunnel of some kind and its clients.
type Handle = (TunnelType, ActiveConnections<&'static str>);

fn client_count(runtime: &RuntimeState<Handle>) -> u64 {
    let counts: Vec<(TunnelType, u64)> = runtime
        .handles()
        .iter()
        .map(|(kind, connections)| (*kind, connections.len() as u64))
        .collect();
    active_tunnel_connection_count(&counts)
}

#[test]
fn counts_active_connections_from_runtime_state() {
    let mut active_connections = ActiveConnections::new();
    active_connections.try_track("server").unwrap();
    let mut runtime = RuntimeState::new();
    runtime.started(
        "test-id".to_string(),
        (TunnelType::Local, active_connections),
    );

    assert_eq!(client_count(&runtime), 1);
}

#[test]
fn clients_of_remote_tunnels_are_not_counted() {
    let mut runtime = RuntimeState::new();
    for (id, kind, clients) in [
        ("local", TunnelType::Local, 1),
        ("remote", TunnelType::Remote, 1),
        ("dynamic", TunnelType::Dynamic, 2),
    ] {
        let mut connections = ActiveConnections::new();
        for _ in 0..clients {
            connections.try_track("client").unwrap();
        }
        runtime.started(id.to_string(), (kind, connections));
    }
    assert_eq!(client_count(&runtime), 3);
    assert_eq!(
        active_tunnel_connection_count(&vec![(TunnelType::Remote, u64::MAX)]),
        0
    );
    assert_eq!(active_tunnel_connection_count(&vec![]), 0);
}

#[test]
fn rejects_clients_when_active_connection_limit_is_reached() {
    let mut active_connections: ActiveConnections<u64> = ActiveConnections::new();
    for id in 0..MAX_ACTIVE_CONNECTIONS as u64 {
        assert_eq!(active_connections.try_track(id), Ok(id));
    }

    assert!(active_connections.try_track(0).is_err());
    assert_eq!(
        active_connections.try_track(0).unwrap_err(),
        "Too many active tunnel connections. Limit is 128."
    );
    assert_eq!(active_connections.len(), 128);

    active_connections.untrack(None);
    assert_eq!(active_connections.len(), 128);
    active_connections.untrack(Some(5));
    assert_eq!(active_connections.len(), 127);
    assert_eq!(active_connections.try_track(9), Ok(128));
}

#[test]
fn tracked_streams_are_listed_until_untracked() {
    let mut active_connections: ActiveConnections<&str> = ActiveConnections::new();
    let first = active_connections.try_track("first").unwrap();
    let second = active_connections.try_track("second").unwrap();
    assert_eq!((first, second), (0, 1));
    let mut streams: Vec<&str> = active_connections.streams().values().copied().collect();
    streams.sort();
    assert_eq!(streams, ["first", "second"]);
    active_connections.untrack(Some(first));
    assert_eq!(active_connections.streams().len(), 1);
    assert_eq!(active_connections.streams()[&second], "second");
}

#[test]
fn classifies_host_key_mismatch_failures() {
    assert_eq!(
        service_failure_kind(
            &base_config(),
            "SSH host key mismatch in Wormhole known_hosts"
        ),
        ServiceFailureKind::HostKeyMismatch
    );
}

#[test]
fn does_not_classify_all_mfa_failures_as_auth_failures() {
    let mut config = base_config();
    config.auth_profile = AuthProfile::Mfa;

    assert_eq!(
        service_failure_kind(&config, "Local port 18080 is already in use"),
        ServiceFailureKind::Other
    );
}

#[test]
fn classifies_failures_to_log_in() {
    let normal = base_config();
    let mut mfa = base_config();
    mfa.auth_profile = AuthProfile::Mfa;
    for text in [
        "SSH AUTHENTICATION failed.",
        "wrong PassWord",
        "bad passphrase",
        "no more publickey",
    ] {
        assert_eq!(service_failure_kind(&normal, text), ServiceFailureKind::Auth);
        assert_eq!(service_failure_kind(&mfa, text), ServiceFailureKind::Auth);
        assert!(should_mark_needs_auth(&normal, text));
    }
    assert_eq!(
        service_failure_kind(&normal, "Keyboard-interactive"),
        ServiceFailureKind::Other
    );
    assert_eq!(
        service_failure_kind(&mfa, "Keyboard-interactive"),
        ServiceFailureKind::Auth
    );
    assert_eq!(
        service_failure_kind(&mfa, "auth: HOST KEY MISMATCH"),
        ServiceFailureKind::HostKeyMismatch
    );
    let failure = service_failure(&normal, "password".to_string());
    assert_eq!(failure.id, "test-id");
    assert_eq!(failure.name, "Test tunnel");
    assert_eq!(failure.error, "password");
    assert_eq!(failure.kind, ServiceFailureKind::Auth);
}

#[test]
fn start_goes_through_its_steps() {
    let config = base_config();
    let mut runtime: RuntimeState<u32> = RuntimeState::new();

    let mut invalid = base_config();
    invalid.name = String::new();
    let (step, _) = runtime.begin_start(&invalid, false);
    assert!(
        matches!(step, StartAction::Fail(message) if message == "Connection name is required.")
    );
    assert!(runtime.is_idle());

    let (step, _) = runtime.begin_start(&config, false);
    assert!(matches!(step, StartAction::TestPort));
    assert!(runtime.is_desired("test-id"));
    assert!(matches!(port_tested(&config, Ok(())), StartAction::Claim));
    assert!(matches!(
        runtime.claim_start("test-id", false),
        (StartAction::Connect, None)
    ));
    assert!(matches!(
        runtime.finish_start(&config, Ok(7)),
        StartAction::Up
    ));
    assert!(matches!(
        runtime.claim_start("test-id", true),
        (StartAction::Up, None)
    ));
    assert_eq!(runtime.tunnel_is_running("test-id", true), (true, None));
    assert_eq!(runtime.handle("test-id"), Some(&7));

    let (step, handle) = runtime.begin_start(&config, true);
    assert!(matches!(step, StartAction::Up));
    assert_eq!(handle, None);

    let (step, handle) = runtime.begin_start(&config, false);
    assert!(matches!(step, StartAction::TestPort));
    assert_eq!(handle, Some(7));
    assert_eq!(runtime.handle("test-id"), None);
    assert!(runtime.is_desired("test-id"));
}

#[test]
fn failed_start_is_not_wanted_any_more() {
    let config = base_config();
    let mut runtime: RuntimeState<u32> = RuntimeState::new();
    runtime.begin_start(&config, false);
    runtime.start_failed(&config, "connection refused");
    assert!(!runtime.is_desired("test-id"));
    assert!(!runtime.login_needed("test-id"));

    let mut remote = base_config();
    remote.tunnel_type = TunnelType::Remote;
    let (step, _) = runtime.begin_start(&remote, false);
    assert!(matches!(step, StartAction::Claim));
    assert!(matches!(
        port_tested(&remote, Err("in use".to_string())),
        StartAction::Claim
    ));
    match runtime.finish_start(&remote, Err("SSH authentication failed.".to_string())) {
        StartAction::Fail(reason) => assert_eq!(reason, "SSH authentication failed."),
        other => panic!("{other:?}"),
    }
    assert!(!runtime.is_desired("test-id"));
    assert!(runtime.login_needed("test-id"));
    assert_eq!(
        runtime.tunnel_status(&config, false),
        (TunnelStatus::NeedsAuth, None)
    );

    runtime.begin_start(&config, false);
    runtime.started("test-id".to_string(), 1);
    assert!(!runtime.login_needed("test-id"));
    assert_eq!(
        runtime.tunnel_status(&config, true),
        (TunnelStatus::Running, None)
    );
}

#[test]
fn ended_tunnel_is_shown_once() {
    let config = base_config();
    let mut runtime = RuntimeState::new();
    assert_eq!(
        runtime.mark_status("test-id", true),
        (TunnelStatus::Stopped, None)
    );
    runtime.started("test-id".to_string(), 'h');
    assert_eq!(
        runtime.tunnel_status(&config, false),
        (TunnelStatus::Exited, Some('h'))
    );
    assert_eq!(
        runtime.tunnel_status(&config, false),
        (TunnelStatus::Stopped, None)
    );
}

#[test]
fn ended_tunnel_with_second_factor_needs_login() {
    let mut config = base_config();
    config.auth_profile = AuthProfile::Mfa;
    let mut runtime = RuntimeState::new();
    runtime.started("test-id".to_string(), 'h');
    assert_eq!(
        runtime.tunnel_status(&config, false),
        (TunnelStatus::NeedsAuth, Some('h'))
    );
    assert_eq!(
        runtime.tunnel_status(&config, true),
        (TunnelStatus::NeedsAuth, None)
    );
    assert_eq!(runtime.stop_tunnel_by_id("test-id"), None);
    assert_eq!(
        runtime.tunnel_status(&config, false),
        (TunnelStatus::Stopped, None)
    );
}

#[test]
fn stopping_undoes_starting() {
    let config = base_config();
    let mut runtime = RuntimeState::new();
    runtime.begin_start(&config, false);
    runtime.started("test-id".to_string(), 3);
    runtime.started("other".to_string(), 4);
    assert_eq!(runtime.stop_tunnel_by_id("test-id"), Some(3));
    assert_eq!(runtime.stop_tunnel_by_id("test-id"), None);
    assert!(!runtime.is_desired("test-id"));
    assert_eq!(runtime.handle("other"), Some(&4));
    assert_eq!(runtime.stop_tunnel_by_id("other"), Some(4));
    assert!(runtime.is_idle());
}

#[test]
fn stopping_the_service_stops_every_tunnel() {
    let mut runtime = RuntimeState::new();
    for (id, handle) in [("x", 1), ("b", 2), ("a", 3), ("y", 4)] {
        runtime.started(id.to_string(), handle);
    }
    runtime.begin_start(&with_id("c"), false);
    runtime.begin_start(&with_id("z"), false);
    let saved = vec![with_id("a"), with_id("b"), with_id("c")];
    let handles = runtime.stop_service(&saved);
    assert_eq!(&handles[..2], [3, 2]);
    let mut rest = handles[2..].to_vec();
    rest.sort();
    assert_eq!(rest, [1, 4]);
    assert_eq!(runtime.tunnel_count(), 0);
    assert!(!runtime.is_desired("c"));
    assert!(runtime.is_desired("z"));
    let report = stop_report(&status(3, 0, 0), &saved);
    assert_eq!((report.total, report.running, report.started), (3, 0, 0));
    assert!(report.failed.is_empty());
}

#[test]
fn ended_tunnels_are_dropped_from_the_active_ones() {
    let mut runtime = RuntimeState::new();
    for (id, handle) in [("a", 1), ("b", 2), ("c", 3)] {
        runtime.started(id.to_string(), handle);
    }
    let running: Vec<bool> = runtime.handles().iter().map(|handle| *handle != 2).collect();
    let (mut active, ended) = runtime.active_tunnel_ids(&running);
    active.sort();
    assert_eq!(active, ["a", "c"]);
    assert_eq!(ended, [2]);
    assert_eq!(runtime.handle("b"), None);
    assert_eq!(runtime.tunnel_count(), 2);
}

#[test]
fn only_wanted_profiles_reconnect() {
    let mut runtime: RuntimeState<u32> = RuntimeState::new();
    for id in ["a", "b", "c", "gone"] {
        runtime.begin_start(&with_id(id), false);
    }
    let mut mfa = with_id("b");
    mfa.auth_profile = AuthProfile::Mfa;
    let mut manual = with_id("c");
    manual.auto_reconnect = false;
    let mut earlier = with_id("a");
    earlier.name = "earlier".to_string();
    let saved = vec![earlier, mfa, manual, with_id("a"), with_id("unwanted")];
    let picked = runtime.reconcile_runtime(&saved);
    assert_eq!(picked.len(), 1);
    assert_eq!(picked[0].id, "a");
    assert_eq!(picked[0].name, "Test tunnel");
}

#[test]
fn report_accounts_for_every_profile() {
    let saved = vec![with_id("a"), with_id("b"), with_id("c"), with_id("d")];
    let mut run = StartRun::new(saved);
    let mut turns = Vec::new();
    while let Some(config) = run.next().cloned() {
        let result = match config.id.as_str() {
            "a" => Ok(TunnelStatus::Running),
            "b" => Err("password".to_string()),
            "c" => Ok(TunnelStatus::Stopped),
            _ => Err("no route".to_string()),
        };
        turns.push(config.id);
        run.record(result);
    }
    assert_eq!(turns, ["a", "b", "c", "d"]);
    let report = run.report(&status(4, 1, 9));
    assert_eq!(
        (report.total, report.running, report.started, report.clients),
        (4, 1, 1, 9)
    );
    let failed: Vec<(&str, ServiceFailureKind)> = report
        .failed
        .iter()
        .map(|failure| (failure.id.as_str(), failure.kind))
        .collect();
    assert_eq!(
        failed,
        [
            ("b", ServiceFailureKind::Auth),
            ("d", ServiceFailureKind::Other)
        ]
    );
}

#[test]
fn traffic_is_measured_between_looks() {
    let mut runtime: RuntimeState<u32> = RuntimeState::new();
    assert_eq!(tunnel_bytes_total(&vec![1, 2, 39]), 42);
    assert_eq!(tunnel_bytes_total(&vec![]), 0);
    assert_eq!(runtime.sample_tunnel_traffic(1_000, 42), None);
    assert_eq!(
        runtime.sample_tunnel_traffic(3_000, 100),
        Some(TrafficDelta {
            bytes: 58,
            nanoseconds: 2_000
        })
    );
    assert_eq!(runtime.sample_tunnel_traffic(3_000, 200), None);
    assert_eq!(
        runtime.sample_tunnel_traffic(3_001, 150),
        Some(TrafficDelta {
            bytes: 0,
            nanoseconds: 1
        })
    );
}

#[test]
fn run_without_profiles_is_over_at_once() {
    let run = StartRun::new(vec![]);
    assert!(run.next().is_none());
    let report = run.report(&status(0, 0, 0));
    assert_eq!((report.total, report.started), (0, 0));
    assert!(report.failed.is_empty());
}
