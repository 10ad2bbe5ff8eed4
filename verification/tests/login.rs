use wormhole::config::{AuthMethod, AuthProfile, SavePlan, SshConfig, TunnelType};
use wormhole::keychain::{
    delete_credentials, entry_account, get_key_passphrase, get_password, keep_secrets,
    set_key_passphrase, set_password, SecretKind,
};
use wormhole::login::{
    authenticate_session, login_start, login_with, prepare_login, Login, LoginEvent, LoginPhase,
    LoginStep,
};
use wormhole::service::{service_failure_kind, ServiceFailureKind};
use wormhole::tunnel::{
    ensure_local_port_available, forward_target, listens_locally, remote_listen_failed,
    remote_listen_host, ssh_unreachable, target_step, target_unreachable, tunnel_bind_addr,
    RemoteListen, RemoteListenStep, TargetStep,
};

fn profile(method: AuthMethod, kind: TunnelType) -> SshConfig {
    SshConfig {
        id: "login-test".to_string(),
        name: "Test".to_string(),
        host: "example.com".to_string(),
        port: 22,
        username: "me".to_string(),
        auth_method: method,
        key_path: Some("/key".to_string()),
        tunnel_type: kind,
        local_port: 18080,
        remote_host: Some("127.0.0.1".to_string()),
        remote_port: Some(80),
        auth_profile: AuthProfile::Normal,
        auto_reconnect: false,
    }
}

const NO_ENTRY: &str = "No matching entry found in secure storage";

#[test]
fn secrets_have_accounts_of_their_own() {
    assert_eq!(entry_account("a-b", SecretKind::Password), "a-b:password");
    assert_eq!(entry_account("a-b", SecretKind::KeyPassphrase), "a-b:keypass");
}

#[test]
fn keychain_without_an_entry_says_so() {
    assert_eq!(get_password("nobody"), Err(NO_ENTRY.to_string()));
    assert_eq!(get_key_passphrase("nobody"), Err(NO_ENTRY.to_string()));
    let deleted = delete_credentials("nobody");
    assert_eq!(deleted.password, Err(NO_ENTRY.to_string()));
    assert_eq!(deleted.key_passphrase, Err(NO_ENTRY.to_string()));
}

#[test]
fn keychain_takes_secrets() {
    assert_eq!(set_password("somebody", "secret"), Ok(()));
    assert_eq!(set_key_passphrase("somebody", "phrase"), Ok(()));
    let plan = SavePlan {
        config: profile(AuthMethod::Key, TunnelType::Local),
        password: Some("secret".to_string()),
        key_passphrase: None,
    };
    assert_eq!(keep_secrets(&plan), Ok(()));
}

#[test]
fn password_has_to_be_there() {
    let config = profile(AuthMethod::Password, TunnelType::Local);
    match login_with(&config, Ok("secret".to_string())) {
        Ok(Login::Password(password)) => assert_eq!(password, "secret"),
        other => panic!("{other:?}"),
    }
    let missing = "Password is missing. Save the connection with a password first.";
    assert_eq!(
        login_with(&config, Err("x".to_string())).unwrap_err(),
        missing
    );
    assert_eq!(prepare_login(&config).unwrap_err(), missing);
    assert_eq!(
        service_failure_kind(&config, missing),
        ServiceFailureKind::Auth
    );
}

#[test]
fn passphrase_need_not_be_there() {
    let mut config = profile(AuthMethod::Key, TunnelType::Local);
    match login_with(&config, Ok("phrase".to_string())) {
        Ok(Login::Key(path, passphrase)) => {
            assert_eq!(path, "/key");
            assert_eq!(passphrase, Some("phrase".to_string()));
        }
        other => panic!("{other:?}"),
    }
    match prepare_login(&config) {
        Ok(Login::Key(path, None)) => assert_eq!(path, "/key"),
        other => panic!("{other:?}"),
    }
    config.key_path = None;
    let missing = "Key path is required for key authentication.";
    assert_eq!(prepare_login(&config).unwrap_err(), missing);
    assert_eq!(
        login_with(&config, Ok("phrase".to_string())).unwrap_err(),
        missing
    );
}

#[test]
fn agent_is_tried_after_the_key() {
    let login = Login::Key("/key".to_string(), None);
    let phase = login_start(&login);
    assert!(matches!(phase, LoginPhase::Key));
    let phase = match authenticate_session(phase, LoginEvent::Rejected("bad key".to_string())) {
        LoginStep::Next(phase) => phase,
        other => panic!("{other:?}"),
    };
    assert!(matches!(&phase, LoginPhase::Agent(error) if error == "bad key"));
    match authenticate_session(phase, LoginEvent::Rejected("no agent".to_string())) {
        LoginStep::Failure(reason) => assert_eq!(
            reason,
            "SSH key authentication failed: bad key; agent fallback failed: no agent"
        ),
        other => panic!("{other:?}"),
    }
    assert!(matches!(
        authenticate_session(LoginPhase::Agent("bad key".to_string()), LoginEvent::Accepted),
        LoginStep::Next(LoginPhase::Confirm)
    ));
}

#[test]
fn password_is_tried_alone() {
    let phase = login_start(&Login::Password("secret".to_string()));
    assert!(matches!(phase, LoginPhase::Password));
    match authenticate_session(phase, LoginEvent::Rejected("denied".to_string())) {
        LoginStep::Failure(reason) => assert_eq!(reason, "denied"),
        other => panic!("{other:?}"),
    }
}

#[test]
fn accepted_login_has_to_be_confirmed() {
    assert!(matches!(
        authenticate_session(LoginPhase::Password, LoginEvent::Accepted),
        LoginStep::Next(LoginPhase::Confirm)
    ));
    assert!(matches!(
        authenticate_session(LoginPhase::Confirm, LoginEvent::Accepted),
        LoginStep::Success
    ));
    match authenticate_session(LoginPhase::Confirm, LoginEvent::Rejected(String::new())) {
        LoginStep::Failure(reason) => assert_eq!(reason, "SSH authentication failed."),
        other => panic!("{other:?}"),
    }
}

#[test]
fn tunnel_listens_on_its_port() {
    let local = profile(AuthMethod::Key, TunnelType::Local);
    let remote = profile(AuthMethod::Key, TunnelType::Remote);
    assert_eq!(tunnel_bind_addr(&local), ("127.0.0.1", 18080));
    assert!(listens_locally(&local));
    assert!(!listens_locally(&remote));
    assert_eq!(ensure_local_port_available(&local, Ok(())), Ok(()));
    assert_eq!(
        ensure_local_port_available(&remote, Err("in use".to_string())),
        Ok(())
    );
}

#[test]
fn tunnel_leads_to_its_target() {
    let mut config = profile(AuthMethod::Key, TunnelType::Local);
    assert_eq!(
        forward_target(&config),
        Ok(Some(("127.0.0.1".to_string(), 80)))
    );
    config.remote_port = None;
    assert_eq!(
        forward_target(&config),
        Err("Remote port is required for local tunnels.".to_string())
    );
    config.tunnel_type = TunnelType::Remote;
    assert_eq!(
        forward_target(&config),
        Err("Target port is required for remote tunnels.".to_string())
    );
    config.remote_host = None;
    assert_eq!(
        forward_target(&config),
        Err("Target host is required for remote tunnels.".to_string())
    );
    config.tunnel_type = TunnelType::Local;
    assert_eq!(
        forward_target(&config),
        Err("Remote host is required for local tunnels.".to_string())
    );
    config.tunnel_type = TunnelType::Dynamic;
    assert_eq!(forward_target(&config), Ok(None));
}

#[test]
fn remote_tunnel_falls_back_to_the_servers_choice() {
    let config = profile(AuthMethod::Key, TunnelType::Remote);
    assert_eq!(remote_listen_host(&RemoteListen::Public), Some("0.0.0.0"));
    let fallback =
        match remote_listen_failed(&config, RemoteListen::Public, "denied".to_string()) {
            RemoteListenStep::Retry(fallback) => fallback,
            other => panic!("{other:?}"),
        };
    assert_eq!(remote_listen_host(&fallback), None);
    match remote_listen_failed(&config, fallback, "in use".to_string()) {
        RemoteListenStep::Fail(message) => assert_eq!(
            message,
            "Could not listen on remote port 18080. The remote port may already be in use; choose another remote listen port and try again. Public bind 0.0.0.0 failed: denied; default bind failed: in use. If the port is free, check AllowTcpForwarding and GatewayPorts on the SSH server."
        ),
        other => panic!("{other:?}"),
    }
}

#[test]
fn unreachable_hosts_are_told() {
    assert_eq!(ssh_unreachable(None), "Could not resolve SSH host.");
    assert_eq!(
        ssh_unreachable(Some("timed out")),
        "Could not connect to SSH host: timed out"
    );
    assert_eq!(target_unreachable(None), "target host did not resolve");
    assert_eq!(target_unreachable(Some("refused".to_string())), "refused");
}

#[test]
fn addresses_of_a_target_are_tried_in_turn() {
    let mut failures: Vec<String> = Vec::new();
    let mut tried = Vec::new();
    let reason = loop {
        match target_step(3, &failures) {
            TargetStep::Try(place) => {
                tried.push(place);
                failures.push(format!("failure {place}"));
            }
            TargetStep::Fail(reason) => break reason,
        }
    };
    assert_eq!(tried, [0, 1, 2]);
    assert_eq!(reason, "failure 2");
    assert!(matches!(
        target_step(0, &vec![]),
        TargetStep::Fail(reason) if reason == "target host did not resolve"
    ));
}
