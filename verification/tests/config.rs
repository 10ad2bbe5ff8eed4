use wormhole::config::{
    plan_save, plan_save_with_id, to_config, validate_config, AppState, AuthMethod, AuthProfile,
    ConnectionInput, SshConfig, TunnelType,
};

fn base_config() -> SshConfig {
    SshConfig {
        id: "test-id".to_string(),
        name: "Test tunnel".to_string(),
        host: "example.com".to_string(),
        port: 22,
        username: "me".to_string(),
        auth_method: AuthMethod::Key,
        key_path: Some("/Users/me/.ssh/id_ed25519".to_string()),
        tunnel_type: TunnelType::Local,
        local_port: 18080,
        remote_host: Some("127.0.0.1".to_string()),
        remote_port: Some(80),
        auth_profile: AuthProfile::Normal,
        auto_reconnect: true,
    }
}

fn base_input() -> ConnectionInput {
    ConnectionInput {
        id: Some("test-id".to_string()),
        name: "  Test tunnel ".to_string(),
        host: "\texample.com\n".to_string(),
        port: 22,
        username: " me\u{3000}".to_string(),
        auth_method: AuthMethod::Password,
        password: Some("secret".to_string()),
        key_path: Some("   ".to_string()),
        key_passphrase: Some(String::new()),
        tunnel_type: TunnelType::Remote,
        local_port: 9000,
        remote_host: Some(" 127.0.0.1 ".to_string()),
        remote_port: Some(80),
        auth_profile: AuthProfile::Normal,
        auto_reconnect: true,
    }
}

#[test]
fn validates_required_connection_fields() {
    let mut config = base_config();
    assert!(validate_config(&config).is_ok());

    config.host = " ".to_string();
    assert_eq!(
        validate_config(&config),
        Err("SSH host is required.".into())
    );
}

#[test]
fn validates_tunnel_specific_fields() {
    let mut local = base_config();
    local.remote_host = None;
    assert_eq!(
        validate_config(&local),
        Err("Remote host is required for local and remote tunnels.".into())
    );

    let mut dynamic = base_config();
    dynamic.tunnel_type = TunnelType::Dynamic;
    dynamic.remote_host = None;
    dynamic.remote_port = None;
    assert!(validate_config(&dynamic).is_ok());
}

#[test]
fn names_each_thing_that_is_wrong_with_a_profile() {
    let mut config = base_config();
    config.name = "\t\n ".to_string();
    assert_eq!(
        validate_config(&config),
        Err("Connection name is required.".to_string())
    );

    let mut config = base_config();
    config.username = "\u{2003}".to_string();
    assert_eq!(
        validate_config(&config),
        Err("Username is required.".to_string())
    );

    let mut config = base_config();
    config.port = 0;
    assert_eq!(
        validate_config(&config),
        Err("Ports must be between 1 and 65535.".to_string())
    );
    let mut config = base_config();
    config.local_port = 0;
    assert_eq!(
        validate_config(&config),
        Err("Ports must be between 1 and 65535.".to_string())
    );

    let mut config = base_config();
    config.key_path = Some(" ".to_string());
    assert_eq!(
        validate_config(&config),
        Err("Key path is required for key authentication.".to_string())
    );
    config.auth_method = AuthMethod::Password;
    assert_eq!(validate_config(&config), Ok(()));

    let mut config = base_config();
    config.remote_port = Some(0);
    assert_eq!(
        validate_config(&config),
        Err("Remote port is required for local and remote tunnels.".to_string())
    );
    config.remote_port = None;
    assert_eq!(
        validate_config(&config),
        Err("Remote port is required for local and remote tunnels.".to_string())
    );
}

#[test]
fn profile_errors_come_in_order() {
    let mut config = base_config();
    config.name = String::new();
    config.host = String::new();
    assert_eq!(
        validate_config(&config),
        Err("Connection name is required.".to_string())
    );
}

#[test]
fn input_is_trimmed_into_a_profile() {
    let config = to_config(&base_input());
    assert_eq!(config.id, "test-id");
    assert_eq!(config.name, "Test tunnel");
    assert_eq!(config.host, "example.com");
    assert_eq!(config.username, "me");
    assert_eq!(config.key_path, None);
    assert_eq!(config.remote_host, Some("127.0.0.1".to_string()));
    assert_eq!(config.remote_port, Some(80));
    assert_eq!(config.local_port, 9000);
    assert_eq!(config.port, 22);
    assert_eq!(config.tunnel_type, TunnelType::Remote);
    assert_eq!(config.auth_method, AuthMethod::Password);
    assert!(config.auto_reconnect);
}

#[test]
fn second_factor_never_reconnects() {
    let mut input = base_input();
    input.auth_profile = AuthProfile::Mfa;
    let config = to_config(&input);
    assert_eq!(config.auth_profile, AuthProfile::Mfa);
    assert!(!config.auto_reconnect);
}

#[test]
fn new_profile_gets_a_random_id() {
    let mut input = base_input();
    input.id = None;
    let first = to_config(&input).id;
    let second = to_config(&input).id;
    assert_ne!(first, second);
    for id in [first, second] {
        let bytes = id.as_bytes();
        assert_eq!(bytes.len(), 36);
        for (i, b) in bytes.iter().enumerate() {
            match i {
                8 | 13 | 18 | 23 => assert_eq!(*b, b'-'),
                14 => assert_eq!(*b, b'4'),
                19 => assert!(b"89ab".contains(b)),
                _ => assert!(b.is_ascii_digit() || (b'a'..=b'f').contains(b)),
            }
        }
    }
}

#[test]
fn plan_keeps_only_secrets_that_were_entered() {
    let plan = plan_save(&base_input()).unwrap();
    assert_eq!(plan.config.id, "test-id");
    assert_eq!(plan.password, Some("secret".to_string()));
    assert_eq!(plan.key_passphrase, None);

    let plan = plan_save_with_id(&base_input(), "other".to_string()).unwrap();
    assert_eq!(plan.config.id, "other");

    let mut input = base_input();
    input.name = " ".to_string();
    assert_eq!(
        plan_save(&input).unwrap_err(),
        "Connection name is required."
    );
}

#[test]
fn saving_replaces_the_first_profile_with_the_id() {
    let mut state = AppState::default();
    assert!(state.connections.is_empty());
    let mut first = base_config();
    first.id = "a".to_string();
    state.save_config(first);
    state.save_config(base_config());
    assert_eq!(state.connections.len(), 2);

    let mut changed = base_config();
    changed.name = "Changed".to_string();
    state.save_config(changed);
    assert_eq!(state.connections.len(), 2);
    assert_eq!(state.connections[1].name, "Changed");
    assert_eq!(state.find_config("test-id").unwrap().name, "Changed");
    assert_eq!(state.find_config("a").unwrap().name, "Test tunnel");
}

#[test]
fn removed_profile_is_not_found() {
    let mut state = AppState::default();
    let mut other = base_config();
    other.id = "other".to_string();
    state.save_config(base_config());
    state.save_config(other);
    state.connections.push(base_config());
    state.remove_config("test-id");
    assert_eq!(state.connections.len(), 1);
    assert_eq!(
        state.find_config("test-id").unwrap_err(),
        "Connection not found."
    );
    assert_eq!(state.find_config("other").unwrap().id, "other");
}

#[test]
fn profile_is_stable_when_entered_again() {
    let once = to_config(&base_input());
    let again = ConnectionInput {
        id: Some(once.id.clone()),
        name: once.name.clone(),
        host: once.host.clone(),
        username: once.username.clone(),
        key_path: once.key_path.clone(),
        remote_host: once.remote_host.clone(),
        ..base_input()
    };
    let twice = to_config(&again);
    assert_eq!(twice.name, once.name);
    assert_eq!(twice.host, once.host);
    assert_eq!(twice.username, once.username);
    assert_eq!(twice.key_path, once.key_path);
    assert_eq!(twice.remote_host, once.remote_host);
}

#[test]
fn profile_holds_no_secret() {
    let mut other = base_input();
    other.password = Some("another".to_string());
    other.key_passphrase = Some("phrase".to_string());
    assert_eq!(
        format!("{:?}", to_config(&other)),
        format!("{:?}", to_config(&base_input()))
    );
}

#[test]
fn copies_hold_the_same() {
    let input = base_input();
    assert_eq!(format!("{:?}", input.clone()), format!("{input:?}"));
    let state = AppState {
        connections: vec![base_config(), to_config(&input)],
    };
    assert_eq!(format!("{:?}", state.clone()), format!("{state:?}"));
}
