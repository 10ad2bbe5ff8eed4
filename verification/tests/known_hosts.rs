use wormhole::config::{AuthMethod, AuthProfile, SshConfig, TunnelType};
use wormhole::known_hosts::{
    known_host_name, known_hosts_line_matches, reset_known_host_for_config, verify_known_host,
    HostKeyCheck, HostKeyVerdict,
};
use wormhole::service::{service_failure_kind, ServiceFailureKind};

fn server(host: &str, port: u16) -> SshConfig {
    SshConfig {
        id: "id".to_string(),
        name: "name".to_string(),
        host: host.to_string(),
        port,
        username: "me".to_string(),
        auth_method: AuthMethod::Password,
        key_path: None,
        tunnel_type: TunnelType::Dynamic,
        local_port: 1080,
        remote_host: None,
        remote_port: None,
        auth_profile: AuthProfile::Normal,
        auto_reconnect: false,
    }
}

#[test]
fn formats_known_host_names_for_default_and_custom_ports() {
    assert_eq!(
        known_host_name("example.com", 22),
        "example.com"
    );
    assert_eq!(
        known_host_name("example.com", 55222),
        "[example.com]:55222"
    );
}

#[test]
fn matches_known_hosts_lines_for_reset() {
    assert!(known_hosts_line_matches(
        "[example.com]:55222 ssh-ed25519 AAAA",
        "[example.com]:55222"
    ));
    assert!(known_hosts_line_matches(
        "example.com,192.0.2.1 ssh-ed25519 AAAA",
        "192.0.2.1"
    ));
    assert!(!known_hosts_line_matches(
        "other.example.com ssh-ed25519 AAAA",
        "example.com"
    ));
}

#[test]
fn blank_line_matches_no_server() {
    assert!(!known_hosts_line_matches("", ""));
    assert!(!known_hosts_line_matches("   \t", ""));
    assert!(known_hosts_line_matches("a,,b key", ""));
    assert!(known_hosts_line_matches("  a key", "a"));
}

#[test]
fn reset_removes_the_lines_of_one_server() {
    let contents = "a ssh-rsa AAAA\r\nb,example.com ssh-rsa BBBB\n\nc ssh-rsa CCCC";
    assert_eq!(
        reset_known_host_for_config(contents, &server("example.com", 22)),
        Some("a ssh-rsa AAAA\n\nc ssh-rsa CCCC\n".to_string())
    );
    assert_eq!(
        reset_known_host_for_config(contents, &server("example.com", 2222)),
        None
    );
}

#[test]
fn reset_of_the_only_server_leaves_an_empty_list() {
    assert_eq!(
        reset_known_host_for_config("example.com ssh-rsa AAAA\n", &server("example.com", 22)),
        Some(String::new())
    );
    assert_eq!(
        reset_known_host_for_config("\nexample.com ssh-rsa AAAA\n", &server("example.com", 22)),
        Some(String::new())
    );
    assert_eq!(
        reset_known_host_for_config("\n\nexample.com ssh-rsa AAAA\n", &server("example.com", 22)),
        Some("\n\n".to_string())
    );
    assert_eq!(
        reset_known_host_for_config("", &server("example.com", 22)),
        None
    );
}

#[test]
fn reset_twice_changes_nothing_more() {
    let config = server("example.com", 55222);
    let next = reset_known_host_for_config(
        "[example.com]:55222 k\r\r\nother\r\r\n[example.com]:55222,x k",
        &config,
    )
    .unwrap();
    assert_eq!(next, "other\r\n");
    assert_eq!(reset_known_host_for_config(&next, &config), None);
}

#[test]
fn remembered_server_can_be_forgotten() {
    let config = server("example.com", 55222);
    let name = match verify_known_host(&config, HostKeyCheck::NotFound) {
        HostKeyVerdict::Remember(name) => name,
        other => panic!("{other:?}"),
    };
    assert_eq!(name, "[example.com]:55222");
    let list = format!("first key\n{name} ssh-ed25519 AAAA comment\n");
    assert_eq!(
        reset_known_host_for_config(&list, &config),
        Some("first key\n".to_string())
    );
}

#[test]
fn host_key_decides_on_the_connection() {
    let config = server("example.com", 22);
    assert!(matches!(
        verify_known_host(&config, HostKeyCheck::Match),
        HostKeyVerdict::Trusted
    ));
    let refused = |check| match verify_known_host(&config, check) {
        HostKeyVerdict::Refused(message) => message,
        other => panic!("{other:?}"),
    };
    assert_eq!(
        refused(HostKeyCheck::NoKey),
        "SSH server did not provide a host key."
    );
    assert_eq!(
        refused(HostKeyCheck::Failure),
        "Could not verify SSH host key."
    );
    let mismatch = refused(HostKeyCheck::Mismatch);
    assert_eq!(
        mismatch,
        "SSH host key mismatch in Wormhole known_hosts. Verify the server fingerprint before resetting this host key."
    );
    assert_eq!(
        service_failure_kind(&config, &mismatch),
        ServiceFailureKind::HostKeyMismatch
    );
}

#[test]
fn line_of_one_server_is_about_no_other() {
    let servers = [("a", 22), ("a", 222), ("ab", 22), ("a]b", 222), ("a]b", 22), ("::1", 2222)];
    for (i, (host, port)) in servers.iter().enumerate() {
        let line = format!("{} ssh-ed25519 AAAA", known_host_name(host, *port));
        for (j, (other, other_port)) in servers.iter().enumerate() {
            let name = known_host_name(other, *other_port);
            assert_eq!(known_hosts_line_matches(&line, &name), i == j);
        }
    }
}

#[test]
fn servers_have_names_of_their_own() {
    let names = [
        known_host_name("a", 22),
        known_host_name("a", 222),
        known_host_name("b", 22),
        known_host_name("b", 222),
        known_host_name("::1", 2222),
    ];
    for (i, name) in names.iter().enumerate() {
        assert!(!names[i + 1..].contains(name));
    }
}
