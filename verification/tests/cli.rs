use std::path::PathBuf;

use rnc::cli::{parse_port, Cli, Target};

fn base() -> Cli {
    Cli::default()
}

#[test]
fn client_needs_host_and_port() {
    let mut cli = base();
    assert!(cli.resolve_target().is_err());
    cli.host = Some("example.com".to_string());
    assert!(cli.resolve_target().is_err());
    cli.port = Some(4444);
    let target = cli.resolve_target().unwrap();
    assert_eq!(
        target,
        Target {
            addr: "example.com".to_string(),
            port: 4444
        }
    );
}

#[test]
fn client_port_flag_is_accepted_as_fallback() {
    let mut cli = base();
    cli.host = Some("example.com".to_string());
    cli.port_flag = Some(4444);
    let target = cli.resolve_target().unwrap();
    assert_eq!(target.port, 4444);
}

#[test]
fn listen_with_port_flag_defaults_bind_addr() {
    let mut cli = base();
    cli.listen = true;
    cli.port_flag = Some(4444);
    let target = cli.resolve_target().unwrap();
    assert_eq!(
        target,
        Target {
            addr: "0.0.0.0".to_string(),
            port: 4444
        }
    );
}

#[test]
fn listen_with_single_positional_treats_it_as_port() {
    let mut cli = base();
    cli.listen = true;
    cli.host = Some("4444".to_string());
    let target = cli.resolve_target().unwrap();
    assert_eq!(
        target,
        Target {
            addr: "0.0.0.0".to_string(),
            port: 4444
        }
    );
}

#[test]
fn listen_with_bind_addr_and_port_positionals() {
    let mut cli = base();
    cli.listen = true;
    cli.host = Some("127.0.0.1".to_string());
    cli.port = Some(4444);
    let target = cli.resolve_target().unwrap();
    assert_eq!(
        target,
        Target {
            addr: "127.0.0.1".to_string(),
            port: 4444
        }
    );
}

#[test]
fn listen_without_any_port_errors() {
    let mut cli = base();
    cli.listen = true;
    assert!(cli.resolve_target().is_err());
}

#[test]
fn listen_with_invalid_single_positional_errors() {
    let mut cli = base();
    cli.listen = true;
    cli.host = Some("not-a-port".to_string());
    assert!(cli.resolve_target().is_err());
}

#[test]
fn exec_with_udp_is_rejected() {
    let mut cli = base();
    cli.udp = true;
    cli.exec_command = Some("id".to_string());
    assert!(cli.validate().is_err());
}

#[test]
fn broadcast_requires_listen() {
    let mut cli = base();
    cli.broadcast = true;
    assert!(cli.validate().is_err());
    cli.listen = true;
    assert!(cli.validate().is_ok());
}

#[test]
fn proxy_is_client_only() {
    let mut cli = base();
    cli.listen = true;
    cli.proxy = Some("127.0.0.1:1080".to_string());
    assert!(cli.validate().is_err());
}

#[test]
fn tls_server_requires_cert_and_key() {
    let mut cli = base();
    cli.listen = true;
    cli.tls = true;
    assert!(cli.validate().is_err());
    cli.tls_cert = Some(PathBuf::from("cert.pem"));
    cli.tls_key = Some(PathBuf::from("key.pem"));
    assert!(cli.validate().is_ok());
}

#[test]
fn tls_insecure_requires_tls() {
    let mut cli = base();
    cli.tls_insecure = true;
    assert!(cli.validate().is_err());
}

#[test]
fn invalid_filter_regex_is_rejected() {
    let mut cli = base();
    cli.filter = Some("(".to_string());
    assert!(cli.validate().is_err());
}

// Exact messages and further cases.

#[test]
fn resolve_target_error_messages() {
    let mut cli = base();
    assert_eq!(cli.resolve_target().unwrap_err(), "missing destination host");
    cli.host = Some("h".to_string());
    assert_eq!(cli.resolve_target().unwrap_err(), "missing destination port");
    let mut cli = base();
    cli.listen = true;
    assert_eq!(
        cli.resolve_target().unwrap_err(),
        "listen mode requires a port (-p <PORT> or a positional PORT)"
    );
    cli.host = Some("70000".to_string());
    assert_eq!(cli.resolve_target().unwrap_err(), "invalid port number: 70000");
}

#[test]
fn client_positional_port_wins_over_flag() {
    let mut cli = base();
    cli.host = Some("example.com".to_string());
    cli.port = Some(1);
    cli.port_flag = Some(2);
    assert_eq!(cli.resolve_target().unwrap().port, 1);
}

#[test]
fn listen_port_flag_wins_over_positional() {
    let mut cli = base();
    cli.listen = true;
    cli.host = Some("::1".to_string());
    cli.port = Some(1);
    cli.port_flag = Some(2);
    assert_eq!(
        cli.resolve_target().unwrap(),
        Target {
            addr: "::1".to_string(),
            port: 2
        }
    );
}

#[test]
fn port_parsing_follows_u16_rules() {
    assert_eq!(parse_port("4444"), Some(4444));
    assert_eq!(parse_port("+80"), Some(80));
    assert_eq!(parse_port("0065535"), Some(65535));
    assert_eq!(parse_port("0"), Some(0));
    assert_eq!(parse_port("65536"), None);
    assert_eq!(parse_port("99999999999999999999"), None);
    assert_eq!(parse_port("+"), None);
    assert_eq!(parse_port(""), None);
    assert_eq!(parse_port("-1"), None);
    assert_eq!(parse_port(" 80"), None);
    assert_eq!(parse_port("\u{FF18}0"), None);
    for s in ["1", "+1", "123", "65535", "0001", "abc", "12a", "+-1"] {
        assert_eq!(parse_port(s), s.parse::<u16>().ok(), "{s}");
    }
}

#[test]
fn validate_messages_in_order() {
    let mut cli = base();
    cli.udp = true;
    cli.tls = true;
    cli.exec_command = Some("id".to_string());
    assert_eq!(cli.validate().unwrap_err(), "-e/--exec is not supported together with -u/--udp");
    cli.exec_command = None;
    assert_eq!(cli.validate().unwrap_err(), "--tls is not supported together with -u/--udp");

    let mut cli = base();
    cli.listen = true;
    cli.broadcast = true;
    cli.udp = true;
    assert_eq!(cli.validate().unwrap_err(), "--broadcast is not supported together with -u/--udp");
    cli.udp = false;
    cli.exec_command = Some("id".to_string());
    assert_eq!(cli.validate().unwrap_err(), "--broadcast is not supported together with -e/--exec");

    let mut cli = base();
    cli.proxy = Some("p:1".to_string());
    cli.udp = true;
    assert_eq!(cli.validate().unwrap_err(), "--proxy only supports TCP (SOCKS5 CONNECT), not -u/--udp");

    let mut cli = base();
    cli.listen = true;
    cli.retry = 3;
    assert_eq!(cli.validate().unwrap_err(), "--retry is client-only (not valid with -l/--listen)");

    let mut cli = base();
    cli.tls_ca = Some(PathBuf::from("ca.pem"));
    assert_eq!(cli.validate().unwrap_err(), "--tls-ca requires --tls");

    let mut cli = base();
    cli.tls_key = Some(PathBuf::from("key.pem"));
    assert_eq!(
        cli.validate().unwrap_err(),
        "--tls-cert/--tls-key are server-only (not valid without -l/--listen)"
    );
}

#[test]
fn filter_regex_error_message_carries_regex_text() {
    let mut cli = base();
    cli.filter = Some("(".to_string());
    let expected = format!("invalid --filter regex: {}", regex::Regex::new("(").unwrap_err());
    assert_eq!(cli.validate().unwrap_err(), expected);
    cli.filter = Some("ERROR".to_string());
    assert!(cli.validate().is_ok());
}
