use logrelay::config::{parse_port, parse_server, resolve_appname, resolve_hostname,
    DEFAULT_SYSLOG_PORT};

#[test]
fn an_address_without_a_port_gets_the_default() {
    let (host, port) = parse_server(b"logs.example.com").unwrap();
    assert_eq!(host, b"logs.example.com".to_vec());
    assert_eq!(port, 6514);
    assert_eq!(DEFAULT_SYSLOG_PORT, 6514);
}

#[test]
fn an_explicit_port_is_parsed() {
    let (host, port) = parse_server(b"localhost:514").unwrap();
    assert_eq!(host, b"localhost".to_vec());
    assert_eq!(port, 514);
}

#[test]
fn the_first_colon_splits_host_and_port() {
    // A second colon lands in the port part and is rejected there.
    assert!(parse_server(b"host:12:34").is_none());
}

#[test]
fn bad_port_parts_are_rejected() {
    assert!(parse_server(b"host:").is_none());
    assert!(parse_server(b"host:abc").is_none());
    assert!(parse_server(b"host:12x").is_none());
    assert!(parse_server(b"host:65536").is_none());
    assert!(parse_server(b"host:999999999999").is_none());
}

#[test]
fn port_boundaries() {
    assert_eq!(parse_port(b"0"), Some(0));
    assert_eq!(parse_port(b"65535"), Some(65535));
    assert_eq!(parse_port(b"00514"), Some(514));
    assert_eq!(parse_port(b""), None);
    assert_eq!(parse_port(b"65536"), None);
}

#[test]
fn explicit_identity_overrides_win() {
    assert_eq!(
        resolve_hostname(Some(b"given.host".to_vec())),
        b"given.host".to_vec()
    );
    assert_eq!(
        resolve_appname(Some(b"given-app".to_vec()), b"/bin/true"),
        b"given-app".to_vec()
    );
}

#[test]
fn appname_defaults_to_the_command_base_name() {
    assert_eq!(resolve_appname(None, b"/usr/bin/seq"), b"seq".to_vec());
    assert_eq!(resolve_appname(None, b"seq"), b"seq".to_vec());
    assert_eq!(resolve_appname(None, b"./run.sh"), b"run.sh".to_vec());
}

#[test]
fn hostname_defaults_to_the_system_hostname() {
    // Machine-dependent, so only shape is checked: the default call works
    // and the result is a plain byte string.
    let h = resolve_hostname(None);
    assert!(h.len() < 1024);
}
