use evm_debugger::rpc_url::{
    allowlist_matches, check_rpc_url, is_blocked_hostname, is_blocked_ip, parse_allowlist_env,
    validate_rpc_url, IpAddress, RpcUrlError, UrlParts,
};

#[test]
fn reject_non_http_scheme() {
    let e = validate_rpc_url("file:///etc/passwd", None).err().unwrap();
    assert!(e.message().contains("unsupported"));
}

#[test]
fn reject_localhost_hostname() {
    assert!(is_blocked_hostname("localhost"));
    assert!(validate_rpc_url("http://localhost:8545", None).is_err());
}

#[test]
fn reject_private_ip() {
    let ip = IpAddress::V4([127, 0, 0, 1]);
    assert!(is_blocked_ip(ip));
    assert!(validate_rpc_url("http://127.0.0.1:8545", None).is_err());
}

#[test]
fn allow_public_host_without_allowlist() {
    let url = validate_rpc_url("https://example.com", None).ok().unwrap();
    assert_eq!(url.scheme(), "https");
}

#[test]
fn allowlist_host_match() {
    let allow = vec!["example.com".to_string(), "example.com:1234".to_string()];
    assert!(allowlist_matches(&allow, "example.com", 80));
    assert!(allowlist_matches(&allow, "example.com", 1234));
    assert!(!allowlist_matches(&allow, "evil.com", 80));
}

#[test]
fn allowlist_match_ignores_host_case() {
    let allow = vec!["example.com:8545".to_string()];
    assert!(allowlist_matches(&allow, "EXAMPLE.com", 8545));
    assert!(!allowlist_matches(&allow, "example.com", 8546));
    assert!(!allowlist_matches(&Vec::new(), "example.com", 8545));
}

#[test]
fn blocked_hostnames_in_any_case() {
    assert!(is_blocked_hostname("LocalHost"));
    assert!(is_blocked_hostname("api.localhost"));
    assert!(is_blocked_hostname("printer.LOCAL"));
    assert!(!is_blocked_hostname("localhost.example.com"));
    assert!(!is_blocked_hostname("example.com"));
    assert!(!is_blocked_hostname("local"));
}

#[test]
fn blocked_ipv4_ranges() {
    for o in [
        [10, 1, 2, 3],
        [172, 16, 0, 1],
        [172, 31, 255, 255],
        [192, 168, 1, 1],
        [169, 254, 0, 1],
        [224, 0, 0, 1],
        [239, 255, 255, 255],
        [0, 0, 0, 0],
        [255, 255, 255, 255],
    ] {
        assert!(is_blocked_ip(IpAddress::V4(o)), "{:?}", o);
    }
    for o in [[8, 8, 8, 8], [172, 32, 0, 1], [172, 15, 0, 1], [192, 169, 0, 1], [1, 1, 1, 1]] {
        assert!(!is_blocked_ip(IpAddress::V4(o)), "{:?}", o);
    }
}

#[test]
fn blocked_ipv6_ranges() {
    assert!(is_blocked_ip(IpAddress::V6([0, 0, 0, 0, 0, 0, 0, 1])));
    assert!(is_blocked_ip(IpAddress::V6([0, 0, 0, 0, 0, 0, 0, 0])));
    assert!(is_blocked_ip(IpAddress::V6([0xff02, 0, 0, 0, 0, 0, 0, 1])));
    assert!(is_blocked_ip(IpAddress::V6([0xfd12, 0x3456, 0, 0, 0, 0, 0, 1])));
    assert!(is_blocked_ip(IpAddress::V6([0xfe80, 0, 0, 0, 0, 0, 0, 1])));
    assert!(!is_blocked_ip(IpAddress::V6([0x2001, 0x4860, 0, 0, 0, 0, 0, 0x8888])));
    assert!(!is_blocked_ip(IpAddress::V6([0xfec0, 0, 0, 0, 0, 0, 0, 1])));
}

#[test]
fn validate_keeps_the_parsed_url() {
    let url = validate_rpc_url("https://Example.COM:8545/path", None).ok().unwrap();
    assert_eq!(url.as_str(), "https://example.com:8545/path");
    assert_eq!(url.host.as_deref(), Some("example.com"));
    assert_eq!(url.port, Some(8545));
    assert_eq!(url.host_ipv4, None);
    assert_eq!(url.host_ipv6, None);
}

#[test]
fn validate_error_messages() {
    let msg = |u: &str, allow: Option<&str>| validate_rpc_url(u, allow).err().unwrap().message();
    assert_eq!(msg("not a url", None), "parsing RPC URL: not a url");
    assert_eq!(msg("ftp://example.com", None), "unsupported RPC URL scheme: ftp");
    assert_eq!(msg("http://user:pw@example.com", None), "RPC URL must not include username/password");
    assert_eq!(msg("http://user@example.com", None), "RPC URL must not include username/password");
    assert_eq!(msg("http://node.local:8545", None), "RPC URL host is not allowed: node.local");
    assert_eq!(msg("http://10.0.0.7:8545", None), "RPC URL IP is not allowed: 10.0.0.7");
    assert_eq!(msg("http://0x7f000001/", None), "RPC URL IP is not allowed: 127.0.0.1");
    assert_eq!(
        msg("https://evil.com", Some("example.com")),
        "RPC URL host is not in allowlist: evil.com"
    );
}

#[test]
fn validate_with_allowlist() {
    assert!(validate_rpc_url("https://example.com", Some(" Example.com , ")).is_ok());
    assert!(validate_rpc_url("https://example.com", Some("example.com:443")).is_ok());
    assert!(validate_rpc_url("https://example.com", Some("example.com:80")).is_err());
    // An allowlist with no entry is no allowlist.
    assert!(validate_rpc_url("https://evil.com", Some(" , ,")).is_ok());
}

#[test]
fn reject_blocked_ipv6_hosts() {
    let msg = |u: &str| validate_rpc_url(u, None).err().unwrap().message();
    assert_eq!(msg("http://[::1]:8545"), "RPC URL IP is not allowed: [::1]");
    assert_eq!(msg("http://[fd00::1]/"), "RPC URL IP is not allowed: [fd00::1]");
    assert_eq!(msg("http://[fe80::1]/"), "RPC URL IP is not allowed: [fe80::1]");
    assert_eq!(msg("http://[ff02::1]/"), "RPC URL IP is not allowed: [ff02::1]");
    assert_eq!(msg("http://[::]/"), "RPC URL IP is not allowed: [::]");
    let url = validate_rpc_url("https://[2001:db8::1]:8545", None).ok().unwrap();
    assert_eq!(url.host_ipv6, Some([0x2001, 0xdb8, 0, 0, 0, 0, 0, 1]));
    assert_eq!(url.host_ipv4, None);
}

#[test]
fn parse_allowlist_entries() {
    assert_eq!(parse_allowlist_env(None), None);
    assert_eq!(parse_allowlist_env(Some("")), None);
    assert_eq!(parse_allowlist_env(Some(" ,\t, ")), None);
    assert_eq!(
        parse_allowlist_env(Some(" RPC.Example.com ,,node.io:8545,")),
        Some(vec!["rpc.example.com".to_string(), "node.io:8545".to_string()])
    );
}

#[test]
fn check_missing_port_and_host() {
    let parts = |host: Option<&str>, port: Option<u16>| UrlParts {
        serialization: "x".to_string(),
        scheme: "http".to_string(),
        username: String::new(),
        password: None,
        host: host.map(String::from),
        host_ipv4: None,
        host_ipv6: None,
        port,
    };
    let allow = Some(vec!["example.com".to_string()]);
    match check_rpc_url(parts(Some("example.com"), None), allow.clone()) {
        Err(RpcUrlError::MissingPort) => {}
        _ => panic!("expected a missing port"),
    }
    match check_rpc_url(parts(None, Some(80)), None) {
        Err(RpcUrlError::MissingHost) => {}
        _ => panic!("expected a missing host"),
    }
    assert!(check_rpc_url(parts(Some("example.com"), Some(80)), allow).is_ok());
}
