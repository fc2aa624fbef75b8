use evm_debugger::settings::parse_cors_origins;

#[test]
fn cors_origins_absent_or_empty_allow_none() {
    assert_eq!(parse_cors_origins(None), None);
    assert_eq!(parse_cors_origins(Some("")), None);
    assert_eq!(parse_cors_origins(Some(" , ,")), None);
}

#[test]
fn cors_origins_are_trimmed_and_kept_in_order() {
    assert_eq!(
        parse_cors_origins(Some("http://localhost:8080,http://127.0.0.1:8080")),
        Some(vec!["http://localhost:8080".to_string(), "http://127.0.0.1:8080".to_string()])
    );
    assert_eq!(
        parse_cors_origins(Some("  https://a.example , ,https://b.example  ,")),
        Some(vec!["https://a.example".to_string(), "https://b.example".to_string()])
    );
}
