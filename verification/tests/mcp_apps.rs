use cli_hub::deeplink::parse_mcp_apps;

#[test]
fn mcp_test_parse_mcp_apps() {
    let apps = parse_mcp_apps("client_a,codex").unwrap();
    assert!(apps.client_a);
    assert!(apps.codex);
    assert!(!apps.gemini);

    let apps = parse_mcp_apps("gemini").unwrap();
    assert!(!apps.client_a);
    assert!(!apps.codex);
    assert!(apps.gemini);

    let err = parse_mcp_apps("invalid").unwrap_err();
    assert!(err.message().contains("Invalid app"));
}

#[test]
fn deeplink_test_parse_mcp_apps() {
    let apps = parse_mcp_apps("client_a,codex").unwrap();
    assert!(apps.client_a);
    assert!(apps.codex);
    assert!(!apps.gemini);

    let apps = parse_mcp_apps("gemini").unwrap();
    assert!(!apps.client_a);
    assert!(!apps.codex);
    assert!(apps.gemini);

    let err = parse_mcp_apps("invalid").unwrap_err();
    assert!(err.message().contains("Invalid app"));
}

#[test]
fn mcp_apps_accepts_whitespace_between_names() {
    let apps = parse_mcp_apps(" client_a , gemini ").unwrap();
    assert!(apps.client_a);
    assert!(!apps.codex);
    assert!(apps.gemini);
}
