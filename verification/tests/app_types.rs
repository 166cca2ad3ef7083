use std::str::FromStr;

use cli_hub::app_config::AppType;

#[test]
fn parse_known_apps_case_insensitive_and_trim() {
    assert!(matches!(AppType::from_str("client_a"), Ok(AppType::ClientA)));
    assert!(matches!(AppType::from_str("codex"), Ok(AppType::Codex)));
    assert!(matches!(AppType::from_str(" ClIeNt_a \n"), Ok(AppType::ClientA)));
    assert!(matches!(AppType::from_str("\tcoDeX\t"), Ok(AppType::Codex)));
}

#[test]
fn parse_unknown_app_returns_localized_error_message() {
    let err = AppType::from_str("unknown").unwrap_err();
    let msg = err.message();
    assert!(msg.contains("可选值") || msg.contains("Allowed"));
    assert!(msg.contains("unknown"));
}

#[test]
fn app_type_as_str_round_trips() {
    for app in [AppType::ClientA, AppType::Codex, AppType::Gemini] {
        assert!(matches!(AppType::from_str(app.as_str()), Ok(parsed) if parsed == app));
    }
}
