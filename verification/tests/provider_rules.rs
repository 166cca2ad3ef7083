use cli_hub::app_config::AppType;
use cli_hub::errors::AppError;
use cli_hub::jsonio::parse_json;
use cli_hub::provider::{
    ClientAModelNormalizer, CredentialsExtractor, GeminiAuthDetector, GeminiAuthType, Provider,
    ProviderManager, ProviderService, ProviderSortUpdate, ProviderValidator, UsageScript,
};

fn provider_from_json(id: &str, name: &str, settings: &str) -> Provider {
    let value = parse_json(settings).expect("settings json");
    Provider::with_id(id.to_string(), name.to_string(), value, None)
}

#[test]
fn mod_validate_provider_settings_rejects_missing_auth() {
    let provider = provider_from_json(
        "codex",
        "Codex",
        "{ \"config\": \"base_url = \\\"https://example.com\\\"\" }",
    );
    let err = ProviderValidator::validate_provider_settings(&AppType::Codex, &provider)
        .expect_err("missing auth should be rejected");
    assert!(
        err.message().contains("auth"),
        "expected auth error, got {}",
        err.message()
    );
}

#[test]
fn provider_validate_provider_settings_rejects_missing_auth() {
    let provider = provider_from_json(
        "codex",
        "Codex",
        "{ \"config\": \"base_url = \\\"https://example.com\\\"\" }",
    );
    let err = ProviderValidator::validate_provider_settings(&AppType::Codex, &provider)
        .expect_err("missing auth should be rejected");
    assert!(
        err.message().contains("auth"),
        "expected auth error, got {}",
        err.message()
    );
}

#[test]
fn mod_extract_credentials_returns_expected_values() {
    let provider = provider_from_json(
        "client_a",
        "ClientA",
        "{ \"env\": { \"ANTHROPIC_AUTH_TOKEN\": \"token\", \"ANTHROPIC_BASE_URL\": \"https://client_a.example\" } }",
    );
    let (api_key, base_url) =
        CredentialsExtractor::extract_credentials(&provider, &AppType::ClientA).unwrap();
    assert_eq!(api_key, "token");
    assert_eq!(base_url, "https://client_a.example");
}

#[test]
fn provider_extract_credentials_returns_expected_values() {
    let provider = provider_from_json(
        "client_a",
        "ClientA",
        "{ \"env\": { \"ANTHROPIC_AUTH_TOKEN\": \"token\", \"ANTHROPIC_BASE_URL\": \"https://client_a.example\" } }",
    );
    let (api_key, base_url) =
        CredentialsExtractor::extract_credentials(&provider, &AppType::ClientA).unwrap();
    assert_eq!(api_key, "token");
    assert_eq!(base_url, "https://client_a.example");
}

#[test]
fn extract_credentials_reads_codex_base_url_from_config_text() {
    let provider = provider_from_json(
        "codex",
        "Codex",
        "{ \"auth\": { \"OPENAI_API_KEY\": \"codex-key\" }, \"config\": \"base_url = \\\"https://codex.example\\\"\" }",
    );
    let (api_key, base_url) =
        CredentialsExtractor::extract_credentials(&provider, &AppType::Codex).unwrap();
    assert_eq!(api_key, "codex-key");
    assert_eq!(base_url, "https://codex.example");
}

#[test]
fn switch_provider_missing_provider_returns_error() {
    let mut mgr = ProviderManager::new();
    mgr.current = "does-not-exist".to_string();

    let err = ProviderService::switch(&mut mgr, "missing-provider")
        .expect_err("switching to a missing provider should fail");
    assert!(err.message().contains("不存在"), "unexpected: {}", err.message());
}

#[test]
fn provider_service_switch_missing_provider_returns_error() {
    let mut mgr = ProviderManager::new();
    mgr.current = "does-not-exist".to_string();

    let err = ProviderService::switch(&mut mgr, "missing-provider")
        .expect_err("switching to a missing provider should fail");
    assert!(err.message().contains("不存在"), "unexpected: {}", err.message());
}

#[test]
fn provider_service_delete_current_provider_returns_error() {
    let mut mgr = ProviderManager::new();
    mgr.current = "keep".to_string();
    let provider = provider_from_json(
        "keep",
        "Keep",
        "{ \"env\": { \"ANTHROPIC_API_KEY\": \"keep-key\" } }",
    );
    match ProviderService::add(&mut mgr, &AppType::ClientA, provider) {
        Ok(_) => {}
        Err(e) => panic!("adding should succeed: {}", e.message()),
    }

    let err = ProviderService::delete(&mut mgr, "keep")
        .expect_err("deleting current provider should fail");
    match err {
        AppError::Message(msg) => assert!(
            msg.contains("不能删除当前正在使用的供应商")
                || msg.contains("无法删除当前正在使用的供应商"),
            "unexpected message: {msg}"
        ),
        other => panic!("unexpected error: {}", other.message()),
    }
}

#[test]
fn usage_script_interval_is_bounded() {
    let ok = UsageScript { code: String::new(), auto_query_interval: Some(1440) };
    assert!(ProviderValidator::validate_usage_script(&ok).is_ok());
    let too_big = UsageScript { code: String::new(), auto_query_interval: Some(1441) };
    assert!(ProviderValidator::validate_usage_script(&too_big).is_err());
}

#[test]
fn gemini_auth_detection_reads_name_site_and_base_url() {
    let official = provider_from_json("g", "Google Gemini", "{}");
    assert_eq!(
        GeminiAuthDetector::detect_gemini_auth_type(&official),
        GeminiAuthType::GoogleOfficial
    );
    let partner = provider_from_json(
        "p",
        "Some PackyCode Mirror",
        "{}",
    );
    assert_eq!(
        GeminiAuthDetector::detect_gemini_auth_type(&partner),
        GeminiAuthType::Packycode
    );
    let by_env = provider_from_json(
        "e",
        "Plain",
        "{ \"env\": { \"GOOGLE_GEMINI_BASE_URL\": \"https://api.packyapi.dev\" } }",
    );
    assert_eq!(
        GeminiAuthDetector::detect_gemini_auth_type(&by_env),
        GeminiAuthType::Packycode
    );
    let generic = provider_from_json("x", "Plain", "{}");
    assert_eq!(
        GeminiAuthDetector::detect_gemini_auth_type(&generic),
        GeminiAuthType::Generic
    );
}

#[test]
fn client_a_model_normalization_fills_defaults_and_drops_legacy_key() {
    let mut value = parse_json(
        "{ \"env\": { \"ANTHROPIC_MODEL\": \"m-big\", \"ANTHROPIC_SMALL_FAST_MODEL\": \"m-small\" } }",
    )
    .expect("json");
    let changed = ClientAModelNormalizer::normalize_client_a_models_in_value(&mut value);
    assert!(changed);
    let text = cli_hub::jsonio::render_json_compact(&value);
    assert!(text.contains("\"ANTHROPIC_DEFAULT_HAIKU_MODEL\":\"m-small\""));
    assert!(text.contains("\"ANTHROPIC_DEFAULT_SONNET_MODEL\":\"m-big\""));
    assert!(text.contains("\"ANTHROPIC_DEFAULT_OPUS_MODEL\":\"m-big\""));
    assert!(!text.contains("ANTHROPIC_SMALL_FAST_MODEL"));
}

#[test]
fn update_sort_order_last_update_wins_and_ignores_unknown_ids() {
    let a = provider_from_json("alpha", "Alpha", "{\"env\":{\"X\":\"1\"}}");
    let b = provider_from_json("beta", "Beta", "{\"env\":{\"X\":\"2\"}}");
    let mut mgr = ProviderManager {
        providers: vec![a, b],
        current: String::new(),
    };
    let updates = vec![
        ProviderSortUpdate { id: "alpha".to_string(), sort_index: 5 },
        ProviderSortUpdate { id: "beta".to_string(), sort_index: 2 },
        ProviderSortUpdate { id: "ghost".to_string(), sort_index: 7 },
        ProviderSortUpdate { id: "alpha".to_string(), sort_index: 9 },
    ];
    assert!(ProviderService::update_sort_order(&mut mgr, &updates));
    assert_eq!(mgr.providers[0].sort_index, Some(9));
    assert_eq!(mgr.providers[1].sort_index, Some(2));
    assert_eq!(mgr.providers.len(), 2);
}
