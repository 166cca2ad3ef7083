use cli_hub::settings::resolve_override_path;
use cli_hub::config::{
    derive_mcp_path_from_override, get_app_config_path, get_client_a_mcp_path,
    get_client_a_settings_path, get_provider_config_path, sanitize_provider_name,
};

#[test]
fn derive_mcp_path_from_override_preserves_folder_name() {
    let derived = derive_mcp_path_from_override("/tmp/profile/.client_a")
        .expect("should derive path for nested dir");
    assert_eq!(derived, "/tmp/profile/.client_a.json");
}

#[test]
fn derive_mcp_path_from_override_handles_non_hidden_folder() {
    let derived = derive_mcp_path_from_override("/data/client_a-config")
        .expect("should derive path for standard dir");
    assert_eq!(derived, "/data/client_a-config.json");
}

#[test]
fn derive_mcp_path_from_override_supports_relative_rootless_dir() {
    let derived =
        derive_mcp_path_from_override("client_a").expect("should derive path for single segment");
    assert_eq!(derived, "client_a.json");
}

#[test]
fn derive_mcp_path_from_root_like_dir_returns_none() {
    assert!(derive_mcp_path_from_override("/").is_none());
}

#[test]
fn client_a_mcp_path_prefers_usable_override() {
    assert_eq!(
        get_client_a_mcp_path("/home/u", Some("/data/work/.client_a")),
        "/data/work/.client_a.json"
    );
    assert_eq!(get_client_a_mcp_path("/home/u", Some("/")), "/home/u/.client_a.json");
    assert_eq!(get_client_a_mcp_path("/home/u", None), "/home/u/.client_a.json");
}

#[test]
fn settings_path_prefers_standard_name() {
    assert_eq!(get_client_a_settings_path("/h/.client_a", true, true), "/h/.client_a/settings.json");
    assert_eq!(get_client_a_settings_path("/h/.client_a", false, true), "/h/.client_a/client_a.json");
    assert_eq!(get_client_a_settings_path("/h/.client_a", false, false), "/h/.client_a/settings.json");
}

#[test]
fn app_config_path_respects_override() {
    assert_eq!(get_app_config_path("/home/u", None), "/home/u/.cli-hub/config.json");
    assert_eq!(get_app_config_path("/home/u", Some("/custom")), "/custom/config.json");
}

#[test]
fn provider_names_are_sanitized_into_paths() {
    assert_eq!(sanitize_provider_name("My/Provider?*"), "my-provider--");
    assert_eq!(
        get_provider_config_path("/h/.client_a", "id-1", Some("My Prov")),
        "/h/.client_a/settings-my prov.json"
    );
    assert_eq!(
        get_provider_config_path("/h/.client_a", "ID-2", None),
        "/h/.client_a/settings-id-2.json"
    );
}

#[test]
fn override_paths_resolve_home_prefixes() {
    assert_eq!(resolve_override_path("~", "/home/u"), "/home/u");
    assert_eq!(resolve_override_path("~/cfg/dir", "/home/u"), "/home/u/cfg/dir");
    assert_eq!(resolve_override_path("~\\cfg", "/home/u"), "/home/u/cfg");
    assert_eq!(resolve_override_path("/abs/dir", "/home/u"), "/abs/dir");
    assert_eq!(resolve_override_path("relative", "/home/u"), "relative");
}
