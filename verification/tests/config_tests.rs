use resend_cli::config::{build_config, CommonArgs, Config, ConfigFile, Profile};
use resend_cli::types::OutputFormat;

#[test]
fn test_config_default() {
    let config = Config::default();
    assert!(config.api_key.is_none());
    assert_eq!(config.profile, "default");
    assert_eq!(config.format, OutputFormat::Table);
    assert!(!config.verbose);
}

#[test]
fn test_config_is_valid_with_key() {
    let config = Config {
        api_key: Some("re_test_123".to_string()),
        ..Default::default()
    };
    assert!(config.is_valid());
}

#[test]
fn test_config_is_invalid_without_key() {
    let config = Config::default();
    assert!(!config.is_valid());
}

#[test]
fn test_mask_key_short() {
    assert_eq!(Config::mask_key("abc"), "***");
    assert_eq!(Config::mask_key("12345678"), "********");
}

#[test]
fn test_mask_key_long() {
    assert_eq!(Config::mask_key("re_123456789"), "re_12345********");
}

#[test]
fn test_mask_key_empty() {
    assert_eq!(Config::mask_key(""), "");
}

#[test]
fn test_config_file_default() {
    let config_file = ConfigFile::default();
    assert!(config_file.profiles.is_empty());
}

#[test]
fn test_set_profile_appends_and_replaces() {
    let mut file = ConfigFile::default();
    Config::set_profile(&mut file, "work", "re_first");
    Config::set_profile(&mut file, "home", "re_home");
    Config::set_profile(&mut file, "work", "re_second");
    assert_eq!(file.profiles.len(), 2);
    assert_eq!(file.profiles[0].0, "work");
    assert_eq!(file.profiles[0].1.api_key.as_deref(), Some("re_second"));
    assert_eq!(file.profiles[1].0, "home");
    assert_eq!(file.profiles[1].1.api_key.as_deref(), Some("re_home"));
}

#[test]
fn test_list_profiles_in_order() {
    let mut file = ConfigFile::default();
    Config::set_profile(&mut file, "a", "k1");
    Config::set_profile(&mut file, "b", "k2");
    assert_eq!(Config::list_profiles(&file), vec!["a".to_string(), "b".to_string()]);
}

#[test]
fn test_resolve_env_key_overrides_stored() {
    let mut file = ConfigFile::default();
    Config::set_profile(&mut file, "default", "re_stored");
    let config = Config::resolve(
        None,
        None,
        None,
        false,
        None,
        Some("re_env".to_string()),
        &file,
    );
    assert_eq!(config.api_key.as_deref(), Some("re_env"));
    assert_eq!(config.profile, "default");
}

#[test]
fn test_resolve_stored_key_when_no_env() {
    let mut file = ConfigFile::default();
    Config::set_profile(&mut file, "work", "re_stored");
    let config = Config::resolve(Some("work"), None, None, true, None, None, &file);
    assert_eq!(config.api_key.as_deref(), Some("re_stored"));
    assert_eq!(config.profile, "work");
    assert!(config.verbose);
}

#[test]
fn test_resolve_env_profile_when_no_argument() {
    let file = ConfigFile::default();
    let config = Config::resolve(
        None,
        Some(OutputFormat::Json),
        Some("out.json"),
        false,
        Some("staging".to_string()),
        None,
        &file,
    );
    assert_eq!(config.profile, "staging");
    assert_eq!(config.format, OutputFormat::Json);
    assert_eq!(config.output.as_deref(), Some("out.json"));
    assert!(config.api_key.is_none());
}

#[test]
fn test_profile_default_is_empty() {
    let profile = Profile::default();
    assert!(profile.api_key.is_none());
}

#[test]
fn test_common_args_format() {
    let json_args = CommonArgs {
        json: true,
        output: None,
        profile: None,
        verbose: false,
    };
    assert_eq!(json_args.format(), OutputFormat::Json);
    let table_args = CommonArgs {
        json: false,
        output: None,
        profile: None,
        verbose: false,
    };
    assert_eq!(table_args.format(), OutputFormat::Table);
}

#[test]
fn test_build_config_uses_args_and_file() {
    let mut file = ConfigFile::default();
    Config::set_profile(&mut file, "ops", "re_ops");
    let args = CommonArgs {
        json: true,
        output: Some("result.json".to_string()),
        profile: Some("ops".to_string()),
        verbose: false,
    };
    let config = build_config(&args, None, None, &file);
    assert_eq!(config.profile, "ops");
    assert_eq!(config.api_key.as_deref(), Some("re_ops"));
    assert_eq!(config.format, OutputFormat::Json);
    assert_eq!(config.output.as_deref(), Some("result.json"));
}
