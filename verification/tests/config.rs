use ai_vmm::config::{
    check_key, clean_explicit_disk, load_provider_settings, nonempty_env_value, not_configured_message,
    parse_provider, parse_provider_or_alias, resolve_disk_path, resolve_kernel_path, save_api_key, validate_key_len, AiProvider,
    Config, EnvOverrides, KeyError, SettingsError, MAX_KEY_LEN, MIN_KEY_LEN,
};

#[test]
fn rejects_empty_length() {
    assert_eq!(validate_key_len(0), Err(KeyError::Empty));
}

#[test]
fn rejects_short_length() {
    assert_eq!(validate_key_len(MIN_KEY_LEN - 1), Err(KeyError::TooShort));
}

#[test]
fn rejects_long_length() {
    assert_eq!(validate_key_len(MAX_KEY_LEN + 1), Err(KeyError::TooLong));
}

#[test]
fn accepts_in_range_length() {
    assert!(validate_key_len(MIN_KEY_LEN).is_ok());
    assert!(validate_key_len(MAX_KEY_LEN).is_ok());
}

#[test]
fn check_key_trims_surrounding_whitespace() {
    let cleaned = check_key("  sk-ant-example-key  \n").expect("valid padded key");
    assert_eq!(cleaned, "sk-ant-example-key");
}

#[test]
fn check_key_rejects_blank_input() {
    assert!(check_key("   \n\t ").is_err());
}

#[test]
fn check_key_counts_bytes() {
    // Four characters of two bytes each make eight bytes.
    assert_eq!(check_key("éééé"), Ok("éééé"));
    assert_eq!(check_key("ééé"), Err(KeyError::TooShort));
}

#[test]
fn selects_usable_value_from_env() {
    assert_eq!(nonempty_env_value(None), None);
    assert_eq!(nonempty_env_value(Some(String::new())), None);
    assert_eq!(nonempty_env_value(Some("   \n".to_string())), None);
    assert_eq!(
        nonempty_env_value(Some("  sk-ant-example  ".to_string())),
        Some("sk-ant-example".to_string())
    );
}

#[test]
fn parses_provider_names_and_aliases() {
    assert_eq!(parse_provider("anthropic"), Some(AiProvider::Anthropic));
    assert_eq!(parse_provider("  Anthropic "), Some(AiProvider::Anthropic));
    assert_eq!(parse_provider("openai"), Some(AiProvider::OpenAiCompatible));
    assert_eq!(parse_provider("OLLAMA"), Some(AiProvider::OpenAiCompatible));
    assert_eq!(parse_provider("vllm"), Some(AiProvider::OpenAiCompatible));
    assert_eq!(parse_provider("nonsense"), None);
}

#[test]
fn ai_provider_defaults_to_anthropic() {
    assert_eq!(AiProvider::default(), AiProvider::Anthropic);
}

#[test]
fn clean_explicit_disk_trims_and_drops_placeholders() {
    // A real path is trimmed and kept.
    assert_eq!(
        clean_explicit_disk(Some("  ./rootfs.ext4 ")),
        Some("./rootfs.ext4".to_string())
    );
    // Absent, blank or the literal "none" all mean "no disk given".
    assert_eq!(clean_explicit_disk(None), None);
    assert_eq!(clean_explicit_disk(Some("   ")), None);
    assert_eq!(clean_explicit_disk(Some("none")), None);
    assert_eq!(clean_explicit_disk(Some("NONE")), None);
}

fn no_overrides() -> EnvOverrides {
    EnvOverrides { api_key: None, provider: None, base_url: None, model: None }
}

#[test]
fn saved_key_is_the_trimmed_one_and_keeps_the_rest() {
    let stored = Config {
        model: Some("m".to_string()),
        ..Config::default()
    };
    let config = save_api_key("  sk-ant-example-key\n", Some(stored)).expect("valid key");
    assert_eq!(config.anthropic_api_key.as_deref(), Some("sk-ant-example-key"));
    assert_eq!(config.model.as_deref(), Some("m"));
    assert!(matches!(save_api_key("short", None), Err(KeyError::TooShort)));
    assert_eq!(
        save_api_key("sk-ant-example-key", None).expect("valid key").anthropic_api_key.as_deref(),
        Some("sk-ant-example-key")
    );
}

#[test]
fn anthropic_settings_need_an_acceptable_key() {
    let none = load_provider_settings(Config::default(), no_overrides(), None);
    assert!(matches!(none, Err(SettingsError::NotConfigured)));
    assert!(!not_configured_message().is_empty());

    let short = load_provider_settings(
        Config::default(),
        EnvOverrides { api_key: Some("tiny".to_string()), ..no_overrides() },
        None,
    );
    assert!(matches!(short, Err(SettingsError::Key(KeyError::TooShort))));

    let stored = Config {
        anthropic_api_key: Some("sk-ant-stored-key".to_string()),
        ..Config::default()
    };
    let settings = load_provider_settings(
        stored,
        EnvOverrides { api_key: Some(" sk-ant-env-key ".to_string()), ..no_overrides() },
        None,
    )
    .expect("settings");
    assert_eq!(settings.provider, AiProvider::Anthropic);
    assert_eq!(settings.api_key.as_deref(), Some("sk-ant-env-key"));
}

#[test]
fn a_local_server_needs_no_key() {
    let settings = load_provider_settings(
        Config::default(),
        EnvOverrides {
            provider: Some("ollama".to_string()),
            model: Some("llama3.1".to_string()),
            ..no_overrides()
        },
        None,
    )
    .expect("settings");
    assert_eq!(settings.provider, AiProvider::OpenAiCompatible);
    assert_eq!(settings.api_key, None);
    assert_eq!(settings.model.as_deref(), Some("llama3.1"));
    let unknown = load_provider_settings(
        Config::default(),
        EnvOverrides { provider: Some("nonsense".to_string()), ..no_overrides() },
        None,
    );
    assert_eq!(
        unknown.map(|_| ()).expect_err("unknown provider").message(),
        "AI_VMM_PROVIDER names an unknown provider: 'nonsense'"
    );
}

#[test]
fn the_hosted_provider_may_have_one_more_alias() {
    assert_eq!(parse_provider("cloud"), None);
    assert_eq!(parse_provider_or_alias("  Cloud ", Some(" cloud")), Some(AiProvider::Anthropic));
    assert_eq!(parse_provider_or_alias("cloud", None), None);
    assert_eq!(parse_provider_or_alias("", Some("  ")), None);
    assert_eq!(parse_provider_or_alias("ollama", Some("ollama")), Some(AiProvider::OpenAiCompatible));
    let settings = load_provider_settings(
        Config::default(),
        EnvOverrides {
            api_key: Some("sk-ant-env-key".to_string()),
            provider: Some("CLOUD".to_string()),
            ..no_overrides()
        },
        Some("cloud"),
    )
    .expect("settings");
    assert_eq!(settings.provider, AiProvider::Anthropic);
}

#[test]
fn each_settings_error_has_its_message() {
    let message = |error: SettingsError| error.message();
    assert_eq!(message(SettingsError::NotConfigured), not_configured_message());
    assert_eq!(message(SettingsError::Key(KeyError::TooLong)), "the API key is unreasonably long");
}

#[test]
fn paths_follow_their_precedence() {
    let env = Some("/env".to_string());
    let stored = Some("/stored".to_string());
    assert_eq!(
        resolve_disk_path(Some("/explicit"), env.clone(), stored.clone()).as_deref(),
        Some("/explicit")
    );
    assert_eq!(resolve_disk_path(Some("none"), env.clone(), stored.clone()).as_deref(), Some("/env"));
    assert_eq!(resolve_disk_path(None, Some("  ".to_string()), stored.clone()).as_deref(), Some("/stored"));
    assert_eq!(resolve_disk_path(None, None, None), None);
    assert_eq!(resolve_kernel_path(env, stored.clone()), "/env");
    assert_eq!(resolve_kernel_path(None, stored), "/stored");
    assert_eq!(resolve_kernel_path(None, None), "./vmlinux");
}
