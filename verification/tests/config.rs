use research_hub::config::{Config, Environment};

fn unset() -> Environment {
    Environment {
        home: Some("/home/reader".into()),
        user_profile: None,
        download_dir: None,
        provider_timeout_ms: None,
        max_parallel_providers: None,
        crossref_email: None,
        semantic_scholar_api_key: None,
        unpaywall_email: None,
        core_api_key: None,
        pubmed_api_key: None,
        google_books_api_key: None,
        base_api_key: None,
    }
}

#[test]
fn test_config_from_env_produces_valid_config() {
    let config = Config::from_values(&unset());
    assert!(config.max_parallel_providers > 0);
    assert!(config.provider_timeout_ms / 1000 > 0);
    assert!(!config.unpaywall_email.is_empty());
    assert!(!config.download_dir.is_empty());
}

#[test]
fn test_config_download_dir_has_papers_suffix() {
    let config = Config::from_values(&unset());
    assert!(config.download_dir.ends_with("Downloads/papers"));
}

#[test]
fn test_config_default_trait_delegates_to_from_env() {
    let a = Config::from_values(&unset());
    let b = Config::from_values(&unset());
    assert_eq!(a.max_parallel_providers, b.max_parallel_providers);
    assert_eq!(a.provider_timeout_ms, b.provider_timeout_ms);
    assert_eq!(a.unpaywall_email, b.unpaywall_email);
    assert_eq!(a.download_dir, b.download_dir);
}

#[test]
fn test_config_unpaywall_default_email() {
    let config = Config::from_values(&unset());
    assert_eq!(config.unpaywall_email, "user@example.com");
}

#[test]
fn test_config_optional_keys_absent() {
    let config = Config::from_values(&unset());
    assert!(config.crossref_email.is_none());
    assert!(config.semantic_scholar_api_key.is_none());
    assert!(config.core_api_key.is_none());
    assert!(config.pubmed_api_key.is_none());
    assert!(config.google_books_api_key.is_none());
    assert!(config.base_api_key.is_none());
}

#[test]
fn config_defaults_exact() {
    let config = Config::from_values(&unset());
    assert_eq!(config.download_dir, "/home/reader/Downloads/papers");
    assert_eq!(config.provider_timeout_ms, 30000);
    assert_eq!(config.max_parallel_providers, 5);
}

#[test]
fn config_home_falls_back_to_profile_then_current_directory() {
    let mut env = unset();
    env.home = None;
    env.user_profile = Some("C:/Users/r/".into());
    assert_eq!(Config::from_values(&env).download_dir, "C:/Users/r/Downloads/papers");
    env.user_profile = None;
    assert_eq!(Config::from_values(&env).download_dir, "./Downloads/papers");
}

#[test]
fn config_values_taken_from_environment() {
    let mut env = unset();
    env.download_dir = Some("/data/pdfs".into());
    env.provider_timeout_ms = Some(2500);
    env.max_parallel_providers = Some("12".into());
    env.unpaywall_email = Some("me@uni.edu".into());
    env.core_api_key = Some("k".into());
    let config = Config::from_values(&env);
    assert_eq!(config.download_dir, "/data/pdfs");
    assert_eq!(config.provider_timeout_ms, 2500);
    assert_eq!(config.max_parallel_providers, 12);
    assert_eq!(config.unpaywall_email, "me@uni.edu");
    assert_eq!(config.core_api_key, Some("k".to_string()));
}

#[test]
fn config_unparsable_parallelism_defaults_to_five() {
    let mut env = unset();
    env.max_parallel_providers = Some("many".into());
    assert_eq!(Config::from_values(&env).max_parallel_providers, 5);
}

#[test]
fn config_zero_or_empty_values_fall_back_to_defaults() {
    let mut env = unset();
    env.max_parallel_providers = Some("0".into());
    env.unpaywall_email = Some(String::new());
    env.download_dir = Some(String::new());
    env.provider_timeout_ms = Some(500);
    let config = Config::from_values(&env);
    assert_eq!(config.max_parallel_providers, 5);
    assert_eq!(config.unpaywall_email, "user@example.com");
    assert_eq!(config.download_dir, "/home/reader/Downloads/papers");
    assert_eq!(config.provider_timeout_ms, 30000);
    assert!(config.provider_timeout_ms / 1000 > 0);
}

#[test]
fn config_one_second_timeout_is_kept() {
    let mut env = unset();
    env.provider_timeout_ms = Some(1000);
    assert_eq!(Config::from_values(&env).provider_timeout_ms, 1000);
}
