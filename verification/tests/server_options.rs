use htmxology::server_options::{
    guess_base_url, EnvValue, ServerOptions, ServerOptionsFromEnvError, HTMXOLOGY_BASE_URL,
};

#[test]
fn options_from_env_value() {
    assert!(ServerOptions::from_env_value(EnvValue::NotPresent).unwrap().base_url.is_none());
    assert!(ServerOptions::from_env_value(EnvValue::Value(String::new())).unwrap().base_url.is_none());
    let options = ServerOptions::from_env_value(EnvValue::Value("http://example.com/app".to_string())).unwrap();
    assert_eq!(options.base_url.unwrap().to_string(), "http://example.com/app");
    let err = ServerOptions::from_env_value(EnvValue::NotUnicode).unwrap_err();
    assert_eq!(err.to_string(), "environment variable HTMXOLOGY_BASE_URL was not unicode");
    let err = ServerOptions::from_env_value(EnvValue::Value("http://exa mple".to_string())).unwrap_err();
    match &err {
        ServerOptionsFromEnvError::BaseUrl { name, url, .. } => {
            assert_eq!(*name, HTMXOLOGY_BASE_URL);
            assert_eq!(url, "http://exa mple");
        }
        _ => panic!("unexpected error"),
    }
    assert!(err
        .to_string()
        .starts_with("failed to parse the base URL from environment variable HTMXOLOGY_BASE_URL (was `http://exa mple`): "));
    assert!(ServerOptions::default().base_url.is_none());
}

#[test]
fn base_url_guesses() {
    assert_eq!(guess_base_url("192.168.1.5", false, 8080, None), "http://192.168.1.5:8080");
    assert_eq!(guess_base_url("0.0.0.0", true, 3000, None), "http://localhost:3000");
    assert_eq!(
        guess_base_url("0.0.0.0", true, 3000, Some(&vec!["10.0.0.2".to_string(), "fe80::1".to_string()])),
        "http://10.0.0.2:3000"
    );
    assert_eq!(guess_base_url("0.0.0.0", true, 80, Some(&vec![])), "http://localhost:80");
}
