use gm::config::{
    is_production, AppConfig, CookieConfig, Environment, MissingVariable, SameSiteConfig,
};

fn empty() -> Environment {
    Environment {
        app_env: None,
        cookie_secure: None,
        cookie_http_only: None,
        cookie_samesite: None,
        cookie_max_age_secs: None,
        cookie_path: None,
        oidc_issuer_url: None,
        oidc_client_id: None,
        oidc_client_secret: None,
        oidc_redirect_uri: None,
        oidc_post_logout_redirect_uri: None,
        oidc_scopes: None,
        trust_data_list: None,
        trust_connect_list: None,
        agent_api_url: None,
        agent_model: None,
    }
}

fn required() -> Environment {
    let mut env = empty();
    env.oidc_issuer_url = Some("https://id.example".to_string());
    env.oidc_client_id = Some("client".to_string());
    env.oidc_client_secret = Some("SECRET-REDACTED".to_string());
    env.oidc_redirect_uri = Some("https://app.example/callback".to_string());
    env.oidc_post_logout_redirect_uri = Some("https://app.example/".to_string());
    env
}

fn some(s: &str) -> Option<String> {
    Some(s.to_string())
}

#[test]
fn the_default_cookie_is_http_only_lax_and_lives_an_hour() {
    let c = CookieConfig::default();
    assert_eq!(
        c,
        CookieConfig {
            secure: false,
            http_only: true,
            same_site: SameSiteConfig::Lax,
            max_age_secs: 3600,
            path: "/".to_string(),
        }
    );
    assert_eq!(CookieConfig::from_env(&empty()), c);
}

#[test]
fn cookie_variables_replace_the_defaults() {
    let mut env = empty();
    env.cookie_secure = some("TRUE");
    env.cookie_http_only = some("no");
    env.cookie_samesite = some("Strict");
    env.cookie_max_age_secs = some("-60");
    env.cookie_path = some("/app");
    assert_eq!(
        CookieConfig::from_env(&env),
        CookieConfig {
            secure: true,
            http_only: false,
            same_site: SameSiteConfig::Strict,
            max_age_secs: -60,
            path: "/app".to_string(),
        }
    );
}

#[test]
fn a_maximum_age_that_is_no_integer_is_ignored() {
    for bad in ["", "1h", "3.5", " 10", "9223372036854775808"] {
        let mut env = empty();
        env.cookie_max_age_secs = some(bad);
        assert_eq!(CookieConfig::from_env(&env).max_age_secs, 3600);
    }
}

#[test]
fn same_site_names() {
    assert_eq!(SameSiteConfig::from_name("strict"), SameSiteConfig::Strict);
    assert_eq!(SameSiteConfig::from_name("Strict"), SameSiteConfig::Strict);
    assert_eq!(SameSiteConfig::from_name("none"), SameSiteConfig::Unrestricted);
    assert_eq!(SameSiteConfig::from_name("None"), SameSiteConfig::Unrestricted);
    assert_eq!(SameSiteConfig::from_name("lax"), SameSiteConfig::Lax);
    assert_eq!(SameSiteConfig::from_name("STRICT"), SameSiteConfig::Lax);
    assert_eq!(SameSiteConfig::from_name(""), SameSiteConfig::Lax);
}

#[test]
fn production_is_named_in_four_ways() {
    for name in ["PROD", "prod", "Production", "production"] {
        assert!(is_production(name));
    }
    for name in ["DEV", "Prod", "PRODUCTION", "", "prod "] {
        assert!(!is_production(name));
    }
}

#[test]
fn settings_with_defaults() {
    let c = AppConfig::from_env(&required()).unwrap();
    assert_eq!(
        c,
        AppConfig {
            oidc_issuer_url: "https://id.example".to_string(),
            oidc_client_id: "client".to_string(),
            oidc_client_secret: "SECRET-REDACTED".to_string(),
            oidc_redirect_uri: "https://app.example/callback".to_string(),
            oidc_post_logout_redirect_uri: "https://app.example/".to_string(),
            oidc_scopes: "openid profile email groups".to_string(),
            cookie_config: CookieConfig::default(),
            trust_data_list: String::new(),
            trust_connect_list: String::new(),
            agent_url: "http://localhost:11434/api/generate".to_string(),
            default_model: "llava:latest".to_string(),
            is_prod: true,
        }
    );
}

#[test]
fn settings_from_variables() {
    let mut env = required();
    env.app_env = some("DEV");
    env.oidc_scopes = some("openid");
    env.trust_data_list = some("a,b");
    env.trust_connect_list = some("c");
    env.agent_api_url = some("http://agent:8000");
    env.agent_model = some("m1");
    env.cookie_samesite = some("none");
    let c = AppConfig::from_env(&env).unwrap();
    assert!(!c.is_prod);
    assert_eq!(c.oidc_scopes, "openid");
    assert_eq!(c.trust_data_list, "a,b");
    assert_eq!(c.trust_connect_list, "c");
    assert_eq!(c.agent_url, "http://agent:8000");
    assert_eq!(c.default_model, "m1");
    assert_eq!(c.cookie_config.same_site, SameSiteConfig::Unrestricted);
}

#[test]
fn the_first_missing_variable_is_named() {
    assert_eq!(AppConfig::from_env(&empty()), Err(MissingVariable::OidcIssuerUrl));
    let mut env = required();
    env.oidc_post_logout_redirect_uri = None;
    assert_eq!(AppConfig::from_env(&env), Err(MissingVariable::OidcPostLogoutRedirectUri));
    env.oidc_client_secret = None;
    assert_eq!(AppConfig::from_env(&env), Err(MissingVariable::OidcClientSecret));
    env.oidc_redirect_uri = None;
    env.oidc_client_id = None;
    assert_eq!(AppConfig::from_env(&env), Err(MissingVariable::OidcClientId));
    env.oidc_client_id = some("x");
    env.oidc_client_secret = some("y");
    assert_eq!(AppConfig::from_env(&env), Err(MissingVariable::OidcRedirectUri));
    assert_eq!(MissingVariable::OidcIssuerUrl.name(), "OIDC_ISSUER_URL");
    assert_eq!(MissingVariable::OidcClientId.name(), "OIDC_CLIENT_ID");
    assert_eq!(MissingVariable::OidcClientSecret.name(), "OIDC_CLIENT_SECRET");
    assert_eq!(MissingVariable::OidcRedirectUri.name(), "OIDC_REDIRECT_URI");
    assert_eq!(
        MissingVariable::OidcPostLogoutRedirectUri.name(),
        "OIDC_POST_LOGOUT_REDIRECT_URI"
    );
}
