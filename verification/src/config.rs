//! Application settings, computed from the values of environment variables.

use crate::text::{ascii_lowercase, decimal_i64, eq_ignore_ascii_case, parse_i64, str_eq};
use vstd::prelude::*;

verus! {

/// The `SameSite` attribute of the session cookie.
#[derive(Clone, Copy, Debug, PartialEq, Eq, Structural)]
pub enum SameSiteConfig {
    Strict,
    Lax,
    /// The attribute value `None`: the cookie is sent with every request.
    Unrestricted,
}

impl SameSiteConfig {
    /// The setting that a name stands for: `strict` and `none`, also with a
    /// capital first letter, are `Strict` and `Unrestricted`; any other name
    /// is `Lax`.
    pub open spec fn of_name(v: Seq<char>) -> SameSiteConfig {
        if v == "strict"@ || v == "Strict"@ {
            SameSiteConfig::Strict
        } else if v == "none"@ || v == "None"@ {
            SameSiteConfig::Unrestricted
        } else {
            SameSiteConfig::Lax
        }
    }

    /// The setting that a name stands for.
    pub fn from_name(v: &str) -> (r: SameSiteConfig)
        ensures
            r == SameSiteConfig::of_name(v@),
    {
        if str_eq(v, "strict") || str_eq(v, "Strict") {
            SameSiteConfig::Strict
        } else if str_eq(v, "none") || str_eq(v, "None") {
            SameSiteConfig::Unrestricted
        } else {
            SameSiteConfig::Lax
        }
    }
}

/// How the session cookie is set.
#[derive(Clone, Debug, PartialEq, Eq)]
pub struct CookieConfig {
    pub secure: bool,
    pub http_only: bool,
    pub same_site: SameSiteConfig,
    pub max_age_secs: i64,
    pub path: String,
}

impl Default for CookieConfig {
    fn default() -> (r: Self)
        ensures
            !r.secure,
            r.http_only,
            r.same_site == SameSiteConfig::Lax,
            r.max_age_secs == 3600,
            r.path@ == "/"@,
    {
        CookieConfig {
            secure: false,
            http_only: true,
            same_site: SameSiteConfig::Lax,
            max_age_secs: 3600,
            path: "/".to_owned(),
        }
    }
}

/// The values of the environment variables that the settings are read from;
/// `None` stands for a variable that is not set.
#[derive(Clone, Debug)]
pub struct Environment {
    pub app_env: Option<String>,
    pub cookie_secure: Option<String>,
    pub cookie_http_only: Option<String>,
    pub cookie_samesite: Option<String>,
    pub cookie_max_age_secs: Option<String>,
    pub cookie_path: Option<String>,
    pub oidc_issuer_url: Option<String>,
    pub oidc_client_id: Option<String>,
    pub oidc_client_secret: Option<String>,
    pub oidc_redirect_uri: Option<String>,
    pub oidc_post_logout_redirect_uri: Option<String>,
    pub oidc_scopes: Option<String>,
    pub trust_data_list: Option<String>,
    pub trust_connect_list: Option<String>,
    pub agent_api_url: Option<String>,
    pub agent_model: Option<String>,
}

/// A required environment variable that is not set.
#[derive(Clone, Copy, Debug, PartialEq, Eq, Structural)]
pub enum MissingVariable {
    OidcIssuerUrl,
    OidcClientId,
    OidcClientSecret,
    OidcRedirectUri,
    OidcPostLogoutRedirectUri,
}

impl MissingVariable {
    /// The name of the variable.
    pub fn name(&self) -> (r: &'static str)
        ensures
            r@ == match self {
                MissingVariable::OidcIssuerUrl => "OIDC_ISSUER_URL"@,
                MissingVariable::OidcClientId => "OIDC_CLIENT_ID"@,
                MissingVariable::OidcClientSecret => "OIDC_CLIENT_SECRET"@,
                MissingVariable::OidcRedirectUri => "OIDC_REDIRECT_URI"@,
                MissingVariable::OidcPostLogoutRedirectUri => "OIDC_POST_LOGOUT_REDIRECT_URI"@,
            },
    {
        match self {
            MissingVariable::OidcIssuerUrl => "OIDC_ISSUER_URL",
            MissingVariable::OidcClientId => "OIDC_CLIENT_ID",
            MissingVariable::OidcClientSecret => "OIDC_CLIENT_SECRET",
            MissingVariable::OidcRedirectUri => "OIDC_REDIRECT_URI",
            MissingVariable::OidcPostLogoutRedirectUri => "OIDC_POST_LOGOUT_REDIRECT_URI",
        }
    }
}

/// Whether the name of an environment says production.
pub open spec fn production(app_env: Seq<char>) -> bool {
    app_env == "PROD"@ || app_env == "prod"@ || app_env == "Production"@ || app_env
        == "production"@
}

/// Whether a value says `true`, letters of ASCII in either case.
pub open spec fn truthy(v: Seq<char>) -> bool {
    ascii_lowercase(v) == ascii_lowercase("true"@)
}

/// The value of a variable, or `fallback` where it is not set.
pub open spec fn value_or(v: Option<String>, fallback: Seq<char>) -> Seq<char> {
    match v {
        Some(s) => s@,
        None => fallback,
    }
}

/// The first required variable that is not set.
pub open spec fn first_missing(env: Environment) -> Option<MissingVariable> {
    if env.oidc_issuer_url is None {
        Some(MissingVariable::OidcIssuerUrl)
    } else if env.oidc_client_id is None {
        Some(MissingVariable::OidcClientId)
    } else if env.oidc_client_secret is None {
        Some(MissingVariable::OidcClientSecret)
    } else if env.oidc_redirect_uri is None {
        Some(MissingVariable::OidcRedirectUri)
    } else if env.oidc_post_logout_redirect_uri is None {
        Some(MissingVariable::OidcPostLogoutRedirectUri)
    } else {
        None
    }
}

/// Whether the name of an environment says production.
pub fn is_production(app_env: &str) -> (r: bool)
    ensures
        r == production(app_env@),
{
    str_eq(app_env, "PROD") || str_eq(app_env, "prod") || str_eq(app_env, "Production") || str_eq(
        app_env,
        "production",
    )
}

/// A copy of the value of a variable, or `fallback` where it is not set.
fn owned_or(v: &Option<String>, fallback: &str) -> (r: String)
    ensures
        r@ == value_or(*v, fallback@),
{
    match v {
        Some(s) => s.clone(),
        None => fallback.to_owned(),
    }
}

impl CookieConfig {
    /// The cookie settings: the defaults, each replaced by what its variable
    /// says where that variable is set. A maximum age that is not a decimal
    /// integer is ignored.
    pub fn from_env(env: &Environment) -> (r: CookieConfig)
        ensures
            r.secure == match env.cookie_secure {
                Some(v) => truthy(v@),
                None => false,
            },
            r.http_only == match env.cookie_http_only {
                Some(v) => truthy(v@),
                None => true,
            },
            r.same_site == match env.cookie_samesite {
                Some(v) => SameSiteConfig::of_name(v@),
                None => SameSiteConfig::Lax,
            },
            r.max_age_secs == match env.cookie_max_age_secs {
                Some(v) => match decimal_i64(v@) {
                    Some(n) => n,
                    None => 3600,
                },
                None => 3600,
            },
            r.path@ == value_or(env.cookie_path, "/"@),
    {
        let mut cookie = CookieConfig::default();
        if let Some(v) = &env.cookie_secure {
            cookie.secure = eq_ignore_ascii_case(v.as_str(), "true");
        }
        if let Some(v) = &env.cookie_http_only {
            cookie.http_only = eq_ignore_ascii_case(v.as_str(), "true");
        }
        if let Some(v) = &env.cookie_samesite {
            cookie.same_site = SameSiteConfig::from_name(v.as_str());
        }
        if let Some(v) = &env.cookie_max_age_secs {
            if let Some(parsed) = parse_i64(v.as_str()) {
                cookie.max_age_secs = parsed;
            }
        }
        if let Some(v) = &env.cookie_path {
            cookie.path = v.clone();
        }
        cookie
    }
}

/// The settings of the application.
#[derive(Clone, Debug, PartialEq, Eq)]
pub struct AppConfig {
    pub oidc_issuer_url: String,
    pub oidc_client_id: String,
    pub oidc_client_secret: String,
    pub oidc_redirect_uri: String,
    pub oidc_post_logout_redirect_uri: String,
    pub oidc_scopes: String,
    pub cookie_config: CookieConfig,
    pub trust_data_list: String,
    pub trust_connect_list: String,
    pub agent_url: String,
    pub default_model: String,
    pub is_prod: bool,
}

impl AppConfig {
    /// The settings that an environment describes, or the first required
    /// variable that it does not set. The environment is production unless
    /// `APP_ENV` is set to another name.
    pub fn from_env(env: &Environment) -> (r: Result<AppConfig, MissingVariable>)
        ensures
            match r {
                Ok(c) => {
                    &&& first_missing(*env) is None
                    &&& c.oidc_issuer_url@ == env.oidc_issuer_url->0@
                    &&& c.oidc_client_id@ == env.oidc_client_id->0@
                    &&& c.oidc_client_secret@ == env.oidc_client_secret->0@
                    &&& c.oidc_redirect_uri@ == env.oidc_redirect_uri->0@
                    &&& c.oidc_post_logout_redirect_uri@ == env.oidc_post_logout_redirect_uri->0@
                    &&& c.oidc_scopes@ == value_or(env.oidc_scopes, "openid profile email groups"@)
                    &&& c.trust_data_list@ == value_or(env.trust_data_list, ""@)
                    &&& c.trust_connect_list@ == value_or(env.trust_connect_list, ""@)
                    &&& c.agent_url@ == value_or(
                        env.agent_api_url,
                        "http://localhost:11434/api/generate"@,
                    )
                    &&& c.default_model@ == value_or(env.agent_model, "llava:latest"@)
                    &&& c.is_prod == production(value_or(env.app_env, "PROD"@))
                    &&& c.cookie_config.secure == match env.cookie_secure {
                        Some(v) => truthy(v@),
                        None => false,
                    }
                    &&& c.cookie_config.http_only == match env.cookie_http_only {
                        Some(v) => truthy(v@),
                        None => true,
                    }
                    &&& c.cookie_config.same_site == match env.cookie_samesite {
                        Some(v) => SameSiteConfig::of_name(v@),
                        None => SameSiteConfig::Lax,
                    }
                    &&& c.cookie_config.max_age_secs == match env.cookie_max_age_secs {
                        Some(v) => match decimal_i64(v@) {
                            Some(n) => n,
                            None => 3600,
                        },
                        None => 3600,
                    }
                    &&& c.cookie_config.path@ == value_or(env.cookie_path, "/"@)
                },
                Err(e) => first_missing(*env) == Some(e),
            },
    {
        let app_env = owned_or(&env.app_env, "PROD");
        let is_prod = is_production(app_env.as_str());
        let cookie = CookieConfig::from_env(env);
        let oidc_issuer_url = match &env.oidc_issuer_url {
            Some(v) => v.clone(),
            None => { return Err(MissingVariable::OidcIssuerUrl); },
        };
        let oidc_client_id = match &env.oidc_client_id {
            Some(v) => v.clone(),
            None => { return Err(MissingVariable::OidcClientId); },
        };
        let oidc_client_secret = match &env.oidc_client_secret {
            Some(v) => v.clone(),
            None => { return Err(MissingVariable::OidcClientSecret); },
        };
        let oidc_redirect_uri = match &env.oidc_redirect_uri {
            Some(v) => v.clone(),
            None => { return Err(MissingVariable::OidcRedirectUri); },
        };
        let oidc_post_logout_redirect_uri = match &env.oidc_post_logout_redirect_uri {
            Some(v) => v.clone(),
            None => { return Err(MissingVariable::OidcPostLogoutRedirectUri); },
        };
        Ok(
            AppConfig {
                oidc_issuer_url,
                oidc_client_id,
                oidc_client_secret,
                oidc_redirect_uri,
                oidc_post_logout_redirect_uri,
                oidc_scopes: owned_or(&env.oidc_scopes, "openid profile email groups"),
                cookie_config: cookie,
                trust_data_list: owned_or(&env.trust_data_list, ""),
                trust_connect_list: owned_or(&env.trust_connect_list, ""),
                agent_url: owned_or(&env.agent_api_url, "http://localhost:11434/api/generate"),
                default_model: owned_or(&env.agent_model, "llava:latest"),
                is_prod,
            },
        )
    }
}

} // verus!
