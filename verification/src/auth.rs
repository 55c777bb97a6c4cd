//! The agent's stored settings and its login token.

use vstd::prelude::*;
use vstd::string::StringExecFns;
use crate::encoding::text_view;

verus! {

/// The agent's settings.
#[derive(Debug)]
pub struct Config {
    /// The token that the login gave.
    pub auth_token: Option<String>,
    /// Where the authorization service is reached.
    pub api_url: String,
    /// Where the relay is reached, if the settings say so.
    pub relay_url: Option<String>,
}

/// Where the authorization service is reached unless the settings say otherwise.
pub fn default_api_url() -> (r: String)
    ensures
        r@ == "http://localhost:3000"@,
{
    String::from_str("http://localhost:3000")
}

impl Default for Config {
    fn default() -> (r: Self)
        ensures
            r.auth_token is None,
            r.api_url@ == "http://localhost:3000"@,
            r.relay_url is None,
    {
        Config { auth_token: None, api_url: default_api_url(), relay_url: None }
    }
}

/// The login token in the settings, if the agent is logged in.
pub fn load_token(config: &Config) -> (r: Option<String>)
    ensures
        text_view(r) == text_view(config.auth_token),
{
    match &config.auth_token {
        Some(t) => Some(t.clone()),
        None => None,
    }
}

/// Puts a login token in the settings.
pub fn save_token(config: &mut Config, token: &str)
    ensures
        text_view(final(config).auth_token) == Some(token@),
        final(config).api_url == old(config).api_url,
        final(config).relay_url == old(config).relay_url,
{
    config.auth_token = Some(token.to_string());
}

/// Takes the login token out of the settings.
pub fn clear_token(config: &mut Config)
    ensures
        final(config).auth_token is None,
        final(config).api_url == old(config).api_url,
        final(config).relay_url == old(config).relay_url,
{
    config.auth_token = None;
}

/// Whether the settings hold a login token.
pub fn is_logged_in(config: &Config) -> (r: bool)
    ensures
        r == (config.auth_token is Some),
{
    config.auth_token.is_some()
}

} // verus!
