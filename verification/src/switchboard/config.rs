//! Switchboard endpoint and credential selection.
use vstd::prelude::*;
use crate::text::owned;
use crate::model::error::opt_view;

verus! {

/// Default Switchboard MCP HTTP endpoint (streamable).
pub const DEFAULT_SWITCHBOARD_URL: &'static str = "http://127.0.0.1:3847/mcp";

/// How to reach Switchboard.
#[derive(Debug, Clone)]
pub struct SwitchboardConfig {
    pub endpoint: String,
    pub auth_token: Option<String>,
}

/// The settings read from the environment, each `None` where unset.
pub struct SwitchboardEnv {
    pub awesometree_url: Option<String>,
    pub url: Option<String>,
    pub awesometree_token: Option<String>,
    pub token: Option<String>,
}

/// Endpoint: `AWESOMETREE_SWITCHBOARD_URL`, else `SWITCHBOARD_URL`, else the default.
pub open spec fn chosen_endpoint(env: SwitchboardEnv) -> Seq<char> {
    match (env.awesometree_url, env.url) {
        (Some(u), _) => u@,
        (None, Some(u)) => u@,
        (None, None) => DEFAULT_SWITCHBOARD_URL@,
    }
}

/// Token: `AWESOMETREE_SWITCHBOARD_TOKEN`, else `SWITCHBOARD_TOKEN`; an empty one counts as none.
pub open spec fn chosen_token(env: SwitchboardEnv) -> Option<Seq<char>> {
    let t = match (env.awesometree_token, env.token) {
        (Some(t), _) => Some(t@),
        (None, Some(t)) => Some(t@),
        (None, None) => None,
    };
    match t {
        Some(s) => if s.len() > 0 { Some(s) } else { None },
        None => None,
    }
}

impl SwitchboardConfig {
    /// The configuration that the environment selects.
    pub fn from_env_values(env: SwitchboardEnv) -> (r: Self)
        ensures
            r.endpoint@ == chosen_endpoint(env),
            opt_view(r.auth_token) == chosen_token(env),
    {
        let endpoint = match (env.awesometree_url, env.url) {
            (Some(u), _) => u,
            (None, Some(u)) => u,
            (None, None) => owned(DEFAULT_SWITCHBOARD_URL),
        };
        let token = match (env.awesometree_token, env.token) {
            (Some(t), _) => Some(t),
            (None, Some(t)) => Some(t),
            (None, None) => None,
        };
        let auth_token = match token {
            Some(s) => if s.as_str().unicode_len() > 0 { Some(s) } else { None },
            None => None,
        };
        SwitchboardConfig { endpoint, auth_token }
    }

    /// A configuration for `endpoint`, without a token.
    pub fn with_endpoint(endpoint: &str) -> (r: Self)
        ensures
            r.endpoint@ == endpoint@,
            r.auth_token is None,
    {
        SwitchboardConfig { endpoint: owned(endpoint), auth_token: None }
    }
}

/// The endpoint that the environment selects.
pub fn switchboard_endpoint(env: SwitchboardEnv) -> (r: String)
    ensures
        r@ == chosen_endpoint(env),
{
    SwitchboardConfig::from_env_values(env).endpoint
}

} // verus!
