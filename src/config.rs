//! Configuration of the forge client and the result store.
use vstd::prelude::*;
use vstd::string::StringExecFns;
use crate::error::AppError;

verus! {

/// A source of configuration values by key, such as the process
/// environment. Nothing is assumed of what it returns.
pub trait ConfigSource {
    fn get(&self, key: &str) -> Option<String>;
}

/// The forge API used when none is configured.
pub const DEFAULT_API_BASE: &'static str = "https://api.github.com";

/// The user agent sent when none is configured.
pub const DEFAULT_USER_AGENT: &'static str = "ecs160-hw1-github-client/0.1";

/// The store used when none is configured.
pub const DEFAULT_REDIS_URL: &'static str = "redis://127.0.0.1:6379";

/// Settings of the forge client.
#[derive(Debug, Clone)]
pub struct GitHubConfig {
    /// Bearer credential; requests go unauthenticated without it.
    pub token: Option<String>,
    pub api_base: String,
    pub user_agent: String,
}

/// `value` when it is set, else `default`.
pub open spec fn or_default(value: Option<String>, default: Seq<char>) -> Seq<char> {
    match value {
        Some(v) => v@,
        None => default,
    }
}

fn value_or(value: Option<String>, default: &str) -> (r: String)
    ensures
        r@ == or_default(value, default@),
{
    match value {
        Some(v) => v,
        None => String::from_str(default),
    }
}

impl GitHubConfig {
    /// The settings from the three configured values, with defaults for the
    /// API base and the user agent.
    pub fn from_values(
        token: Option<String>,
        api_base: Option<String>,
        user_agent: Option<String>,
    ) -> (r: Self)
        ensures
            r.token == token,
            r.api_base@ == or_default(api_base, DEFAULT_API_BASE@),
            r.user_agent@ == or_default(user_agent, DEFAULT_USER_AGENT@),
    {
        GitHubConfig {
            token,
            api_base: value_or(api_base, DEFAULT_API_BASE),
            user_agent: value_or(user_agent, DEFAULT_USER_AGENT),
        }
    }

    /// The settings read from `GITHUB_TOKEN`, `GITHUB_API_BASE` and
    /// `GITHUB_USER_AGENT` of the source. Reading never fails.
    pub fn from_source<S: ConfigSource>(source: &S) -> (r: Result<Self, AppError>)
        ensures
            r is Ok,
    {
        let token = source.get("GITHUB_TOKEN");
        let api_base = source.get("GITHUB_API_BASE");
        let user_agent = source.get("GITHUB_USER_AGENT");
        Ok(Self::from_values(token, api_base, user_agent))
    }

    /// The token, for callers that need an authenticated client.
    pub fn require_token(&self) -> (r: Result<&str, AppError>)
        ensures
            match self.token {
                Some(t) => r is Ok && r->Ok_0@ == t@,
                None => r matches Err(AppError::MissingGitHubToken),
            },
    {
        match &self.token {
            Some(t) => Ok(t.as_str()),
            None => Err(AppError::MissingGitHubToken),
        }
    }
}

/// Settings of the result store.
#[derive(Debug, Clone)]
pub struct RedisConfig {
    pub url: String,
}

impl RedisConfig {
    /// The settings from the configured address, with a local default.
    pub fn from_values(url: Option<String>) -> (r: Self)
        ensures
            r.url@ == or_default(url, DEFAULT_REDIS_URL@),
    {
        RedisConfig { url: value_or(url, DEFAULT_REDIS_URL) }
    }

    /// The settings read from `REDIS_URL` of the source. Reading never fails.
    pub fn from_source<S: ConfigSource>(source: &S) -> (r: Result<Self, AppError>)
        ensures
            r is Ok,
    {
        let url = source.get("REDIS_URL");
        Ok(Self::from_values(url))
    }
}

} // verus!
