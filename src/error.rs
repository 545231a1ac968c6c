//! The library's error type.
use vstd::prelude::*;
use vstd::string::StringExecFns;

verus! {

/// What can go wrong in a run. Errors of the transport, the store and the
/// file system arrive here as their messages.
#[derive(Debug)]
pub enum AppError {
    Config(String),
    MissingGitHubToken,
    Http(String),
    Serialization(String),
    Io(String),
    GitHubApi(String),
    Git(String),
    Redis(String),
    NotImplemented,
}

/// The text of an error: a prefix naming its kind, then its message.
pub open spec fn error_text(e: AppError) -> Seq<char> {
    match e {
        AppError::Config(m) => "configuration error: "@ + m@,
        AppError::MissingGitHubToken => "missing GitHub token in configuration"@,
        AppError::Http(m) => "http client error: "@ + m@,
        AppError::Serialization(m) => "serialization error: "@ + m@,
        AppError::Io(m) => "io error: "@ + m@,
        AppError::GitHubApi(m) => "github api error: "@ + m@,
        AppError::Git(m) => "git operation error: "@ + m@,
        AppError::Redis(m) => "redis error: "@ + m@,
        AppError::NotImplemented => "feature not implemented yet"@,
    }
}

fn prefixed(prefix: &str, message: &String) -> (r: String)
    ensures
        r@ == prefix@ + message@,
{
    let mut s = String::from_str(prefix);
    s.append(message.as_str());
    s
}

impl AppError {
    /// The error's text, as it is shown to a user.
    pub fn message(&self) -> (r: String)
        ensures
            r@ == error_text(*self),
    {
        match self {
            AppError::Config(m) => prefixed("configuration error: ", m),
            AppError::MissingGitHubToken => String::from_str("missing GitHub token in configuration"),
            AppError::Http(m) => prefixed("http client error: ", m),
            AppError::Serialization(m) => prefixed("serialization error: ", m),
            AppError::Io(m) => prefixed("io error: ", m),
            AppError::GitHubApi(m) => prefixed("github api error: ", m),
            AppError::Git(m) => prefixed("git operation error: ", m),
            AppError::Redis(m) => prefixed("redis error: ", m),
            AppError::NotImplemented => String::from_str("feature not implemented yet"),
        }
    }
}

} // verus!
