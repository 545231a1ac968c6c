//! Decoding of forge records, configuration, and error texts.

use repo_analytics::config::{ConfigSource, GitHubConfig, RedisConfig};
use repo_analytics::error::AppError;
use repo_analytics::json::{decode_commit_list, decode_search, Json};
use repo_analytics::model::{Commit, CommitFile, Owner, Repo};

fn s(v: &str) -> Json {
    Json::Str(v.to_string())
}

fn obj(members: Vec<(&str, Json)>) -> Json {
    Json::Object(members.into_iter().map(|(k, v)| (k.to_string(), v)).collect())
}

fn owner_json() -> Json {
    obj(vec![
        ("login", s("octocat")),
        ("id", Json::Int(1)),
        ("html_url", s("https://github.com/octocat")),
        ("site_admin", Json::Bool(false)),
    ])
}

fn repo_json() -> Json {
    obj(vec![
        ("id", Json::Int(42)),
        ("name", s("repo-one")),
        ("full_name", s("octocat/repo-one")),
        ("html_url", s("https://example.com/repo-one")),
        ("forks_count", Json::Int(5)),
        ("stargazers_count", Json::Int(100)),
        ("open_issues_count", Json::Int(-7)),
        ("language", s("Rust")),
        ("owner", owner_json()),
    ])
}

#[test]
fn owner_decodes_all_required_fields() {
    let owner = Owner::from_json(&owner_json()).expect("owner decodes");
    assert_eq!(owner.login, "octocat");
    assert_eq!(owner.id, 1);
    assert!(!owner.site_admin);
}

#[test]
fn owner_without_login_is_rejected() {
    let value = obj(vec![("id", Json::Int(1)), ("html_url", s("u")), ("site_admin", Json::Bool(true))]);
    assert!(matches!(Owner::from_json(&value), Err(AppError::Serialization(_))));
    assert!(matches!(Owner::from_json(&Json::Null), Err(AppError::Serialization(_))));
}

#[test]
fn repository_fills_defaults_for_optional_fields() {
    let repo = Repo::from_json(&repo_json()).expect("repository decodes");
    assert_eq!(repo.slug(), "octocat/repo-one");
    assert_eq!(repo.stargazers_count, 100);
    assert_eq!(repo.forks_count, 5);
    assert_eq!(repo.open_issues_count, 0);
    assert!(repo.has_issues);
    assert_eq!(repo.language.as_deref(), Some("Rust"));
    assert_eq!(repo.created_at, None);
    assert!(repo.forks.is_empty() && repo.recent_commits.is_empty() && repo.issues.is_empty());
    assert_eq!(repo.commit_count, 0);
}

#[test]
fn search_response_needs_an_items_array() {
    let root = obj(vec![("total_count", Json::Int(1)), ("items", Json::Array(vec![repo_json()]))]);
    let repos = decode_search(&root).expect("search decodes");
    assert_eq!(repos.len(), 1);
    assert_eq!(repos[0].full_name, "octocat/repo-one");
    assert!(decode_search(&obj(vec![("total_count", Json::Int(0))])).is_err());
}

#[test]
fn commit_file_counts_default_to_zero() {
    let file = CommitFile::from_json(&obj(vec![("filename", s("src/main.rs")), ("changes", Json::Fractional)]))
        .expect("file decodes");
    assert_eq!(file.filename, "src/main.rs");
    assert_eq!((file.additions, file.deletions, file.changes), (0, 0, 0));
    assert_eq!(file.status, "");
}

#[test]
fn commit_with_null_author_and_files() {
    let value = obj(vec![
        ("sha", s("abc123")),
        ("commit", obj(vec![("message", s("fix")), ("author", Json::Null)])),
        ("files", Json::Array(vec![obj(vec![("filename", s("a.rs")), ("additions", Json::Int(3))])])),
    ]);
    let commit = Commit::from_json(&value).expect("commit decodes");
    assert_eq!(commit.sha, "abc123");
    assert!(commit.commit.author.is_none());
    assert_eq!(commit.files.len(), 1);
    assert_eq!(commit.files[0].additions, 3);
    let list = decode_commit_list(&Json::Array(vec![value])).expect("list decodes");
    assert_eq!(list.len(), 1);
    assert!(decode_commit_list(&obj(vec![])).is_err());
}

#[test]
fn commit_with_bad_author_is_rejected() {
    let value = obj(vec![
        ("sha", s("abc123")),
        ("commit", obj(vec![("message", s("fix")), ("author", s("someone"))])),
    ]);
    assert!(Commit::from_json(&value).is_err());
}

struct MapSource(Vec<(&'static str, &'static str)>);

impl ConfigSource for MapSource {
    fn get(&self, key: &str) -> Option<String> {
        self.0.iter().find(|(k, _)| *k == key).map(|(_, v)| v.to_string())
    }
}

#[test]
fn config_uses_defaults_when_unset() {
    let source = MapSource(vec![]);
    let github = GitHubConfig::from_source(&source).expect("config");
    assert_eq!(github.token, None);
    assert_eq!(github.api_base, "https://api.github.com");
    assert!(matches!(github.require_token(), Err(AppError::MissingGitHubToken)));
    let redis = RedisConfig::from_source(&source).expect("config");
    assert_eq!(redis.url, "redis://127.0.0.1:6379");
}

#[test]
fn config_takes_configured_values() {
    let source = MapSource(vec![
        ("GITHUB_TOKEN", "SECRET-REDACTED"),
        ("GITHUB_API_BASE", "http://localhost:8080/"),
        ("REDIS_URL", "redis://cache:6379"),
    ]);
    let github = GitHubConfig::from_source(&source).expect("config");
    assert_eq!(github.require_token().ok(), Some("SECRET-REDACTED"));
    assert_eq!(github.api_base, "http://localhost:8080/");
    assert_eq!(RedisConfig::from_source(&source).expect("config").url, "redis://cache:6379");
}

#[test]
fn error_text_names_its_kind() {
    assert_eq!(AppError::Git("clone failed".to_string()).message(), "git operation error: clone failed");
    assert_eq!(AppError::MissingGitHubToken.message(), "missing GitHub token in configuration");
}
