//! Repository, commit and issue records as received from the forge.
use vstd::prelude::*;

verus! {

/// The account that owns a repository.
#[derive(Debug, Clone)]
pub struct Owner {
    pub login: String,
    pub id: i64,
    pub html_url: String,
    pub site_admin: bool,
}

/// Author or committer information attached to a commit.
#[derive(Debug, Clone)]
pub struct CommitAuthor {
    pub name: Option<String>,
    pub email: Option<String>,
    /// Timestamp in RFC 3339 form, e.g. `2024-01-10T00:00:00Z`.
    pub date: Option<String>,
}

/// The message and people of a commit.
#[derive(Debug, Clone)]
pub struct CommitSummary {
    pub message: String,
    pub author: Option<CommitAuthor>,
    pub committer: Option<CommitAuthor>,
}

/// One file touched by a commit, with its line counts.
#[derive(Debug, Clone)]
pub struct CommitFile {
    pub filename: String,
    pub additions: i64,
    pub deletions: i64,
    pub changes: i64,
    pub status: String,
}

/// A commit; `files` is filled only for commits fetched with full detail.
#[derive(Debug, Clone)]
pub struct Commit {
    pub sha: String,
    pub url: String,
    pub html_url: Option<String>,
    pub commit: CommitSummary,
    pub files: Vec<CommitFile>,
}

/// An open issue of a repository.
#[derive(Debug, Clone)]
pub struct Issue {
    pub id: i64,
    pub number: i64,
    pub title: String,
    pub body: Option<String>,
    pub state: String,
    pub html_url: Option<String>,
    pub created_at: String,
    pub updated_at: String,
}

/// A repository. The last four fields are derived: they start empty and are
/// filled by enrichment. `forks` holds forks of this repository, whose own
/// `forks` stay empty.
#[derive(Debug)]
pub struct Repo {
    pub id: i64,
    pub name: String,
    pub full_name: String,
    pub html_url: String,
    pub forks_count: u64,
    pub stargazers_count: u64,
    pub open_issues_count: u64,
    pub has_issues: bool,
    pub language: Option<String>,
    pub owner: Owner,
    pub created_at: Option<String>,
    pub forks: Vec<Repo>,
    pub recent_commits: Vec<Commit>,
    pub issues: Vec<Issue>,
    pub commit_count: u64,
}

/// `owner/name`, the identifier of a repository on the forge.
pub open spec fn slug_of(repo: Repo) -> Seq<char> {
    repo.owner.login@ + "/"@ + repo.name@
}

impl Repo {
    /// The repository's slug, `owner/name`.
    pub fn slug(&self) -> (r: String)
        ensures
            r@ == slug_of(*self),
    {
        let mut s = self.owner.login.clone();
        s.append("/");
        s.append(self.name.as_str());
        s
    }
}

} // verus!
