//! In-memory stand-ins for the forge client and the result store, for
//! development and tests.
use vstd::prelude::*;
use std::collections::HashMap;
use crate::model::{Commit, Issue, Repo};

verus! {

/// A forge stand-in that serves fixed repositories, commits and issues.
pub struct MockGitService {
    pub repos: Vec<Repo>,
    pub commits: Vec<Commit>,
    pub issues: Vec<Issue>,
}

impl MockGitService {
    /// A stand-in with nothing to serve.
    pub fn new() -> (r: Self)
        ensures
            r.repos@.len() == 0,
            r.commits@.len() == 0,
            r.issues@.len() == 0,
    {
        MockGitService { repos: Vec::new(), commits: Vec::new(), issues: Vec::new() }
    }

    /// The stand-in serving `repos` as search results.
    pub fn with_repos(self, repos: Vec<Repo>) -> (r: Self)
        ensures
            r.repos@ == repos@,
            r.commits@ == self.commits@,
            r.issues@ == self.issues@,
    {
        MockGitService { repos, commits: self.commits, issues: self.issues }
    }

    /// The stand-in serving `commits` for every repository.
    pub fn with_commits(self, commits: Vec<Commit>) -> (r: Self)
        ensures
            r.repos@ == self.repos@,
            r.commits@ == commits@,
            r.issues@ == self.issues@,
    {
        MockGitService { repos: self.repos, commits, issues: self.issues }
    }

    /// The stand-in serving `issues` for every repository.
    pub fn with_issues(self, issues: Vec<Issue>) -> (r: Self)
        ensures
            r.repos@ == self.repos@,
            r.commits@ == self.commits@,
            r.issues@ == issues@,
    {
        MockGitService { repos: self.repos, commits: self.commits, issues }
    }
}

/// A store stand-in that records the keys of stored repositories.
pub struct MockStorageService {
    pub stored_repos: HashMap<String, ()>,
}

impl MockStorageService {
    /// A stand-in that has stored nothing.
    pub fn new() -> (r: Self)
        ensures
            r.stored_repos@ == Map::<String, ()>::empty(),
    {
        MockStorageService { stored_repos: HashMap::new() }
    }
}

/// A forge stand-in for development, serving what its fields hold.
pub struct TestGitService {
    pub repos: Vec<Repo>,
    pub commits: Vec<Commit>,
    pub issues: Vec<Issue>,
}

impl TestGitService {
    /// A stand-in with nothing to serve.
    pub fn new() -> (r: Self)
        ensures
            r.repos@.len() == 0,
            r.commits@.len() == 0,
            r.issues@.len() == 0,
    {
        TestGitService { repos: Vec::new(), commits: Vec::new(), issues: Vec::new() }
    }
}

/// A store stand-in for development.
pub struct TestStorageService {
    pub stored_repos: HashMap<String, ()>,
}

impl TestStorageService {
    /// A stand-in that has stored nothing.
    pub fn new() -> (r: Self)
        ensures
            r.stored_repos@ == Map::<String, ()>::empty(),
    {
        TestStorageService { stored_repos: HashMap::new() }
    }
}

/// The stored projection of a repository.
#[derive(Debug, Clone)]
pub struct RepoData {
    pub url: String,
    pub name: String,
    pub owner: String,
    pub language: String,
    pub stars: u64,
    pub forks: u64,
    pub open_issues: u64,
}

} // verus!
