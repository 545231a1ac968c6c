//! The enrichment state machine driven with scripted forge replies, and the
//! decisions of the clone-and-classify loop.

use repo_analytics::model::{Commit, CommitAuthor, CommitFile, CommitSummary, Issue, Owner, Repo};
use repo_analytics::pipeline::{FetchStage, ForgeReply, ForgeRequest, LanguageFetch};
use repo_analytics::services::{MockGitService, MockStorageService, TestGitService, TestStorageService};
use repo_analytics::probe::{clone_dir_name, clone_url, decide_probe, first_candidate, ProbeOutcome};

fn repo(owner: &str, name: &str) -> Repo {
    Repo {
        id: 7,
        name: name.to_string(),
        full_name: format!("{}/{}", owner, name),
        html_url: format!("https://github.com/{}/{}", owner, name),
        forks_count: 1,
        stargazers_count: 10,
        open_issues_count: 1,
        has_issues: true,
        language: Some("Rust".to_string()),
        owner: Owner { login: owner.to_string(), id: 1, html_url: String::new(), site_admin: false },
        created_at: Some("2024-01-10T00:00:00Z".to_string()),
        forks: Vec::new(),
        recent_commits: Vec::new(),
        issues: Vec::new(),
        commit_count: 0,
    }
}

fn commit(sha: &str) -> Commit {
    Commit {
        sha: sha.to_string(),
        url: String::new(),
        html_url: None,
        commit: CommitSummary {
            message: "m".to_string(),
            author: Some(CommitAuthor { name: None, email: None, date: Some("2024-02-01T00:00:00Z".to_string()) }),
            committer: None,
        },
        files: Vec::new(),
    }
}

fn issue(id: i64) -> Issue {
    Issue {
        id,
        number: id,
        title: "t".to_string(),
        body: None,
        state: "open".to_string(),
        html_url: None,
        created_at: String::new(),
        updated_at: String::new(),
    }
}

#[test]
fn search_request_clamps_the_limit() {
    let fetch = LanguageFetch::new("Rust", 0);
    match fetch.request() {
        ForgeRequest::SearchTop { language, limit } => {
            assert_eq!(language, "Rust");
            assert_eq!(limit, 1);
        }
        other => panic!("unexpected request {:?}", other),
    }
    assert_eq!(LanguageFetch::new("Rust", 200).limit, 100);
    assert_eq!(LanguageFetch::new("Rust", 10).limit, 10);
}

#[test]
fn failed_search_abandons_the_language() {
    let mut fetch = LanguageFetch::new("C", 10);
    fetch.advance(ForgeReply::Failed);
    assert!(fetch.is_abandoned());
    assert!(matches!(fetch.request(), ForgeRequest::Finished));
}

#[test]
fn empty_search_finishes_at_once() {
    let mut fetch = LanguageFetch::new("C", 10);
    fetch.advance(ForgeReply::Repos(Vec::new()));
    assert_eq!(fetch.stage, FetchStage::Done);
    assert!(!fetch.is_abandoned());
    assert!(fetch.into_repos().is_empty());
}

#[test]
fn full_run_enriches_in_phase_order() {
    let mut fetch = LanguageFetch::new("Rust", 10);
    let mut hit = repo("octocat", "repo-one");
    hit.commit_count = 99;
    fetch.advance(ForgeReply::Repos(vec![hit, repo("other", "repo-two")]));

    // phase 2, first repository: two commits listed, one detail fails
    match fetch.request() {
        ForgeRequest::RecentCommits { owner, name } => {
            assert_eq!(owner, "octocat");
            assert_eq!(name, "repo-one");
        }
        other => panic!("unexpected request {:?}", other),
    }
    fetch.advance(ForgeReply::Commits(vec![commit("abc123"), commit("def456")]));
    match fetch.request() {
        ForgeRequest::CommitDetail { sha, .. } => assert_eq!(sha, "abc123"),
        other => panic!("unexpected request {:?}", other),
    }
    let mut detailed = commit("abc123");
    detailed.files = vec![CommitFile {
        filename: "src/main.rs".to_string(),
        additions: 1,
        deletions: 1,
        changes: 2,
        status: "modified".to_string(),
    }];
    fetch.advance(ForgeReply::Commit(detailed));
    match fetch.request() {
        ForgeRequest::CommitDetail { sha, .. } => assert_eq!(sha, "def456"),
        other => panic!("unexpected request {:?}", other),
    }
    fetch.advance(ForgeReply::Failed);
    assert!(matches!(fetch.request(), ForgeRequest::OpenIssues { .. }));
    fetch.advance(ForgeReply::Issues(vec![issue(1), issue(2)]));

    // phase 2, second repository: commit listing fails, issues still fetched
    assert!(matches!(fetch.request(), ForgeRequest::RecentCommits { .. }));
    fetch.advance(ForgeReply::Failed);
    assert!(matches!(fetch.request(), ForgeRequest::OpenIssues { .. }));
    fetch.advance(ForgeReply::Failed);

    // phase 3: forks of both; the second fails
    assert!(matches!(fetch.request(), ForgeRequest::Forks { .. }));
    let mut fork = repo("forker", "repo-one");
    fork.forks = vec![repo("deeper", "repo-one")];
    fetch.advance(ForgeReply::Repos(vec![fork, repo("someone", "repo-one")]));
    assert!(matches!(fetch.request(), ForgeRequest::Forks { .. }));
    fetch.advance(ForgeReply::Failed);

    // phase 4: commits of each fork of the first repository
    match fetch.request() {
        ForgeRequest::ForkCommits { owner, .. } => assert_eq!(owner, "forker"),
        other => panic!("unexpected request {:?}", other),
    }
    fetch.advance(ForgeReply::Commits(vec![commit("f1"), commit("f2"), commit("f3")]));
    match fetch.request() {
        ForgeRequest::ForkCommits { owner, .. } => assert_eq!(owner, "someone"),
        other => panic!("unexpected request {:?}", other),
    }
    fetch.advance(ForgeReply::Failed);
    assert!(matches!(fetch.request(), ForgeRequest::Finished));

    let repos = fetch.into_repos();
    assert_eq!(repos.len(), 2);
    assert_eq!(repos[0].slug(), "octocat/repo-one");
    assert_eq!(repos[0].commit_count, 2);
    assert_eq!(repos[0].recent_commits.len(), 1);
    assert_eq!(repos[0].recent_commits[0].files[0].filename, "src/main.rs");
    assert_eq!(repos[0].issues.len(), 2);
    assert_eq!(repos[0].forks.len(), 2);
    assert!(repos[0].forks[0].forks.is_empty());
    assert_eq!(repos[0].forks[0].commit_count, 3);
    assert_eq!(repos[0].forks[0].recent_commits.len(), 3);
    assert_eq!(repos[0].forks[1].commit_count, 0);
    assert_eq!(repos[1].commit_count, 0);
    assert!(repos[1].recent_commits.is_empty());
    assert!(repos[1].issues.is_empty());
    assert!(repos[1].forks.is_empty());
}

#[test]
fn only_first_fifty_commits_get_details() {
    let mut fetch = LanguageFetch::new("Java", 10);
    fetch.advance(ForgeReply::Repos(vec![repo("o", "r")]));
    let listed: Vec<Commit> = (0..60).map(|k| commit(&format!("sha{}", k))).collect();
    fetch.advance(ForgeReply::Commits(listed));
    let mut details = 0;
    while let ForgeRequest::CommitDetail { sha, .. } = fetch.request() {
        assert_eq!(sha, format!("sha{}", details));
        fetch.advance(ForgeReply::Commit(commit(&sha)));
        details += 1;
    }
    assert_eq!(details, 50);
    assert_eq!(fetch.repos[0].commit_count, 60);
    assert_eq!(fetch.repos[0].recent_commits.len(), 50);
}

#[test]
fn only_first_twenty_forks_get_commits() {
    let mut fetch = LanguageFetch::new("C++", 10);
    fetch.advance(ForgeReply::Repos(vec![repo("o", "r")]));
    fetch.advance(ForgeReply::Failed);
    fetch.advance(ForgeReply::Failed);
    let forks: Vec<Repo> = (0..30).map(|k| repo(&format!("f{}", k), "r")).collect();
    fetch.advance(ForgeReply::Repos(forks));
    let mut fetched = 0;
    while let ForgeRequest::ForkCommits { .. } = fetch.request() {
        fetch.advance(ForgeReply::Commits(vec![commit("x")]));
        fetched += 1;
    }
    assert_eq!(fetched, 20);
    assert_eq!(fetch.repos[0].forks[19].commit_count, 1);
    assert_eq!(fetch.repos[0].forks[20].commit_count, 0);
}

#[test]
fn probe_keeps_the_first_source_tree() {
    assert_eq!(first_candidate(0), None);
    assert_eq!(first_candidate(3), Some(0));
    let d = decide_probe(0, 3, ProbeOutcome::CloneFailed);
    assert!(!d.accepted && !d.remove_tree);
    assert_eq!(d.next, Some(1));
    let d = decide_probe(1, 3, ProbeOutcome::Classified(false));
    assert!(!d.accepted && d.remove_tree);
    assert_eq!(d.next, Some(2));
    let d = decide_probe(2, 3, ProbeOutcome::AnalysisFailed);
    assert!(d.remove_tree);
    assert_eq!(d.next, None);
    let d = decide_probe(0, 3, ProbeOutcome::Classified(true));
    assert!(d.accepted && !d.remove_tree);
    assert_eq!(d.next, None);
}

#[test]
fn clone_names_use_language_and_slug() {
    let r = repo("octocat", "Repo-One");
    assert_eq!(clone_dir_name("C++", &r), "c++-Repo-One");
    assert_eq!(clone_dir_name("Rust", &r), "rust-Repo-One");
    assert_eq!(clone_url(&r), "https://github.com/octocat/Repo-One.git");
}

#[test]
fn mock_service_builders_fill_their_fields() {
    let mock = MockGitService::new()
        .with_repos(vec![repo("o", "r")])
        .with_commits(vec![commit("a"), commit("b")])
        .with_issues(vec![issue(3)]);
    assert_eq!(mock.repos.len(), 1);
    assert_eq!(mock.commits.len(), 2);
    assert_eq!(mock.issues[0].id, 3);
    assert!(MockStorageService::new().stored_repos.is_empty());
    assert!(TestGitService::new().repos.is_empty());
    assert!(TestStorageService::new().stored_repos.is_empty());
}
