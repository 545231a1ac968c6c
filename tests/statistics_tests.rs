//! Statistics computed over repository records, with no network access.

use repo_analytics::model::{Commit, CommitAuthor, CommitFile, CommitSummary, Issue, Owner, Repo};
use repo_analytics::stats::{LanguageReport, StatsCalculator};

fn create_test_owner(login: &str, id: i64) -> Owner {
    Owner {
        login: login.to_string(),
        id,
        html_url: format!("https://github.com/{}", login),
        site_admin: false,
    }
}

fn create_test_repo(name: &str, owner_login: &str, stars: u64, forks: u64, open_issues: u64) -> Repo {
    Repo {
        id: 1,
        name: name.to_string(),
        full_name: format!("{}/{}", owner_login, name),
        html_url: format!("https://github.com/{}/{}", owner_login, name),
        forks_count: forks,
        stargazers_count: stars,
        open_issues_count: open_issues,
        has_issues: true,
        language: Some("Rust".to_string()),
        owner: create_test_owner(owner_login, 1),
        created_at: Some("2024-01-01T00:00:00Z".to_string()),
        forks: Vec::new(),
        recent_commits: Vec::new(),
        issues: Vec::new(),
        commit_count: 0,
    }
}

fn create_test_commit(sha: &str, files: Vec<CommitFile>) -> Commit {
    Commit {
        sha: sha.to_string(),
        url: format!("https://api.github.com/commits/{}", sha),
        html_url: Some(format!("https://github.com/commits/{}", sha)),
        commit: CommitSummary {
            message: "Test commit".to_string(),
            author: Some(CommitAuthor {
                name: Some("Test Author".to_string()),
                email: Some("test@example.com".to_string()),
                date: Some("2024-01-15T00:00:00Z".to_string()),
            }),
            committer: None,
        },
        files,
    }
}

fn create_test_commit_with_date(sha: &str, date: &str) -> Commit {
    let mut commit = create_test_commit(sha, Vec::new());
    if let Some(author) = commit.commit.author.as_mut() {
        author.date = Some(date.to_string());
    }
    commit
}

fn create_test_file(filename: &str, additions: i64, deletions: i64, changes: i64) -> CommitFile {
    CommitFile {
        filename: filename.to_string(),
        additions,
        deletions,
        changes,
        status: "modified".to_string(),
    }
}

fn create_test_issue(title: &str, state: &str) -> Issue {
    Issue {
        id: 1,
        number: 1,
        title: title.to_string(),
        body: Some("Test issue body".to_string()),
        state: state.to_string(),
        html_url: Some("https://github.com/issues/1".to_string()),
        created_at: "2024-01-01T00:00:00Z".to_string(),
        updated_at: "2024-01-02T00:00:00Z".to_string(),
    }
}

fn report(repos: Vec<Repo>) -> LanguageReport {
    assert!(StatsCalculator::report_within_limits(&repos));
    StatsCalculator::build_language_report("Rust", repos)
}

fn compute_top_modified_files(repo: &Repo) -> Vec<String> {
    StatsCalculator::get_top_files(repo)
}

fn count_new_fork_commits(repo: &Repo) -> usize {
    StatsCalculator::calculate_repo_stats(std::slice::from_ref(repo)).1
}

#[test]
fn test_total_stars_single_repo() {
    let repos = vec![create_test_repo("test-repo", "owner1", 100, 5, 3)];
    assert_eq!(report(repos).total_stars, 100);
}

#[test]
fn test_total_stars_multiple_repos() {
    let repos = vec![
        create_test_repo("repo1", "owner1", 100, 5, 3),
        create_test_repo("repo2", "owner2", 200, 10, 5),
        create_test_repo("repo3", "owner3", 50, 2, 1),
    ];
    assert_eq!(report(repos).total_stars, 350);
}

#[test]
fn test_total_stars_empty_repos() {
    let repos: Vec<Repo> = Vec::new();
    assert_eq!(report(repos).total_stars, 0);
}

#[test]
fn test_total_stars_zero_stars() {
    let repos = vec![
        create_test_repo("repo1", "owner1", 0, 5, 3),
        create_test_repo("repo2", "owner2", 0, 10, 5),
    ];
    assert_eq!(report(repos).total_stars, 0);
}

#[test]
fn test_total_forks_single_repo() {
    let repos = vec![create_test_repo("test-repo", "owner1", 100, 5, 3)];
    assert_eq!(report(repos).total_forks, 5);
}

#[test]
fn test_total_forks_multiple_repos() {
    let repos = vec![
        create_test_repo("repo1", "owner1", 100, 5, 3),
        create_test_repo("repo2", "owner2", 200, 10, 5),
        create_test_repo("repo3", "owner3", 50, 15, 1),
    ];
    assert_eq!(report(repos).total_forks, 30);
}

#[test]
fn test_total_forks_empty_repos() {
    let repos: Vec<Repo> = Vec::new();
    assert_eq!(report(repos).total_forks, 0);
}

#[test]
fn test_total_open_issues_single_repo() {
    let mut repo = create_test_repo("test-repo", "owner1", 100, 5, 0);
    repo.issues = vec![
        create_test_issue("Issue 1", "open"),
        create_test_issue("Issue 2", "open"),
        create_test_issue("Issue 3", "open"),
    ];
    assert_eq!(report(vec![repo]).total_open_issues, 3);
}

#[test]
fn test_total_open_issues_multiple_repos() {
    let mut repo1 = create_test_repo("repo1", "owner1", 100, 5, 0);
    repo1.issues = vec![create_test_issue("Issue 1", "open"), create_test_issue("Issue 2", "open")];
    let mut repo2 = create_test_repo("repo2", "owner2", 200, 10, 0);
    repo2.issues = vec![
        create_test_issue("Issue 3", "open"),
        create_test_issue("Issue 4", "open"),
        create_test_issue("Issue 5", "open"),
    ];
    assert_eq!(report(vec![repo1, repo2]).total_open_issues, 5);
}

#[test]
fn test_total_open_issues_no_issues() {
    let repos = vec![
        create_test_repo("repo1", "owner1", 100, 5, 0),
        create_test_repo("repo2", "owner2", 200, 10, 0),
    ];
    assert_eq!(report(repos).total_open_issues, 0);
}

#[test]
fn test_top_modified_files_single_file() {
    let files = vec![create_test_file("file1.rs", 10, 5, 15)];
    let commit = create_test_commit("abc123", files);
    let mut repo = create_test_repo("test-repo", "owner1", 100, 5, 3);
    repo.recent_commits = vec![commit];

    let top_files = compute_top_modified_files(&repo);

    assert_eq!(top_files.len(), 1);
    assert_eq!(top_files[0], "file1.rs");
}

#[test]
fn test_top_modified_files_multiple_commits() {
    let commit1 = create_test_commit(
        "abc123",
        vec![create_test_file("file1.rs", 10, 5, 15), create_test_file("file2.rs", 5, 2, 7)],
    );
    let commit2 = create_test_commit(
        "def456",
        vec![create_test_file("file1.rs", 20, 10, 30), create_test_file("file3.rs", 8, 3, 11)],
    );
    let mut repo = create_test_repo("test-repo", "owner1", 100, 5, 3);
    repo.recent_commits = vec![commit1, commit2];

    let top_files = compute_top_modified_files(&repo);

    // file1.rs: 15 + 30 = 45, file3.rs: 11, file2.rs: 7
    assert_eq!(top_files.len(), 3);
    assert_eq!(top_files[0], "file1.rs");
    assert_eq!(top_files[1], "file3.rs");
    assert_eq!(top_files[2], "file2.rs");
}

#[test]
fn test_top_modified_files_more_than_three() {
    let commit = create_test_commit(
        "abc123",
        vec![
            create_test_file("file1.rs", 50, 20, 70),
            create_test_file("file2.rs", 30, 10, 40),
            create_test_file("file3.rs", 25, 5, 30),
            create_test_file("file4.rs", 15, 5, 20),
            create_test_file("file5.rs", 10, 2, 12),
        ],
    );
    let mut repo = create_test_repo("test-repo", "owner1", 100, 5, 3);
    repo.recent_commits = vec![commit];

    let top_files = compute_top_modified_files(&repo);

    assert_eq!(top_files.len(), 3);
    assert_eq!(top_files[0], "file1.rs");
    assert_eq!(top_files[1], "file2.rs");
    assert_eq!(top_files[2], "file3.rs");
}

#[test]
fn test_top_modified_files_no_commits() {
    let repo = create_test_repo("test-repo", "owner1", 100, 5, 3);
    assert_eq!(compute_top_modified_files(&repo).len(), 0);
}

#[test]
fn test_top_modified_files_uses_additions_deletions_when_changes_zero() {
    let files = vec![
        create_test_file("file1.rs", 10, 5, 0), // scores 10 + 5 = 15
        create_test_file("file2.rs", 3, 2, 0),  // scores 3 + 2 = 5
    ];
    let commit = create_test_commit("abc123", files);
    let mut repo = create_test_repo("test-repo", "owner1", 100, 5, 3);
    repo.recent_commits = vec![commit];

    let top_files = compute_top_modified_files(&repo);

    assert_eq!(top_files.len(), 2);
    assert_eq!(top_files[0], "file1.rs");
    assert_eq!(top_files[1], "file2.rs");
}

#[test]
fn test_new_fork_commits_no_forks() {
    let repo = create_test_repo("test-repo", "owner1", 100, 5, 3);
    assert_eq!(count_new_fork_commits(&repo), 0);
}

#[test]
fn test_new_fork_commits_fork_with_new_commits() {
    let mut fork = create_test_repo("test-repo", "forker1", 0, 0, 0);
    fork.created_at = Some("2024-01-10T00:00:00Z".to_string());
    fork.recent_commits = vec![
        create_test_commit_with_date("abc123", "2024-01-05T00:00:00Z"), // before the fork
        create_test_commit_with_date("def456", "2024-01-15T00:00:00Z"),
        create_test_commit_with_date("ghi789", "2024-01-20T00:00:00Z"),
    ];
    let mut repo = create_test_repo("test-repo", "owner1", 100, 5, 3);
    repo.forks = vec![fork];

    assert_eq!(count_new_fork_commits(&repo), 2);
}

#[test]
fn test_new_fork_commits_multiple_forks() {
    let mut fork1 = create_test_repo("test-repo", "forker1", 0, 0, 0);
    fork1.created_at = Some("2024-01-10T00:00:00Z".to_string());
    fork1.recent_commits = vec![
        create_test_commit_with_date("abc123", "2024-01-15T00:00:00Z"),
        create_test_commit_with_date("def456", "2024-01-20T00:00:00Z"),
    ];
    let mut fork2 = create_test_repo("test-repo", "forker2", 0, 0, 0);
    fork2.created_at = Some("2024-01-12T00:00:00Z".to_string());
    fork2.recent_commits = vec![create_test_commit_with_date("ghi789", "2024-01-18T00:00:00Z")];
    let mut repo = create_test_repo("test-repo", "owner1", 100, 5, 3);
    repo.forks = vec![fork1, fork2];

    assert_eq!(count_new_fork_commits(&repo), 3);
}

#[test]
fn test_new_fork_commits_fork_no_created_date() {
    let mut fork = create_test_repo("test-repo", "forker1", 0, 0, 0);
    fork.created_at = None;
    fork.recent_commits = vec![create_test_commit_with_date("abc123", "2024-01-15T00:00:00Z")];
    let mut repo = create_test_repo("test-repo", "owner1", 100, 5, 3);
    repo.forks = vec![fork];

    assert_eq!(count_new_fork_commits(&repo), 0);
}

#[test]
fn test_new_fork_commits_all_commits_before_fork() {
    let mut fork = create_test_repo("test-repo", "forker1", 0, 0, 0);
    fork.created_at = Some("2024-01-20T00:00:00Z".to_string());
    fork.recent_commits = vec![
        create_test_commit_with_date("abc123", "2024-01-05T00:00:00Z"),
        create_test_commit_with_date("def456", "2024-01-10T00:00:00Z"),
    ];
    let mut repo = create_test_repo("test-repo", "owner1", 100, 5, 3);
    repo.forks = vec![fork];

    assert_eq!(count_new_fork_commits(&repo), 0);
}

#[test]
fn churn_uses_nonzero_changes_regardless_of_line_counts() {
    let commit = create_test_commit(
        "abc123",
        vec![create_test_file("a.rs", 100, 100, 12), create_test_file("b.rs", 10, 5, 0)],
    );
    let mut repo = create_test_repo("test-repo", "owner1", 1, 1, 1);
    repo.recent_commits = vec![commit];
    // a.rs scores 12 (not 200), b.rs scores 15
    assert_eq!(compute_top_modified_files(&repo), vec!["b.rs".to_string(), "a.rs".to_string()]);
}

#[test]
fn equal_churn_orders_by_ascending_name() {
    let commit = create_test_commit(
        "abc123",
        vec![
            create_test_file("zeta.rs", 0, 0, 5),
            create_test_file("alpha.rs", 0, 0, 5),
            create_test_file("Beta.rs", 0, 0, 5),
            create_test_file("gamma.rs", 0, 0, 5),
        ],
    );
    let mut repo = create_test_repo("test-repo", "owner1", 1, 1, 1);
    repo.recent_commits = vec![commit];
    assert_eq!(
        compute_top_modified_files(&repo),
        vec!["Beta.rs".to_string(), "alpha.rs".to_string(), "gamma.rs".to_string()]
    );
}

#[test]
fn top_files_are_distinct_when_one_file_repeats() {
    let commits = vec![
        create_test_commit("a", vec![create_test_file("x.rs", 1, 1, 0)]),
        create_test_commit("b", vec![create_test_file("x.rs", 1, 1, 0)]),
        create_test_commit("c", vec![create_test_file("x.rs", 1, 1, 0)]),
    ];
    let mut repo = create_test_repo("test-repo", "owner1", 1, 1, 1);
    repo.recent_commits = commits;
    assert_eq!(compute_top_modified_files(&repo), vec!["x.rs".to_string()]);
}

#[test]
fn fork_commit_dated_at_creation_is_not_new() {
    let mut fork = create_test_repo("test-repo", "forker1", 0, 0, 0);
    fork.created_at = Some("2024-01-10T00:00:00Z".to_string());
    fork.recent_commits = vec![
        create_test_commit_with_date("abc123", "2024-01-10T00:00:00Z"),
        create_test_commit_with_date("def456", "2024-01-10T00:00:01Z"),
    ];
    assert_eq!(StatsCalculator::count_new_commits(&fork), 1);
}

#[test]
fn undated_commit_is_not_new() {
    let mut fork = create_test_repo("test-repo", "forker1", 0, 0, 0);
    fork.created_at = Some("2024-01-10T00:00:00Z".to_string());
    let mut commit = create_test_commit("abc123", Vec::new());
    commit.commit.author = None;
    fork.recent_commits = vec![commit];
    assert_eq!(StatsCalculator::count_new_commits(&fork), 0);
}

#[test]
fn only_first_twenty_forks_are_counted() {
    let mut repo = create_test_repo("test-repo", "owner1", 1, 1, 1);
    for k in 0..25 {
        let mut fork = create_test_repo("test-repo", &format!("forker{}", k), 0, 0, 0);
        fork.created_at = Some("2024-01-10T00:00:00Z".to_string());
        fork.recent_commits = vec![create_test_commit_with_date("abc", "2024-02-01T00:00:00Z")];
        repo.forks.push(fork);
    }
    assert_eq!(count_new_fork_commits(&repo), 20);
}

#[test]
fn report_holds_metrics_in_order_and_all_totals() {
    let mut repo1 = create_test_repo("repo1", "owner1", 100, 5, 3);
    repo1.commit_count = 40;
    repo1.recent_commits = vec![create_test_commit("a", vec![create_test_file("m.rs", 1, 1, 0)])];
    let mut repo2 = create_test_repo("repo2", "owner2", 200, 10, 5);
    repo2.commit_count = 2;
    let mut fork = create_test_repo("repo2", "forker", 0, 0, 0);
    fork.created_at = Some("2024-01-10T00:00:00Z".to_string());
    fork.recent_commits = vec![create_test_commit_with_date("b", "2024-01-11T00:00:00Z")];
    repo2.forks = vec![fork];

    let report = report(vec![repo1, repo2]);

    assert_eq!(report.language, "Rust");
    assert_eq!(report.total_repo_commits, 42);
    assert_eq!(report.new_fork_commits, 1);
    assert_eq!(report.repos.len(), 2);
    assert_eq!(report.repo_metrics.len(), 2);
    assert_eq!(report.repo_metrics[0].slug, "owner1/repo1");
    assert_eq!(report.repo_metrics[0].top_files, vec!["m.rs".to_string()]);
    assert_eq!(report.repo_metrics[1].slug, "owner2/repo2");
    assert!(report.repo_metrics[1].top_files.is_empty());
}

#[test]
fn report_limits_reject_star_overflow() {
    let repos = vec![
        create_test_repo("repo1", "owner1", u64::MAX, 0, 0),
        create_test_repo("repo2", "owner2", 1, 0, 0),
    ];
    assert!(!StatsCalculator::report_within_limits(&repos));
    let repos = vec![create_test_repo("repo1", "owner1", u64::MAX, 0, 0)];
    assert!(StatsCalculator::report_within_limits(&repos));
}

#[test]
fn slug_joins_owner_and_name() {
    let repo = create_test_repo("repo-one", "octocat", 0, 0, 0);
    assert_eq!(repo.slug(), "octocat/repo-one");
}
