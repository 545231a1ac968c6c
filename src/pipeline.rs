//! The four-phase enrichment of one language's repositories, as a state
//! machine. The caller asks for the next forge request, performs it, and
//! hands the reply back; the machine decides what the reply changes and
//! which request comes next.
//!
//! Phases, in order: search for the top repositories (a failure abandons the
//! language); for each repository its recent commits, the full detail of the
//! first fifty of them, and its open issues; for each repository its forks;
//! for each repository the recent commits of its first twenty forks. Any
//! failure after the search leaves the affected field as it was.
use vstd::prelude::*;
use crate::model::{Commit, Issue, Repo};
use crate::stats::{MAX_FORKS_TO_PROCESS, counted_forks};

verus! {

/// The number of repositories searched for per language.
pub const TOP_REPOSITORIES_COUNT: u8 = 10;

/// The number of listed commits, from the newest, whose detail is fetched.
pub const MAX_COMMITS_WITH_FILES: usize = 50;

/// Where the machine stands.
#[derive(Debug, Clone, Copy, PartialEq, Eq, Structural)]
pub enum FetchStage {
    Search,
    Commits,
    Details,
    Issues,
    Forks,
    ForkCommits,
    Done,
    Abandoned,
}

/// A request for the forge.
#[derive(Debug)]
pub enum ForgeRequest {
    SearchTop { language: String, limit: u8 },
    RecentCommits { owner: String, name: String },
    CommitDetail { owner: String, name: String, sha: String },
    OpenIssues { owner: String, name: String },
    Forks { owner: String, name: String },
    ForkCommits { owner: String, name: String },
    /// Nothing is left to fetch.
    Finished,
}

/// The forge's answer to the last request. A reply of another kind than
/// the request asked for counts as a failure.
#[derive(Debug)]
pub enum ForgeReply {
    Repos(Vec<Repo>),
    Commits(Vec<Commit>),
    Commit(Commit),
    Issues(Vec<Issue>),
    Failed,
}

/// The enrichment of one language's repositories.
pub struct LanguageFetch {
    pub language: String,
    /// Number of repositories searched for, within 1..=100.
    pub limit: u8,
    pub repos: Vec<Repo>,
    pub stage: FetchStage,
    /// The repository in work.
    pub repo: usize,
    /// In the detail stage: the commits whose detail is fetched.
    pub shas: Vec<String>,
    /// In the detail stage: the index in `shas` of the next commit.
    pub detail: usize,
    /// In the fork-commit stage: the fork in work.
    pub fork: usize,
}

/// The search limit clamped to 1..=100.
pub open spec fn clamp_limit(limit: u8) -> u8 {
    if limit < 1 {
        1
    } else if limit > 100 {
        100
    } else {
        limit
    }
}

/// No fork has forks of its own.
pub open spec fn forks_are_leaves(repos: Seq<Repo>) -> bool {
    forall|i: int, k: int|
        0 <= i < repos.len() && 0 <= k < repos[i].forks@.len() ==> (#[trigger] repos[i].forks@[k]).forks@.len()
            == 0
}

/// `b` has the same identity and counters as `a`, with the given derived
/// fields.
pub open spec fn repo_with(
    a: Repo,
    b: Repo,
    commit_count: int,
    recent_commits: Seq<Commit>,
    issues: Seq<Issue>,
    forks: Seq<Repo>,
) -> bool {
    &&& b.id == a.id
    &&& b.name == a.name
    &&& b.full_name == a.full_name
    &&& b.html_url == a.html_url
    &&& b.forks_count == a.forks_count
    &&& b.stargazers_count == a.stargazers_count
    &&& b.open_issues_count == a.open_issues_count
    &&& b.has_issues == a.has_issues
    &&& b.language == a.language
    &&& b.owner == a.owner
    &&& b.created_at == a.created_at
    &&& b.commit_count == commit_count
    &&& b.recent_commits@ == recent_commits
    &&& b.issues@ == issues
    &&& b.forks@ == forks
}

/// `new` is `old` where only the repository at `i` may differ.
pub open spec fn others_kept(old: Seq<Repo>, new: Seq<Repo>, i: int) -> bool {
    &&& new.len() == old.len()
    &&& forall|j: int| 0 <= j < old.len() && j != i ==> new[j] == old[j]
}

/// The identifiers of the first fifty listed commits.
pub open spec fn detail_shas(list: Seq<Commit>) -> Seq<Seq<char>> {
    let n = if list.len() <= MAX_COMMITS_WITH_FILES {
        list.len() as int
    } else {
        MAX_COMMITS_WITH_FILES as int
    };
    list.subrange(0, n).map_values(|c: Commit| c.sha@)
}

/// The first fork-commit fetch at or after fork `f` of repository `i`, as
/// (stage, repository, fork).
pub open spec fn fork_phase_from(repos: Seq<Repo>, i: int, f: int) -> (FetchStage, int, int)
    decreases repos.len() - i,
{
    if i >= repos.len() {
        (FetchStage::Done, 0, 0)
    } else if f < counted_forks(repos[i]).len() {
        (FetchStage::ForkCommits, i, f)
    } else {
        fork_phase_from(repos, i + 1, 0)
    }
}

/// The first fork listing at or after repository `i`.
pub open spec fn forks_phase_from(repos: Seq<Repo>, i: int) -> (FetchStage, int, int) {
    if i < repos.len() {
        (FetchStage::Forks, i, 0)
    } else {
        fork_phase_from(repos, 0, 0)
    }
}

/// The first commit listing at or after repository `i`.
pub open spec fn commits_phase_from(repos: Seq<Repo>, i: int) -> (FetchStage, int, int) {
    if i < repos.len() {
        (FetchStage::Commits, i, 0)
    } else {
        forks_phase_from(repos, 0)
    }
}

/// The machine stands at `pos`.
pub open spec fn stands_at(s: LanguageFetch, pos: (FetchStage, int, int)) -> bool {
    s.stage == pos.0 && s.repo == pos.1 && s.fork == pos.2
}


/// `b` is `a` as a search or fork-listing hit: all derived fields empty.
pub open spec fn as_fresh(a: Repo, b: Repo) -> bool {
    repo_with(a, b, 0, Seq::empty(), Seq::empty(), Seq::empty())
}

/// Each repository of `new` is the fresh form of the one at its index in
/// `old`.
pub open spec fn fresh_list(old: Seq<Repo>, new: Seq<Repo>) -> bool {
    &&& new.len() == old.len()
    &&& forall|k: int| 0 <= k < old.len() ==> as_fresh(#[trigger] old[k], new[k])
}

/// The owner and name of `repo`.
pub open spec fn names_repo(owner: String, name: String, repo: Repo) -> bool {
    owner@ == repo.owner.login@ && name@ == repo.name@
}

/// `r` is the request the machine `s` makes next.
pub open spec fn requests(s: LanguageFetch, r: ForgeRequest) -> bool {
    let i = s.repo as int;
    match s.stage {
        FetchStage::Search => match r {
            ForgeRequest::SearchTop { language, limit } => language@ == s.language@ && limit
                == s.limit,
            _ => false,
        },
        FetchStage::Commits => match r {
            ForgeRequest::RecentCommits { owner, name } => names_repo(owner, name, s.repos@[i]),
            _ => false,
        },
        FetchStage::Details => match r {
            ForgeRequest::CommitDetail { owner, name, sha } => names_repo(owner, name, s.repos@[i])
                && sha@ == s.shas@[s.detail as int]@,
            _ => false,
        },
        FetchStage::Issues => match r {
            ForgeRequest::OpenIssues { owner, name } => names_repo(owner, name, s.repos@[i]),
            _ => false,
        },
        FetchStage::Forks => match r {
            ForgeRequest::Forks { owner, name } => names_repo(owner, name, s.repos@[i]),
            _ => false,
        },
        FetchStage::ForkCommits => match r {
            ForgeRequest::ForkCommits { owner, name } => names_repo(
                owner,
                name,
                s.repos@[i].forks@[s.fork as int],
            ),
            _ => false,
        },
        _ => r is Finished,
    }
}

/// `t` is the machine `s` after it took `reply`.
pub open spec fn advanced(s: LanguageFetch, reply: ForgeReply, t: LanguageFetch) -> bool {
    let i = s.repo as int;
    let old_repo = s.repos@[i];
    let new_repo = t.repos@[i];
    &&& t.language == s.language
    &&& t.limit == s.limit
    &&& match s.stage {
        FetchStage::Search => match reply {
            ForgeReply::Repos(list) => fresh_list(list@, t.repos@) && stands_at(
                t,
                commits_phase_from(t.repos@, 0),
            ),
            _ => t.repos@ == s.repos@ && t.stage == FetchStage::Abandoned,
        },
        FetchStage::Commits => match reply {
            ForgeReply::Commits(list) => {
                &&& others_kept(s.repos@, t.repos@, i)
                &&& repo_with(
                    old_repo,
                    new_repo,
                    list@.len() as int,
                    old_repo.recent_commits@,
                    old_repo.issues@,
                    old_repo.forks@,
                )
                &&& t.shas@.map_values(|h: String| h@) == detail_shas(list@)
                &&& t.detail == 0
                &&& t.repo == s.repo
                &&& t.stage == if detail_shas(list@).len() > 0 {
                    FetchStage::Details
                } else {
                    FetchStage::Issues
                }
            },
            _ => t.repos@ == s.repos@ && t.repo == s.repo && t.stage == FetchStage::Issues,
        },
        FetchStage::Details => {
            &&& match reply {
                ForgeReply::Commit(c) => others_kept(s.repos@, t.repos@, i) && repo_with(
                    old_repo,
                    new_repo,
                    old_repo.commit_count as int,
                    old_repo.recent_commits@.push(c),
                    old_repo.issues@,
                    old_repo.forks@,
                ),
                _ => t.repos@ == s.repos@,
            }
            &&& t.repo == s.repo
            &&& if s.detail + 1 < s.shas@.len() {
                t.stage == FetchStage::Details && t.detail == s.detail + 1 && t.shas@ == s.shas@
            } else {
                t.stage == FetchStage::Issues
            }
        },
        FetchStage::Issues => {
            &&& match reply {
                ForgeReply::Issues(list) => others_kept(s.repos@, t.repos@, i) && repo_with(
                    old_repo,
                    new_repo,
                    old_repo.commit_count as int,
                    old_repo.recent_commits@,
                    list@,
                    old_repo.forks@,
                ),
                _ => t.repos@ == s.repos@,
            }
            &&& stands_at(t, commits_phase_from(t.repos@, i + 1))
        },
        FetchStage::Forks => {
            &&& match reply {
                ForgeReply::Repos(list) => others_kept(s.repos@, t.repos@, i) && repo_with(
                    old_repo,
                    new_repo,
                    old_repo.commit_count as int,
                    old_repo.recent_commits@,
                    old_repo.issues@,
                    new_repo.forks@,
                ) && fresh_list(list@, new_repo.forks@),
                _ => t.repos@ == s.repos@,
            }
            &&& stands_at(t, forks_phase_from(t.repos@, i + 1))
        },
        FetchStage::ForkCommits => {
            let f = s.fork as int;
            &&& match reply {
                ForgeReply::Commits(list) => {
                    &&& others_kept(s.repos@, t.repos@, i)
                    &&& repo_with(
                        old_repo,
                        new_repo,
                        old_repo.commit_count as int,
                        old_repo.recent_commits@,
                        old_repo.issues@,
                        new_repo.forks@,
                    )
                    &&& others_kept(old_repo.forks@, new_repo.forks@, f)
                    &&& repo_with(
                        old_repo.forks@[f],
                        new_repo.forks@[f],
                        list@.len() as int,
                        list@,
                        old_repo.forks@[f].issues@,
                        old_repo.forks@[f].forks@,
                    )
                },
                _ => t.repos@ == s.repos@,
            }
            &&& stands_at(t, fork_phase_from(t.repos@, i, f + 1))
        },
        _ => t.repos@ == s.repos@ && t.stage == s.stage,
    }
}


/// Empties the derived fields of each repository of the list.
fn make_fresh(list: &mut Vec<Repo>)
    ensures
        fresh_list(old(list)@, final(list)@),
{
    let ghost orig = list@;
    let mut k: usize = 0;
    while k < list.len()
        invariant
            list@.len() == orig.len(),
            k <= list@.len(),
            forall|m: int| 0 <= m < k ==> as_fresh(#[trigger] orig[m], list@[m]),
            forall|m: int| k <= m < list@.len() ==> #[trigger] list@[m] == orig[m],
        decreases list@.len() - k,
    {
        list[k].forks = Vec::new();
        list[k].recent_commits = Vec::new();
        list[k].issues = Vec::new();
        list[k].commit_count = 0;
        k = k + 1;
    }
}

/// The number of forks of `repo` whose commits are fetched.
fn forks_to_process(repo: &Repo) -> (n: usize)
    ensures
        n == counted_forks(*repo).len(),
{
    if repo.forks.len() <= MAX_FORKS_TO_PROCESS {
        repo.forks.len()
    } else {
        MAX_FORKS_TO_PROCESS
    }
}

fn fork_phase_position(repos: &Vec<Repo>, start: usize, first: usize) -> (r: (
    FetchStage,
    usize,
    usize,
))
    ensures
        (r.0, r.1 as int, r.2 as int) == fork_phase_from(repos@, start as int, first as int),
        r.0 == FetchStage::ForkCommits ==> r.1 < repos@.len() && r.2 < counted_forks(
            repos@[r.1 as int],
        ).len(),
        r.0 == FetchStage::ForkCommits || r.0 == FetchStage::Done,
{
    let mut i = start;
    let mut f = first;
    while i < repos.len()
        invariant
            fork_phase_from(repos@, i as int, f as int) == fork_phase_from(
                repos@,
                start as int,
                first as int,
            ),
        decreases repos@.len() - i,
    {
        if f < forks_to_process(&repos[i]) {
            assert(fork_phase_from(repos@, i as int, f as int) == (
                FetchStage::ForkCommits,
                i as int,
                f as int,
            ));
            return (FetchStage::ForkCommits, i, f);
        }
        i = i + 1;
        f = 0;
    }
    (FetchStage::Done, 0, 0)
}

fn forks_phase_position(repos: &Vec<Repo>, i: usize) -> (r: (FetchStage, usize, usize))
    ensures
        (r.0, r.1 as int, r.2 as int) == forks_phase_from(repos@, i as int),
        r.0 == FetchStage::ForkCommits ==> r.1 < repos@.len() && r.2 < counted_forks(
            repos@[r.1 as int],
        ).len(),
        r.0 == FetchStage::Forks ==> r.1 < repos@.len(),
        r.0 == FetchStage::Forks || r.0 == FetchStage::ForkCommits || r.0 == FetchStage::Done,
{
    if i < repos.len() {
        (FetchStage::Forks, i, 0)
    } else {
        fork_phase_position(repos, 0, 0)
    }
}

fn commits_phase_position(repos: &Vec<Repo>, i: usize) -> (r: (FetchStage, usize, usize))
    ensures
        (r.0, r.1 as int, r.2 as int) == commits_phase_from(repos@, i as int),
        r.0 == FetchStage::ForkCommits ==> r.1 < repos@.len() && r.2 < counted_forks(
            repos@[r.1 as int],
        ).len(),
        r.0 == FetchStage::Forks || r.0 == FetchStage::Commits ==> r.1 < repos@.len(),
        r.0 == FetchStage::Commits || r.0 == FetchStage::Forks || r.0 == FetchStage::ForkCommits
            || r.0 == FetchStage::Done,
{
    if i < repos.len() {
        (FetchStage::Commits, i, 0)
    } else {
        forks_phase_position(repos, 0)
    }
}

/// The identifiers of the first fifty listed commits.
fn first_shas(list: &Vec<Commit>) -> (r: Vec<String>)
    ensures
        r@.map_values(|h: String| h@) == detail_shas(list@),
        r@.len() <= MAX_COMMITS_WITH_FILES,
{
    let n = if list.len() <= MAX_COMMITS_WITH_FILES {
        list.len()
    } else {
        MAX_COMMITS_WITH_FILES
    };
    let mut r: Vec<String> = Vec::new();
    let mut k: usize = 0;
    while k < n
        invariant
            n <= list@.len(),
            k <= n,
            r@.len() == k,
            forall|m: int| 0 <= m < k ==> (#[trigger] r@[m])@ == list@[m].sha@,
        decreases n - k,
    {
        r.push(list[k].sha.clone());
        k = k + 1;
    }
    assert(r@.map_values(|h: String| h@) =~= detail_shas(list@));
    r
}

/// `b` is the same repository as `a`.
pub open spec fn same_repository(a: Repo, b: Repo) -> bool {
    &&& b.id == a.id
    &&& b.name == a.name
    &&& b.full_name == a.full_name
    &&& b.owner == a.owner
    &&& b.stargazers_count == a.stargazers_count
}

/// After the search, enrichment keeps the search order: every step leaves
/// the same repositories at the same indices, and their forks in the order
/// they were listed.
pub proof fn enrichment_keeps_order(s: LanguageFetch, reply: ForgeReply, t: LanguageFetch)
    requires
        s.wf(),
        advanced(s, reply, t),
        s.stage != FetchStage::Search,
    ensures
        t.repos@.len() == s.repos@.len(),
        forall|k: int| 0 <= k < s.repos@.len() ==> same_repository(s.repos@[k], #[trigger] t.repos@[k]),
        s.stage != FetchStage::Forks ==> forall|k: int|
            0 <= k < s.repos@.len() ==> (#[trigger] t.repos@[k]).forks@.len() == s.repos@[k].forks@.len(),
{
    let i = s.repo as int;
    assert forall|k: int| 0 <= k < s.repos@.len() implies same_repository(s.repos@[k], #[trigger] t.repos@[k])
        && (s.stage != FetchStage::Forks ==> t.repos@[k].forks@.len() == s.repos@[k].forks@.len()) by {
        if k != i {
            if t.repos@ != s.repos@ {
                assert(t.repos@[k] == s.repos@[k]);
            }
        }
    }
}

impl LanguageFetch {
    /// The limit is clamped, forks have no forks, and the cursor points at
    /// an existing repository, commit or fork for the stage it is in.
    pub open spec fn wf(&self) -> bool {
        &&& 1 <= self.limit <= 100
        &&& forks_are_leaves(self.repos@)
        &&& match self.stage {
            FetchStage::Commits | FetchStage::Issues | FetchStage::Forks => self.repo
                < self.repos@.len(),
            FetchStage::Details => self.repo < self.repos@.len() && self.detail < self.shas@.len()
                && self.shas@.len() <= MAX_COMMITS_WITH_FILES,
            FetchStage::ForkCommits => self.repo < self.repos@.len() && self.fork < counted_forks(
                self.repos@[self.repo as int],
            ).len(),
            _ => true,
        }
    }

    /// A fresh enrichment of `language`, searching for `limit` repositories
    /// (clamped to 1..=100).
    pub fn new(language: &str, limit: u8) -> (r: Self)
        ensures
            r.wf(),
            r.language@ == language@,
            r.limit == clamp_limit(limit),
            r.stage == FetchStage::Search,
            r.repos@.len() == 0,
    {
        let limit = if limit < 1 {
            1
        } else if limit > 100 {
            100
        } else {
            limit
        };
        LanguageFetch {
            language: language.to_string(),
            limit,
            repos: Vec::new(),
            stage: FetchStage::Search,
            repo: 0,
            shas: Vec::new(),
            detail: 0,
            fork: 0,
        }
    }

    /// The request to perform next; `Finished` once nothing is left to
    /// fetch or the search failed.
    pub fn request(&self) -> (r: ForgeRequest)
        requires
            self.wf(),
        ensures
            requests(*self, r),
    {
        match self.stage {
            FetchStage::Search => ForgeRequest::SearchTop {
                language: self.language.clone(),
                limit: self.limit,
            },
            FetchStage::Commits => {
                let repo = &self.repos[self.repo];
                ForgeRequest::RecentCommits {
                    owner: repo.owner.login.clone(),
                    name: repo.name.clone(),
                }
            },
            FetchStage::Details => {
                let repo = &self.repos[self.repo];
                ForgeRequest::CommitDetail {
                    owner: repo.owner.login.clone(),
                    name: repo.name.clone(),
                    sha: self.shas[self.detail].clone(),
                }
            },
            FetchStage::Issues => {
                let repo = &self.repos[self.repo];
                ForgeRequest::OpenIssues { owner: repo.owner.login.clone(), name: repo.name.clone() }
            },
            FetchStage::Forks => {
                let repo = &self.repos[self.repo];
                ForgeRequest::Forks { owner: repo.owner.login.clone(), name: repo.name.clone() }
            },
            FetchStage::ForkCommits => {
                let fork = &self.repos[self.repo].forks[self.fork];
                ForgeRequest::ForkCommits {
                    owner: fork.owner.login.clone(),
                    name: fork.name.clone(),
                }
            },
            _ => ForgeRequest::Finished,
        }
    }

    fn stand_at(&mut self, pos: (FetchStage, usize, usize))
        ensures
            final(self).stage == pos.0,
            final(self).repo == pos.1,
            final(self).fork == pos.2,
            final(self).repos == old(self).repos,
            final(self).language == old(self).language,
            final(self).limit == old(self).limit,
            final(self).shas == old(self).shas,
            final(self).detail == old(self).detail,
    {
        self.stage = pos.0;
        self.repo = pos.1;
        self.fork = pos.2;
    }

    fn take_search(&mut self, reply: ForgeReply)
        requires
            old(self).wf(),
            old(self).stage == FetchStage::Search,
        ensures
            final(self).wf(),
            advanced(*old(self), reply, *final(self)),
    {
        match reply {
            ForgeReply::Repos(list) => {
                let mut list = list;
                let ghost orig = list@;
                make_fresh(&mut list);
                self.repos = list;
                proof {
                    assert forall|a: int, k: int|
                        0 <= a < self.repos@.len() && 0 <= k < self.repos@[a].forks@.len() implies (
                    #[trigger] self.repos@[a].forks@[k]).forks@.len() == 0 by {
                        assert(as_fresh(orig[a], self.repos@[a]));
                    }
                }
                let pos = commits_phase_position(&self.repos, 0);
                self.stand_at(pos);
            },
            _ => {
                self.stage = FetchStage::Abandoned;
            },
        }
    }

    fn take_commits(&mut self, reply: ForgeReply)
        requires
            old(self).wf(),
            old(self).stage == FetchStage::Commits,
        ensures
            final(self).wf(),
            advanced(*old(self), reply, *final(self)),
    {
        let i = self.repo;
        match reply {
            ForgeReply::Commits(list) => {
                self.repos[i].commit_count = list.len() as u64;
                self.shas = first_shas(&list);
                self.detail = 0;
                if self.shas.len() > 0 {
                    self.stage = FetchStage::Details;
                } else {
                    self.stage = FetchStage::Issues;
                }
                assert(self.shas@.map_values(|h: String| h@).len() == self.shas@.len());
            },
            _ => {
                self.stage = FetchStage::Issues;
            },
        }
        proof {
            assert forall|a: int, k: int|
                0 <= a < self.repos@.len() && 0 <= k < self.repos@[a].forks@.len() implies (
            #[trigger] self.repos@[a].forks@[k]).forks@.len() == 0 by {
                assert(self.repos@[a].forks@ == old(self).repos@[a].forks@);
            }
        }
    }

    fn take_detail(&mut self, reply: ForgeReply)
        requires
            old(self).wf(),
            old(self).stage == FetchStage::Details,
        ensures
            final(self).wf(),
            advanced(*old(self), reply, *final(self)),
    {
        let i = self.repo;
        match reply {
            ForgeReply::Commit(c) => {
                self.repos[i].recent_commits.push(c);
            },
            _ => {},
        }
        if self.detail + 1 < self.shas.len() {
            self.detail = self.detail + 1;
        } else {
            self.stage = FetchStage::Issues;
        }
        proof {
            assert forall|a: int, k: int|
                0 <= a < self.repos@.len() && 0 <= k < self.repos@[a].forks@.len() implies (
            #[trigger] self.repos@[a].forks@[k]).forks@.len() == 0 by {
                assert(self.repos@[a].forks@ == old(self).repos@[a].forks@);
            }
        }
    }

    fn take_issues(&mut self, reply: ForgeReply)
        requires
            old(self).wf(),
            old(self).stage == FetchStage::Issues,
        ensures
            final(self).wf(),
            advanced(*old(self), reply, *final(self)),
    {
        let i = self.repo;
        match reply {
            ForgeReply::Issues(list) => {
                self.repos[i].issues = list;
            },
            _ => {},
        }
        assert(self.repos@.len() == old(self).repos@.len());
        proof {
            assert forall|a: int, k: int|
                0 <= a < self.repos@.len() && 0 <= k < self.repos@[a].forks@.len() implies (
            #[trigger] self.repos@[a].forks@[k]).forks@.len() == 0 by {
                assert(self.repos@[a].forks@ == old(self).repos@[a].forks@);
            }
        }
        let n = self.repos.len();
        assert(i < n);
        let pos = commits_phase_position(&self.repos, i + 1);
        self.stand_at(pos);
    }

    fn take_forks(&mut self, reply: ForgeReply)
        requires
            old(self).wf(),
            old(self).stage == FetchStage::Forks,
        ensures
            final(self).wf(),
            advanced(*old(self), reply, *final(self)),
    {
        let i = self.repo;
        match reply {
            ForgeReply::Repos(list) => {
                let mut list = list;
                let ghost orig = list@;
                make_fresh(&mut list);
                assert(forall|k: int| 0 <= k < list@.len() ==> as_fresh(#[trigger] orig[k], list@[k]));
                self.repos[i].forks = list;
            },
            _ => {},
        }
        assert(self.repos@.len() == old(self).repos@.len());
        proof {
            assert forall|a: int, k: int|
                0 <= a < self.repos@.len() && 0 <= k < self.repos@[a].forks@.len() implies (
            #[trigger] self.repos@[a].forks@[k]).forks@.len() == 0 by {
                if a != i {
                    assert(self.repos@[a] == old(self).repos@[a]);
                } else if self.repos@[a].forks@ != old(self).repos@[a].forks@ {
                    assert(fresh_list(reply->Repos_0@, self.repos@[a].forks@));
                    assert(as_fresh(reply->Repos_0@[k], self.repos@[a].forks@[k]));
                }
            }
        }
        let n = self.repos.len();
        assert(i < n);
        let pos = forks_phase_position(&self.repos, i + 1);
        self.stand_at(pos);
    }

    fn take_fork_commits(&mut self, reply: ForgeReply)
        requires
            old(self).wf(),
            old(self).stage == FetchStage::ForkCommits,
        ensures
            final(self).wf(),
            advanced(*old(self), reply, *final(self)),
    {
        let i = self.repo;
        let f = self.fork;
        match reply {
            ForgeReply::Commits(list) => {
                self.repos[i].forks[f].commit_count = list.len() as u64;
                self.repos[i].forks[f].recent_commits = list;
            },
            _ => {},
        }
        assert(self.repos@.len() == old(self).repos@.len());
        proof {
            assert forall|a: int, k: int|
                0 <= a < self.repos@.len() && 0 <= k < self.repos@[a].forks@.len() implies (
            #[trigger] self.repos@[a].forks@[k]).forks@.len() == 0 by {
                if a != i {
                    assert(self.repos@[a] == old(self).repos@[a]);
                } else if k != f {
                    assert(self.repos@[a].forks@[k] == old(self).repos@[a].forks@[k]);
                } else {
                    assert(old(self).repos@[a].forks@[k].forks@.len() == 0);
                }
            }
        }
        let pos = fork_phase_position(&self.repos, i, f + 1);
        self.stand_at(pos);
    }

    /// Takes the forge's reply to the last request and moves on.
    pub fn advance(&mut self, reply: ForgeReply)
        requires
            old(self).wf(),
        ensures
            final(self).wf(),
            advanced(*old(self), reply, *final(self)),
    {
        match self.stage {
            FetchStage::Search => self.take_search(reply),
            FetchStage::Commits => self.take_commits(reply),
            FetchStage::Details => self.take_detail(reply),
            FetchStage::Issues => self.take_issues(reply),
            FetchStage::Forks => self.take_forks(reply),
            FetchStage::ForkCommits => self.take_fork_commits(reply),
            _ => {},
        }
    }

    /// Whether the search failed, so that the language has no report.
    pub fn is_abandoned(&self) -> (r: bool)
        ensures
            r == (self.stage == FetchStage::Abandoned),
    {
        self.stage == FetchStage::Abandoned
    }

    /// The enriched repositories, in search order.
    pub fn into_repos(self) -> (r: Vec<Repo>)
        ensures
            r@ == self.repos@,
    {
        self.repos
    }
}

} // verus!
