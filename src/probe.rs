//! Decisions of the clone-and-classify loop, which tries a language's
//! candidates in ranking order and keeps the first that holds source code.
//! The caller clones, classifies and removes working trees as told.
use vstd::prelude::*;
use vstd::string::StringExecFns;
use crate::model::{Repo, slug_of};
use crate::text::{lower_of, to_lower};

verus! {

/// What became of one candidate.
#[derive(Debug, Clone, Copy, PartialEq, Eq, Structural)]
pub enum ProbeOutcome {
    /// The clone did not succeed; no working tree was made.
    CloneFailed,
    /// The clone succeeded but the tree could not be classified.
    AnalysisFailed,
    /// The tree was classified; `true` when it holds source code.
    Classified(bool),
}

/// What to do after a candidate was tried.
#[derive(Debug, Clone, Copy, PartialEq, Eq, Structural)]
pub struct ProbeDecision {
    /// The candidate holds source code: keep it and its working tree, and
    /// stop.
    pub accepted: bool,
    /// Delete the candidate's working tree.
    pub remove_tree: bool,
    /// The candidate to try next, if any.
    pub next: Option<usize>,
}

/// The first candidate to try, when there is one.
pub fn first_candidate(count: usize) -> (r: Option<usize>)
    ensures
        r == if count > 0 {
            Some(0usize)
        } else {
            None
        },
{
    if count > 0 {
        Some(0)
    } else {
        None
    }
}

/// Decides what follows the trial of candidate `index` out of `count`: a
/// candidate with source code is kept and ends the search; a rejected or
/// unclassifiable one has its tree deleted; any other leads to the next
/// candidate, while there is one.
pub fn decide_probe(index: usize, count: usize, outcome: ProbeOutcome) -> (d: ProbeDecision)
    requires
        index < count,
    ensures
        d.accepted == (outcome == ProbeOutcome::Classified(true)),
        d.remove_tree == (outcome == ProbeOutcome::AnalysisFailed || outcome
            == ProbeOutcome::Classified(false)),
        d.accepted ==> d.next is None,
        !d.accepted ==> d.next == if index + 1 < count {
            Some((index + 1) as usize)
        } else {
            None
        },
{
    let accepted = outcome == ProbeOutcome::Classified(true);
    let remove_tree = outcome == ProbeOutcome::AnalysisFailed || outcome == ProbeOutcome::Classified(
        false,
    );
    let next = if accepted || index + 1 >= count {
        None
    } else {
        Some(index + 1)
    };
    ProbeDecision { accepted, remove_tree, next }
}

/// The directory name of a candidate's working tree: the lowercased
/// language, a dash, and the repository name.
pub fn clone_dir_name(language: &str, repo: &Repo) -> (r: String)
    ensures
        r@ == lower_of(language@) + "-"@ + repo.name@,
{
    let mut s = to_lower(language);
    s.append("-");
    s.append(repo.name.as_str());
    s
}

/// The address a candidate is cloned from: `https://github.com/<slug>.git`.
pub fn clone_url(repo: &Repo) -> (r: String)
    ensures
        r@ == "https://github.com/"@ + slug_of(*repo) + ".git"@,
{
    let mut s = String::from_str("https://github.com/");
    let slug = repo.slug();
    s.append(slug.as_str());
    s.append(".git");
    s
}

} // verus!
