//! Statistics over enriched repositories: most-churned files, commits made in
//! forks after they were created, and per-language totals.
use vstd::prelude::*;
use crate::model::{Commit, CommitFile, Repo, slug_of};
use vstd::string::StringExecFns;
use crate::text::{lex_less, lex_lt, lemma_lex_irreflexive, lemma_lex_total, lemma_lex_transitive};

verus! {

/// The churn score of one file change: `changes` when it is nonzero,
/// else `additions + deletions`.
pub open spec fn churn_score(f: CommitFile) -> int {
    if f.changes != 0 {
        f.changes as int
    } else {
        f.additions as int + f.deletions as int
    }
}

/// A file change seen as its file name and its churn score.
pub open spec fn scored(f: CommitFile) -> (Seq<char>, int) {
    (f.filename@, churn_score(f))
}

/// Every file change of the commits, in order, as (file name, score).
pub open spec fn scored_changes(commits: Seq<Commit>) -> Seq<(Seq<char>, int)>
    decreases commits.len(),
{
    if commits.len() == 0 {
        Seq::empty()
    } else {
        scored_changes(commits.drop_last()) + commits.last().files@.map_values(
            |f: CommitFile| scored(f),
        )
    }
}

/// The sum of the scores that carry `name`.
pub open spec fn name_total(changes: Seq<(Seq<char>, int)>, name: Seq<char>) -> int
    decreases changes.len(),
{
    if changes.len() == 0 {
        0
    } else {
        name_total(changes.drop_last(), name) + if changes.last().0 == name {
            changes.last().1
        } else {
            0
        }
    }
}

/// Whether some change in the list carries `name`.
pub open spec fn names_file(changes: Seq<(Seq<char>, int)>, name: Seq<char>) -> bool {
    exists|k: int| 0 <= k < changes.len() && #[trigger] changes[k].0 == name
}

/// The summed churn of file `name` over all commits.
pub open spec fn churn_total(commits: Seq<Commit>, name: Seq<char>) -> int {
    name_total(scored_changes(commits), name)
}

/// Whether some commit touches file `name`.
pub open spec fn touches(commits: Seq<Commit>, name: Seq<char>) -> bool {
    names_file(scored_changes(commits), name)
}

/// File `a` ranks before file `b`: a higher summed churn, or the same churn
/// and a name that comes first.
pub open spec fn ranks_before(commits: Seq<Commit>, a: Seq<char>, b: Seq<char>) -> bool {
    churn_total(commits, a) > churn_total(commits, b) || (churn_total(commits, a)
        == churn_total(commits, b) && lex_lt(a, b))
}

/// `top` is the list of the (at most three) most-churned files of the
/// commits, best first: every name in it is touched, each ranks before the
/// next, and a touched file left out ranks after all three.
pub open spec fn is_top_files(commits: Seq<Commit>, top: Seq<Seq<char>>) -> bool {
    &&& top.len() <= 3
    &&& forall|i: int| 0 <= i < top.len() ==> touches(commits, #[trigger] top[i])
    &&& forall|i: int, j: int|
        0 <= i < j < top.len() ==> ranks_before(commits, #[trigger] top[i], #[trigger] top[j])
    &&& forall|name: Seq<char>|
        touches(commits, name) && !top.contains(name) ==> {
            &&& top.len() == 3
            &&& forall|i: int| 0 <= i < 3 ==> ranks_before(commits, #[trigger] top[i], name)
        }
}

/// The number of file changes over all commits. Summed churn is kept in a
/// 128-bit integer, which holds any sum of fewer than 2^63 scores.
pub open spec fn change_count(commits: Seq<Commit>) -> int {
    scored_changes(commits).len() as int
}

/// The names of a list of strings.
pub open spec fn names_of(v: Seq<String>) -> Seq<Seq<char>> {
    v.map_values(|s: String| s@)
}

/// A name absent from the changes has total zero.
proof fn lemma_unnamed_total_zero(changes: Seq<(Seq<char>, int)>, name: Seq<char>)
    requires
        !names_file(changes, name),
    ensures
        name_total(changes, name) == 0,
    decreases changes.len(),
{
    if changes.len() > 0 {
        let rest = changes.drop_last();
        assert forall|k: int| 0 <= k < rest.len() implies #[trigger] rest[k].0 != name by {
            assert(changes[k] == rest[k]);
        }
        lemma_unnamed_total_zero(rest, name);
        assert(changes[changes.len() - 1].0 != name);
    }
}

/// The scores of a prefix of the changes.
proof fn lemma_total_step(changes: Seq<(Seq<char>, int)>, k: int, name: Seq<char>)
    requires
        0 <= k < changes.len(),
    ensures
        name_total(changes.subrange(0, k + 1), name) == name_total(changes.subrange(0, k), name)
            + if changes[k].0 == name {
            changes[k].1
        } else {
            0
        },
{
    assert(changes.subrange(0, k + 1).drop_last() =~= changes.subrange(0, k));
}

/// Every sum of scores is bounded by the number of scores times 2^64.
proof fn lemma_total_bound(changes: Seq<(Seq<char>, int)>, name: Seq<char>)
    requires
        forall|k: int|
            0 <= k < changes.len() ==> -0x1_0000_0000_0000_0000 <= (#[trigger] changes[k]).1
                <= 0x1_0000_0000_0000_0000,
    ensures
        -changes.len() * 0x1_0000_0000_0000_0000 <= name_total(changes, name) <= changes.len()
            * 0x1_0000_0000_0000_0000,
    decreases changes.len(),
{
    if changes.len() > 0 {
        let rest = changes.drop_last();
        assert forall|k: int| 0 <= k < rest.len() implies -0x1_0000_0000_0000_0000 <= (
        #[trigger] rest[k]).1 <= 0x1_0000_0000_0000_0000 by {
            assert(changes[k] == rest[k]);
        }
        lemma_total_bound(rest, name);
        assert(changes.last() == changes[changes.len() - 1]);
    }
}

/// Ranking is a strict total order on distinct names.
proof fn lemma_ranks_total(commits: Seq<Commit>, a: Seq<char>, b: Seq<char>)
    ensures
        a != b ==> (ranks_before(commits, a, b) || ranks_before(commits, b, a)),
        !(ranks_before(commits, a, b) && ranks_before(commits, b, a)),
{
    lemma_lex_total(a, b);
}

proof fn lemma_ranks_transitive(commits: Seq<Commit>, a: Seq<char>, b: Seq<char>, c: Seq<char>)
    requires
        ranks_before(commits, a, b),
        ranks_before(commits, b, c),
    ensures
        ranks_before(commits, a, c),
{
    if lex_lt(a, b) && lex_lt(b, c) {
        lemma_lex_transitive(a, b, c);
    }
}

/// The changes of all commits, flattened into (name, score) pairs.
fn flatten_changes(commits: &Vec<Commit>) -> (flat: Vec<(String, i128)>)
    ensures
        flat@.len() == change_count(commits@),
        forall|k: int|
            0 <= k < flat@.len() ==> (#[trigger] flat@[k]).0@ == scored_changes(commits@)[k].0
                && flat@[k].1 as int == scored_changes(commits@)[k].1,
{
    let mut flat: Vec<(String, i128)> = Vec::new();
    let mut i: usize = 0;
    while i < commits.len()
        invariant
            i <= commits@.len(),
            flat@.len() == scored_changes(commits@.subrange(0, i as int)).len(),
            forall|k: int|
                0 <= k < flat@.len() ==> (#[trigger] flat@[k]).0@ == scored_changes(
                    commits@.subrange(0, i as int),
                )[k].0 && flat@[k].1 as int == scored_changes(commits@.subrange(0, i as int))[k].1,
        decreases commits@.len() - i,
    {
        let files = &commits[i].files;
        let ghost before = scored_changes(commits@.subrange(0, i as int));
        let ghost row = files@.map_values(|f: CommitFile| scored(f));
        assert(commits@.subrange(0, i + 1).drop_last() =~= commits@.subrange(0, i as int));
        assert(scored_changes(commits@.subrange(0, i + 1)) == before + row);
        let mut j: usize = 0;
        while j < files.len()
            invariant
                j <= files@.len(),
                row == files@.map_values(|f: CommitFile| scored(f)),
                flat@.len() == before.len() + j,
                forall|k: int|
                    0 <= k < flat@.len() ==> (#[trigger] flat@[k]).0@ == (before + row)[k].0
                        && flat@[k].1 as int == (before + row)[k].1,
            decreases files@.len() - j,
        {
            let f = &files[j];
            let score: i128 = if f.changes != 0 {
                f.changes as i128
            } else {
                f.additions as i128 + f.deletions as i128
            };
            flat.push((f.filename.clone(), score));
            assert((before + row)[before.len() + j] == scored(files@[j as int]));
            j = j + 1;
        }
        i = i + 1;
    }
    assert(commits@.subrange(0, commits@.len() as int) =~= commits@);
    flat
}

/// Sums the scores per name: `names` holds each name once, in order of first
/// appearance, and `totals` the matching sums.
fn tally(flat: &Vec<(String, i128)>, Ghost(changes): Ghost<Seq<(Seq<char>, int)>>) -> (r: (
    Vec<String>,
    Vec<i128>,
))
    requires
        flat@.len() == changes.len(),
        changes.len() < 0x8000_0000_0000_0000,
        forall|k: int|
            0 <= k < flat@.len() ==> (#[trigger] flat@[k]).0@ == changes[k].0 && flat@[k].1 as int
                == changes[k].1,
        forall|k: int|
            0 <= k < changes.len() ==> -0x1_0000_0000_0000_0000 <= (#[trigger] changes[k]).1
                <= 0x1_0000_0000_0000_0000,
    ensures
        r.0@.len() == r.1@.len(),
        forall|a: int, b: int|
            0 <= a < b < r.0@.len() ==> (#[trigger] r.0@[a])@ != (#[trigger] r.0@[b])@,
        forall|t: int| 0 <= t < r.0@.len() ==> names_file(changes, (#[trigger] r.0@[t])@),
        forall|name: Seq<char>|
            names_file(changes, name) ==> exists|t: int|
                0 <= t < r.0@.len() && (#[trigger] r.0@[t])@ == name,
        forall|t: int|
            0 <= t < r.1@.len() ==> (#[trigger] r.1@[t]) as int == name_total(
                changes,
                r.0@[t]@,
            ),
{
    let mut names: Vec<String> = Vec::new();
    let mut totals: Vec<i128> = Vec::new();
    let mut k: usize = 0;
    while k < flat.len()
        invariant
            flat@.len() == changes.len(),
            changes.len() < 0x8000_0000_0000_0000,
            forall|m: int|
                0 <= m < flat@.len() ==> (#[trigger] flat@[m]).0@ == changes[m].0
                    && flat@[m].1 as int == changes[m].1,
            forall|m: int|
                0 <= m < changes.len() ==> -0x1_0000_0000_0000_0000 <= (#[trigger] changes[m]).1
                    <= 0x1_0000_0000_0000_0000,
            k <= flat@.len(),
            names@.len() == totals@.len(),
            forall|a: int, b: int|
                0 <= a < b < names@.len() ==> (#[trigger] names@[a])@ != (#[trigger] names@[b])@,
            forall|t: int|
                0 <= t < names@.len() ==> names_file(
                    changes.subrange(0, k as int),
                    (#[trigger] names@[t])@,
                ),
            forall|name: Seq<char>|
                names_file(changes.subrange(0, k as int), name) ==> exists|t: int|
                    0 <= t < names@.len() && (#[trigger] names@[t])@ == name,
            forall|t: int|
                0 <= t < totals@.len() ==> (#[trigger] totals@[t]) as int == name_total(
                    changes.subrange(0, k as int),
                    names@[t]@,
                ),
        decreases flat@.len() - k,
    {
        let ghost pre = changes.subrange(0, k as int);
        let ghost post = changes.subrange(0, k + 1);
        assert forall|m: int| 0 <= m < post.len() implies -0x1_0000_0000_0000_0000 <= (
        #[trigger] post[m]).1 <= 0x1_0000_0000_0000_0000 by {
            assert(post[m] == changes[m]);
        }
        let name = &flat[k].0;
        let score = flat[k].1;
        let mut t: usize = 0;
        while t < names.len() && names[t] != *name
            invariant
                t <= names@.len(),
                forall|u: int| 0 <= u < t ==> (#[trigger] names@[u])@ != name@,
            decreases names@.len() - t,
        {
            t = t + 1;
        }
        proof {
            assert forall|u: int| 0 <= u < names@.len() implies name_total(
                post,
                (#[trigger] names@[u])@,
            ) == name_total(pre, names@[u]@) + if changes[k as int].0 == names@[u]@ {
                changes[k as int].1
            } else {
                0
            } by {
                lemma_total_step(changes, k as int, names@[u]@);
            }
            lemma_total_step(changes, k as int, name@);
            lemma_total_bound(post, name@);
            assert forall|m: int| 0 <= m < pre.len() implies post[m] == #[trigger] pre[m] by {}
            assert(post[k as int] == changes[k as int]);
        }
        let ghost old_names = names@;
        if t < names.len() {
            let next = totals[t] + score;
            totals.set(t, next);
        } else {
            proof {
                assert(!names_file(pre, name@));
                lemma_unnamed_total_zero(pre, name@);
            }
            names.push(name.clone());
            totals.push(score);
        }
        proof {
            assert forall|u: int| 0 <= u < names@.len() implies names_file(
                post,
                (#[trigger] names@[u])@,
            ) by {
                if u < names@.len() - 1 || t < names@.len() {
                    if names@[u]@ != name@ {
                        let m = choose|m: int| 0 <= m < pre.len() && #[trigger] pre[m].0 == names@[u]@;
                        assert(post[m].0 == names@[u]@);
                    } else {
                        assert(post[k as int].0 == names@[u]@);
                    }
                } else {
                    assert(post[k as int].0 == names@[u]@);
                }
            }
            assert forall|nm: Seq<char>| names_file(post, nm) implies exists|u: int|
                0 <= u < names@.len() && (#[trigger] names@[u])@ == nm by {
                let m = choose|m: int| 0 <= m < post.len() && #[trigger] post[m].0 == nm;
                if m < k {
                    assert(pre[m].0 == nm);
                    assert(names_file(pre, nm));
                    let u = choose|u: int| 0 <= u < old_names.len() && (#[trigger] old_names[u])@ == nm;
                    assert(names@[u] == old_names[u]);
                } else {
                    assert(names@[t as int]@ == nm);
                }
            }
        }
        k = k + 1;
    }
    assert(changes.subrange(0, flat@.len() as int) =~= changes);
    (names, totals)
}

/// Every churn score lies within 2^64 of zero.
proof fn lemma_scores_bounded(commits: Seq<Commit>)
    ensures
        forall|k: int|
            0 <= k < scored_changes(commits).len() ==> -0x1_0000_0000_0000_0000 <= (
            #[trigger] scored_changes(commits)[k]).1 <= 0x1_0000_0000_0000_0000,
    decreases commits.len(),
{
    if commits.len() > 0 {
        let prev = scored_changes(commits.drop_last());
        let files = commits.last().files@;
        let row = files.map_values(|f: CommitFile| scored(f));
        lemma_scores_bounded(commits.drop_last());
        assert forall|k: int| 0 <= k < (prev + row).len() implies -0x1_0000_0000_0000_0000 <= (
        #[trigger] (prev + row)[k]).1 <= 0x1_0000_0000_0000_0000 by {
            if k >= prev.len() {
                assert(row[k - prev.len()] == scored(files[k - prev.len()]));
            }
        }
    }
}

/// Picks the (at most three) best-ranked names, best first.
fn select_top(names: &Vec<String>, totals: &Vec<i128>, Ghost(commits): Ghost<Seq<Commit>>) -> (top:
    Vec<String>)
    requires
        names@.len() == totals@.len(),
        forall|a: int, b: int|
            0 <= a < b < names@.len() ==> (#[trigger] names@[a])@ != (#[trigger] names@[b])@,
        forall|t: int| 0 <= t < names@.len() ==> touches(commits, (#[trigger] names@[t])@),
        forall|name: Seq<char>|
            touches(commits, name) ==> exists|t: int|
                0 <= t < names@.len() && (#[trigger] names@[t])@ == name,
        forall|t: int|
            0 <= t < totals@.len() ==> (#[trigger] totals@[t]) as int == churn_total(
                commits,
                names@[t]@,
            ),
    ensures
        is_top_files(commits, names_of(top@)),
{
    let n = names.len();
    let mut taken: Vec<bool> = Vec::new();
    while taken.len() < n
        invariant
            taken@.len() <= n,
            forall|t: int| 0 <= t < taken@.len() ==> !(#[trigger] taken@[t]),
        decreases n - taken@.len(),
    {
        taken.push(false);
    }
    let mut top: Vec<String> = Vec::new();
    let ghost mut picked: Seq<int> = Seq::empty();
    let mut exhausted = false;
    while !exhausted && top.len() < 3
        invariant
            n == names@.len(),
            n == totals@.len(),
            forall|a: int, b: int|
                0 <= a < b < names@.len() ==> (#[trigger] names@[a])@ != (#[trigger] names@[b])@,
            forall|t: int| 0 <= t < totals@.len() ==> (#[trigger] totals@[t]) as int == churn_total(
                commits,
                names@[t]@,
            ),
            taken@.len() == n,
            top@.len() == picked.len(),
            top@.len() <= 3,
            forall|r: int|
                0 <= r < picked.len() ==> 0 <= #[trigger] picked[r] < n && top@[r]@
                    == names@[picked[r]]@ && taken@[picked[r]],
            forall|t: int|
                0 <= t < n && #[trigger] taken@[t] ==> exists|r: int|
                    0 <= r < picked.len() && picked[r] == t,
            forall|r1: int, r2: int|
                0 <= r1 < r2 < top@.len() ==> ranks_before(
                    commits,
                    (#[trigger] top@[r1])@,
                    (#[trigger] top@[r2])@,
                ),
            forall|r: int, t: int|
                0 <= r < top@.len() && 0 <= t < n && !taken@[t] ==> ranks_before(
                    commits,
                    (#[trigger] top@[r])@,
                    (#[trigger] names@[t])@,
                ),
            exhausted ==> forall|t: int| 0 <= t < n ==> #[trigger] taken@[t],
        decreases 3 - top@.len(), if exhausted { 0int } else { 1int },
    {
        let mut best: usize = n;
        let mut t: usize = 0;
        while t < n
            invariant
                n == names@.len(),
                n == totals@.len(),
                taken@.len() == n,
                forall|a: int, b: int|
                    0 <= a < b < names@.len() ==> (#[trigger] names@[a])@ != (
                    #[trigger] names@[b])@,
                forall|u: int| 0 <= u < totals@.len() ==> (#[trigger] totals@[u]) as int
                    == churn_total(commits, names@[u]@),
                t <= n,
                best == n || (best < t && !taken@[best as int]),
                best == n ==> forall|u: int| 0 <= u < t ==> #[trigger] taken@[u],
                best < n ==> forall|u: int|
                    0 <= u < t && !taken@[u] && u != best ==> ranks_before(
                        commits,
                        names@[best as int]@,
                        (#[trigger] names@[u])@,
                    ),
            decreases n - t,
        {
            if !taken[t] {
                if best == n {
                    best = t;
                } else {
                    let better = totals[t] > totals[best] || (totals[t] == totals[best]
                        && lex_less(names[t].as_str(), names[best].as_str()));
                    proof {
                        lemma_ranks_total(commits, names@[t as int]@, names@[best as int]@);
                    }
                    if better {
                        proof {
                            assert forall|u: int|
                                0 <= u < t && !taken@[u] && u != t implies ranks_before(
                                commits,
                                names@[t as int]@,
                                (#[trigger] names@[u])@,
                            ) by {
                                if u != best {
                                    lemma_ranks_transitive(
                                        commits,
                                        names@[t as int]@,
                                        names@[best as int]@,
                                        names@[u]@,
                                    );
                                }
                            }
                        }
                        best = t;
                    }
                }
            }
            t = t + 1;
        }
        if best == n {
            exhausted = true;
        } else {
            proof {
                assert forall|r: int, u: int|
                    0 <= r < top@.len() && 0 <= u < n && !taken@.update(best as int, true)[u]
                    implies ranks_before(commits, (#[trigger] top@[r])@, (#[trigger] names@[u])@) by {
                    assert(!taken@[u]);
                }
                assert forall|u: int|
                    0 <= u < n && !taken@.update(best as int, true)[u] implies ranks_before(
                    commits,
                    names@[best as int]@,
                    (#[trigger] names@[u])@,
                ) by {
                    assert(!taken@[u] && u != best);
                }
            }
            let ghost old_taken = taken@;
            let ghost old_picked = picked;
            taken.set(best, true);
            top.push(names[best].clone());
            proof {
                picked = picked.push(best as int);
                assert forall|t2: int| 0 <= t2 < n && #[trigger] taken@[t2] implies exists|r: int|
                    0 <= r < picked.len() && picked[r] == t2 by {
                    if t2 == best {
                        assert(picked[picked.len() - 1] == t2);
                    } else {
                        assert(old_taken[t2]);
                        let r = choose|r: int| 0 <= r < old_picked.len() && old_picked[r] == t2;
                        assert(picked[r] == t2);
                    }
                }
            }
        }
    }
    proof {
        let tv = names_of(top@);
        assert forall|i: int| 0 <= i < tv.len() implies touches(commits, #[trigger] tv[i]) by {
            assert(tv[i] == names@[picked[i]]@);
        }
        assert forall|name: Seq<char>| touches(commits, name) && !tv.contains(name) implies {
            &&& tv.len() == 3
            &&& forall|i: int| 0 <= i < 3 ==> ranks_before(commits, #[trigger] tv[i], name)
        } by {
            let t = choose|t: int| 0 <= t < names@.len() && (#[trigger] names@[t])@ == name;
            if taken@[t] {
                let r = choose|r: int| 0 <= r < picked.len() && picked[r] == t;
                assert(tv[r] == name);
            }
            assert forall|i: int| 0 <= i < tv.len() implies ranks_before(commits, #[trigger] tv[i], name) by {
                assert(tv[i] == top@[i]@);
            }
        }
        assert forall|i: int, j: int| 0 <= i < j < tv.len() implies ranks_before(
            commits,
            #[trigger] tv[i],
            #[trigger] tv[j],
        ) by {
            assert(tv[i] == top@[i]@ && tv[j] == top@[j]@);
        }
    }
    top
}


/// The number of forks, counted from the front, whose commits enter the
/// fork statistics.
pub const MAX_FORKS_TO_PROCESS: usize = 20;

/// Whether the commit's author date is strictly later than `created`.
/// Timestamps are compared as strings, which orders RFC 3339 UTC timestamps
/// of one format by time.
pub open spec fn authored_after(c: Commit, created: Seq<char>) -> bool {
    match c.commit.author {
        Some(author) => match author.date {
            Some(date) => lex_lt(created, date@),
            None => false,
        },
        None => false,
    }
}

/// The number of commits authored strictly after `created`.
pub open spec fn count_after(commits: Seq<Commit>, created: Seq<char>) -> int
    decreases commits.len(),
{
    if commits.len() == 0 {
        0
    } else {
        count_after(commits.drop_last(), created) + if authored_after(commits.last(), created) {
            1int
        } else {
            0int
        }
    }
}

/// The commits of a fork made after the fork was created; zero for a fork
/// with no recorded creation time.
pub open spec fn new_commit_count(fork: Repo) -> int {
    match fork.created_at {
        Some(created) => count_after(fork.recent_commits@, created@),
        None => 0,
    }
}

/// The sum of a sequence of integers.
pub open spec fn sum_of(s: Seq<int>) -> int
    decreases s.len(),
{
    if s.len() == 0 {
        0
    } else {
        sum_of(s.drop_last()) + s.last()
    }
}

/// The forks that enter the statistics: the first twenty.
pub open spec fn counted_forks(repo: Repo) -> Seq<Repo> {
    if repo.forks@.len() <= MAX_FORKS_TO_PROCESS {
        repo.forks@
    } else {
        repo.forks@.subrange(0, MAX_FORKS_TO_PROCESS as int)
    }
}

/// The new-commit count of each counted fork.
pub open spec fn fork_counts(repo: Repo) -> Seq<int> {
    counted_forks(repo).map_values(|f: Repo| new_commit_count(f))
}

/// New commits over the counted forks of a repository.
pub open spec fn new_fork_commits(repo: Repo) -> int {
    sum_of(fork_counts(repo))
}

/// New fork commits over all repositories.
pub open spec fn total_new_fork_commits(repos: Seq<Repo>) -> int {
    sum_of(repos.map_values(|r: Repo| new_fork_commits(r)))
}

pub open spec fn total_stars(repos: Seq<Repo>) -> int {
    sum_of(repos.map_values(|r: Repo| r.stargazers_count as int))
}

pub open spec fn total_forks(repos: Seq<Repo>) -> int {
    sum_of(repos.map_values(|r: Repo| r.forks_count as int))
}

pub open spec fn total_open_issues(repos: Seq<Repo>) -> int {
    sum_of(repos.map_values(|r: Repo| r.issues@.len() as int))
}

pub open spec fn total_commit_count(repos: Seq<Repo>) -> int {
    sum_of(repos.map_values(|r: Repo| r.commit_count as int))
}

/// Every repository's file changes are few enough for exact churn sums.
pub open spec fn churn_fits(repos: Seq<Repo>) -> bool {
    forall|i: int|
        0 <= i < repos.len() ==> change_count((#[trigger] repos[i]).recent_commits@)
            < 0x8000_0000_0000_0000
}

/// The totals of a language report fit the integer types that hold them.
pub open spec fn report_fits(repos: Seq<Repo>) -> bool {
    &&& churn_fits(repos)
    &&& total_stars(repos) <= u64::MAX
    &&& total_forks(repos) <= u64::MAX
    &&& total_open_issues(repos) <= usize::MAX
    &&& total_commit_count(repos) <= usize::MAX
    &&& total_new_fork_commits(repos) <= usize::MAX
}

/// Metrics of one repository: its slug and its most-churned files.
pub open spec fn metrics_match(m: RepoMetrics, repo: Repo) -> bool {
    m.slug@ == slug_of(repo) && is_top_files(repo.recent_commits@, names_of(m.top_files@))
}

proof fn lemma_sum_step(s: Seq<int>, k: int)
    requires
        0 <= k < s.len(),
    ensures
        sum_of(s.subrange(0, k + 1)) == sum_of(s.subrange(0, k)) + s[k],
{
    assert(s.subrange(0, k + 1).drop_last() =~= s.subrange(0, k));
}

proof fn lemma_sum_prefix_le(s: Seq<int>, k: int)
    requires
        0 <= k <= s.len(),
        forall|i: int| 0 <= i < s.len() ==> #[trigger] s[i] >= 0,
    ensures
        0 <= sum_of(s.subrange(0, k)) <= sum_of(s),
    decreases s.len() - k,
{
    if k == s.len() {
        assert(s.subrange(0, k) =~= s);
        lemma_sum_nonneg(s);
    } else {
        lemma_sum_step(s, k);
        lemma_sum_prefix_le(s, k + 1);
        lemma_sum_nonneg(s.subrange(0, k));
    }
}

proof fn lemma_sum_nonneg(s: Seq<int>)
    requires
        forall|i: int| 0 <= i < s.len() ==> #[trigger] s[i] >= 0,
    ensures
        sum_of(s) >= 0,
    decreases s.len(),
{
    if s.len() > 0 {
        assert forall|i: int| 0 <= i < s.len() - 1 implies #[trigger] s.drop_last()[i] >= 0 by {
            assert(s.drop_last()[i] == s[i]);
        }
        lemma_sum_nonneg(s.drop_last());
    }
}

proof fn lemma_count_after_bounds(commits: Seq<Commit>, created: Seq<char>, k: int)
    requires
        0 <= k < commits.len(),
    ensures
        count_after(commits.subrange(0, k + 1), created) == count_after(
            commits.subrange(0, k),
            created,
        ) + if authored_after(commits[k], created) {
            1int
        } else {
            0int
        },
{
    assert(commits.subrange(0, k + 1).drop_last() =~= commits.subrange(0, k));
}

proof fn lemma_count_after_range(commits: Seq<Commit>, created: Seq<char>)
    ensures
        0 <= count_after(commits, created) <= commits.len(),
    decreases commits.len(),
{
    if commits.len() > 0 {
        lemma_count_after_range(commits.drop_last(), created);
    }
}

proof fn lemma_new_fork_commits_nonneg(repo: Repo)
    ensures
        new_fork_commits(repo) >= 0,
        forall|i: int| 0 <= i < fork_counts(repo).len() ==> #[trigger] fork_counts(repo)[i] >= 0,
{
    let s = fork_counts(repo);
    assert forall|i: int| 0 <= i < s.len() implies #[trigger] s[i] >= 0 by {
        let f = counted_forks(repo)[i];
        match f.created_at {
            Some(c) => lemma_count_after_range(f.recent_commits@, c@),
            None => {},
        }
    }
    lemma_sum_nonneg(s);
}


/// A list of most-churned files never holds more than three names, and no
/// name twice.
pub proof fn top_files_are_few_and_distinct(repo: Repo, top: Seq<Seq<char>>)
    requires
        is_top_files(repo.recent_commits@, top),
    ensures
        top.len() <= 3,
        forall|i: int, j: int| 0 <= i < j < top.len() ==> top[i] != top[j],
{
    let commits = repo.recent_commits@;
    assert forall|i: int, j: int| 0 <= i < j < top.len() implies top[i] != top[j] by {
        assert(ranks_before(commits, top[i], top[j]));
        lemma_ranks_total(commits, top[i], top[j]);
    }
}

/// The list of most-churned files is determined by the commits: two lists
/// that both meet `is_top_files` are equal.
pub proof fn top_files_are_unique(commits: Seq<Commit>, t1: Seq<Seq<char>>, t2: Seq<Seq<char>>)
    requires
        is_top_files(commits, t1),
        is_top_files(commits, t2),
    ensures
        t1 == t2,
{
    let n = if t1.len() <= t2.len() {
        t1.len()
    } else {
        t2.len()
    };
    assert forall|i: int| 0 <= i < n implies t1[i] == t2[i] by {
        lemma_top_prefix_equal(commits, t1, t2, i);
    }
    lemma_top_lengths(commits, t1, t2);
    lemma_top_lengths(commits, t2, t1);
    assert(t1 =~= t2);
}

/// Two top lists agree on every position both have.
proof fn lemma_top_prefix_equal(commits: Seq<Commit>, t1: Seq<Seq<char>>, t2: Seq<Seq<char>>, i: int)
    requires
        is_top_files(commits, t1),
        is_top_files(commits, t2),
        0 <= i < t1.len(),
        i < t2.len(),
    ensures
        t1[i] == t2[i],
    decreases i,
{
    assert forall|j: int| 0 <= j < i implies t1[j] == t2[j] by {
        lemma_top_prefix_equal(commits, t1, t2, j);
    }
    let a = t1[i];
    let b = t2[i];
    if a != b {
        assert(ranks_before(commits, b, a)) by {
            lemma_ranked_after(commits, t1, t2, i);
        }
        assert(ranks_before(commits, a, b)) by {
            assert forall|j: int| 0 <= j < i implies t2[j] == t1[j] by {}
            lemma_ranked_after(commits, t2, t1, i);
        }
        lemma_ranks_total(commits, a, b);
    }
}

/// When two top lists agree before position `i` and differ there, the
/// second's entry at `i` ranks before the first's.
proof fn lemma_ranked_after(commits: Seq<Commit>, t1: Seq<Seq<char>>, t2: Seq<Seq<char>>, i: int)
    requires
        is_top_files(commits, t1),
        is_top_files(commits, t2),
        0 <= i < t1.len(),
        i < t2.len(),
        forall|j: int| 0 <= j < i ==> t1[j] == t2[j],
        t1[i] != t2[i],
    ensures
        ranks_before(commits, t2[i], t1[i]),
{
    let a = t1[i];
    assert(touches(commits, a));
    if t2.contains(a) {
        let j = choose|j: int| 0 <= j < t2.len() && t2[j] == a;
        if j < i {
            assert(t1[j] == a);
            assert(ranks_before(commits, t1[j], t1[i]));
            lemma_ranks_total(commits, a, a);
        } else {
            assert(j != i);
            assert(ranks_before(commits, t2[i], t2[j]));
        }
    } else {
        assert(ranks_before(commits, t2[i], a));
    }
}

/// A top list is at least as long as any other for the same commits: the
/// longer one's extra entry would have to be in the shorter one.
proof fn lemma_top_lengths(commits: Seq<Commit>, t1: Seq<Seq<char>>, t2: Seq<Seq<char>>)
    requires
        is_top_files(commits, t1),
        is_top_files(commits, t2),
    ensures
        t2.len() <= t1.len(),
{
    if t1.len() < t2.len() {
        let n = t1.len() as int;
        assert forall|j: int| 0 <= j < n implies t1[j] == t2[j] by {
            lemma_top_prefix_equal(commits, t1, t2, j);
        }
        let extra = t2[n];
        assert(touches(commits, extra));
        if t1.contains(extra) {
            let j = choose|j: int| 0 <= j < t1.len() && t1[j] == extra;
            assert(t2[j] == extra);
            assert(ranks_before(commits, t2[j], t2[n]));
            lemma_ranks_total(commits, extra, extra);
        }
    }
}

/// Files of equal summed churn are listed in ascending name order, and a
/// file left out with the same churn as a listed one has a later name.
pub proof fn top_files_break_ties_by_name(repo: Repo, top: Seq<Seq<char>>)
    requires
        is_top_files(repo.recent_commits@, top),
    ensures
        forall|i: int, j: int|
            0 <= i < j < top.len() && churn_total(repo.recent_commits@, top[i]) == churn_total(
                repo.recent_commits@,
                top[j],
            ) ==> lex_lt(top[i], top[j]),
        forall|i: int, name: Seq<char>|
            0 <= i < top.len() && touches(repo.recent_commits@, name) && !top.contains(name)
                && churn_total(repo.recent_commits@, top[i]) == churn_total(
                repo.recent_commits@,
                name,
            ) ==> lex_lt(top[i], name),
{
    let commits = repo.recent_commits@;
    assert forall|i: int, j: int|
        0 <= i < j < top.len() && churn_total(commits, top[i]) == churn_total(
            commits,
            top[j],
        ) implies lex_lt(top[i], top[j]) by {
        assert(ranks_before(commits, top[i], top[j]));
    }
    assert forall|i: int, name: Seq<char>|
        0 <= i < top.len() && touches(commits, name) && !top.contains(name) && churn_total(
            commits,
            top[i],
        ) == churn_total(commits, name) implies lex_lt(top[i], name) by {
        assert(ranks_before(commits, top[i], name));
    }
}

/// The churn score of a change is its `changes` count when that is nonzero,
/// whatever its additions and deletions; otherwise it is additions plus
/// deletions.
pub proof fn churn_score_prefers_changes(f: CommitFile)
    ensures
        f.changes != 0 ==> churn_score(f) == f.changes,
        f.changes == 0 ==> churn_score(f) == f.additions + f.deletions,
{
}

/// A fork with no recorded creation time contributes no new commits,
/// however its commits are dated.
pub proof fn undated_fork_has_no_new_commits(fork: Repo)
    requires
        fork.created_at is None,
    ensures
        new_commit_count(fork) == 0,
{
}

/// A commit counts as new only when its author date is strictly later than
/// the fork's creation time: one dated exactly then, or undated, does not.
pub proof fn only_strictly_later_commits_are_new(c: Commit, created: Seq<char>)
    ensures
        authored_after(c, created) <==> (c.commit.author is Some && c.commit.author->0.date is Some
            && lex_lt(created, c.commit.author->0.date->0@)),
        c.commit.author is Some && c.commit.author->0.date is Some && c.commit.author->0.date->0@
            == created ==> !authored_after(c, created),
{
    lemma_lex_irreflexive(created);
}

proof fn lemma_change_count_step(commits: Seq<Commit>, i: int)
    requires
        0 <= i < commits.len(),
    ensures
        change_count(commits.subrange(0, i + 1)) == change_count(commits.subrange(0, i))
            + commits[i].files@.len(),
{
    assert(commits.subrange(0, i + 1).drop_last() =~= commits.subrange(0, i));
}

/// Whether the commits have fewer than 2^63 file changes.
fn churn_within_limit(commits: &Vec<Commit>) -> (r: bool)
    ensures
        r == (change_count(commits@) < 0x8000_0000_0000_0000),
{
    let mut n: u128 = 0;
    let mut i: usize = 0;
    while i < commits.len()
        invariant
            i <= commits@.len(),
            n == change_count(commits@.subrange(0, i as int)),
            n < 0x8000_0000_0000_0000,
        decreases commits@.len() - i,
    {
        proof {
            lemma_change_count_step(commits@, i as int);
        }
        n = n + commits[i].files.len() as u128;
        if n >= 0x8000_0000_0000_0000 {
            proof {
                lemma_change_count_grows(commits@, i + 1);
            }
            return false;
        }
        i = i + 1;
    }
    assert(commits@.subrange(0, commits@.len() as int) =~= commits@);
    true
}

proof fn lemma_change_count_grows(commits: Seq<Commit>, k: int)
    requires
        0 <= k <= commits.len(),
    ensures
        change_count(commits.subrange(0, k)) <= change_count(commits),
    decreases commits.len() - k,
{
    if k == commits.len() {
        assert(commits.subrange(0, k) =~= commits);
    } else {
        lemma_change_count_step(commits, k);
        lemma_change_count_grows(commits, k + 1);
    }
}

/// Whether the sum of `values` is at most `bound`.
fn sum_at_most(values: &Vec<u128>, bound: u128, Ghost(s): Ghost<Seq<int>>) -> (r: bool)
    requires
        values@.len() == s.len(),
        bound <= u64::MAX,
        forall|k: int| 0 <= k < s.len() ==> (#[trigger] values@[k]) as int == s[k],
        forall|k: int| 0 <= k < s.len() ==> 0 <= #[trigger] s[k] <= 0x1_0000_0000_0000_0000_0000,
    ensures
        r == (sum_of(s) <= bound),
{
    let mut acc: u128 = 0;
    let mut i: usize = 0;
    while i < values.len()
        invariant
            values@.len() == s.len(),
            bound <= u64::MAX,
            forall|k: int| 0 <= k < s.len() ==> (#[trigger] values@[k]) as int == s[k],
            forall|k: int| 0 <= k < s.len() ==> 0 <= #[trigger] s[k] <= 0x1_0000_0000_0000_0000_0000,
            i <= s.len(),
            acc == sum_of(s.subrange(0, i as int)),
            acc <= bound,
        decreases s.len() - i,
    {
        proof {
            lemma_sum_step(s, i as int);
        }
        acc = acc + values[i];
        if acc > bound {
            proof {
                lemma_sum_prefix_le(s, i + 1);
            }
            return false;
        }
        i = i + 1;
    }
    assert(s.subrange(0, s.len() as int) =~= s);
    true
}

/// Per-repository metrics of a language report.
#[derive(Debug, Clone, PartialEq, Eq)]
pub struct RepoMetrics {
    pub slug: String,
    pub top_files: Vec<String>,
}

/// Totals and per-repository metrics over the repositories of one language.
#[derive(Debug)]
pub struct LanguageReport {
    pub language: String,
    pub repos: Vec<Repo>,
    pub total_stars: u64,
    pub total_forks: u64,
    pub total_open_issues: usize,
    pub total_repo_commits: usize,
    pub new_fork_commits: usize,
    pub repo_metrics: Vec<RepoMetrics>,
}

/// Calculator of repository statistics; all of its functions are pure.
pub struct StatsCalculator;

impl StatsCalculator {
    /// The number of the fork's commits whose author date is strictly later
    /// than the fork's creation time. A fork with no creation time counts
    /// zero; a commit with no author date does not count.
    pub fn count_new_commits(fork: &Repo) -> (n: usize)
        ensures
            n == new_commit_count(*fork),
    {
        match &fork.created_at {
            None => 0,
            Some(created) => {
                let commits = &fork.recent_commits;
                let mut n: usize = 0;
                let mut i: usize = 0;
                while i < commits.len()
                    invariant
                        i <= commits@.len(),
                        n == count_after(commits@.subrange(0, i as int), created@),
                        n <= i,
                    decreases commits@.len() - i,
                {
                    proof {
                        lemma_count_after_bounds(commits@, created@, i as int);
                    }
                    let later = match &commits[i].commit.author {
                        Some(author) => match &author.date {
                            Some(date) => lex_less(created.as_str(), date.as_str()),
                            None => false,
                        },
                        None => false,
                    };
                    if later {
                        n = n + 1;
                    }
                    i = i + 1;
                }
                assert(commits@.subrange(0, commits@.len() as int) =~= commits@);
                n
            },
        }
    }

    /// New commits summed over the first twenty forks of a repository.
    fn count_fork_commits(repo: &Repo) -> (n: usize)
        requires
            new_fork_commits(*repo) <= usize::MAX,
        ensures
            n == new_fork_commits(*repo),
    {
        let ghost s = fork_counts(*repo);
        let limit = if repo.forks.len() <= MAX_FORKS_TO_PROCESS {
            repo.forks.len()
        } else {
            MAX_FORKS_TO_PROCESS
        };
        proof {
            lemma_new_fork_commits_nonneg(*repo);
        }
        let mut n: usize = 0;
        let mut i: usize = 0;
        while i < limit
            invariant
                limit == counted_forks(*repo).len(),
                limit <= repo.forks@.len(),
                s == fork_counts(*repo),
                forall|k: int| 0 <= k < s.len() ==> #[trigger] s[k] >= 0,
                sum_of(s) <= usize::MAX,
                i <= limit,
                n == sum_of(s.subrange(0, i as int)),
            decreases limit - i,
        {
            proof {
                lemma_sum_step(s, i as int);
                lemma_sum_prefix_le(s, i + 1);
                assert(counted_forks(*repo)[i as int] == repo.forks@[i as int]);
            }
            let c = Self::count_new_commits(&repo.forks[i]);
            n = n + c;
            i = i + 1;
        }
        assert(s.subrange(0, limit as int) =~= s);
        n
    }

    /// New commits summed over the first twenty forks, in a wide integer.
    fn fork_commits_wide(repo: &Repo) -> (n: u128)
        ensures
            n == new_fork_commits(*repo),
            n <= 0x1_0000_0000_0000_0000_0000,
    {
        let ghost s = fork_counts(*repo);
        let limit = if repo.forks.len() <= MAX_FORKS_TO_PROCESS {
            repo.forks.len()
        } else {
            MAX_FORKS_TO_PROCESS
        };
        let mut n: u128 = 0;
        let mut i: usize = 0;
        while i < limit
            invariant
                limit == counted_forks(*repo).len(),
                limit <= MAX_FORKS_TO_PROCESS,
                limit <= repo.forks@.len(),
                s == fork_counts(*repo),
                i <= limit,
                n == sum_of(s.subrange(0, i as int)),
                n <= i * 0x1_0000_0000_0000_0000,
            decreases limit - i,
        {
            proof {
                lemma_sum_step(s, i as int);
                assert(counted_forks(*repo)[i as int] == repo.forks@[i as int]);
            }
            let c = Self::count_new_commits(&repo.forks[i]);
            n = n + c as u128;
            i = i + 1;
        }
        assert(s.subrange(0, limit as int) =~= s);
        n
    }

    /// Whether every total of a report over `repos` fits its integer type,
    /// which `build_language_report` asks of its input.
    pub fn report_within_limits(repos: &[Repo]) -> (r: bool)
        ensures
            r == report_fits(repos@),
    {
        let ghost stars = repos@.map_values(|r: Repo| r.stargazers_count as int);
        let ghost forks = repos@.map_values(|r: Repo| r.forks_count as int);
        let ghost issues = repos@.map_values(|r: Repo| r.issues@.len() as int);
        let ghost commits = repos@.map_values(|r: Repo| r.commit_count as int);
        let ghost fork_new = repos@.map_values(|r: Repo| new_fork_commits(r));
        let mut star_vals: Vec<u128> = Vec::new();
        let mut fork_vals: Vec<u128> = Vec::new();
        let mut issue_vals: Vec<u128> = Vec::new();
        let mut commit_vals: Vec<u128> = Vec::new();
        let mut new_vals: Vec<u128> = Vec::new();
        let mut i: usize = 0;
        while i < repos.len()
            invariant
                i <= repos@.len(),
                stars == repos@.map_values(|r: Repo| r.stargazers_count as int),
                forks == repos@.map_values(|r: Repo| r.forks_count as int),
                issues == repos@.map_values(|r: Repo| r.issues@.len() as int),
                commits == repos@.map_values(|r: Repo| r.commit_count as int),
                fork_new == repos@.map_values(|r: Repo| new_fork_commits(r)),
                star_vals@.len() == i,
                fork_vals@.len() == i,
                issue_vals@.len() == i,
                commit_vals@.len() == i,
                new_vals@.len() == i,
                forall|k: int| 0 <= k < i ==> (#[trigger] star_vals@[k]) as int == stars[k],
                forall|k: int| 0 <= k < i ==> (#[trigger] fork_vals@[k]) as int == forks[k],
                forall|k: int| 0 <= k < i ==> (#[trigger] issue_vals@[k]) as int == issues[k],
                forall|k: int| 0 <= k < i ==> (#[trigger] commit_vals@[k]) as int == commits[k],
                forall|k: int| 0 <= k < i ==> (#[trigger] new_vals@[k]) as int == fork_new[k],
                forall|k: int| 0 <= k < i ==> #[trigger] fork_new[k] <= 0x1_0000_0000_0000_0000_0000,
                forall|k: int| 0 <= k < i ==> 0 <= #[trigger] issues[k] <= usize::MAX,
                forall|k: int| 0 <= k < i ==> 0 <= #[trigger] stars[k] <= u64::MAX,
                forall|k: int| 0 <= k < i ==> 0 <= #[trigger] forks[k] <= u64::MAX,
                forall|k: int| 0 <= k < i ==> 0 <= #[trigger] commits[k] <= u64::MAX,
                forall|k: int| 0 <= k < i ==> change_count((#[trigger] repos@[k]).recent_commits@)
                    < 0x8000_0000_0000_0000,
            decreases repos@.len() - i,
        {
            let repo = &repos[i];
            let issue_count = repo.issues.len();
            if !churn_within_limit(&repo.recent_commits) {
                return false;
            }
            star_vals.push(repo.stargazers_count as u128);
            fork_vals.push(repo.forks_count as u128);
            issue_vals.push(issue_count as u128);
            commit_vals.push(repo.commit_count as u128);
            new_vals.push(Self::fork_commits_wide(repo));
            i = i + 1;
        }
        proof {
            assert forall|k: int| 0 <= k < fork_new.len() implies #[trigger] fork_new[k] >= 0 by {
                lemma_new_fork_commits_nonneg(repos@[k]);
            }
            assert(usize::MAX <= u64::MAX);
        }
        sum_at_most(&star_vals, u64::MAX as u128, Ghost(stars)) && sum_at_most(
            &fork_vals,
            u64::MAX as u128,
            Ghost(forks),
        ) && sum_at_most(&issue_vals, usize::MAX as u128, Ghost(issues)) && sum_at_most(
            &commit_vals,
            usize::MAX as u128,
            Ghost(commits),
        ) && sum_at_most(&new_vals, usize::MAX as u128, Ghost(fork_new))
    }

    /// The metrics of each repository, in order, and the new fork commits
    /// summed over all of them.
    pub fn calculate_repo_stats(repos: &[Repo]) -> (r: (Vec<RepoMetrics>, usize))
        requires
            churn_fits(repos@),
            total_new_fork_commits(repos@) <= usize::MAX,
        ensures
            r.0@.len() == repos@.len(),
            forall|i: int| 0 <= i < repos@.len() ==> metrics_match(#[trigger] r.0@[i], repos@[i]),
            r.1 == total_new_fork_commits(repos@),
    {
        let ghost s = repos@.map_values(|r: Repo| new_fork_commits(r));
        proof {
            assert forall|k: int| 0 <= k < s.len() implies #[trigger] s[k] >= 0 by {
                lemma_new_fork_commits_nonneg(repos@[k]);
            }
        }
        let mut metrics: Vec<RepoMetrics> = Vec::new();
        let mut total: usize = 0;
        let mut i: usize = 0;
        while i < repos.len()
            invariant
                s == repos@.map_values(|r: Repo| new_fork_commits(r)),
                forall|k: int| 0 <= k < s.len() ==> #[trigger] s[k] >= 0,
                churn_fits(repos@),
                sum_of(s) <= usize::MAX,
                i <= repos@.len(),
                metrics@.len() == i,
                forall|k: int| 0 <= k < i ==> metrics_match(#[trigger] metrics@[k], repos@[k]),
                total == sum_of(s.subrange(0, i as int)),
            decreases repos@.len() - i,
        {
            let repo = &repos[i];
            proof {
                lemma_sum_step(s, i as int);
                lemma_sum_prefix_le(s, i + 1);
                assert(change_count(repos@[i as int].recent_commits@) < 0x8000_0000_0000_0000);
            }
            let top_files = Self::get_top_files(repo);
            let forks_new = Self::count_fork_commits(repo);
            total = total + forks_new;
            metrics.push(RepoMetrics { slug: repo.slug(), top_files });
            i = i + 1;
        }
        assert(s.subrange(0, repos@.len() as int) =~= s);
        (metrics, total)
    }

    /// The report of one language: star, fork, open-issue and commit totals,
    /// new fork commits, and the metrics of each repository in order. The
    /// repositories are kept in the report.
    pub fn build_language_report(language: &str, repos: Vec<Repo>) -> (r: LanguageReport)
        requires
            report_fits(repos@),
        ensures
            r.language@ == language@,
            r.repos@ == repos@,
            r.total_stars == total_stars(repos@),
            r.total_forks == total_forks(repos@),
            r.total_open_issues == total_open_issues(repos@),
            r.total_repo_commits == total_commit_count(repos@),
            r.new_fork_commits == total_new_fork_commits(repos@),
            r.repo_metrics@.len() == repos@.len(),
            forall|i: int|
                0 <= i < repos@.len() ==> metrics_match(#[trigger] r.repo_metrics@[i], repos@[i]),
    {
        let ghost stars = repos@.map_values(|r: Repo| r.stargazers_count as int);
        let ghost forks = repos@.map_values(|r: Repo| r.forks_count as int);
        let ghost issues = repos@.map_values(|r: Repo| r.issues@.len() as int);
        let ghost commits = repos@.map_values(|r: Repo| r.commit_count as int);
        let mut star_sum: u64 = 0;
        let mut fork_sum: u64 = 0;
        let mut issue_sum: usize = 0;
        let mut commit_sum: usize = 0;
        let mut i: usize = 0;
        while i < repos.len()
            invariant
                stars == repos@.map_values(|r: Repo| r.stargazers_count as int),
                forks == repos@.map_values(|r: Repo| r.forks_count as int),
                issues == repos@.map_values(|r: Repo| r.issues@.len() as int),
                commits == repos@.map_values(|r: Repo| r.commit_count as int),
                report_fits(repos@),
                i <= repos@.len(),
                star_sum == sum_of(stars.subrange(0, i as int)),
                fork_sum == sum_of(forks.subrange(0, i as int)),
                issue_sum == sum_of(issues.subrange(0, i as int)),
                commit_sum == sum_of(commits.subrange(0, i as int)),
            decreases repos@.len() - i,
        {
            proof {
                lemma_sum_step(stars, i as int);
                lemma_sum_prefix_le(stars, i + 1);
                lemma_sum_step(forks, i as int);
                lemma_sum_prefix_le(forks, i + 1);
                lemma_sum_step(issues, i as int);
                lemma_sum_prefix_le(issues, i + 1);
                lemma_sum_step(commits, i as int);
                lemma_sum_prefix_le(commits, i + 1);
            }
            let repo = &repos[i];
            star_sum = star_sum + repo.stargazers_count;
            fork_sum = fork_sum + repo.forks_count;
            issue_sum = issue_sum + repo.issues.len();
            commit_sum = commit_sum + repo.commit_count as usize;
            i = i + 1;
        }
        proof {
            assert(stars.subrange(0, repos@.len() as int) =~= stars);
            assert(forks.subrange(0, repos@.len() as int) =~= forks);
            assert(issues.subrange(0, repos@.len() as int) =~= issues);
            assert(commits.subrange(0, repos@.len() as int) =~= commits);
        }
        let (repo_metrics, new_fork_commits) = Self::calculate_repo_stats(repos.as_slice());
        LanguageReport {
            language: String::from_str(language),
            repos,
            total_stars: star_sum,
            total_forks: fork_sum,
            total_open_issues: issue_sum,
            total_repo_commits: commit_sum,
            new_fork_commits,
            repo_metrics,
        }
    }

    /// The (at most three) files with the highest summed churn over the
    /// repository's detailed commits, highest first, equal churn ordered by
    /// file name.
    pub fn get_top_files(repo: &Repo) -> (top: Vec<String>)
        requires
            change_count(repo.recent_commits@) < 0x8000_0000_0000_0000,
        ensures
            is_top_files(repo.recent_commits@, names_of(top@)),
    {
        let ghost commits = repo.recent_commits@;
        let flat = flatten_changes(&repo.recent_commits);
        proof {
            lemma_scores_bounded(commits);
        }
        let (names, totals) = tally(&flat, Ghost(scored_changes(commits)));
        select_top(&names, &totals, Ghost(commits))
    }
}

} // verus!
