//! What a run of the scanner does, decided from its options, and the
//! reading of commit ids.

use vstd::prelude::*;
use crate::dates::{within, Instant};
use crate::text::{contains_text, join_commas, split_commas, text_contains};

verus! {

/// The options of a run.
#[derive(Debug)]
pub struct ScanOptions {
    /// Path of the repository.
    pub repo: String,
    /// One commit to describe.
    pub commit: Option<String>,
    /// Commits to describe, separated by commas.
    pub commits: Option<String>,
    /// A file that lists the commits to describe, one per line.
    pub commits_file: Option<String>,
    /// Start of a search by commit time.
    pub commit_since: Option<String>,
    /// End of a search by commit time.
    pub commit_until: Option<String>,
    /// First commit of a run of the history.
    pub commit_from: Option<String>,
    /// Last commit of a run of the history.
    pub commit_to: Option<String>,
    /// List the files with changes not committed.
    pub uncommitted: bool,
}

/// What a run does.
#[derive(Debug)]
pub enum ScanPlan {
    SingleCommit(String),
    MultipleCommits(Vec<String>),
    CommitsFile(String),
    TimeRange(String, String),
    CommitRange(String, String),
    Uncommitted,
    Nothing,
}

/// `ids` is the comma-separated list `list`, split at every comma.
pub open spec fn is_comma_split(ids: Seq<Seq<char>>, list: Seq<char>) -> bool {
    &&& ids.len() >= 1
    &&& join_commas(ids) == list
    &&& forall|i: int| 0 <= i < ids.len() ==> !(#[trigger] ids[i]).contains(',')
}

/// The plan for the options: the first of, in this order, one commit, a
/// list of commits, a file of commits, a time search (both bounds given), a
/// run of the history (both ends given), the uncommitted files; else
/// nothing.
pub open spec fn is_plan_for(o: ScanOptions, r: ScanPlan) -> bool {
    if o.commit is Some {
        r matches ScanPlan::SingleCommit(c) && c@ == o.commit->0@
    } else if o.commits is Some {
        r matches ScanPlan::MultipleCommits(ids) && is_comma_split(ids.deep_view(), o.commits->0@)
    } else if o.commits_file is Some {
        r matches ScanPlan::CommitsFile(f) && f@ == o.commits_file->0@
    } else if o.commit_since is Some && o.commit_until is Some {
        r matches ScanPlan::TimeRange(s, u) && s@ == o.commit_since->0@ && u@
            == o.commit_until->0@
    } else if o.commit_from is Some && o.commit_to is Some {
        r matches ScanPlan::CommitRange(f, t) && f@ == o.commit_from->0@ && t@
            == o.commit_to->0@
    } else if o.uncommitted {
        r matches ScanPlan::Uncommitted
    } else {
        r matches ScanPlan::Nothing
    }
}

/// A plan that searches between two bounds keeps them in the order of the
/// options: the since bound first, the until bound second; a run of the
/// history from the from commit to the to commit.
pub proof fn law_plan_keeps_bound_order(o: ScanOptions, r: ScanPlan)
    requires
        is_plan_for(o, r),
        o.commit is None,
        o.commits is None,
        o.commits_file is None,
    ensures
        o.commit_since is Some && o.commit_until is Some ==> (r matches ScanPlan::TimeRange(
            s,
            u,
        ) && s@ == o.commit_since->0@ && u@ == o.commit_until->0@),
        !(o.commit_since is Some && o.commit_until is Some) && o.commit_from is Some
            && o.commit_to is Some ==> (r matches ScanPlan::CommitRange(f, t) && f@
            == o.commit_from->0@ && t@ == o.commit_to->0@),
{
}

/// Decides what a run with the options `opts` does.
pub fn plan_scan(opts: &ScanOptions) -> (r: ScanPlan)
    ensures
        is_plan_for(*opts, r),
{
    if let Some(commit) = &opts.commit {
        return ScanPlan::SingleCommit(commit.clone());
    }
    if let Some(commits) = &opts.commits {
        let ids = split_commas(commits.as_str());
        return ScanPlan::MultipleCommits(ids);
    }
    if let Some(file) = &opts.commits_file {
        return ScanPlan::CommitsFile(file.clone());
    }
    match (&opts.commit_since, &opts.commit_until) {
        (Some(since), Some(until)) => {
            return ScanPlan::TimeRange(since.clone(), until.clone());
        },
        _ => {},
    }
    match (&opts.commit_from, &opts.commit_to) {
        (Some(from), Some(to)) => {
            return ScanPlan::CommitRange(from.clone(), to.clone());
        },
        _ => {},
    }
    if opts.uncommitted {
        ScanPlan::Uncommitted
    } else {
        ScanPlan::Nothing
    }
}

/// A hexadecimal digit, in either case.
pub open spec fn is_hex_digit(c: char) -> bool {
    ('0' <= c && c <= '9') || ('a' <= c && c <= 'f') || ('A' <= c && c <= 'F')
}

/// A text that git reads as a (possibly abbreviated) SHA-1 commit id: one
/// to forty hexadecimal digits.
pub open spec fn is_commit_id_text(s: Seq<char>) -> bool {
    0 < s.len() <= 40 && forall|i: int| 0 <= i < s.len() ==> is_hex_digit(#[trigger] s[i])
}

/// A hexadecimal digit in lower case.
pub open spec fn hex_lower(c: char) -> char {
    if 'A' <= c && c <= 'F' {
        ((c as int) + 32) as char
    } else {
        c
    }
}

/// The forty-digit id that git makes of an abbreviated one: the digits in
/// lower case, followed by zeros.
pub open spec fn full_commit_id(s: Seq<char>) -> Seq<char> {
    s.map_values(|c: char| hex_lower(c)) + Seq::new((40 - s.len()) as nat, |i: int| '0')
}

/// git2's error type, carried through unopened.
#[verifier::external_type_specification]
#[verifier::external_body]
pub struct ExGitError(git2::Error);

/// Reads a commit id with `git2::Oid::from_str` and writes it back with the
/// `Display` impl of `git2::Oid`. git2 documents the error: an empty text,
/// more than forty characters, or a character that is not a hexadecimal
/// digit. libgit2 fills the missing digits with zeros and writes the digits
/// in lower case.
#[verifier::external_body]
fn oid_from_str(id: &str) -> (r: Result<String, git2::Error>)
    ensures
        r is Ok <==> is_commit_id_text(id@),
        r matches Ok(h) ==> h@ == full_commit_id(id@),
{
    match git2::Oid::from_str(id) {
        Ok(oid) => Ok(oid.to_string()),
        Err(e) => Err(e),
    }
}

/// A text that is not a commit id, with git's explanation.
#[derive(Debug)]
pub enum CommitIdError {
    Invalid(git2::Error),
}

/// Reads a commit id given by the user: one to forty hexadecimal digits,
/// completed with zeros to the full forty-digit id, in lower case.
pub fn parse_commit_id(id: &str) -> (r: Result<String, CommitIdError>)
    ensures
        r is Ok <==> is_commit_id_text(id@),
        r matches Ok(h) ==> h@ == full_commit_id(id@),
{
    match oid_from_str(id) {
        Ok(h) => Ok(h),
        Err(e) => Err(CommitIdError::Invalid(e)),
    }
}

/// Whether the commit `commit_id` is among the commits left out of a search.
pub fn is_excluded_commit(commit_id: &str, excluded: &[String]) -> (r: bool)
    ensures
        r == excluded.deep_view().contains(commit_id@),
{
    let ghost ev = excluded.deep_view();
    let id = commit_id.to_owned();
    let mut i: usize = 0;
    while i < excluded.len()
        invariant
            i <= excluded.len(),
            ev == excluded.deep_view(),
            ev.len() == excluded.len(),
            id@ == commit_id@,
            forall|j: int| 0 <= j < i ==> ev[j] != commit_id@,
        decreases excluded.len() - i,
    {
        if excluded[i] == id {
            assert(ev[i as int] == commit_id@);
            return true;
        }
        i = i + 1;
    }
    false
}

/// The ids of the commits, in order, that are not excluded and were made
/// (whole seconds since the epoch) between `start` and `end`, both included.
pub open spec fn commits_in_window(
    commits: Seq<(Seq<char>, i64)>,
    excluded: Seq<Seq<char>>,
    start: Instant,
    end: Instant,
) -> Seq<Seq<char>>
    decreases commits.len(),
{
    if commits.len() == 0 {
        Seq::empty()
    } else {
        let rest = commits_in_window(commits.drop_last(), excluded, start, end);
        let c = commits.last();
        if !excluded.contains(c.0) && within(Instant { secs: c.1, nanos: 0 }, start, end) {
            rest.push(c.0)
        } else {
            rest
        }
    }
}

/// From the commits of a history walk, as pairs (id, commit time in whole
/// seconds since the epoch), the ids of those that are not excluded and lie
/// between `start` and `end`, both included, in the order of the walk.
pub fn select_commits_by_time(
    commits: &[(String, i64)],
    excluded: &[String],
    start: Instant,
    end: Instant,
) -> (r: Vec<String>)
    ensures
        r.deep_view() == commits_in_window(commits.deep_view(), excluded.deep_view(), start, end),
{
    let ghost cv = commits.deep_view();
    let mut out: Vec<String> = Vec::new();
    let mut i: usize = 0;
    while i < commits.len()
        invariant
            i <= commits.len(),
            cv == commits.deep_view(),
            cv.len() == commits.len(),
            out.deep_view() == commits_in_window(
                cv.take(i as int),
                excluded.deep_view(),
                start,
                end,
            ),
        decreases commits.len() - i,
    {
        assert(cv.take(i + 1).drop_last() =~= cv.take(i as int));
        assert(cv.take(i + 1).last() == cv[i as int]);
        let id = commits[i].0.as_str();
        if !is_excluded_commit(id, excluded)
            && crate::dates::commit_in_time_window(commits[i].1, start, end) {
            let ghost before = out.deep_view();
            let kept = commits[i].0.clone();
            out.push(kept);
            assert(out.deep_view() =~= before.push(kept@));
        }
        i = i + 1;
    }
    assert(cv.take(commits.len() as int) =~= cv);
    out
}

/// Every walked commit that is not excluded and was made inside the window
/// is selected, whatever its place in the walk (the first one included).
pub proof fn law_time_selection_complete(
    commits: Seq<(Seq<char>, i64)>,
    excluded: Seq<Seq<char>>,
    start: Instant,
    end: Instant,
    k: int,
)
    requires
        0 <= k < commits.len(),
        !excluded.contains(commits[k].0),
        within(Instant { secs: commits[k].1, nanos: 0 }, start, end),
    ensures
        commits_in_window(commits, excluded, start, end).contains(commits[k].0),
    decreases commits.len(),
{
    let r = commits_in_window(commits, excluded, start, end);
    let rest = commits_in_window(commits.drop_last(), excluded, start, end);
    if k == commits.len() - 1 {
        assert(r == rest.push(commits[k].0));
        assert(r[rest.len() as int] == commits[k].0);
    } else {
        assert(commits.drop_last()[k] == commits[k]);
        law_time_selection_complete(commits.drop_last(), excluded, start, end, k);
        let j = choose|j: int| 0 <= j < rest.len() && rest[j] == commits[k].0;
        if r != rest {
            assert(r == rest.push(commits.last().0));
        }
        assert(r[j] == rest[j]);
    }
}

/// A walked commit is kept when it is not excluded and was made inside the
/// window.
pub open spec fn kept_in_window(
    c: (Seq<char>, i64),
    excluded: Seq<Seq<char>>,
    start: Instant,
    end: Instant,
) -> bool {
    !excluded.contains(c.0) && within(Instant { secs: c.1, nanos: 0 }, start, end)
}

/// The selection is the walk filtered by the window and the exclusions,
/// order kept, each commit taken once: nothing else is added, dropped or
/// moved.
pub proof fn law_time_selection_is_filter(
    commits: Seq<(Seq<char>, i64)>,
    excluded: Seq<Seq<char>>,
    start: Instant,
    end: Instant,
)
    ensures
        commits_in_window(commits, excluded, start, end) == commits.filter(
            |c: (Seq<char>, i64)| kept_in_window(c, excluded, start, end),
        ).map_values(|c: (Seq<char>, i64)| c.0),
    decreases commits.len(),
{
    reveal_with_fuel(Seq::filter, 1);
    let p = |c: (Seq<char>, i64)| kept_in_window(c, excluded, start, end);
    let f = |c: (Seq<char>, i64)| c.0;
    if commits.len() == 0 {
        assert(commits.filter(p).map_values(f) =~= Seq::<Seq<char>>::empty());
    } else {
        law_time_selection_is_filter(commits.drop_last(), excluded, start, end);
        let sub = commits.drop_last().filter(p);
        if p(commits.last()) {
            assert(sub.push(commits.last()).map_values(f) =~= sub.map_values(f).push(
                commits.last().0,
            ));
        }
    }
}

/// Every selected id is that of a walked commit that is not excluded and
/// was made inside the window.
pub proof fn law_time_selection_sound(
    commits: Seq<(Seq<char>, i64)>,
    excluded: Seq<Seq<char>>,
    start: Instant,
    end: Instant,
    j: int,
)
    requires
        0 <= j < commits_in_window(commits, excluded, start, end).len(),
    ensures
        exists|k: int|
            0 <= k < commits.len() && (#[trigger] commits[k]).0 == commits_in_window(
                commits,
                excluded,
                start,
                end,
            )[j] && !excluded.contains(commits[k].0) && within(
                Instant { secs: commits[k].1, nanos: 0 },
                start,
                end,
            ),
    decreases commits.len(),
{
    let r = commits_in_window(commits, excluded, start, end);
    let rest = commits_in_window(commits.drop_last(), excluded, start, end);
    if j < rest.len() {
        law_time_selection_sound(commits.drop_last(), excluded, start, end, j);
        let k = choose|k: int|
            0 <= k < commits.drop_last().len() && (#[trigger] commits.drop_last()[k]).0 == rest[j]
                && !excluded.contains(commits.drop_last()[k].0) && within(
                Instant { secs: commits.drop_last()[k].1, nanos: 0 },
                start,
                end,
            );
        assert(commits[k] == commits.drop_last()[k]);
        if r != rest {
            assert(r == rest.push(commits.last().0));
        }
        assert(r[j] == rest[j]);
    } else {
        assert(commits[commits.len() - 1] == commits.last());
    }
}

/// The positions, in order, of the branch names that hold `pattern`.
pub open spec fn branches_matching(names: Seq<Seq<char>>, pattern: Seq<char>) -> Seq<int>
    decreases names.len(),
{
    if names.len() == 0 {
        Seq::empty()
    } else {
        let rest = branches_matching(names.drop_last(), pattern);
        if contains_text(names.last(), pattern) {
            rest.push(names.len() - 1)
        } else {
            rest
        }
    }
}

/// A branch is selected exactly when its name holds the pattern.
pub proof fn law_branch_selected_iff_name_matches(
    names: Seq<Seq<char>>,
    pattern: Seq<char>,
    k: int,
)
    requires
        0 <= k < names.len(),
    ensures
        branches_matching(names, pattern).contains(k) <==> contains_text(names[k], pattern),
    decreases names.len(),
{
    let r = branches_matching(names, pattern);
    let init = names.drop_last();
    let rest = branches_matching(init, pattern);
    lemma_branches_below(init, pattern);
    if k == names.len() - 1 {
        if contains_text(names[k], pattern) {
            assert(r[rest.len() as int] == k);
        } else {
            assert(r == rest);
        }
    } else {
        assert(init[k] == names[k]);
        law_branch_selected_iff_name_matches(init, pattern, k);
        if r != rest {
            assert(r == rest.push(names.len() - 1));
            if r.contains(k) {
                let j = choose|j: int| 0 <= j < r.len() && r[j] == k;
                if j < rest.len() {
                    assert(rest[j] == k);
                }
            }
            if rest.contains(k) {
                let j = choose|j: int| 0 <= j < rest.len() && rest[j] == k;
                assert(r[j] == k);
            }
        }
    }
}

proof fn lemma_branches_below(names: Seq<Seq<char>>, pattern: Seq<char>)
    ensures
        forall|j: int|
            0 <= j < branches_matching(names, pattern).len() ==> 0 <= #[trigger] branches_matching(
                names,
                pattern,
            )[j] < names.len(),
    decreases names.len(),
{
    if names.len() > 0 {
        let r = branches_matching(names, pattern);
        let rest = branches_matching(names.drop_last(), pattern);
        lemma_branches_below(names.drop_last(), pattern);
        assert forall|j: int| 0 <= j < r.len() implies 0 <= #[trigger] r[j] < names.len() by {
            if j < rest.len() {
                assert(r[j] == rest[j]);
            }
        }
    }
}

/// The positions, in order, of the branches whose full reference name
/// holds `branch_name`.
pub fn select_branches_by_name(names: &[String], branch_name: &str) -> (r: Vec<usize>)
    ensures
        r@.map_values(|i: usize| i as int) == branches_matching(names.deep_view(), branch_name@),
{
    let ghost nv = names.deep_view();
    let mut out: Vec<usize> = Vec::new();
    let mut i: usize = 0;
    while i < names.len()
        invariant
            i <= names.len(),
            nv == names.deep_view(),
            nv.len() == names.len(),
            out@.map_values(|k: usize| k as int) == branches_matching(nv.take(i as int), branch_name@),
        decreases names.len() - i,
    {
        assert(nv.take(i + 1).drop_last() =~= nv.take(i as int));
        assert(nv.take(i + 1).last() == nv[i as int]);
        let ghost before = out@;
        if text_contains(names[i].as_str(), branch_name) {
            out.push(i);
            assert(out@.map_values(|k: usize| k as int) =~= before.map_values(|k: usize| k as int).push(i as int));
        }
        i = i + 1;
    }
    assert(nv.take(names.len() as int) =~= nv);
    out
}

} // verus!
