//! Selecting a contiguous run of commits between two named commits.

use vstd::prelude::*;

verus! {

/// `i` is the first position of `x` in `s`.
pub open spec fn is_first_index(s: Seq<Seq<char>>, x: Seq<char>, i: int) -> bool {
    &&& 0 <= i < s.len()
    &&& s[i] == x
    &&& forall|j: int| 0 <= j < i ==> s[j] != x
}

/// The first position of `x` in `s`, if `x` occurs in `s`.
pub open spec fn first_index(s: Seq<Seq<char>>, x: Seq<char>) -> Option<int> {
    if exists|i: int| is_first_index(s, x, i) {
        Some(choose|i: int| is_first_index(s, x, i))
    } else {
        None
    }
}

/// The commits from the first occurrence of `from` up to and including the
/// first occurrence of `to`; empty when either bound is missing, is not in
/// the list, or `to` comes before `from`.
pub open spec fn commits_in_range(
    from: Option<Seq<char>>,
    to: Option<Seq<char>>,
    commits: Seq<Seq<char>>,
) -> Seq<Seq<char>> {
    match (from, to) {
        (Some(f), Some(t)) => match (first_index(commits, f), first_index(commits, t)) {
            (Some(a), Some(b)) => if a <= b {
                commits.subrange(a, b + 1)
            } else {
                Seq::empty()
            },
            _ => Seq::empty(),
        },
        _ => Seq::empty(),
    }
}

proof fn lemma_first_index_unique(s: Seq<Seq<char>>, x: Seq<char>, i: int)
    requires
        is_first_index(s, x, i),
    ensures
        first_index(s, x) == Some(i),
{
    let k = choose|k: int| is_first_index(s, x, k);
    assert(is_first_index(s, x, k));
    if k < i {
        assert(s[k] != x);
    } else if i < k {
        assert(s[i] != x);
    }
}

/// The position of the first element of `commits` equal to `target`.
fn position_of(commits: &[String], target: &String) -> (r: Option<usize>)
    ensures
        r matches Some(i) ==> first_index(commits.deep_view(), target@) == Some(i as int),
        r is None ==> first_index(commits.deep_view(), target@) is None,
{
    let ghost s = commits.deep_view();
    let mut i: usize = 0;
    while i < commits.len()
        invariant
            i <= commits.len(),
            s == commits.deep_view(),
            s.len() == commits.len(),
            forall|j: int| 0 <= j < i ==> s[j] != target@,
        decreases commits.len() - i,
    {
        assert(s[i as int] == commits[i as int]@);
        if commits[i] == *target {
            proof {
                lemma_first_index_unique(s, target@, i as int);
            }
            return Some(i);
        }
        i = i + 1;
    }
    assert forall|k: int| !is_first_index(s, target@, k) by {
        if 0 <= k < s.len() {
            assert(s[k] != target@);
        }
    }
    None
}

/// Copies `commits[start..=end]`.
fn copy_range(commits: &[String], start: usize, end: usize) -> (r: Vec<String>)
    requires
        start <= end < commits.len(),
    ensures
        r.deep_view() == commits.deep_view().subrange(start as int, end + 1),
{
    let ghost s = commits.deep_view();
    let mut out: Vec<String> = Vec::new();
    let mut i: usize = start;
    while i <= end
        invariant
            start <= i <= end + 1,
            end < commits.len(),
            s == commits.deep_view(),
            out.deep_view() == s.subrange(start as int, i as int),
        decreases end + 1 - i,
    {
        let c = commits[i].clone();
        let ghost before = out.deep_view();
        out.push(c);
        assert(s[i as int] == c@);
        assert(out.deep_view() =~= before.push(c@));
        assert(out.deep_view() =~= s.subrange(start as int, i + 1));
        i = i + 1;
    }
    out
}

/// Returns the commits from `commit_from` to `commit_to`, both included, in
/// the order of `commits`. The result is empty when either bound is `None`,
/// when either commit is not listed, or when `commit_to` is listed before
/// `commit_from`. Each bound is located at its first occurrence.
pub fn load_commits_by_conditions(
    commit_from: Option<String>,
    commit_to: Option<String>,
    commits: &[String],
) -> (r: Vec<String>)
    ensures
        r.deep_view() == commits_in_range(
            commit_from.deep_view(),
            commit_to.deep_view(),
            commits.deep_view(),
        ),
{
    match (commit_from, commit_to) {
        (Some(start_commit), Some(end_commit)) => {
            let start_index = position_of(commits, &start_commit);
            let end_index = position_of(commits, &end_commit);
            match (start_index, end_index) {
                (Some(start), Some(end)) => {
                    if start <= end {
                        copy_range(commits, start, end)
                    } else {
                        let out: Vec<String> = Vec::new();
                        assert(out.deep_view() =~= Seq::<Seq<char>>::empty());
                        out
                    }
                },
                _ => {
                    let out: Vec<String> = Vec::new();
                    assert(out.deep_view() =~= Seq::<Seq<char>>::empty());
                    out
                },
            }
        },
        _ => {
            let out: Vec<String> = Vec::new();
            assert(out.deep_view() =~= Seq::<Seq<char>>::empty());
            out
        },
    }
}

/// A non-empty selection starts with `from` and ends with `to`.
pub proof fn law_range_endpoints(f: Seq<char>, t: Seq<char>, commits: Seq<Seq<char>>)
    requires
        commits_in_range(Some(f), Some(t), commits).len() > 0,
    ensures
        commits_in_range(Some(f), Some(t), commits)[0] == f,
        commits_in_range(Some(f), Some(t), commits).last() == t,
{
    let a = first_index(commits, f)->0;
    let b = first_index(commits, t)->0;
    assert(is_first_index(commits, f, a));
    assert(is_first_index(commits, t, b));
}

/// Every selection is a contiguous run of the listed commits, in order.
pub proof fn law_range_is_contiguous(
    from: Option<Seq<char>>,
    to: Option<Seq<char>>,
    commits: Seq<Seq<char>>,
)
    ensures
        exists|a: int, b: int|
            0 <= a <= b <= commits.len() && commits_in_range(from, to, commits)
                == #[trigger] commits.subrange(a, b),
{
    let r = commits_in_range(from, to, commits);
    if r.len() == 0 {
        assert(r =~= commits.subrange(0, 0));
    } else {
        let a = first_index(commits, from->0)->0;
        let b = first_index(commits, to->0)->0;
        assert(is_first_index(commits, from->0, a));
        assert(is_first_index(commits, to->0, b));
        assert(r == commits.subrange(a, b + 1));
    }
}

/// Without both bounds nothing is selected.
pub proof fn law_missing_bound_selects_nothing(
    from: Option<Seq<char>>,
    to: Option<Seq<char>>,
    commits: Seq<Seq<char>>,
)
    requires
        from is None || to is None,
    ensures
        commits_in_range(from, to, commits).len() == 0,
{
}

/// Naming the same listed commit as both bounds selects exactly that commit.
pub proof fn law_same_bounds_select_one(c: Seq<char>, commits: Seq<Seq<char>>)
    requires
        commits.contains(c),
    ensures
        commits_in_range(Some(c), Some(c), commits) == seq![c],
{
    let k = choose|k: int| 0 <= k < commits.len() && commits[k] == c;
    lemma_first_index_exists(commits, c, k);
    let a = first_index(commits, c)->0;
    assert(is_first_index(commits, c, a));
    assert(commits_in_range(Some(c), Some(c), commits) =~= seq![c]);
}

/// An element that occurs has a first occurrence at or before any occurrence.
proof fn lemma_first_index_exists(s: Seq<Seq<char>>, x: Seq<char>, k: int)
    requires
        0 <= k < s.len(),
        s[k] == x,
    ensures
        first_index(s, x) is Some,
        first_index(s, x)->0 <= k,
    decreases k,
{
    if forall|j: int| 0 <= j < k ==> s[j] != x {
        lemma_first_index_unique(s, x, k);
    } else {
        let j = choose|j: int| 0 <= j < k && s[j] == x;
        lemma_first_index_exists(s, x, j);
    }
}

} // verus!
