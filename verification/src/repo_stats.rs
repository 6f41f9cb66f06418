//! Summaries of a repository's state: its object counts and the files with
//! changes not yet committed.

use vstd::prelude::*;
use crate::text::{decimal, decimal_text, debug_str, debug_text};

verus! {

/// The kind of an object of the repository's object database.
#[derive(Clone, Copy, Debug, PartialEq, Eq, Structural)]
pub enum ObjectKind {
    Any,
    Commit,
    Tree,
    Blob,
    Tag,
    /// An object whose kind is not known.
    Unknown,
}

/// The number of commits among the objects.
pub open spec fn commit_count(kinds: Seq<ObjectKind>) -> nat
    decreases kinds.len(),
{
    if kinds.len() == 0 {
        0
    } else {
        commit_count(kinds.drop_last()) + if kinds.last() == ObjectKind::Commit {
            1nat
        } else {
            0nat
        }
    }
}

/// The number of objects that are not commits.
pub open spec fn other_count(kinds: Seq<ObjectKind>) -> nat
    decreases kinds.len(),
{
    if kinds.len() == 0 {
        0
    } else {
        other_count(kinds.drop_last()) + if kinds.last() == ObjectKind::Commit {
            0nat
        } else {
            1nat
        }
    }
}

/// The two lines that summarise the object database: every object, the
/// commits counted as deltas, and the rest counted as reused.
pub open spec fn object_summary_lines(kinds: Seq<ObjectKind>) -> Seq<Seq<char>> {
    let total = kinds.len();
    let delta = commit_count(kinds);
    let reused = (total - delta) as nat;
    seq![
        "Enumerating objects: "@ + decimal_text(total) + " done."@,
        "Total "@ + decimal_text(total) + " (delta "@ + decimal_text(delta) + "), reused "@
            + decimal_text(reused) + " , pack-reused 0"@,
    ]
}

/// Every object is either a commit or another object.
pub proof fn law_objects_are_commits_or_others(kinds: Seq<ObjectKind>)
    ensures
        commit_count(kinds) + other_count(kinds) == kinds.len(),
    decreases kinds.len(),
{
    if kinds.len() > 0 {
        law_objects_are_commits_or_others(kinds.drop_last());
    }
}

/// The summary counts every object once, the commits as deltas and all
/// other objects as reused: the second line reads
/// `Total n (delta c), reused o , pack-reused 0` with `c + o == n`.
pub proof fn law_summary_counts(kinds: Seq<ObjectKind>)
    ensures
        object_summary_lines(kinds).len() == 2,
        object_summary_lines(kinds)[0] == "Enumerating objects: "@ + decimal_text(kinds.len())
            + " done."@,
        object_summary_lines(kinds)[1] == "Total "@ + decimal_text(kinds.len()) + " (delta "@
            + decimal_text(commit_count(kinds)) + "), reused "@ + decimal_text(other_count(kinds))
            + " , pack-reused 0"@,
        commit_count(kinds) + other_count(kinds) == kinds.len(),
{
    law_objects_are_commits_or_others(kinds);
}

/// The lines printed about the object database whose objects have the
/// kinds `kinds`.
pub fn config_printed_repo_info(kinds: &[ObjectKind]) -> (r: Vec<String>)
    ensures
        r.deep_view() == object_summary_lines(kinds@),
{
    let ghost ks = kinds@;
    let mut delta: usize = 0;
    let mut i: usize = 0;
    while i < kinds.len()
        invariant
            i <= kinds.len(),
            ks == kinds@,
            delta == commit_count(ks.take(i as int)),
            delta <= i,
        decreases kinds.len() - i,
    {
        assert(ks.take(i + 1).drop_last() =~= ks.take(i as int));
        if kinds[i] == ObjectKind::Commit {
            delta = delta + 1;
        }
        i = i + 1;
    }
    assert(ks.take(kinds.len() as int) =~= ks);
    let total = kinds.len();
    let reused = total - delta;
    let mut first = String::new();
    first.append("Enumerating objects: ");
    first.append(decimal(total).as_str());
    first.append(" done.");
    let mut second = String::new();
    second.append("Total ");
    second.append(decimal(total).as_str());
    second.append(" (delta ");
    second.append(decimal(delta).as_str());
    second.append("), reused ");
    second.append(decimal(reused).as_str());
    second.append(" , pack-reused 0");
    let mut out: Vec<String> = Vec::new();
    out.push(first);
    out.push(second);
    assert(out.deep_view() =~= object_summary_lines(ks));
    out
}

/// The state of one file of the working tree and the index.
#[derive(Debug)]
pub struct StatusEntry {
    /// The file's path, when it can be read as text.
    pub path: Option<String>,
    /// The file differs between the index and the last commit.
    pub index_modified: bool,
    /// The file differs between the working tree and the index.
    pub worktree_modified: bool,
}

/// The lines printed for the files with changes not committed: the quoted
/// path of every modified entry that has a path, in order.
pub open spec fn uncommitted_lines(entries: Seq<StatusEntry>) -> Seq<Seq<char>>
    decreases entries.len(),
{
    if entries.len() == 0 {
        Seq::empty()
    } else {
        let rest = uncommitted_lines(entries.drop_last());
        let e = entries.last();
        if (e.index_modified || e.worktree_modified) && e.path is Some {
            rest.push(debug_text(e.path->0@))
        } else {
            rest
        }
    }
}

/// Every entry with a path that is modified in the index, in the working
/// tree, or in both, gives the line of its quoted path.
pub proof fn law_modified_entries_listed(entries: Seq<StatusEntry>, k: int)
    requires
        0 <= k < entries.len(),
        entries[k].index_modified || entries[k].worktree_modified,
        entries[k].path is Some,
    ensures
        uncommitted_lines(entries).contains(debug_text(entries[k].path->0@)),
    decreases entries.len(),
{
    let r = uncommitted_lines(entries);
    let rest = uncommitted_lines(entries.drop_last());
    if k == entries.len() - 1 {
        assert(r == rest.push(debug_text(entries[k].path->0@)));
        assert(r[rest.len() as int] == debug_text(entries[k].path->0@));
    } else {
        assert(entries.drop_last()[k] == entries[k]);
        law_modified_entries_listed(entries.drop_last(), k);
        let j = choose|j: int| 0 <= j < rest.len() && rest[j] == debug_text(entries[k].path->0@);
        if r != rest {
            assert(r == rest.push(debug_text(entries.last().path->0@)));
        }
        assert(r[j] == rest[j]);
    }
}

/// An entry is listed when it has a path and is modified in the index or
/// in the working tree.
pub open spec fn is_listed_entry(e: StatusEntry) -> bool {
    (e.index_modified || e.worktree_modified) && e.path is Some
}

/// The lines are the listed entries, in order, each with its quoted path:
/// nothing else is added, dropped or moved.
pub proof fn law_uncommitted_is_filter(entries: Seq<StatusEntry>)
    ensures
        uncommitted_lines(entries) == entries.filter(|e: StatusEntry| is_listed_entry(e)).map_values(
            |e: StatusEntry| debug_text(e.path->0@),
        ),
    decreases entries.len(),
{
    reveal_with_fuel(Seq::filter, 1);
    let p = |e: StatusEntry| is_listed_entry(e);
    let f = |e: StatusEntry| debug_text(e.path->0@);
    if entries.len() == 0 {
        assert(entries.filter(p).map_values(f) =~= Seq::<Seq<char>>::empty());
    } else {
        law_uncommitted_is_filter(entries.drop_last());
        let sub = entries.drop_last().filter(p);
        if p(entries.last()) {
            assert(sub.push(entries.last()).map_values(f) =~= sub.map_values(f).push(
                f(entries.last()),
            ));
        }
    }
}

/// Every line is the quoted path of an entry that has a path and is
/// modified in the index or in the working tree.
pub proof fn law_listed_entries_modified(entries: Seq<StatusEntry>, j: int)
    requires
        0 <= j < uncommitted_lines(entries).len(),
    ensures
        exists|k: int|
            0 <= k < entries.len() && (#[trigger] entries[k]).path is Some && (
            entries[k].index_modified || entries[k].worktree_modified) && uncommitted_lines(
                entries,
            )[j] == debug_text(entries[k].path->0@),
    decreases entries.len(),
{
    let r = uncommitted_lines(entries);
    let rest = uncommitted_lines(entries.drop_last());
    if j < rest.len() {
        law_listed_entries_modified(entries.drop_last(), j);
        let k = choose|k: int|
            0 <= k < entries.drop_last().len() && (#[trigger] entries.drop_last()[k]).path is Some
                && (entries.drop_last()[k].index_modified
                || entries.drop_last()[k].worktree_modified) && rest[j] == debug_text(
                entries.drop_last()[k].path->0@,
            );
        assert(entries[k] == entries.drop_last()[k]);
        if r != rest {
            assert(r == rest.push(debug_text(entries.last().path->0@)));
        }
        assert(r[j] == rest[j]);
    } else {
        assert(entries[entries.len() - 1] == entries.last());
    }
}

/// The lines printed for the files whose content in the index or the
/// working tree differs from what is committed, each path quoted.
pub fn handle_uncommitted_files(entries: &[StatusEntry]) -> (r: Vec<String>)
    ensures
        r.deep_view() == uncommitted_lines(entries@),
{
    let ghost es = entries@;
    let mut out: Vec<String> = Vec::new();
    let mut i: usize = 0;
    while i < entries.len()
        invariant
            i <= entries.len(),
            es == entries@,
            out.deep_view() == uncommitted_lines(es.take(i as int)),
        decreases entries.len() - i,
    {
        assert(es.take(i + 1).drop_last() =~= es.take(i as int));
        assert(es.take(i + 1).last() == es[i as int]);
        let e = &entries[i];
        if e.index_modified || e.worktree_modified {
            match &e.path {
                Some(p) => {
                    let ghost before = out.deep_view();
                    let q = debug_str(p.as_str());
                    out.push(q);
                    assert(out.deep_view() =~= before.push(q@));
                },
                None => {},
            }
        }
        i = i + 1;
    }
    assert(es.take(entries.len() as int) =~= es);
    out
}

} // verus!
