//! What is shown of a commit: its description, and the report that lists
//! the commits of a search.

use chrono::{DateTime, FixedOffset};
use vstd::prelude::*;
use crate::dates::{days_from_epoch, days_in_month, ymd_text};
use crate::text::{decimal, decimal_text, debug_list, debug_list_text, zero_padded};

verus! {

/// The first second that chrono can show: -262143-01-01 00:00:00 UTC.
pub open spec fn earliest_shown_secs() -> int {
    days_from_epoch(-262143, 1, 1) * 86400
}

/// The last second that chrono can show: +262142-12-31 23:59:59 UTC.
pub open spec fn latest_shown_secs() -> int {
    days_from_epoch(262142, 12, 31) * 86400 + 86399
}

/// When a commit was made, and the offset from UTC it is shown in.
#[derive(Clone, Copy, Debug, PartialEq, Eq, Structural)]
pub struct CommitDate {
    /// Seconds since 1970-01-01 00:00:00 UTC.
    pub secs: i64,
    /// Seconds to add to UTC to get the time shown.
    pub offset_secs: i32,
}

impl CommitDate {
    /// A date that chrono can build and show.
    pub open spec fn wf(self) -> bool {
        &&& earliest_shown_secs() <= self.secs <= latest_shown_secs()
        &&& -86400 < self.offset_secs < 86400
    }
}

/// A month and day that exist in year `y` (any year).
pub open spec fn is_civil_date(y: int, m: int, d: int) -> bool {
    1 <= m <= 12 && 1 <= d <= days_in_month(y, m)
}

/// The date (year, month, day) that lies `days` days after 1970-01-01
/// (before it when negative).
pub open spec fn civil_from_days(days: int) -> (int, int, int) {
    choose|t: (int, int, int)| is_civil_date(t.0, t.1, t.2) && days_from_epoch(t.0, t.1, t.2) == days
}

/// A number below 100 written with two digits.
pub open spec fn two_digits(n: int) -> Seq<char> {
    zero_padded(decimal_text(n as nat), 2)
}

/// An offset from UTC as `%z` writes it: sign, hours and minutes, the
/// seconds rounded to the nearest minute.
pub open spec fn offset_text(offset_secs: int) -> Seq<char> {
    let sign = if offset_secs < 0 {
        '-'
    } else {
        '+'
    };
    let size = if offset_secs < 0 {
        -offset_secs
    } else {
        offset_secs
    };
    let minutes = (size + 30) / 60;
    seq![sign] + two_digits(minutes / 60) + two_digits(minutes % 60)
}

/// What chrono writes with the format `%Y-%m-%dT%H:%M:%S%z` for the instant
/// `secs` shown at the offset `offset_secs`: the local date and time of day,
/// then the offset.
pub open spec fn commit_date_text(secs: i64, offset_secs: i32) -> Seq<char> {
    let local = secs + offset_secs;
    let date = civil_from_days(local / 86400);
    let time = local % 86400;
    ymd_text(date.0, date.1, date.2) + seq!['T'] + two_digits(time / 3600) + seq![':']
        + two_digits((time % 3600) / 60) + seq![':'] + two_digits(time % 60) + offset_text(
        offset_secs as int,
    )
}

/// Writes a commit date with chrono (`FixedOffset::east_opt`,
/// `DateTime::from_timestamp`, `with_timezone`, then `format`): the instant
/// `secs` shown at the offset `offset_secs`, formatted with
/// `%Y-%m-%dT%H:%M:%S%z`.
#[verifier::external_body]
fn format_commit_date(secs: i64, offset_secs: i32) -> (r: String)
    requires
        (CommitDate { secs, offset_secs }).wf(),
    ensures
        r@ == commit_date_text(secs, offset_secs),
{
    let offset = FixedOffset::east_opt(offset_secs).unwrap();
    let utc = DateTime::from_timestamp(secs, 0).unwrap();
    utc.with_timezone(&offset).format("%Y-%m-%dT%H:%M:%S%z").to_string()
}

/// The description of one commit.
#[derive(Debug)]
pub struct CommitInfo {
    pub repo: String,
    /// The commit's id, in hexadecimal.
    pub commit: String,
    pub author: String,
    pub email: String,
    pub commit_message: String,
    pub date: CommitDate,
    /// Path and content of every file of the commit's tree.
    pub files: Vec<(String, String)>,
    pub tags: Vec<String>,
    pub operation: String,
}

/// The text held, or the empty text.
pub open spec fn text_or_empty(t: Option<String>) -> Seq<char> {
    match t {
        Some(s) => s@,
        None => Seq::empty(),
    }
}

fn string_or_empty(t: Option<String>) -> (r: String)
    ensures
        r@ == text_or_empty(t),
{
    match t {
        Some(s) => s,
        None => String::new(),
    }
}

/// Describes a commit of the repository named `repo_name`. Missing author,
/// email and message become empty texts. The commit time is shown at the
/// offset `git_offset_minutes` taken west of UTC. The description has no
/// tags and the operation `"addition"`.
pub fn config_commit_info(
    repo_name: String,
    commit_id: String,
    author_name: Option<String>,
    author_email: Option<String>,
    message: Option<String>,
    time_secs: i64,
    git_offset_minutes: i32,
    files: Vec<(String, String)>,
) -> (r: CommitInfo)
    requires
        earliest_shown_secs() <= time_secs <= latest_shown_secs(),
        -1440 < git_offset_minutes < 1440,
    ensures
        r.repo == repo_name,
        r.commit == commit_id,
        r.author@ == text_or_empty(author_name),
        r.email@ == text_or_empty(author_email),
        r.commit_message@ == text_or_empty(message),
        r.date == (CommitDate { secs: time_secs, offset_secs: (-git_offset_minutes * 60) as i32 }),
        r.date.wf(),
        r.files == files,
        r.tags@.len() == 0,
        r.operation@ == "addition"@,
{
    let offset_secs = -(git_offset_minutes * 60);
    CommitInfo {
        repo: repo_name,
        commit: commit_id,
        author: string_or_empty(author_name),
        email: string_or_empty(author_email),
        commit_message: string_or_empty(message),
        date: CommitDate { secs: time_secs, offset_secs },
        files,
        tags: Vec::new(),
        operation: "addition".to_owned(),
    }
}

/// The line printed after each file of a commit.
pub open spec fn file_separator() -> Seq<char> {
    "----------------------"@
}

/// The lines that list the files of a commit.
pub open spec fn file_lines(files: Seq<(Seq<char>, Seq<char>)>) -> Seq<Seq<char>>
    decreases files.len(),
{
    if files.len() == 0 {
        Seq::empty()
    } else {
        file_lines(files.drop_last()) + seq!["File: "@ + files.last().0, file_separator()]
    }
}

proof fn lemma_file_lines_at(files: Seq<(Seq<char>, Seq<char>)>, k: int)
    requires
        0 <= k < files.len(),
    ensures
        file_lines(files).len() == 2 * files.len(),
        file_lines(files)[2 * k] == "File: "@ + files[k].0,
        file_lines(files)[2 * k + 1] == file_separator(),
    decreases files.len(),
{
    let init = files.drop_last();
    let tail = seq!["File: "@ + files.last().0, file_separator()];
    assert(file_lines(files) == file_lines(init) + tail);
    if k < init.len() {
        lemma_file_lines_at(init, k);
        assert(init[k] == files[k]);
    } else {
        lemma_file_lines_len(init);
    }
}

proof fn lemma_file_lines_len(files: Seq<(Seq<char>, Seq<char>)>)
    ensures
        file_lines(files).len() == 2 * files.len(),
    decreases files.len(),
{
    if files.len() > 0 {
        lemma_file_lines_len(files.drop_last());
    }
}

/// The files are listed in their order, two lines each: `File: ` and the
/// path of the file, then a separator.
pub proof fn law_file_lines_list_each_file(files: Seq<(Seq<char>, Seq<char>)>)
    ensures
        file_lines(files).len() == 2 * files.len(),
        forall|k: int|
            #![trigger files[k]]
            0 <= k < files.len() ==> file_lines(files).subrange(2 * k, 2 * k + 2) == seq![
                "File: "@ + files[k].0,
                file_separator(),
            ],
{
    lemma_file_lines_len(files);
    assert forall|k: int| #![trigger files[k]] 0 <= k < files.len() implies file_lines(
        files,
    ).subrange(2 * k, 2 * k + 2) == seq!["File: "@ + files[k].0, file_separator()] by {
        lemma_file_lines_at(files, k);
        assert(file_lines(files).subrange(2 * k, 2 * k + 2) =~= seq![
            "File: "@ + files[k].0,
            file_separator(),
        ]);
    }
}

/// The lines of one commit: its nine fields in order, then the files two
/// lines each, then the closing separator.
pub proof fn law_info_lines_layout(c: CommitInfo)
    ensures
        info_lines(c).len() == 10 + 2 * c.files.len(),
        info_lines(c)[0] == "repo: "@ + c.repo@,
        info_lines(c)[1] == "commit: "@ + c.commit@,
        info_lines(c)[2] == "author: "@ + c.author@,
        info_lines(c)[3] == "email: "@ + c.email@,
        info_lines(c)[4] == "commitMessage: "@ + c.commit_message@,
        info_lines(c)[5] == "tags: "@ + debug_list_text(c.tags.deep_view()),
        info_lines(c)[6] == "Operation: "@ + c.operation@,
        info_lines(c)[7] == "date: "@ + commit_date_text(c.date.secs, c.date.offset_secs),
        info_lines(c)[8] == "Files:"@,
        forall|k: int|
            0 <= k < c.files.len() ==> info_lines(c)[9 + 2 * k] == "File: "@ + (
            #[trigger] c.files[k]).0@,
        info_lines(c).last() == "======================"@,
{
    let fv = c.files.deep_view();
    law_file_lines_list_each_file(fv);
    assert forall|k: int| 0 <= k < c.files.len() implies info_lines(c)[9 + 2 * k] == "File: "@ + (
    #[trigger] c.files[k]).0@ by {
        assert(fv[k] == (c.files[k].0@, c.files[k].1@));
        assert(file_lines(fv)[2 * k] == "File: "@ + fv[k].0);
    }
}

/// The lines shown for one commit.
pub open spec fn info_lines(c: CommitInfo) -> Seq<Seq<char>> {
    seq![
        "repo: "@ + c.repo@,
        "commit: "@ + c.commit@,
        "author: "@ + c.author@,
        "email: "@ + c.email@,
        "commitMessage: "@ + c.commit_message@,
        "tags: "@ + debug_list_text(c.tags.deep_view()),
        "Operation: "@ + c.operation@,
        "date: "@ + commit_date_text(c.date.secs, c.date.offset_secs),
        "Files:"@,
    ] + file_lines(c.files.deep_view()) + seq!["======================"@]
}

/// The lines shown for a list of commits, one commit after the other.
pub open spec fn infos_lines(infos: Seq<CommitInfo>) -> Seq<Seq<char>>
    decreases infos.len(),
{
    if infos.len() == 0 {
        Seq::empty()
    } else {
        infos_lines(infos.drop_last()) + info_lines(infos.last())
    }
}

/// The lines of the commits are those of each commit, one after the
/// other, in the order of the list: none left out, repeated or moved.
pub proof fn law_commits_listed_in_order(infos: Seq<CommitInfo>)
    ensures
        infos_lines(infos) == infos.map_values(|c: CommitInfo| info_lines(c)).flatten(),
    decreases infos.len(),
{
    let f = |c: CommitInfo| info_lines(c);
    if infos.len() == 0 {
        assert(infos.map_values(f) =~= Seq::<Seq<Seq<char>>>::empty());
    } else {
        law_commits_listed_in_order(infos.drop_last());
        assert(infos.map_values(f) =~= infos.drop_last().map_values(f).push(info_lines(infos.last())));
        infos.drop_last().map_values(f).lemma_flatten_push(info_lines(infos.last()));
    }
}

/// The whole report: the number of commits, a title, then every commit.
pub open spec fn report_lines(infos: Seq<CommitInfo>) -> Seq<Seq<char>> {
    seq!["Total Commits: "@ + decimal_text(infos.len()), "Commit history:"@] + infos_lines(infos)
}

/// The report opens with the number of commits, then the title, and then
/// the lines of every commit in order.
pub proof fn law_report_layout(infos: Seq<CommitInfo>)
    ensures
        report_lines(infos)[0] == "Total Commits: "@ + decimal_text(infos.len()),
        report_lines(infos)[1] == "Commit history:"@,
        report_lines(infos).skip(2) == infos.map_values(|c: CommitInfo| info_lines(c)).flatten(),
{
    law_commits_listed_in_order(infos);
    assert(report_lines(infos).skip(2) =~= infos_lines(infos));
}

fn line(label: &str, value: &str) -> (r: String)
    ensures
        r@ == label@ + value@,
{
    let mut s = String::new();
    s.append(label);
    s.append(value);
    s
}

fn push_file_lines(out: &mut Vec<String>, files: &Vec<(String, String)>)
    ensures
        final(out).deep_view() == old(out).deep_view() + file_lines(files.deep_view()),
{
    let ghost start = out.deep_view();
    let ghost fv = files.deep_view();
    let mut i: usize = 0;
    while i < files.len()
        invariant
            i <= files.len(),
            fv == files.deep_view(),
            fv.len() == files.len(),
            out.deep_view() == start + file_lines(fv.take(i as int)),
        decreases files.len() - i,
    {
        let ghost before = out.deep_view();
        let l1 = line("File: ", files[i].0.as_str());
        let l2 = "----------------------".to_owned();
        out.push(l1);
        out.push(l2);
        assert(out.deep_view() =~= before.push(l1@).push(l2@));
        assert(fv.take(i + 1).drop_last() =~= fv.take(i as int));
        assert(fv.take(i + 1).last() == fv[i as int]);
        assert(out.deep_view() =~= start + file_lines(fv.take(i + 1)));
        i = i + 1;
    }
    assert(fv.take(files.len() as int) =~= fv);
}

fn push_info_lines(out: &mut Vec<String>, c: &CommitInfo)
    requires
        c.date.wf(),
    ensures
        final(out).deep_view() == old(out).deep_view() + info_lines(*c),
{
    let ghost start = out.deep_view();
    out.push(line("repo: ", c.repo.as_str()));
    out.push(line("commit: ", c.commit.as_str()));
    out.push(line("author: ", c.author.as_str()));
    out.push(line("email: ", c.email.as_str()));
    out.push(line("commitMessage: ", c.commit_message.as_str()));
    let tags = debug_list(c.tags.as_slice());
    out.push(line("tags: ", tags.as_str()));
    out.push(line("Operation: ", c.operation.as_str()));
    let date = format_commit_date(c.date.secs, c.date.offset_secs);
    out.push(line("date: ", date.as_str()));
    out.push("Files:".to_owned());
    let ghost head = out.deep_view();
    assert(head =~= start + seq![
        "repo: "@ + c.repo@,
        "commit: "@ + c.commit@,
        "author: "@ + c.author@,
        "email: "@ + c.email@,
        "commitMessage: "@ + c.commit_message@,
        "tags: "@ + debug_list_text(c.tags.deep_view()),
        "Operation: "@ + c.operation@,
        "date: "@ + commit_date_text(c.date.secs, c.date.offset_secs),
        "Files:"@,
    ]);
    push_file_lines(out, &c.files);
    let ghost mid = out.deep_view();
    out.push("======================".to_owned());
    assert(out.deep_view() =~= mid.push("======================"@));
    assert(out.deep_view() =~= start + info_lines(*c));
}

/// The lines printed for a list of commits: `Total Commits: n`, then
/// `Commit history:`, then for each commit its repository, id, author,
/// email, message, tags, operation, date and files, and a separator.
pub fn handle_commit_info(commit_info_list: &[CommitInfo]) -> (r: Vec<String>)
    requires
        forall|i: int| 0 <= i < commit_info_list.len() ==> (#[trigger] commit_info_list[i]).date.wf(),
    ensures
        r.deep_view() == report_lines(commit_info_list@),
{
    let ghost infos = commit_info_list@;
    let mut out: Vec<String> = Vec::new();
    let count = decimal(commit_info_list.len());
    out.push(line("Total Commits: ", count.as_str()));
    out.push("Commit history:".to_owned());
    let ghost header = out.deep_view();
    assert(header =~= seq!["Total Commits: "@ + decimal_text(infos.len()), "Commit history:"@]);
    let mut i: usize = 0;
    while i < commit_info_list.len()
        invariant
            i <= commit_info_list.len(),
            infos == commit_info_list@,
            forall|k: int| 0 <= k < commit_info_list.len() ==> (#[trigger] commit_info_list[k]).date.wf(),
            out.deep_view() == header + infos_lines(infos.take(i as int)),
        decreases commit_info_list.len() - i,
    {
        push_info_lines(&mut out, &commit_info_list[i]);
        assert(infos.take(i + 1).drop_last() =~= infos.take(i as int));
        assert(infos.take(i + 1).last() == infos[i as int]);
        assert(out.deep_view() =~= header + infos_lines(infos.take(i + 1)));
        i = i + 1;
    }
    assert(infos.take(commit_info_list.len() as int) =~= infos);
    out
}

/// The names of the tags whose target is `commit_id`, in their order.
pub open spec fn tags_at(targets: Seq<(Seq<char>, Seq<char>)>, commit_id: Seq<char>) -> Seq<
    Seq<char>,
>
    decreases targets.len(),
{
    if targets.len() == 0 {
        Seq::empty()
    } else {
        let rest = tags_at(targets.drop_last(), commit_id);
        if targets.last().1 == commit_id {
            rest.push(targets.last().0)
        } else {
            rest
        }
    }
}

/// The tags of a commit: from the pairs (tag name, id of the commit the tag
/// resolves to), the names of those that resolve to `commit_id`, in order.
pub fn load_commit_tags(tag_targets: &[(String, String)], commit_id: &str) -> (r: Vec<String>)
    ensures
        r.deep_view() == tags_at(tag_targets.deep_view(), commit_id@),
{
    let ghost tv = tag_targets.deep_view();
    let id = commit_id.to_owned();
    let mut out: Vec<String> = Vec::new();
    let mut i: usize = 0;
    while i < tag_targets.len()
        invariant
            i <= tag_targets.len(),
            tv == tag_targets.deep_view(),
            tv.len() == tag_targets.len(),
            id@ == commit_id@,
            out.deep_view() == tags_at(tv.take(i as int), commit_id@),
        decreases tag_targets.len() - i,
    {
        assert(tv.take(i + 1).drop_last() =~= tv.take(i as int));
        assert(tv.take(i + 1).last() == tv[i as int]);
        if tag_targets[i].1 == id {
            let ghost before = out.deep_view();
            let name = tag_targets[i].0.clone();
            out.push(name);
            assert(out.deep_view() =~= before.push(name@));
        }
        i = i + 1;
    }
    assert(tv.take(tag_targets.len() as int) =~= tv);
    out
}

/// The tags listed are those, in order, whose target is the commit: none
/// left out, added or moved.
pub proof fn law_tags_are_those_at_commit(
    targets: Seq<(Seq<char>, Seq<char>)>,
    commit_id: Seq<char>,
)
    ensures
        tags_at(targets, commit_id) == targets.filter(
            |t: (Seq<char>, Seq<char>)| t.1 == commit_id,
        ).map_values(|t: (Seq<char>, Seq<char>)| t.0),
    decreases targets.len(),
{
    reveal_with_fuel(Seq::filter, 1);
    let p = |t: (Seq<char>, Seq<char>)| t.1 == commit_id;
    let f = |t: (Seq<char>, Seq<char>)| t.0;
    if targets.len() == 0 {
        assert(targets.filter(p).map_values(f) =~= Seq::<Seq<char>>::empty());
    } else {
        law_tags_are_those_at_commit(targets.drop_last(), commit_id);
        let sub = targets.drop_last().filter(p);
        if p(targets.last()) {
            assert(sub.push(targets.last()).map_values(f) =~= sub.map_values(f).push(
                targets.last().0,
            ));
        }
    }
}

/// A tag is listed only when it resolves to the commit.
pub proof fn law_tags_resolve_to_commit(
    targets: Seq<(Seq<char>, Seq<char>)>,
    commit_id: Seq<char>,
    k: int,
)
    requires
        0 <= k < tags_at(targets, commit_id).len(),
    ensures
        exists|j: int|
            0 <= j < targets.len() && (#[trigger] targets[j]).1 == commit_id && targets[j].0
                == tags_at(targets, commit_id)[k],
    decreases targets.len(),
{
    let rest = tags_at(targets.drop_last(), commit_id);
    if k < rest.len() {
        law_tags_resolve_to_commit(targets.drop_last(), commit_id, k);
        let j = choose|j: int|
            0 <= j < targets.drop_last().len() && (#[trigger] targets.drop_last()[j]).1
                == commit_id && targets.drop_last()[j].0 == rest[k];
        assert(targets[j] == targets.drop_last()[j]);
    } else {
        assert(targets[targets.len() - 1] == targets.last());
    }
}

/// The kind of an entry of a git tree.
#[derive(Clone, Copy, Debug, PartialEq, Eq, Structural)]
pub enum EntryKind {
    Blob,
    Tree,
    Other,
}

/// What to do with an entry met while walking a commit's tree.
#[derive(Debug)]
pub enum TreeStep {
    /// Read the file's content and list it under this path.
    ReadBlob(String),
    /// Walk the subtree, whose entries lie under this path.
    Descend(String),
    /// Neither a file nor a directory: leave it out.
    Skip,
}

/// The path of an entry: the path of its tree, `'/'`, and the entry's name.
pub open spec fn entry_path(path: Seq<char>, name: Seq<char>) -> Seq<char> {
    path + seq!['/'] + name
}

/// The step taken for the entry `name` of kind `kind` in the tree at `path`
/// while walking a commit's tree: files are read, subtrees walked, anything
/// else left out.
pub fn tree_entry_step(path: &str, name: &str, kind: EntryKind) -> (r: TreeStep)
    ensures
        kind == EntryKind::Blob ==> (r matches TreeStep::ReadBlob(p) && p@ == entry_path(
            path@,
            name@,
        )),
        kind == EntryKind::Tree ==> (r matches TreeStep::Descend(p) && p@ == entry_path(
            path@,
            name@,
        )),
        kind == EntryKind::Other ==> r matches TreeStep::Skip,
{
    let mut p = String::new();
    proof {
        reveal_strlit("/");
    }
    p.append(path);
    p.append("/");
    p.append(name);
    assert(p@ =~= entry_path(path@, name@));
    match kind {
        EntryKind::Blob => TreeStep::ReadBlob(p),
        EntryKind::Tree => TreeStep::Descend(p),
        EntryKind::Other => TreeStep::Skip,
    }
}

} // verus!
