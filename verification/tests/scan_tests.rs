use commit_scan::commit_info::{
    config_commit_info, handle_commit_info, load_commit_tags, tree_entry_step, CommitDate,
    CommitInfo, EntryKind, TreeStep,
};
use commit_scan::commit_range::load_commits_by_conditions;
use commit_scan::dates::{
    commit_in_time_window, commit_time_range, is_valid_date_format, parse_start_date_to_datetime,
    DateBoundError, Instant, TimeRangeError,
};
use commit_scan::plan::{
    is_excluded_commit, parse_commit_id, plan_scan, select_branches_by_name, select_commits_by_time,
    ScanOptions, ScanPlan,
};
use commit_scan::repo_name::{config_repo_name, strip_git_suffix, RepoNameError};
use commit_scan::repo_stats::{
    config_printed_repo_info, handle_uncommitted_files, ObjectKind, StatusEntry,
};
use commit_scan::text::{debug_list, decimal, split_commas, text_contains};

fn strings(items: &[&str]) -> Vec<String> {
    items.iter().map(|s| s.to_string()).collect()
}

#[test]
fn range_between_two_commits() {
    let commits = strings(&["a1", "b2", "c3", "d4"]);
    let r = load_commits_by_conditions(Some("b2".to_string()), Some("d4".to_string()), &commits);
    assert_eq!(r, strings(&["b2", "c3", "d4"]));
}

#[test]
fn range_reversed_bounds_is_empty() {
    let commits = strings(&["a1", "b2", "c3", "d4"]);
    let r = load_commits_by_conditions(Some("d4".to_string()), Some("b2".to_string()), &commits);
    assert!(r.is_empty());
}

#[test]
fn range_unknown_commit_is_empty() {
    let commits = strings(&["a1", "b2"]);
    let r = load_commits_by_conditions(Some("a1".to_string()), Some("zz".to_string()), &commits);
    assert!(r.is_empty());
}

#[test]
fn range_missing_bound_is_empty() {
    let commits = strings(&["a1", "b2"]);
    assert!(load_commits_by_conditions(None, Some("b2".to_string()), &commits).is_empty());
    assert!(load_commits_by_conditions(Some("a1".to_string()), None, &commits).is_empty());
    assert!(load_commits_by_conditions(None, None, &commits).is_empty());
}

#[test]
fn range_same_bounds_selects_one() {
    let commits = strings(&["a1", "b2", "c3"]);
    let r = load_commits_by_conditions(Some("b2".to_string()), Some("b2".to_string()), &commits);
    assert_eq!(r, strings(&["b2"]));
}

#[test]
fn range_uses_first_occurrence() {
    let commits = strings(&["a1", "b2", "a1", "c3"]);
    let r = load_commits_by_conditions(Some("a1".to_string()), Some("c3".to_string()), &commits);
    assert_eq!(r, strings(&["a1", "b2", "a1", "c3"]));
}

#[test]
fn split_on_commas() {
    assert_eq!(split_commas("a,b,,c"), strings(&["a", "b", "", "c"]));
    assert_eq!(split_commas(""), strings(&[""]));
    assert_eq!(split_commas("abc"), strings(&["abc"]));
    assert_eq!(split_commas(",x,"), strings(&["", "x", ""]));
}

#[test]
fn split_then_join_gives_input() {
    let s = "1a2b,3c4d,,ef";
    assert_eq!(split_commas(s).join(","), s);
}

#[test]
fn contains_text() {
    assert!(text_contains("refs/heads/main", "heads/ma"));
    assert!(text_contains("anything", ""));
    assert!(!text_contains("ab", "abc"));
    assert!(!text_contains("refs/heads/main", "dev"));
    assert!(text_contains("main", "main"));
}

#[test]
fn decimal_numbers() {
    assert_eq!(decimal(0), "0");
    assert_eq!(decimal(7), "7");
    assert_eq!(decimal(12345), "12345");
    assert_eq!(decimal(100), "100");
}

#[test]
fn quoted_list() {
    let items = strings(&["v1.0", "a\"b"]);
    assert_eq!(debug_list(&items), "[\"v1.0\", \"a\\\"b\"]");
    assert_eq!(debug_list(&[]), "[]");
    assert_eq!(debug_list(&items), format!("{:?}", items));
}

#[test]
fn valid_date_formats() {
    assert!(is_valid_date_format("2024-01-05"));
    assert!(is_valid_date_format("2024-02-29"));
    assert!(!is_valid_date_format("2024-1-5"));
    assert!(!is_valid_date_format("2023-02-29"));
    assert!(!is_valid_date_format("2024-13-01"));
    assert!(!is_valid_date_format("yesterday"));
    assert!(!is_valid_date_format("2024-01-05T10:00:00Z"));
}

#[test]
fn day_bounds_of_a_date() {
    let start = parse_start_date_to_datetime("2015-05-15", "start").unwrap();
    assert_eq!(start, Instant { secs: 1431648000, nanos: 0 });
    let end = parse_start_date_to_datetime("2015-05-15", "until").unwrap();
    assert_eq!(end, Instant { secs: 1431648000 + 86399, nanos: 0 });
    let epoch = parse_start_date_to_datetime("1970-01-01", "start").unwrap();
    assert_eq!(epoch.secs, 0);
    let before = parse_start_date_to_datetime("1969-12-31", "start").unwrap();
    assert_eq!(before.secs, -86400);
}

#[test]
fn day_bound_of_bad_date() {
    let e = parse_start_date_to_datetime("15/05/2015", "start").unwrap_err();
    assert_eq!(e, DateBoundError::InvalidDateFormat);
    assert_eq!(e.message(), "Invalid date format");
    assert_eq!(DateBoundError::InvalidTimeFormat.message(), "Invalid time format");
}

#[test]
fn time_range_of_dates() {
    let (s, u) = commit_time_range("2015-05-15", "2015-05-16").unwrap();
    assert_eq!(s, Instant { secs: 1431648000, nanos: 0 });
    assert_eq!(u, Instant { secs: 1431648000 + 2 * 86400 - 1, nanos: 0 });
}

#[test]
fn time_range_of_rfc3339() {
    let (s, u) =
        commit_time_range("2015-05-15T00:00:00+02:00", "2015-05-15T10:00:00.5Z").unwrap();
    assert_eq!(s, Instant { secs: 1431648000 - 7200, nanos: 0 });
    assert_eq!(u, Instant { secs: 1431648000 + 36000, nanos: 500_000_000 });
}

#[test]
fn time_range_mixed_formats() {
    let e = commit_time_range("2015-05-15", "2015-05-15T10:00:00Z").unwrap_err();
    assert_eq!(e, TimeRangeError::UnknownFormat);
    let e = commit_time_range("soon", "later").unwrap_err();
    assert_eq!(e, TimeRangeError::UnknownFormat);
}

#[test]
fn one_day_window_selects_that_day() {
    let (s, u) = commit_time_range("2015-05-15", "2015-05-15").unwrap();
    assert!(commit_in_time_window(1431648000, s, u));
    assert!(commit_in_time_window(1431648000 + 86399, s, u));
    assert!(!commit_in_time_window(1431648000 - 1, s, u));
    assert!(!commit_in_time_window(1431648000 + 86400, s, u));
}

#[test]
fn window_with_fraction_and_inversion() {
    let start = Instant { secs: 10, nanos: 500 };
    let end = Instant { secs: 20, nanos: 0 };
    assert!(!commit_in_time_window(10, start, end));
    assert!(commit_in_time_window(11, start, end));
    assert!(commit_in_time_window(20, start, end));
    assert!(!commit_in_time_window(15, end, start));
}

#[test]
fn repo_name_from_git_dir() {
    assert_eq!(config_repo_name("/home/u/project/.git/").unwrap(), "project");
    assert_eq!(config_repo_name("/srv/thing.git/.git/").unwrap(), "thing");
    assert_eq!(config_repo_name("repo/.git").unwrap(), "repo");
    assert_eq!(config_repo_name("/").unwrap_err(), RepoNameError::InvalidRepositoryPath);
    assert_eq!(RepoNameError::InvalidRepositoryPath.message(), "Invalid repository path");
}

#[test]
fn strip_suffix() {
    assert_eq!(strip_git_suffix("proj.git".to_string()), "proj");
    assert_eq!(strip_git_suffix("a.git.git".to_string()), "a.git");
    assert_eq!(strip_git_suffix("proj".to_string()), "proj");
    assert_eq!(strip_git_suffix(".git".to_string()), "");
    assert_eq!(strip_git_suffix("git".to_string()), "git");
}

fn sample_info(secs: i64, offset_minutes: i32) -> CommitInfo {
    config_commit_info(
        "project".to_string(),
        "0123abcd".to_string(),
        Some("Ann".to_string()),
        None,
        Some("first".to_string()),
        secs,
        offset_minutes,
        vec![("/a.txt".to_string(), "hello".to_string())],
    )
}

#[test]
fn commit_info_fields() {
    let info = sample_info(1431648000, 120);
    assert_eq!(info.repo, "project");
    assert_eq!(info.commit, "0123abcd");
    assert_eq!(info.author, "Ann");
    assert_eq!(info.email, "");
    assert_eq!(info.commit_message, "first");
    assert_eq!(info.date, CommitDate { secs: 1431648000, offset_secs: -7200 });
    assert!(info.tags.is_empty());
    assert_eq!(info.operation, "addition");
    assert_eq!(info.files.len(), 1);
}

#[test]
fn commit_report_lines() {
    let mut info = sample_info(0, 0);
    info.tags = strings(&["v1"]);
    let lines = handle_commit_info(&[info]);
    let expected = strings(&[
        "Total Commits: 1",
        "Commit history:",
        "repo: project",
        "commit: 0123abcd",
        "author: Ann",
        "email: ",
        "commitMessage: first",
        "tags: [\"v1\"]",
        "Operation: addition",
        "date: 1970-01-01T00:00:00+0000",
        "Files:",
        "File: /a.txt",
        "----------------------",
        "======================",
    ]);
    assert_eq!(lines, expected);
}

#[test]
fn commit_report_date_offset() {
    let info = sample_info(0, 120);
    let lines = handle_commit_info(&[info]);
    assert_eq!(lines[9], "date: 1969-12-31T22:00:00-0200");
    let info = sample_info(1431648000, -330);
    let lines = handle_commit_info(&[info]);
    assert_eq!(lines[9], "date: 2015-05-15T05:30:00+0530");
}

#[test]
fn empty_report() {
    assert_eq!(handle_commit_info(&[]), strings(&["Total Commits: 0", "Commit history:"]));
}

#[test]
fn tags_of_commit() {
    let targets = vec![
        ("v1".to_string(), "aaa".to_string()),
        ("v2".to_string(), "bbb".to_string()),
        ("latest".to_string(), "aaa".to_string()),
    ];
    assert_eq!(load_commit_tags(&targets, "aaa"), strings(&["v1", "latest"]));
    assert!(load_commit_tags(&targets, "ccc").is_empty());
}

#[test]
fn tree_steps() {
    match tree_entry_step("", "src", EntryKind::Tree) {
        TreeStep::Descend(p) => assert_eq!(p, "/src"),
        _ => panic!("expected a subtree"),
    }
    match tree_entry_step("/src", "main.rs", EntryKind::Blob) {
        TreeStep::ReadBlob(p) => assert_eq!(p, "/src/main.rs"),
        _ => panic!("expected a file"),
    }
    assert!(matches!(tree_entry_step("/src", "x", EntryKind::Other), TreeStep::Skip));
}

#[test]
fn object_summary() {
    let kinds = [ObjectKind::Commit, ObjectKind::Tree, ObjectKind::Blob, ObjectKind::Commit];
    assert_eq!(
        config_printed_repo_info(&kinds),
        strings(&["Enumerating objects: 4 done.", "Total 4 (delta 2), reused 2 , pack-reused 0"])
    );
    assert_eq!(
        config_printed_repo_info(&[]),
        strings(&["Enumerating objects: 0 done.", "Total 0 (delta 0), reused 0 , pack-reused 0"])
    );
}

#[test]
fn uncommitted_listing() {
    let entries = vec![
        StatusEntry { path: Some("src/main.rs".to_string()), index_modified: false, worktree_modified: true },
        StatusEntry { path: Some("new.txt".to_string()), index_modified: false, worktree_modified: false },
        StatusEntry { path: None, index_modified: true, worktree_modified: false },
        StatusEntry { path: Some("a \"b\".txt".to_string()), index_modified: true, worktree_modified: false },
    ];
    assert_eq!(
        handle_uncommitted_files(&entries),
        strings(&["\"src/main.rs\"", "\"a \\\"b\\\".txt\""])
    );
}

fn options() -> ScanOptions {
    ScanOptions {
        repo: ".".to_string(),
        commit: None,
        commits: None,
        commits_file: None,
        commit_since: None,
        commit_until: None,
        commit_from: None,
        commit_to: None,
        uncommitted: false,
    }
}

#[test]
fn plan_priorities() {
    let mut o = options();
    assert!(matches!(plan_scan(&o), ScanPlan::Nothing));
    o.uncommitted = true;
    assert!(matches!(plan_scan(&o), ScanPlan::Uncommitted));
    o.commit_from = Some("a".to_string());
    assert!(matches!(plan_scan(&o), ScanPlan::Uncommitted));
    o.commit_to = Some("b".to_string());
    match plan_scan(&o) {
        ScanPlan::CommitRange(f, t) => {
            assert_eq!(f, "a");
            assert_eq!(t, "b");
        }
        _ => panic!("expected a commit range"),
    }
    o.commit_since = Some("2015-05-15".to_string());
    o.commit_until = Some("2015-05-16".to_string());
    assert!(matches!(plan_scan(&o), ScanPlan::TimeRange(_, _)));
    o.commits_file = Some("ids.txt".to_string());
    assert!(matches!(plan_scan(&o), ScanPlan::CommitsFile(_)));
    o.commits = Some("x,y".to_string());
    match plan_scan(&o) {
        ScanPlan::MultipleCommits(ids) => assert_eq!(ids, strings(&["x", "y"])),
        _ => panic!("expected several commits"),
    }
    o.commit = Some("z".to_string());
    match plan_scan(&o) {
        ScanPlan::SingleCommit(c) => assert_eq!(c, "z"),
        _ => panic!("expected one commit"),
    }
}

#[test]
fn commit_ids() {
    assert_eq!(
        parse_commit_id("ABC").unwrap(),
        "abc0000000000000000000000000000000000000"
    );
    let full = "0123456789abcdef0123456789abcdef01234567";
    assert_eq!(parse_commit_id(full).unwrap(), full);
    assert!(parse_commit_id("").is_err());
    assert!(parse_commit_id("xyz").is_err());
    assert!(parse_commit_id(&"a".repeat(41)).is_err());
}

#[test]
fn excluded_commits() {
    let excluded = strings(&["aaa", "bbb"]);
    assert!(is_excluded_commit("bbb", &excluded));
    assert!(!is_excluded_commit("ccc", &excluded));
    assert!(!is_excluded_commit("aaa", &[]));
}

#[test]
fn commit_report_extreme_dates() {
    let latest = sample_info(8210266876799, 0);
    assert_eq!(handle_commit_info(&[latest])[9], "date: +262142-12-31T23:59:59+0000");
    let earliest = sample_info(-8334601228800, 0);
    assert_eq!(handle_commit_info(&[earliest])[9], "date: -262143-01-01T00:00:00+0000");
    let shifted = sample_info(8210266876799, -1439);
    assert!(handle_commit_info(&[shifted])[9].starts_with("date: "));
    let shifted = sample_info(-8334601228800, 1439);
    assert!(handle_commit_info(&[shifted])[9].starts_with("date: "));
}

#[test]
fn far_years_are_written_with_sign() {
    assert!(is_valid_date_format("0042-03-04"));
    assert!(!is_valid_date_format("42-03-04"));
    let b = parse_start_date_to_datetime("0001-01-01", "start").unwrap();
    assert_eq!(b.secs, -62135596800);
}

#[test]
fn date_range_order() {
    let (s, u) = commit_time_range("2015-05-16", "2015-05-15").unwrap();
    assert!(s.secs > u.secs);
    assert!(!commit_in_time_window(1431648000 + 86400, s, u));
    assert!(!commit_in_time_window(1431648000 + 3600, s, u));
    let (s, u) = commit_time_range("2015-05-15", "2015-05-16").unwrap();
    assert!(s.secs <= u.secs);
}

#[test]
fn repo_name_edge_paths() {
    assert_eq!(config_repo_name("").unwrap_err(), RepoNameError::InvalidRepositoryPath);
    assert_eq!(config_repo_name("project").unwrap(), "");
    assert_eq!(config_repo_name("/a/b.git/x").unwrap(), "b");
}

#[test]
fn select_by_time() {
    let walked = vec![
        ("c3".to_string(), 300i64),
        ("c2".to_string(), 200i64),
        ("x".to_string(), 250i64),
        ("c1".to_string(), 100i64),
        ("c0".to_string(), 99i64),
    ];
    let start = Instant { secs: 100, nanos: 0 };
    let end = Instant { secs: 250, nanos: 0 };
    let excluded = strings(&["x"]);
    assert_eq!(select_commits_by_time(&walked, &excluded, start, end), strings(&["c2", "c1"]));
    assert_eq!(select_commits_by_time(&walked, &[], start, end), strings(&["c2", "x", "c1"]));
    assert!(select_commits_by_time(&walked, &[], end, start).is_empty());
}

#[test]
fn select_branches() {
    let names = strings(&["refs/heads/main", "refs/heads/dev", "refs/heads/maintenance"]);
    assert_eq!(select_branches_by_name(&names, "main"), vec![0usize, 2]);
    assert_eq!(select_branches_by_name(&names, ""), vec![0usize, 1, 2]);
    assert!(select_branches_by_name(&names, "release").is_empty());
}

#[test]
fn day_bounds_of_unpadded_dates() {
    let a = parse_start_date_to_datetime("2015-5-15", "start").unwrap();
    let b = parse_start_date_to_datetime("2015-5-15", "until").unwrap();
    assert_eq!(a.secs, 1431648000);
    assert_eq!(b.secs - a.secs, 86399);
    assert_eq!(a.secs / 86400, b.secs / 86400);
    let c = parse_start_date_to_datetime("2015-5-16", "start").unwrap();
    let d = parse_start_date_to_datetime("2015-5-16", "until").unwrap();
    assert!(a.secs < c.secs);
    assert!(b.secs < d.secs);
}
