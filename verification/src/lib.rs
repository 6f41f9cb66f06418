//! Commit selection, date handling and report rendering for a small
//! git history scanner.

pub mod commit_range;
pub mod text;
pub mod dates;
pub mod repo_name;
pub mod commit_info;
pub mod repo_stats;
pub mod plan;
