//! The repository's name, taken from the path of its git directory.

use std::path::Path;
use vstd::prelude::*;
use crate::text::chars_of;

verus! {

/// The path has a component that is a plain name, and neither a root nor
/// a prefix can be read in it on any platform: no `':'`, no `'\\'`, it does
/// not start with `"//"`, and some character is neither `'/'` nor `'.'`.
pub open spec fn has_named_component(path: Seq<char>) -> bool {
    &&& !path.contains(':')
    &&& !path.contains('\\')
    &&& !(path.len() >= 2 && path[0] == '/' && path[1] == '/')
    &&& exists|i: int| 0 <= i < path.len() && path[i] != '/' && path[i] != '.'
}

/// The text of the directory that holds the path `p`, as
/// `std::path::Path::parent` gives it (std's path grammar for the target the
/// crate is built for).
pub uninterp spec fn path_parent(p: Seq<char>) -> Option<Seq<char>>;

/// The text of the last component of the path `p`, as
/// `std::path::Path::file_name` gives it.
pub uninterp spec fn path_file_name(p: Seq<char>) -> Option<Seq<char>>;

/// The directory that holds `path`, as `std::path::Path::parent` gives it.
/// The result is named. Its documentation: `None` when the path is empty or
/// ends in a root or a prefix; else the path without its final component.
/// Stated of the name, as holds on every platform: `None` for the empty
/// path; `Some` for a path with a plain name among its components and no
/// root or prefix of any platform's form ending it; and the parent is then a
/// proper prefix of the path.
#[verifier::external_body]
fn parent_dir(path: &str) -> (r: Option<String>)
    ensures
        r.deep_view() == path_parent(path@),
        path@.len() == 0 ==> r is None,
        has_named_component(path@) ==> r is Some,
        r matches Some(p) ==> p@.len() < path@.len() && p@.is_prefix_of(path@),
{
    match Path::new(path).parent() {
        Some(p) => Some(p.to_string_lossy().into_owned()),
        None => None,
    }
}

/// The last component of `path`, as `std::path::Path::file_name` gives it.
/// The result is named. Stated of the name, as holds on every platform: it
/// is a non-empty run of the path's characters that holds no `'/'`.
#[verifier::external_body]
fn final_component(path: &str) -> (r: Option<String>)
    ensures
        r.deep_view() == path_file_name(path@),
        r matches Some(n) ==> {
            &&& n@.len() > 0
            &&& !n@.contains('/')
            &&& n@.len() <= path@.len()
        },
{
    match Path::new(path).file_name() {
        Some(n) => Some(n.to_string_lossy().into_owned()),
        None => None,
    }
}

/// The name held, or the empty text.
pub open spec fn name_or_empty(n: Option<Seq<char>>) -> Seq<char> {
    match n {
        Some(s) => s,
        None => Seq::empty(),
    }
}

/// The repository's name for the git directory at `repo_path`: the name of
/// its parent directory without one final `".git"`; no name when the path
/// has no parent.
pub open spec fn repo_name_of(repo_path: Seq<char>) -> Option<Seq<char>> {
    match path_parent(repo_path) {
        Some(dir) => Some(without_git_suffix(name_or_empty(path_file_name(dir)))),
        None => None,
    }
}

/// The text ends with `".git"`.
pub open spec fn ends_with_git(s: Seq<char>) -> bool {
    s.len() >= 4 && s.subrange(s.len() - 4, s.len() as int) == seq!['.', 'g', 'i', 't']
}

/// `name` without a final `".git"`, or `name` itself when it has none.
pub open spec fn without_git_suffix(name: Seq<char>) -> Seq<char> {
    if ends_with_git(name) {
        name.subrange(0, name.len() - 4)
    } else {
        name
    }
}

/// Drops one final `".git"` from a directory name.
pub fn strip_git_suffix(name: String) -> (r: String)
    ensures
        r@ == without_git_suffix(name@),
{
    let cs = chars_of(name.as_str());
    let n = cs.len();
    if n >= 4 && cs[n - 4] == '.' && cs[n - 3] == 'g' && cs[n - 2] == 'i' && cs[n - 1] == 't' {
        assert(name@.subrange(n - 4, n as int) =~= seq!['.', 'g', 'i', 't']);
        name.as_str().substring_char(0, n - 4).to_owned()
    } else {
        assert(!ends_with_git(name@)) by {
            if ends_with_git(name@) {
                assert(name@.subrange(n - 4, n as int)[0] == name@[n - 4]);
                assert(name@.subrange(n - 4, n as int)[1] == name@[n - 3]);
                assert(name@.subrange(n - 4, n as int)[2] == name@[n - 2]);
                assert(name@.subrange(n - 4, n as int)[3] == name@[n - 1]);
            }
        }
        name
    }
}

/// Why the repository's name could not be found.
#[derive(Clone, Copy, Debug, PartialEq, Eq, Structural)]
pub enum RepoNameError {
    /// The git directory's path has no parent directory.
    InvalidRepositoryPath,
}

impl RepoNameError {
    /// The message shown for the error.
    pub fn message(&self) -> (r: &'static str)
        ensures
            r@ == "Invalid repository path"@,
    {
        "Invalid repository path"
    }
}

/// The repository's name from the path of its git directory (`repo_path`,
/// such as `/work/project/.git/`): the name of the directory that holds the
/// git directory, without a final `".git"`, and empty when that directory
/// has no name. Fails exactly when the path has no parent directory:
/// always for the empty path, never for a path with a plain name among its
/// components (see `has_named_component`).
pub fn config_repo_name(repo_path: &str) -> (r: Result<String, RepoNameError>)
    ensures
        repo_name_of(repo_path@) is None ==> r == Err::<String, RepoNameError>(
            RepoNameError::InvalidRepositoryPath,
        ),
        repo_name_of(repo_path@) matches Some(n) ==> (r matches Ok(name) && name@ == n),
        repo_path@.len() == 0 ==> r == Err::<String, RepoNameError>(
            RepoNameError::InvalidRepositoryPath,
        ),
        has_named_component(repo_path@) ==> r is Ok,
        r matches Ok(name) ==> !name@.contains('/') && name@.len() < repo_path@.len(),
{
    let repo_dir = match parent_dir(repo_path) {
        Some(dir) => dir,
        None => return Err(RepoNameError::InvalidRepositoryPath),
    };
    let dir_name = match final_component(repo_dir.as_str()) {
        Some(n) => n,
        None => String::new(),
    };
    assert(dir_name@ == name_or_empty(path_file_name(repo_dir@)));
    let r = strip_git_suffix(dir_name);
    assert(!r@.contains('/')) by {
        if r@.contains('/') {
            let k = choose|k: int| 0 <= k < r@.len() && r@[k] == '/';
            assert(dir_name@[k] == '/');
        }
    }
    Ok(r)
}

/// Stripping the suffix and putting `".git"` back gives the name again.
pub proof fn law_git_suffix_roundtrip(name: Seq<char>)
    requires
        ends_with_git(name),
    ensures
        without_git_suffix(name) + seq!['.', 'g', 'i', 't'] == name,
{
    assert(name.subrange(0, name.len() - 4) + name.subrange(name.len() - 4, name.len() as int)
        =~= name);
}

} // verus!
