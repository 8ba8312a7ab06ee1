//! The diff collector's logic: argument lists for the version-control
//! tool, classification of its outcome, and parsing of its listings.
//!
//! The tool itself runs outside the library; it hands back an exit status
//! and two text streams, and takes argument lists built here. Every call
//! re-queries the tool: staged content changes between calls, so nothing
//! is cached.

use crate::lockfile::basename_of;
use crate::lockfile::is_lock_basename;
use crate::lockfile::is_lock_file;
use crate::lockfile::lock_basenames;
use crate::text::lines_of;
use crate::text::trim_of;
use crate::text::trim_str;
use crate::text::split_lines;
use vstd::prelude::*;
use vstd::string::StringExecFns;

verus! {

/// Failure of the version-control tool: a non-zero exit, with the tool's
/// diagnostic text.
pub struct VcsError {
    /// Whether the failing invocation was scoped to one file.
    pub file_scoped: bool,
    /// The tool's standard-error text, trimmed.
    pub detail: String,
}

impl VcsError {
    /// The user-facing message, tagged by the kind of invocation that
    /// failed.
    pub fn message(&self) -> (r: String)
        ensures
            self.file_scoped ==> r@ == "Git error file: "@ + self.detail@,
            !self.file_scoped ==> r@ == "Git error: "@ + self.detail@,
    {
        if self.file_scoped {
            "Git error file: ".to_owned().concat(self.detail.as_str())
        } else {
            "Git error: ".to_owned().concat(self.detail.as_str())
        }
    }
}

/// Classifies a whole-tree invocation's outcome: the tool's output on
/// success, a `VcsError` carrying the trimmed diagnostic text on failure.
pub fn tree_outcome(success: bool, stdout: String, stderr: &str) -> (r: Result<String, VcsError>)
    ensures
        match r {
            Result::Ok(out) => success && out@ == stdout@,
            Result::Err(e) => !success && !e.file_scoped && e.detail@ == trim_of(stderr@),
        },
{
    if success {
        Result::Ok(stdout)
    } else {
        Result::Err(VcsError { file_scoped: false, detail: trim_str(stderr) })
    }
}

/// Classifies a file-scoped invocation's outcome, with the distinct
/// file-scoped error tag.
pub fn file_outcome(success: bool, stdout: String, stderr: &str) -> (r: Result<String, VcsError>)
    ensures
        match r {
            Result::Ok(out) => success && out@ == stdout@,
            Result::Err(e) => !success && e.file_scoped && e.detail@ == trim_of(stderr@),
        },
{
    if success {
        Result::Ok(stdout)
    } else {
        Result::Err(VcsError { file_scoped: true, detail: trim_str(stderr) })
    }
}

/// The known lock-file names as runtime values.
pub fn lock_file_names() -> (r: Vec<String>)
    ensures
        r@.map_values(|s: String| s@) == lock_basenames(),
{
    let mut r: Vec<String> = Vec::new();
    r.push("Cargo.lock".to_owned());
    r.push("package-lock.json".to_owned());
    r.push("yarn.lock".to_owned());
    r.push("pnpm-lock.yaml".to_owned());
    r.push("poetry.lock".to_owned());
    r.push("Pipfile.lock".to_owned());
    r.push("Gemfile.lock".to_owned());
    r.push("go.sum".to_owned());
    r.push("composer.lock".to_owned());
    r.push("flake.lock".to_owned());
    proof {
        assert(r@.map_values(|s: String| s@) =~= lock_basenames());
    }
    r
}

/// Argument list for the whole-tree staged diff, with every known lock
/// file excluded from the diff body (their content never reaches the
/// model; they are still committed later).
pub open spec fn full_diff_args_spec() -> Seq<Seq<char>> {
    seq!["diff"@, "--staged"@, "--"@, "."@] + lock_basenames().map_values(
        |n: Seq<char>| ":!"@ + n,
    )
}

/// Builds the whole-tree staged-diff argument list.
pub fn full_diff_args() -> (r: Vec<String>)
    ensures
        r@.map_values(|s: String| s@) == full_diff_args_spec(),
{
    let names = lock_file_names();
    let mut r: Vec<String> = Vec::new();
    r.push("diff".to_owned());
    r.push("--staged".to_owned());
    r.push("--".to_owned());
    r.push(".".to_owned());
    let mut i: usize = 0;
    while i < names.len()
        invariant
            i <= names.len(),
            names@.map_values(|s: String| s@) == lock_basenames(),
            r@.map_values(|s: String| s@) =~= seq!["diff"@, "--staged"@, "--"@, "."@]
                + lock_basenames().map_values(|n: Seq<char>| ":!"@ + n).take(i as int),
        decreases names.len() - i,
    {
        let pathspec = ":!".to_owned().concat(names[i].as_str());
        let ghost prev = r@.map_values(|s: String| s@);
        r.push(pathspec);
        proof {
            let mapped = lock_basenames().map_values(|n: Seq<char>| ":!"@ + n);
            assert(r@.map_values(|s: String| s@) =~= prev.push(pathspec@));
            assert(mapped.take(i + 1) =~= mapped.take(i as int).push(mapped[i as int]));
            assert(r@.map_values(|s: String| s@) =~= seq!["diff"@, "--staged"@, "--"@, "."@]
                + mapped.take(i + 1));
        }
        i += 1;
    }
    proof {
        let mapped = lock_basenames().map_values(|n: Seq<char>| ":!"@ + n);
        assert(mapped.take(names@.len() as int) =~= mapped);
    }
    r
}

/// Argument list that lists the staged paths, one per line.
pub fn name_only_args() -> (r: Vec<String>)
    ensures
        r@.map_values(|s: String| s@) == seq!["diff"@, "--staged"@, "--name-only"@],
{
    let mut r: Vec<String> = Vec::new();
    r.push("diff".to_owned());
    r.push("--staged".to_owned());
    r.push("--name-only".to_owned());
    proof {
        assert(r@.map_values(|s: String| s@) =~= seq!["diff"@, "--staged"@, "--name-only"@]);
    }
    r
}

/// Argument list for the staged diff scoped to exactly one path.
pub fn file_diff_args(filename: &str) -> (r: Vec<String>)
    ensures
        r@.map_values(|s: String| s@) == seq!["diff"@, "--staged"@, "--"@, filename@],
{
    let mut r: Vec<String> = Vec::new();
    r.push("diff".to_owned());
    r.push("--staged".to_owned());
    r.push("--".to_owned());
    r.push(filename.to_owned());
    proof {
        assert(r@.map_values(|s: String| s@) =~= seq!["diff"@, "--staged"@, "--"@, filename@]);
    }
    r
}

/// The staged paths a model should analyze: every listed path that is not
/// a lock file, in the order the tool reported.
pub open spec fn analyzable_of(listing: Seq<char>) -> Seq<Seq<char>> {
    lines_of(listing).filter(|l: Seq<char>| !is_lock_basename(basename_of(l)))
}

/// The staged lock files, in the order the tool reported.
pub open spec fn locks_of(listing: Seq<char>) -> Seq<Seq<char>> {
    lines_of(listing).filter(|l: Seq<char>| is_lock_basename(basename_of(l)))
}

/// Parses a staged-path listing into the analyzable paths, lock files
/// excluded.
pub fn analyzable_files(listing: &str) -> (r: Vec<String>)
    ensures
        r@.map_values(|s: String| s@) == analyzable_of(listing@),
{
    let lines = split_lines(listing);
    let ghost all = lines@.map_values(|l: String| l@);
    let mut r: Vec<String> = Vec::new();
    let mut i: usize = 0;
    while i < lines.len()
        invariant
            i <= lines.len(),
            all == lines@.map_values(|l: String| l@),
            all == lines_of(listing@),
            r@.map_values(|s: String| s@) == all.take(i as int).filter(
                |l: Seq<char>| !is_lock_basename(basename_of(l)),
            ),
        decreases lines.len() - i,
    {
        let keep = !is_lock_file(lines[i].as_str());
        let ghost prev = r@.map_values(|s: String| s@);
        if keep {
            let line = lines[i].clone();
            r.push(line);
            proof {
                assert(r@.map_values(|s: String| s@) =~= prev.push(all[i as int]));
            }
        }
        proof {
            reveal(Seq::filter);
            let pred = |l: Seq<char>| !is_lock_basename(basename_of(l));
            assert(all.take(i + 1).drop_last() =~= all.take(i as int));
            assert(all.take(i + 1).last() == all[i as int]);
            assert(r@.map_values(|s: String| s@) =~= all.take(i + 1).filter(pred));
        }
        i += 1;
    }
    proof {
        assert(all.take(lines@.len() as int) =~= all);
    }
    r
}

/// Parses a staged-path listing into the staged lock files alone.
pub fn staged_lock_files(listing: &str) -> (r: Vec<String>)
    ensures
        r@.map_values(|s: String| s@) == locks_of(listing@),
{
    let lines = split_lines(listing);
    let ghost all = lines@.map_values(|l: String| l@);
    let mut r: Vec<String> = Vec::new();
    let mut i: usize = 0;
    while i < lines.len()
        invariant
            i <= lines.len(),
            all == lines@.map_values(|l: String| l@),
            all == lines_of(listing@),
            r@.map_values(|s: String| s@) == all.take(i as int).filter(
                |l: Seq<char>| is_lock_basename(basename_of(l)),
            ),
        decreases lines.len() - i,
    {
        let keep = is_lock_file(lines[i].as_str());
        let ghost prev = r@.map_values(|s: String| s@);
        if keep {
            let line = lines[i].clone();
            r.push(line);
            proof {
                assert(r@.map_values(|s: String| s@) =~= prev.push(all[i as int]));
            }
        }
        proof {
            reveal(Seq::filter);
            let pred = |l: Seq<char>| is_lock_basename(basename_of(l));
            assert(all.take(i + 1).drop_last() =~= all.take(i as int));
            assert(all.take(i + 1).last() == all[i as int]);
            assert(r@.map_values(|s: String| s@) =~= all.take(i + 1).filter(pred));
        }
        i += 1;
    }
    proof {
        assert(all.take(lines@.len() as int) =~= all);
    }
    r
}

} // verus!
