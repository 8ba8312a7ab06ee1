//! Classification of dependency-lock artifacts.
//!
//! A lock file is committed but never analyzed: its content is generated
//! noise to a language model. Classification goes by the final path
//! segment alone, compared case-sensitively against a fixed set of known
//! lock-file names.

use vstd::prelude::*;

verus! {

/// The known dependency-lock basenames, one per package ecosystem.
pub open spec fn lock_basenames() -> Seq<Seq<char>> {
    seq![
        "Cargo.lock"@,
        "package-lock.json"@,
        "yarn.lock"@,
        "pnpm-lock.yaml"@,
        "poetry.lock"@,
        "Pipfile.lock"@,
        "Gemfile.lock"@,
        "go.sum"@,
        "composer.lock"@,
        "flake.lock"@,
    ]
}

/// Whether a basename is exactly one of the known lock-file names.
pub open spec fn is_lock_basename(name: Seq<char>) -> bool {
    lock_basenames().contains(name)
}

/// Index just past the last `/` of a path; `0` if it has none.
pub open spec fn basename_start(path: Seq<char>) -> int
    decreases path.len(),
{
    if path.len() == 0 {
        0
    } else if path.last() == '/' {
        path.len() as int
    } else {
        basename_start(path.drop_last())
    }
}

/// The final path segment: everything after the last `/`.
pub open spec fn basename_of(path: Seq<char>) -> Seq<char> {
    path.subrange(basename_start(path), path.len() as int)
}

/// If no `/` occurs at or after position `j`, the basename starts where it
/// starts in the prefix of length `j`.
proof fn lemma_basename_start_from(path: Seq<char>, j: int)
    requires
        0 <= j <= path.len(),
        forall|k: int| j <= k < path.len() ==> path[k] != '/',
    ensures
        basename_start(path) == basename_start(path.take(j)),
    decreases path.len() - j,
{
    if j == path.len() {
        assert(path.take(j) =~= path);
    } else {
        assert(path.take(path.len() as int - 1) =~= path.drop_last());
        lemma_basename_start_from(path.drop_last(), j);
        assert(path.drop_last().take(j) =~= path.take(j));
    }
}

/// Character-by-character string equality, specified against the views.
pub fn str_eq(a: &str, b: &str) -> (r: bool)
    ensures
        r == (a@ == b@),
{
    let an = a.unicode_len();
    let bn = b.unicode_len();
    if an != bn {
        return false;
    }
    let mut i: usize = 0;
    while i < an
        invariant
            i <= an,
            an == a@.len(),
            bn == b@.len(),
            an == bn,
            forall|k: int| 0 <= k < i ==> a@[k] == b@[k],
        decreases an - i,
    {
        if a.get_char(i) != b.get_char(i) {
            return false;
        }
        i += 1;
    }
    proof {
        assert(a@ =~= b@);
    }
    true
}

/// Index just past the last `/` of `s`, so that `s[r..]` is the basename.
pub(crate) fn last_slash_end(s: &str) -> (r: usize)
    ensures
        r == basename_start(s@),
        r <= s@.len(),
{
    let n = s.unicode_len();
    let mut j = n;
    while j > 0
        invariant
            j <= n,
            n == s@.len(),
            forall|k: int| j <= k < n ==> s@[k] != '/',
        decreases j,
    {
        let c = s.get_char(j - 1);
        if c == '/' {
            proof {
                lemma_basename_start_from(s@, j as int);
                assert(s@.take(j as int).last() == '/');
            }
            return j;
        }
        j -= 1;
    }
    proof {
        lemma_basename_start_from(s@, 0);
        assert(s@.take(0) =~= Seq::<char>::empty());
    }
    0
}

/// Whether the path names a dependency-lock artifact.
///
/// Matches on the basename only: a nested path ending in a known lock-file
/// name matches regardless of directory prefix, and any other basename,
/// partial matches among them, does not.
pub fn is_lock_file(filename: &str) -> (r: bool)
    ensures
        r == is_lock_basename(basename_of(filename@)),
{
    let start = last_slash_end(filename);
    let n = filename.unicode_len();
    let base = filename.substring_char(start, n);
    proof {
        assert(base@ == basename_of(filename@));
    }
    let r = str_eq(base, "Cargo.lock") || str_eq(base, "package-lock.json") || str_eq(
        base,
        "yarn.lock",
    ) || str_eq(base, "pnpm-lock.yaml") || str_eq(base, "poetry.lock") || str_eq(
        base,
        "Pipfile.lock",
    ) || str_eq(base, "Gemfile.lock") || str_eq(base, "go.sum") || str_eq(base, "composer.lock")
        || str_eq(base, "flake.lock");
    proof {
        if r {
            assert(is_lock_basename(base@));
        } else {
            assert forall|i: int| 0 <= i < lock_basenames().len() implies lock_basenames()[i]
                != base@ by {
                assert(lock_basenames()[0] == "Cargo.lock"@);
                assert(lock_basenames()[1] == "package-lock.json"@);
                assert(lock_basenames()[2] == "yarn.lock"@);
                assert(lock_basenames()[3] == "pnpm-lock.yaml"@);
                assert(lock_basenames()[4] == "poetry.lock"@);
                assert(lock_basenames()[5] == "Pipfile.lock"@);
                assert(lock_basenames()[6] == "Gemfile.lock"@);
                assert(lock_basenames()[7] == "go.sum"@);
                assert(lock_basenames()[8] == "composer.lock"@);
                assert(lock_basenames()[9] == "flake.lock"@);
            }
            assert(!is_lock_basename(base@));
        }
    }
    r
}

} // verus!
