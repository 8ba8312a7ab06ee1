//! The commit orchestrator's decisions: which workflow to run, what the
//! user's acceptance choice means, which arguments a commit takes, and the
//! lock-file tracking across a per-file run.
//!
//! The interactive prompts, the commits and the push run outside the
//! library; they hand back plain outcomes, and every decision between them
//! is made here.

use crate::lockfile::basename_of;
use crate::lockfile::last_slash_end;
use vstd::prelude::*;

verus! {

/// Where the stem of a basename ends: at the last `.` that is not its
/// first character, or at its length when it has no extension.
pub open spec fn stem_end(base: Seq<char>) -> int
    decreases base.len(),
{
    if base.len() <= 1 {
        base.len() as int
    } else if base.last() == '.' {
        base.len() - 1
    } else {
        let e = stem_end(base.drop_last());
        if e == base.len() - 1 {
            base.len() as int
        } else {
            e
        }
    }
}

/// The scope a per-file commit message is bound to: the file's basename
/// without its extension.
pub open spec fn scope_of(path: Seq<char>) -> Seq<char> {
    basename_of(path).take(stem_end(basename_of(path)))
}

proof fn lemma_stem_end_bounds(base: Seq<char>)
    ensures
        0 <= stem_end(base) <= base.len(),
        base.len() > 0 ==> 1 <= stem_end(base),
    decreases base.len(),
{
    if base.len() > 1 && base.last() != '.' {
        lemma_stem_end_bounds(base.drop_last());
    }
}

/// If no `.` occurs at or after position `j`, the stem ends where it ends
/// in the prefix of length `j`, or runs to the end when that prefix has no
/// extension of its own.
proof fn lemma_stem_end_from(base: Seq<char>, j: int)
    requires
        1 <= j <= base.len(),
        forall|k: int| j <= k < base.len() ==> base[k] != '.',
    ensures
        stem_end(base) == (if stem_end(base.take(j)) == j {
            base.len() as int
        } else {
            stem_end(base.take(j))
        }),
    decreases base.len() - j,
{
    lemma_stem_end_bounds(base.take(j));
    if j == base.len() {
        assert(base.take(j) =~= base);
    } else {
        assert(base.take(base.len() as int - 1) =~= base.drop_last());
        lemma_stem_end_from(base.drop_last(), j);
        assert(base.drop_last().take(j) =~= base.take(j));
    }
}

/// Derives the scope name for one file: the basename with the extension
/// cut off. A leading dot opens no extension, so a dotfile's whole name is
/// its scope.
pub fn scope_name(filename: &str) -> (r: String)
    ensures
        r@ == scope_of(filename@),
{
    let start = last_slash_end(filename);
    let n = filename.unicode_len();
    let base = filename.substring_char(start, n);
    let ghost b = base@;
    proof {
        assert(b == basename_of(filename@));
    }
    let m = base.unicode_len();
    if m == 0 {
        return String::new();
    }
    let mut j = m;
    let mut cut = m;
    let mut found = false;
    while j > 1
        invariant_except_break
            1 <= j <= m,
            m == b.len(),
            base@ == b,
            !found,
            cut == m,
            forall|k: int| j <= k < m ==> b[k] != '.',
        ensures
            m == b.len(),
            base@ == b,
            cut <= m,
            found ==> 1 <= cut < m && b[cut as int] == '.' && (forall|k: int|
                cut < k < m ==> b[k] != '.'),
            !found ==> cut == m && (forall|k: int| 1 <= k < m ==> b[k] != '.'),
        decreases j,
    {
        let c = base.get_char(j - 1);
        if c == '.' {
            cut = j - 1;
            found = true;
            break ;
        }
        j -= 1;
    }
    proof {
        if found {
            lemma_stem_end_from(b, cut + 1);
            assert(b.take(cut + 1).last() == '.');
        } else {
            lemma_stem_end_from(b, 1);
        }
        assert(stem_end(b) == cut as int);
    }
    let stem = base.substring_char(0, cut);
    proof {
        assert(stem@ =~= b.take(stem_end(b)));
    }
    stem.to_owned()
}

/// What an invocation does, settled before any network call is made.
pub enum WorkflowPlan {
    /// Nothing is staged: an empty-work terminal state, not an error.
    NothingStaged,
    /// One suggestion for the whole tree.
    WholeTree,
    /// One suggestion per staged file.
    PerFile,
}

/// Settles the workflow: with nothing staged no suggestion is requested at
/// all; otherwise the split flag picks the mode.
pub fn plan_workflow(files: &Vec<String>, split: bool) -> (p: WorkflowPlan)
    ensures
        p == (if files@.len() == 0 {
            WorkflowPlan::NothingStaged
        } else if split {
            WorkflowPlan::PerFile
        } else {
            WorkflowPlan::WholeTree
        }),
{
    if files.len() == 0 {
        WorkflowPlan::NothingStaged
    } else if split {
        WorkflowPlan::PerFile
    } else {
        WorkflowPlan::WholeTree
    }
}

/// The user's answer to a proposed message.
pub enum AcceptChoice {
    /// Commit with the proposed message.
    Accept,
    /// Commit with an edited message.
    AcceptEdited(String),
    /// Skip this commit.
    Skip,
}

/// The message to commit with, or nothing when the user skipped.
pub fn resolve_choice(choice: AcceptChoice, suggestion: String) -> (r: Option<String>)
    ensures
        r == (match choice {
            AcceptChoice::Accept => Option::Some(suggestion),
            AcceptChoice::AcceptEdited(edited) => Option::Some(edited),
            AcceptChoice::Skip => Option::None::<String>,
        }),
{
    match choice {
        AcceptChoice::Accept => Option::Some(suggestion),
        AcceptChoice::AcceptEdited(edited) => Option::Some(edited),
        AcceptChoice::Skip => Option::None,
    }
}

/// Argument list of one commit: the message, and for a file-scoped commit
/// the file with the lock files to attach.
pub open spec fn commit_args_spec(
    message: Seq<char>,
    filename: Option<Seq<char>>,
    locks: Seq<Seq<char>>,
) -> Seq<Seq<char>> {
    match filename {
        Option::Some(f) => seq!["commit"@, "-m"@, message, "--"@, f] + locks,
        Option::None => seq!["commit"@, "-m"@, message],
    }
}

/// Builds the commit argument list. A whole-tree commit names no paths; a
/// file-scoped commit names the file and attaches the given lock files.
pub fn commit_args(message: &str, filename: Option<&str>, lock_files: &Vec<String>) -> (r: Vec<
    String,
>)
    ensures
        r@.map_values(|s: String| s@) == commit_args_spec(
            message@,
            match filename {
                Option::Some(f) => Option::Some(f@),
                Option::None => Option::None,
            },
            lock_files@.map_values(|s: String| s@),
        ),
{
    let mut r: Vec<String> = Vec::new();
    r.push("commit".to_owned());
    r.push("-m".to_owned());
    r.push(message.to_owned());
    match filename {
        Option::Some(f) => {
            r.push("--".to_owned());
            r.push(f.to_owned());
            let mut i: usize = 0;
            while i < lock_files.len()
                invariant
                    i <= lock_files.len(),
                    r@.map_values(|s: String| s@) =~= seq![
                        "commit"@,
                        "-m"@,
                        message@,
                        "--"@,
                        f@,
                    ] + lock_files@.map_values(|s: String| s@).take(i as int),
                decreases lock_files.len() - i,
            {
                let lock = lock_files[i].clone();
                let ghost prev = r@.map_values(|s: String| s@);
                r.push(lock);
                proof {
                    let locks = lock_files@.map_values(|s: String| s@);
                    assert(r@.map_values(|s: String| s@) =~= prev.push(lock@));
                    assert(locks.take(i + 1) =~= locks.take(i as int).push(locks[i as int]));
                    assert(r@.map_values(|s: String| s@) =~= seq![
                        "commit"@,
                        "-m"@,
                        message@,
                        "--"@,
                        f@,
                    ] + locks.take(i + 1));
                }
                i += 1;
            }
            proof {
                let locks = lock_files@.map_values(|s: String| s@);
                assert(locks.take(lock_files@.len() as int) =~= locks);
            }
        },
        Option::None => {
            proof {
                assert(r@.map_values(|s: String| s@) =~= seq!["commit"@, "-m"@, message@]);
            }
        },
    }
    r
}

/// Whether a push step runs at the end of a workflow: only when it was
/// requested and at least one commit was accepted, and once in all.
pub fn should_push(any_committed: bool, push_requested: bool) -> (r: bool)
    ensures
        r == (any_committed && push_requested),
{
    any_committed && push_requested
}

/// The pending flag after a run of per-file outcomes: set while the locks
/// were staged and no commit has been accepted yet.
pub open spec fn pending_after(initially_pending: bool, outcomes: Seq<bool>) -> bool
    decreases outcomes.len(),
{
    if outcomes.len() == 0 {
        initially_pending
    } else {
        pending_after(initially_pending, outcomes.drop_last()) && !outcomes.last()
    }
}

/// Whether any outcome in the run was an accepted commit.
pub open spec fn any_accepted(outcomes: Seq<bool>) -> bool
    decreases outcomes.len(),
{
    if outcomes.len() == 0 {
        false
    } else {
        any_accepted(outcomes.drop_last()) || outcomes.last()
    }
}

/// Whether the lock files ride along with the commit at position `i` of a
/// per-file run: it must be accepted while the locks are still pending.
pub open spec fn locks_attached_at(
    initially_pending: bool,
    outcomes: Seq<bool>,
    i: int,
) -> bool {
    outcomes[i] && pending_after(initially_pending, outcomes.take(i))
}

/// Tracking state of one per-file run: the staged lock files, whether they
/// still await a commit to ride along with, and whether any commit was
/// accepted.
pub struct SplitRun {
    /// The staged lock files, snapshotted before the loop.
    pub lock_files: Vec<String>,
    /// Whether the lock files still need to be attached to a commit.
    pub lock_pending: bool,
    /// Whether any commit in the run was accepted.
    pub any_committed: bool,
    /// The accepted/skipped outcomes recorded so far.
    pub history: Ghost<Seq<bool>>,
}

impl SplitRun {
    /// Whether the run started with lock files to attach.
    pub open spec fn initially_pending(self) -> bool {
        self.lock_files@.len() > 0
    }

    /// The tracking flags agree with the recorded history.
    pub open spec fn wf(self) -> bool {
        &&& self.lock_pending == pending_after(self.initially_pending(), self.history@)
        &&& self.any_committed == any_accepted(self.history@)
    }

    /// Starts a run: the staged lock files are pending exactly when there
    /// are any.
    pub fn new(lock_files: Vec<String>) -> (s: SplitRun)
        ensures
            s.wf(),
            s.lock_files == lock_files,
            s.history@ == Seq::<bool>::empty(),
            s.lock_pending == (lock_files@.len() > 0),
            !s.any_committed,
    {
        let pending = lock_files.len() > 0;
        SplitRun { lock_files, lock_pending: pending, any_committed: false, history: Ghost(
            Seq::empty(),
        ) }
    }

    /// The lock files the next commit should attach: all of them while
    /// they are pending, none afterwards.
    pub fn locks_to_attach(&self) -> (r: Vec<String>)
        ensures
            self.lock_pending ==> r@.map_values(|s: String| s@)
                == self.lock_files@.map_values(|s: String| s@),
            !self.lock_pending ==> r@.len() == 0,
    {
        let mut r: Vec<String> = Vec::new();
        if self.lock_pending {
            let mut i: usize = 0;
            while i < self.lock_files.len()
                invariant
                    i <= self.lock_files.len(),
                    r@.map_values(|s: String| s@) =~= self.lock_files@.map_values(
                        |s: String| s@,
                    ).take(i as int),
                decreases self.lock_files.len() - i,
            {
                let lock = self.lock_files[i].clone();
                r.push(lock);
                proof {
                    let locks = self.lock_files@.map_values(|s: String| s@);
                    assert(locks.take(i + 1) =~= locks.take(i as int).push(locks[i as int]));
                }
                i += 1;
            }
            proof {
                let locks = self.lock_files@.map_values(|s: String| s@);
                assert(locks.take(self.lock_files@.len() as int) =~= locks);
            }
        }
        r
    }

    /// Records one outcome: an accepted commit clears the pending flag for
    /// good and marks the run as having committed.
    pub fn record(&mut self, committed: bool)
        ensures
            final(self).lock_files == old(self).lock_files,
            final(self).lock_pending == (old(self).lock_pending && !committed),
            final(self).any_committed == (old(self).any_committed || committed),
            final(self).history@ == old(self).history@.push(committed),
            old(self).wf() ==> final(self).wf(),
    {
        self.lock_pending = self.lock_pending && !committed;
        self.any_committed = self.any_committed || committed;
        let ghost h = self.history@.push(committed);
        self.history = Ghost(h);
        proof {
            assert(h.drop_last() =~= old(self).history@);
        }
    }
}

/// Pending clears for good once any commit in the prefix was accepted.
proof fn lemma_pending_clears(initially_pending: bool, outcomes: Seq<bool>, i: int, j: int)
    requires
        0 <= i < j <= outcomes.len(),
        outcomes[i],
    ensures
        !pending_after(initially_pending, outcomes.take(j)),
    decreases j,
{
    if j == i + 1 {
        assert(outcomes.take(j).drop_last() =~= outcomes.take(i));
    } else {
        lemma_pending_clears(initially_pending, outcomes, i, j - 1);
        assert(outcomes.take(j).drop_last() =~= outcomes.take(j - 1));
    }
}

/// While no commit is accepted, pending keeps its initial value.
proof fn lemma_pending_holds(initially_pending: bool, outcomes: Seq<bool>)
    requires
        forall|m: int| 0 <= m < outcomes.len() ==> !outcomes[m],
    ensures
        pending_after(initially_pending, outcomes) == initially_pending,
    decreases outcomes.len(),
{
    if outcomes.len() > 0 {
        lemma_pending_holds(initially_pending, outcomes.drop_last());
    }
}

/// A well-formed run whose history already holds an accepted commit has
/// nothing left to attach: no later commit sees the lock files again.
pub proof fn lemma_no_reattachment(s: SplitRun, i: int)
    requires
        s.wf(),
        0 <= i < s.history@.len(),
        s.history@[i],
    ensures
        !s.lock_pending,
{
    lemma_pending_clears(s.initially_pending(), s.history@, i, s.history@.len() as int);
    assert(s.history@.take(s.history@.len() as int) =~= s.history@);
}

/// Across a per-file run the lock files ride along with at most one
/// accepted commit, whatever the outcomes.
pub proof fn lemma_locks_attached_at_most_once(
    initially_pending: bool,
    outcomes: Seq<bool>,
    i: int,
    j: int,
)
    requires
        0 <= i < j < outcomes.len(),
        locks_attached_at(initially_pending, outcomes, i),
    ensures
        !locks_attached_at(initially_pending, outcomes, j),
{
    lemma_pending_clears(initially_pending, outcomes, i, j);
}

/// When lock files are staged and some commit is accepted, they ride along
/// with exactly the first accepted one.
pub proof fn lemma_locks_attached_at_first_accept(
    initially_pending: bool,
    outcomes: Seq<bool>,
    k: int,
)
    requires
        initially_pending,
        0 <= k < outcomes.len(),
        outcomes[k],
        forall|m: int| 0 <= m < k ==> !outcomes[m],
    ensures
        locks_attached_at(initially_pending, outcomes, k),
{
    lemma_pending_holds(initially_pending, outcomes.take(k));
}

} // verus!
