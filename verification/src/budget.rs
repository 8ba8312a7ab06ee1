//! The context budgeter: decides whether a diff fits the model's context
//! window and, where it does not, computes a safe truncation boundary that
//! never splits a line.
//!
//! The budget is `3 * context_tokens` bytes, a conservative bytes-per-token
//! margin rather than an exact token count. An oversized diff is cut at the
//! last line boundary before the budget; a pathological single huge line is
//! cut exactly at the budget.

use vstd::prelude::*;
use vstd::slice::slice_index_get;
use vstd::slice::slice_subrange;
use vstd::slice::slice_to_vec;
use vstd::string::StringSliceAdditionalSpecFns;
use vstd::string::StrSliceExecFns;

verus! {

/// The byte budget derived from a context size in tokens.
pub open spec fn byte_cap(context_tokens: u32) -> int {
    3 * (context_tokens as int)
}

/// Greatest index of a newline byte before `end`, or `-1` if there is none.
pub open spec fn last_nl_before(bytes: Seq<u8>, end: int) -> int
    decreases end,
{
    if end <= 0 {
        -1
    } else if bytes[end - 1] == 10 {
        end - 1
    } else {
        last_nl_before(bytes, end - 1)
    }
}

/// Where the used prefix of a diff ends: the whole diff when it fits the
/// cap, otherwise the last line boundary before the cap, or the cap itself
/// when no boundary precedes it.
pub open spec fn cut_point(bytes: Seq<u8>, cap: int) -> int {
    if bytes.len() <= cap {
        bytes.len() as int
    } else {
        let j = last_nl_before(bytes, cap);
        if j >= 0 {
            j
        } else {
            cap
        }
    }
}

/// What `last_nl_before` finds: a newline with none after it, or none at
/// all.
proof fn lemma_last_nl_props(bytes: Seq<u8>, end: int)
    requires
        0 <= end <= bytes.len(),
    ensures
        -1 <= last_nl_before(bytes, end) < end,
        last_nl_before(bytes, end) >= 0 ==> bytes[last_nl_before(bytes, end)] == 10,
        last_nl_before(bytes, end) >= 0 ==> forall|m: int|
            last_nl_before(bytes, end) < m < end ==> bytes[m] != 10,
        last_nl_before(bytes, end) < 0 ==> forall|m: int| 0 <= m < end ==> bytes[m] != 10,
    decreases end,
{
    if end > 0 && bytes[end - 1] != 10 {
        lemma_last_nl_props(bytes, end - 1);
    }
}

/// The used prefix ends at a line boundary: the cut point never splits a
/// line. Over the cap, the cut sits on the last newline before the cap, or
/// at the cap itself when no newline precedes it.
pub proof fn lemma_cut_point_boundary(bytes: Seq<u8>, cap: int)
    requires
        0 <= cap,
    ensures
        0 <= cut_point(bytes, cap) <= bytes.len(),
        bytes.len() <= cap ==> cut_point(bytes, cap) == bytes.len(),
        bytes.len() > cap ==> cut_point(bytes, cap) <= cap,
        bytes.len() > cap && (exists|m: int| 0 <= m < cap && bytes[m] == 10) ==> {
            &&& bytes[cut_point(bytes, cap)] == 10
            &&& forall|m: int| cut_point(bytes, cap) < m < cap ==> bytes[m] != 10
        },
        bytes.len() > cap && !(exists|m: int| 0 <= m < cap && bytes[m] == 10) ==> cut_point(
            bytes,
            cap,
        ) == cap,
{
    if bytes.len() > cap {
        lemma_last_nl_props(bytes, cap);
    }
}

/// How much of a diff is handed to the model, and how much was dropped.
pub struct TruncationResult {
    /// The prefix of the diff that stays within the byte budget.
    pub used_text: Vec<u8>,
    /// Whether anything was dropped.
    pub was_truncated: bool,
    /// Byte length of the whole diff.
    pub original_bytes: usize,
    /// Byte length of the used prefix.
    pub used_bytes: usize,
}

/// Applies the byte budget to a diff.
///
/// Returns the diff unchanged when it fits; otherwise the prefix up to the
/// cut point, together with both byte counts so the caller can report how
/// much was dropped and suggest a larger context size.
pub fn budget(diff: &str, context_tokens: u32) -> (r: TruncationResult)
    requires
        diff.spec_bytes().len() <= usize::MAX,
    ensures
        r.original_bytes == diff.spec_bytes().len(),
        r.was_truncated == (diff.spec_bytes().len() > byte_cap(context_tokens)),
        r.used_text@ == diff.spec_bytes().take(
            cut_point(diff.spec_bytes(), byte_cap(context_tokens)),
        ),
        r.used_bytes == r.used_text@.len(),
        !r.was_truncated ==> r.used_text@ == diff.spec_bytes(),
{
    let total = diff.len();
    let cap64: u64 = (context_tokens as u64) * 3;
    if (total as u64) <= cap64 {
        let used = diff.as_bytes_vec();
        proof {
            assert(diff.spec_bytes().take(diff.spec_bytes().len() as int) =~= diff.spec_bytes());
        }
        return TruncationResult {
            used_text: used,
            was_truncated: false,
            original_bytes: total,
            used_bytes: total,
        };
    }
    let cap = cap64 as usize;
    let bytes = diff.as_bytes();
    let ghost bv = diff.spec_bytes();
    let mut k = cap;
    let mut cut = cap;
    let mut found = false;
    while k > 0
        invariant_except_break
            k <= cap,
            cap < bv.len(),
            bytes@ == bv,
            !found,
            cut == cap,
            forall|m: int| k <= m < cap ==> bv[m] != 10,
        ensures
            bytes@ == bv,
            cap < bv.len(),
            cut <= cap,
            found ==> cut < cap && bv[cut as int] == 10 && forall|m: int| cut < m < cap ==> bv[m]
                != 10,
            !found ==> cut == cap && forall|m: int| 0 <= m < cap ==> bv[m] != 10,
        decreases k,
    {
        if *slice_index_get(bytes, k - 1) == 10 {
            cut = k - 1;
            found = true;
            break ;
        }
        k -= 1;
    }
    proof {
        if found {
            lemma_last_nl_at(bv, cap as int, cut as int);
        } else {
            lemma_last_nl_props(bv, cap as int);
        }
        assert(cut_point(bv, byte_cap(context_tokens)) == cut as int);
    }
    let prefix = slice_subrange(bytes, 0, cut);
    let used = slice_to_vec(prefix);
    TruncationResult { used_text: used, was_truncated: true, original_bytes: total, used_bytes: cut }
}

/// The context size, in tokens, that would have fit the whole diff: the
/// value a truncation notice suggests to the user.
pub fn suggested_context(original_bytes: usize) -> (r: usize)
    ensures
        r == original_bytes / 3,
{
    original_bytes / 3
}

/// A newline with no newline after it before `end` is what
/// `last_nl_before` finds.
proof fn lemma_last_nl_at(bytes: Seq<u8>, end: int, j: int)
    requires
        0 <= j < end <= bytes.len(),
        bytes[j] == 10,
        forall|m: int| j < m < end ==> bytes[m] != 10,
    ensures
        last_nl_before(bytes, end) == j,
    decreases end,
{
    if end - 1 > j {
        lemma_last_nl_at(bytes, end - 1, j);
    }
}

} // verus!
