//! Text utilities shared by the pipeline: whitespace trimming for the
//! generated message and line splitting for the staged-file listing.

use vstd::prelude::*;

verus! {

/// Whether a code point has the Unicode `White_Space` property.
pub open spec fn is_ws_code(u: u32) -> bool {
    u == 0x20 || (0x09 <= u && u <= 0x0D) || u == 0x85 || u == 0xA0 || u == 0x1680 || (0x2000 <= u
        && u <= 0x200A) || u == 0x2028 || u == 0x2029 || u == 0x202F || u == 0x205F || u == 0x3000
}

/// Whether a character is whitespace.
pub open spec fn is_ws(c: char) -> bool {
    is_ws_code(c as u32)
}

/// Runtime whitespace test matching `is_ws`.
pub fn ws_char(c: char) -> (r: bool)
    ensures
        r == is_ws(c),
{
    let u = c as u32;
    u == 0x20 || (0x09 <= u && u <= 0x0D) || u == 0x85 || u == 0xA0 || u == 0x1680 || (0x2000 <= u
        && u <= 0x200A) || u == 0x2028 || u == 0x2029 || u == 0x202F || u == 0x205F || u == 0x3000
}

/// Length of the maximal whitespace prefix.
pub open spec fn ws_prefix_len(s: Seq<char>) -> int
    decreases s.len(),
{
    if s.len() == 0 || !is_ws(s[0]) {
        0
    } else {
        1 + ws_prefix_len(s.drop_first())
    }
}

/// Length of the maximal whitespace suffix.
pub open spec fn ws_suffix_len(s: Seq<char>) -> int
    decreases s.len(),
{
    if s.len() == 0 || !is_ws(s.last()) {
        0
    } else {
        1 + ws_suffix_len(s.drop_last())
    }
}

/// The string with leading and trailing whitespace removed.
pub open spec fn trim_of(s: Seq<char>) -> Seq<char> {
    let a = ws_prefix_len(s);
    let b = s.len() - ws_suffix_len(s);
    if a <= b {
        s.subrange(a, b)
    } else {
        Seq::empty()
    }
}

proof fn lemma_ws_prefix_len_at(s: Seq<char>, i: int)
    requires
        0 <= i <= s.len(),
        forall|k: int| 0 <= k < i ==> is_ws(s[k]),
        i < s.len() ==> !is_ws(s[i]),
    ensures
        ws_prefix_len(s) == i,
    decreases i,
{
    if i == 0 {
    } else {
        lemma_ws_prefix_len_at(s.drop_first(), i - 1);
    }
}

proof fn lemma_ws_suffix_len_at(s: Seq<char>, j: int)
    requires
        0 <= j <= s.len(),
        forall|k: int| j <= k < s.len() ==> is_ws(s[k]),
        j > 0 ==> !is_ws(s[j - 1]),
    ensures
        ws_suffix_len(s) == s.len() - j,
    decreases s.len() - j,
{
    if j == s.len() {
    } else {
        lemma_ws_suffix_len_at(s.drop_last(), j);
    }
}

/// Removes leading and trailing whitespace, as the generated commit
/// message is cleaned before it is shown or used.
pub fn trim_str(s: &str) -> (r: String)
    ensures
        r@ == trim_of(s@),
{
    let n = s.unicode_len();
    let mut a: usize = 0;
    while a < n && ws_char(s.get_char(a))
        invariant
            a <= n,
            n == s@.len(),
            forall|k: int| 0 <= k < a ==> is_ws(s@[k]),
        decreases n - a,
    {
        a += 1;
    }
    if a == n {
        proof {
            lemma_ws_prefix_len_at(s@, n as int);
            lemma_ws_suffix_len_at(s@, 0);
            assert(trim_of(s@) =~= Seq::<char>::empty());
        }
        return String::new();
    }
    proof {
        lemma_ws_prefix_len_at(s@, a as int);
    }
    let mut b: usize = n;
    while b > a && ws_char(s.get_char(b - 1))
        invariant
            a <= b <= n,
            n == s@.len(),
            a < n,
            !is_ws(s@[a as int]),
            forall|k: int| b <= k < n ==> is_ws(s@[k]),
        decreases b,
    {
        b -= 1;
    }
    proof {
        lemma_ws_suffix_len_at(s@, b as int);
    }
    let out = s.substring_char(a, b);
    out.to_owned()
}

/// Index of the first `\n`, or the length if there is none.
pub open spec fn first_nl(s: Seq<char>) -> int
    decreases s.len(),
{
    if s.len() == 0 {
        0
    } else if s[0] == '\n' {
        0
    } else {
        1 + first_nl(s.drop_first())
    }
}

/// Drops one trailing carriage return, as a `\r\n` ending marks one line
/// boundary.
pub open spec fn strip_cr(line: Seq<char>) -> Seq<char> {
    if line.len() > 0 && line.last() == '\r' {
        line.drop_last()
    } else {
        line
    }
}

/// The lines of a listing: segments between `\n` separators, each with a
/// trailing `\r` removed, without a final empty segment.
pub open spec fn lines_of(s: Seq<char>) -> Seq<Seq<char>>
    decreases s.len(),
{
    if s.len() == 0 {
        Seq::empty()
    } else {
        let i = first_nl(s);
        if 0 <= i && i < s.len() {
            seq![strip_cr(s.take(i))] + lines_of(s.skip(i + 1))
        } else {
            seq![strip_cr(s)]
        }
    }
}

proof fn lemma_first_nl_at(s: Seq<char>, i: int)
    requires
        0 <= i <= s.len(),
        forall|k: int| 0 <= k < i ==> s[k] != '\n',
        i < s.len() ==> s[i] == '\n',
    ensures
        first_nl(s) == i,
    decreases i,
{
    if i == 0 {
    } else {
        lemma_first_nl_at(s.drop_first(), i - 1);
    }
}

/// Lines of a concatenation split at a trailing line boundary of the left
/// part.
proof fn lemma_lines_concat(a: Seq<char>, b: Seq<char>)
    requires
        a.len() == 0 || a.last() == '\n',
    ensures
        lines_of(a + b) == lines_of(a) + lines_of(b),
    decreases a.len(),
{
    if a.len() == 0 {
        assert(a + b =~= b);
        assert(lines_of(a) + lines_of(b) =~= lines_of(b));
    } else {
        let i = first_nl(a);
        assert(a[a.len() - 1] == '\n');
        lemma_first_nl_le(a);
        let ab = a + b;
        assert(forall|k: int| 0 <= k < i ==> ab[k] != '\n');
        lemma_first_nl_at(ab, i);
        if i + 1 == a.len() {
            assert(a.skip(i + 1) =~= Seq::<char>::empty());
        }
        assert(ab.take(i) =~= a.take(i));
        assert(ab.skip(i + 1) =~= a.skip(i + 1) + b);
        lemma_lines_concat(a.skip(i + 1), b);
        assert(lines_of(ab) =~= lines_of(a) + lines_of(b));
    }
}

/// The first newline of a string whose last character is a newline lies
/// within it, and nothing before it is a newline.
proof fn lemma_first_nl_le(s: Seq<char>)
    requires
        s.len() > 0,
        s.last() == '\n',
    ensures
        0 <= first_nl(s) < s.len(),
        s[first_nl(s)] == '\n',
        forall|k: int| 0 <= k < first_nl(s) ==> s[k] != '\n',
    decreases s.len(),
{
    if s[0] == '\n' {
    } else {
        lemma_first_nl_le(s.drop_first());
        assert(forall|k: int| 1 <= k < first_nl(s) ==> s[k] == s.drop_first()[k - 1]);
    }
}

/// One full line, ending in `\n`, appended to a listing that ends at a
/// line boundary adds exactly one parsed line.
proof fn lemma_lines_step(s: Seq<char>, start: int, i: int)
    requires
        0 <= start <= i < s.len(),
        s[i] == '\n',
        start == 0 || s[start - 1] == '\n',
        forall|k: int| start <= k < i ==> s[k] != '\n',
    ensures
        lines_of(s.take(i + 1)) == lines_of(s.take(start)) + seq![
            strip_cr(s.subrange(start, i)),
        ],
{
    let a = s.take(start);
    let b = s.subrange(start, i + 1);
    assert(s.take(i + 1) =~= a + b);
    lemma_lines_concat(a, b);
    assert(forall|k: int| 0 <= k < i - start ==> b[k] != '\n');
    lemma_first_nl_at(b, i - start);
    assert(b.skip(i - start + 1) =~= Seq::<char>::empty());
    assert(b.take(i - start) =~= s.subrange(start, i));
    assert(lines_of(Seq::<char>::empty()) =~= Seq::<Seq<char>>::empty());
    assert(lines_of(b) =~= seq![strip_cr(s.subrange(start, i))]);
}

/// A final segment without a newline adds exactly one parsed line.
proof fn lemma_lines_final(s: Seq<char>, start: int)
    requires
        0 <= start < s.len(),
        start == 0 || s[start - 1] == '\n',
        forall|k: int| start <= k < s.len() ==> s[k] != '\n',
    ensures
        lines_of(s) == lines_of(s.take(start)) + seq![strip_cr(s.skip(start))],
{
    let a = s.take(start);
    let b = s.skip(start);
    assert(s =~= a + b);
    lemma_lines_concat(a, b);
    lemma_first_nl_at(b, b.len() as int);
    assert(lines_of(b) =~= seq![strip_cr(b)]);
}

/// Splits a tool listing into lines, one staged path per line.
pub fn split_lines(s: &str) -> (r: Vec<String>)
    ensures
        r@.map_values(|l: String| l@) == lines_of(s@),
{
    let n = s.unicode_len();
    let mut res: Vec<String> = Vec::new();
    let mut start: usize = 0;
    let mut i: usize = 0;
    while i < n
        invariant
            start <= i <= n,
            n == s@.len(),
            res@.map_values(|l: String| l@) == lines_of(s@.take(start as int)),
            start == 0 || s@[start as int - 1] == '\n',
            forall|k: int| start <= k < i ==> s@[k] != '\n',
        decreases n - i,
    {
        let c = s.get_char(i);
        if c == '\n' {
            let end = if i > start && s.get_char(i - 1) == '\r' {
                i - 1
            } else {
                i
            };
            let line = s.substring_char(start, end).to_owned();
            proof {
                assert(line@ =~= strip_cr(s@.subrange(start as int, i as int)));
                lemma_lines_step(s@, start as int, i as int);
            }
            let ghost old_map = res@.map_values(|l: String| l@);
            res.push(line);
            proof {
                assert(res@.map_values(|l: String| l@) =~= old_map.push(line@));
            }
            start = i + 1;
        }
        i += 1;
    }
    if start < n {
        let end = if s.get_char(n - 1) == '\r' {
            n - 1
        } else {
            n
        };
        let line = s.substring_char(start, end).to_owned();
        proof {
            assert(line@ =~= strip_cr(s@.skip(start as int)));
            lemma_lines_final(s@, start as int);
        }
        let ghost old_map = res@.map_values(|l: String| l@);
        res.push(line);
        proof {
            assert(res@.map_values(|l: String| l@) =~= old_map.push(line@));
        }
    } else {
        proof {
            assert(s@.take(start as int) =~= s@);
        }
    }
    res
}

} // verus!
