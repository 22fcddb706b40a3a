//! Character-sequence utilities the path model is built on: splitting a
//! string on `/`, joining components back, substring search, and decimal
//! rendering of integers.

use vstd::prelude::*;

verus! {

/// Index of the first `/` in `s`, or `s.len()` if there is none.
pub open spec fn first_sep(s: Seq<char>) -> int
    decreases s.len(),
{
    if s.len() == 0 {
        0
    } else if s[0] == '/' {
        0
    } else {
        1 + first_sep(s.subrange(1, s.len() as int))
    }
}

pub proof fn lemma_first_sep_bounds(s: Seq<char>)
    ensures
        0 <= first_sep(s) <= s.len(),
        forall|k: int| 0 <= k < first_sep(s) ==> s[k] != '/',
        first_sep(s) < s.len() ==> s[first_sep(s)] == '/',
    decreases s.len(),
{
    if s.len() == 0 {
    } else if s[0] == '/' {
    } else {
        let t = s.subrange(1, s.len() as int);
        lemma_first_sep_bounds(t);
        assert forall|k: int| 0 <= k < first_sep(s) implies s[k] != '/' by {
            if k > 0 {
                assert(t[k - 1] != '/');
                assert(s[k] == t[k - 1]);
            }
        }
    }
}

/// `first_sep` is determined by any witness index with the same shape.
pub proof fn lemma_first_sep_is(s: Seq<char>, i: int)
    requires
        0 <= i <= s.len(),
        forall|k: int| 0 <= k < i ==> s[k] != '/',
        i < s.len() ==> s[i] == '/',
    ensures
        first_sep(s) == i,
    decreases i,
{
    if s.len() == 0 {
    } else if i == 0 {
        if s[0] != '/' {
            lemma_first_sep_bounds(s);
        }
    } else {
        let t = s.subrange(1, s.len() as int);
        assert forall|k: int| 0 <= k < i - 1 implies t[k] != '/' by {
            assert(t[k] == s[k + 1]);
        }
        assert(i - 1 < t.len() ==> t[i - 1] == s[i]);
        lemma_first_sep_is(t, i - 1);
    }
}

/// The non-empty segments of `s` between `/` separators, in order.
pub open spec fn split_path(s: Seq<char>) -> Seq<Seq<char>>
    decreases s.len(),
{
    if s.len() == 0 {
        Seq::empty()
    } else {
        let i = first_sep(s);
        let head = s.subrange(0, if i <= s.len() { i } else { 0 });
        let rest = if 0 <= i < s.len() {
            s.subrange(i + 1, s.len() as int)
        } else {
            Seq::empty()
        };
        if head.len() == 0 {
            split_path(rest)
        } else {
            seq![head] + split_path(rest)
        }
    }
}

/// Every segment produced by `split_path` is non-empty and free of `/`.
pub proof fn lemma_split_path_wf(s: Seq<char>)
    ensures
        forall|i: int|
            0 <= i < split_path(s).len() ==> (#[trigger] split_path(s)[i]).len() > 0
                && forall|k: int| 0 <= k < split_path(s)[i].len() ==> split_path(s)[i][k] != '/',
    decreases s.len(),
{
    if s.len() == 0 {
    } else {
        lemma_first_sep_bounds(s);
        let fsep = first_sep(s);
        let head = s.subrange(0, fsep);
        let rest = if fsep < s.len() {
            s.subrange(fsep + 1, s.len() as int)
        } else {
            Seq::<char>::empty()
        };
        lemma_split_path_wf(rest);
        if head.len() > 0 {
            assert(split_path(s) == seq![head] + split_path(rest));
            assert forall|i: int|
                0 <= i < split_path(s).len() implies (#[trigger] split_path(s)[i]).len() > 0
                && forall|k: int|
                    0 <= k < split_path(s)[i].len() ==> split_path(s)[i][k] != '/' by {
                if i == 0 {
                    assert(split_path(s)[0] == head);
                    assert(forall|k: int| 0 <= k < head.len() ==> head[k] == s[k]);
                } else {
                    assert(split_path(s)[i] == split_path(rest)[i - 1]);
                }
            }
        }
    }
}

/// The segments joined with `/` between consecutive segments.
pub open spec fn join_rel(parts: Seq<Seq<char>>) -> Seq<char>
    decreases parts.len(),
{
    if parts.len() == 0 {
        Seq::empty()
    } else if parts.len() == 1 {
        parts[0]
    } else {
        join_rel(parts.drop_last()) + seq!['/'] + parts.last()
    }
}

/// `needle` occurs contiguously somewhere in `hay`.
pub open spec fn has_substring(hay: Seq<char>, needle: Seq<char>) -> bool {
    exists|i: int|
        0 <= i && i + needle.len() <= hay.len() && #[trigger] hay.subrange(i, i + needle.len())
            == needle
}

/// Whether the characters of `hay` starting at `at` spell `needle`.
fn matches_at(hay: &str, needle: &str, at: usize) -> (r: bool)
    requires
        at + needle@.len() <= hay@.len(),
        hay@.len() <= usize::MAX,
    ensures
        r == (hay@.subrange(at as int, at + needle@.len()) == needle@),
{
    let n = needle.unicode_len();
    let mut k: usize = 0;
    while k < n
        invariant
            0 <= k <= n,
            n == needle@.len(),
            at + n <= hay@.len() <= usize::MAX,
            forall|j: int| 0 <= j < k ==> hay@[at + j] == needle@[j],
        decreases n - k,
    {
        if hay.get_char(at + k) != needle.get_char(k) {
            assert(hay@.subrange(at as int, at + needle@.len()) != needle@) by {
                assert(hay@.subrange(at as int, at + needle@.len())[k as int] == hay@[at + k]);
            }
            return false;
        }
        k += 1;
    }
    assert(hay@.subrange(at as int, at + needle@.len()) =~= needle@);
    true
}

/// Substring search: whether `needle` occurs contiguously in `hay`.
pub fn str_contains(hay: &str, needle: &str) -> (r: bool)
    ensures
        r == has_substring(hay@, needle@),
{
    let hn = hay.unicode_len();
    let nn = needle.unicode_len();
    if nn > hn {
        assert(!has_substring(hay@, needle@));
        return false;
    }
    if nn == 0 {
        assert(hay@.subrange(0, 0 + needle@.len() as int) =~= needle@);
        return true;
    }
    let mut i: usize = 0;
    while i <= hn - nn
        invariant
            0 <= i <= hn - nn + 1,
            i <= hn,
            1 <= nn <= hn,
            hn == hay@.len(),
            nn == needle@.len(),
            forall|j: int| 0 <= j < i ==> #[trigger] hay@.subrange(j, j + needle@.len())
                != needle@,
        decreases hn - nn + 1 - i,
    {
        if matches_at(hay, needle, i) {
            assert(has_substring(hay@, needle@));
            return true;
        }
        i += 1;
    }
    assert(!has_substring(hay@, needle@));
    false
}

/// The character for one decimal digit.
pub open spec fn spec_digit(d: int) -> char {
    ((48 + d) as u8) as char
}

/// The decimal rendering of a non-negative integer, most significant
/// digit first.
pub open spec fn spec_decimal(n: int) -> Seq<char>
    decreases n,
{
    if n < 10 {
        seq![spec_digit(n)]
    } else {
        spec_decimal(n / 10) + seq![spec_digit(n % 10)]
    }
}

pub proof fn lemma_decimal_len(n: int)
    requires
        n >= 0,
    ensures
        spec_decimal(n).len() >= 1,
        n >= 10 ==> spec_decimal(n).len() >= 2,
    decreases n,
{
    if n >= 10 {
        lemma_decimal_len(n / 10);
    }
}

proof fn lemma_digit_injective(a: int, b: int)
    requires
        0 <= a < 10,
        0 <= b < 10,
        spec_digit(a) == spec_digit(b),
    ensures
        a == b,
{
    assert((48 + a) as u8 as char == (48 + b) as u8 as char);
    assert((48 + a) as u8 as char as u32 == 48 + a);
    assert((48 + b) as u8 as char as u32 == 48 + b);
}

/// Distinct non-negative integers have distinct decimal renderings.
pub proof fn lemma_decimal_injective(a: int, b: int)
    requires
        a >= 0,
        b >= 0,
        spec_decimal(a) == spec_decimal(b),
    ensures
        a == b,
    decreases a,
{
    if a < 10 && b < 10 {
        assert(spec_decimal(a)[0] == spec_digit(a));
        assert(spec_decimal(b)[0] == spec_digit(b));
        lemma_digit_injective(a, b);
    } else if a < 10 {
        lemma_decimal_len(b / 10);
        assert(spec_decimal(b).len() >= 2);
        assert(spec_decimal(a).len() == 1);
    } else if b < 10 {
        lemma_decimal_len(a / 10);
        assert(spec_decimal(a).len() >= 2);
        assert(spec_decimal(b).len() == 1);
    } else {
        let pa = spec_decimal(a / 10);
        let pb = spec_decimal(b / 10);
        assert(spec_decimal(a).last() == spec_digit(a % 10));
        assert(spec_decimal(b).last() == spec_digit(b % 10));
        lemma_digit_injective(a % 10, b % 10);
        assert(spec_decimal(a).drop_last() =~= pa);
        assert(spec_decimal(b).drop_last() =~= pb);
        lemma_decimal_injective(a / 10, b / 10);
    }
}

/// A one-character string for the digit `d`.
fn digit_str(d: u64) -> (r: &'static str)
    requires
        d < 10,
    ensures
        r@ == seq![spec_digit(d as int)],
{
    proof {
        reveal_strlit("0");
        reveal_strlit("1");
        reveal_strlit("2");
        reveal_strlit("3");
        reveal_strlit("4");
        reveal_strlit("5");
        reveal_strlit("6");
        reveal_strlit("7");
        reveal_strlit("8");
        reveal_strlit("9");
    }
    match d {
        0 => "0",
        1 => "1",
        2 => "2",
        3 => "3",
        4 => "4",
        5 => "5",
        6 => "6",
        7 => "7",
        8 => "8",
        _ => "9",
    }
}

/// Renders `n` in decimal, most significant digit first.
pub fn u64_decimal(n: u64) -> (r: String)
    ensures
        r@ == spec_decimal(n as int),
    decreases n,
{
    if n < 10 {
        String::from_str(digit_str(n))
    } else {
        let mut s = u64_decimal(n / 10);
        s.append(digit_str(n % 10));
        s
    }
}

} // verus!
