//! Character-level text functions shared by the parsers: splitting on a
//! separator, trimming white space, reading unsigned decimal numbers and
//! searching for a piece of text.
//!
//! The specifications speak of `Seq<char>`; the executable functions work on
//! a vector of characters and a range `[lo, hi)` of it.

use vstd::prelude::*;
use vstd::string::*;

verus! {

/// Whether `c` has the Unicode property White_Space: the controls from tab
/// to carriage return, the space, the next-line control, the no-break space,
/// the Ogham space mark, the spaces from en quad to hair space, the line and
/// the paragraph separator, the narrow no-break space, the medium
/// mathematical space and the ideographic space.
pub open spec fn white_space(c: char) -> bool {
    let n = c as u32;
    ||| 0x09 <= n <= 0x0d
    ||| n == 0x20
    ||| n == 0x85
    ||| n == 0xa0
    ||| n == 0x1680
    ||| 0x2000 <= n <= 0x200a
    ||| n == 0x2028
    ||| n == 0x2029
    ||| n == 0x202f
    ||| n == 0x205f
    ||| n == 0x3000
}

/// `char::is_whitespace` of the standard library: reports whether the
/// character has the Unicode property White_Space, which is the set of
/// characters that [`white_space`] lists.
#[verifier::external_body]
pub(crate) fn is_whitespace(c: char) -> (b: bool)
    ensures
        b == white_space(c),
{
    c.is_whitespace()
}

/// Whether `c` is one of the decimal digits `0` to `9`.
pub open spec fn is_digit(c: char) -> bool {
    '0' <= c <= '9'
}

/// The number that the decimal digit `c` stands for.
pub open spec fn digit_value(c: char) -> nat {
    (c as int - '0' as int) as nat
}

/// Index of the first `sep` in `s`, or `s.len()` where `s` holds none.
pub open spec fn first_index(s: Seq<char>, sep: char) -> nat
    decreases s.len(),
{
    if s.len() == 0 {
        0
    } else if s[0] == sep {
        0
    } else {
        1 + first_index(s.drop_first(), sep)
    }
}

/// The pieces of `s` between occurrences of `sep`: one more piece than there
/// are separators, empty pieces included.
pub open spec fn split(s: Seq<char>, sep: char) -> Seq<Seq<char>>
    decreases s.len(),
{
    let i = first_index(s, sep) as int;
    if i >= s.len() {
        seq![s]
    } else {
        seq![s.subrange(0, i)] + split(s.subrange(i + 1, s.len() as int), sep)
    }
}

/// `s` without its leading white space.
pub open spec fn trim_start(s: Seq<char>) -> Seq<char>
    decreases s.len(),
{
    if s.len() > 0 && white_space(s[0]) {
        trim_start(s.drop_first())
    } else {
        s
    }
}

/// `s` without its trailing white space.
pub open spec fn trim_end(s: Seq<char>) -> Seq<char>
    decreases s.len(),
{
    if s.len() > 0 && white_space(s.last()) {
        trim_end(s.drop_last())
    } else {
        s
    }
}

/// `s` without leading and trailing white space.
pub open spec fn trim(s: Seq<char>) -> Seq<char> {
    trim_end(trim_start(s))
}

/// Whether `s` holds decimal digits only.
pub open spec fn all_digits(s: Seq<char>) -> bool {
    forall|i: int| 0 <= i < s.len() ==> is_digit(#[trigger] s[i])
}

/// The number that the digits of `s` write in base ten.
pub open spec fn decimal_value(s: Seq<char>) -> nat
    decreases s.len(),
{
    if s.len() == 0 {
        0
    } else {
        decimal_value(s.drop_last()) * 10 + digit_value(s.last())
    }
}

/// The number written by `s`, where `s` is one or more decimal digits and the
/// number is at most `max`.
pub open spec fn decimal_upto(s: Seq<char>, max: nat) -> Option<nat> {
    if s.len() > 0 && all_digits(s) && decimal_value(s) <= max {
        Some(decimal_value(s))
    } else {
        None
    }
}

/// The number written by `s` as an unsigned integer reads it: an optional
/// `+`, then one or more decimal digits, with a value of at most `max`.
pub open spec fn unsigned_upto(s: Seq<char>, max: nat) -> Option<nat> {
    if s.len() > 0 && s[0] == '+' {
        decimal_upto(s.drop_first(), max)
    } else {
        decimal_upto(s, max)
    }
}

/// Whether `needle` occurs in `hay` as a contiguous piece.
pub open spec fn contains_text(hay: Seq<char>, needle: Seq<char>) -> bool {
    exists|i: int| occurs_at(hay, needle, i)
}

/// Whether `needle` stands in `hay` at index `i`.
pub open spec fn occurs_at(hay: Seq<char>, needle: Seq<char>, i: int) -> bool {
    0 <= i && i + needle.len() <= hay.len() && hay.subrange(i, i + needle.len()) == needle
}

/// The pieces of `s` that the ranges `r` delimit.
pub open spec fn pieces(s: Seq<char>, r: Seq<(usize, usize)>) -> Seq<Seq<char>> {
    Seq::new(r.len(), |k: int| s.subrange(r[k].0 as int, r[k].1 as int))
}

/// The first index of `sep` is the index that has `sep` and nothing but other
/// characters before it.
proof fn lemma_first_index_is(s: Seq<char>, sep: char, k: int)
    requires
        0 <= k <= s.len(),
        forall|j: int| 0 <= j < k ==> s[j] != sep,
        k < s.len() ==> s[k] == sep,
    ensures
        first_index(s, sep) == k,
    decreases s.len(),
{
    if s.len() > 0 && s[0] != sep {
        let t = s.drop_first();
        assert forall|j: int| 0 <= j < k - 1 implies t[j] != sep by {
            assert(t[j] == s[j + 1]);
        }
        lemma_first_index_is(t, sep, k - 1);
    }
}

/// The digits of a number, cut short, write a number that is not larger.
proof fn lemma_decimal_prefix(s: Seq<char>, k: int)
    requires
        0 <= k <= s.len(),
    ensures
        decimal_value(s.subrange(0, k)) <= decimal_value(s),
    decreases s.len() - k,
{
    if k < s.len() {
        lemma_decimal_prefix(s, k + 1);
        let p = s.subrange(0, k + 1);
        assert(p.drop_last() == s.subrange(0, k));
    } else {
        assert(s.subrange(0, k) == s);
    }
}

pub(crate) fn is_ascii_digit(c: char) -> (b: bool)
    ensures
        b == is_digit(c),
{
    c >= '0' && c <= '9'
}

pub(crate) fn digit_of(c: char) -> (d: u8)
    requires
        is_digit(c),
    ensures
        d == digit_value(c),
        d <= 9,
{
    (c as u32 - '0' as u32) as u8
}

/// The characters of `s`, one by one.
pub(crate) fn chars_of(s: &str) -> (v: Vec<char>)
    ensures
        v@ == s@,
{
    let n = s.unicode_len();
    let mut v: Vec<char> = Vec::new();
    let mut i: usize = 0;
    while i < n
        invariant
            n == s@.len(),
            i <= n,
            v@ == s@.subrange(0, i as int),
        decreases n - i,
    {
        v.push(s.get_char(i));
        i = i + 1;
    }
    v
}

/// The piece `[lo, hi)` of `s` as a string of its own.
pub(crate) fn piece_of(s: &str, lo: usize, hi: usize) -> (r: String)
    requires
        lo <= hi <= s@.len(),
    ensures
        r@ == s@.subrange(lo as int, hi as int),
{
    String::from_str(s.substring_char(lo, hi))
}

/// Position of the first `sep` in `[lo, hi)`, or `hi` where there is none.
pub(crate) fn find(cs: &Vec<char>, lo: usize, hi: usize, sep: char) -> (i: usize)
    requires
        lo <= hi <= cs.len(),
    ensures
        lo <= i <= hi,
        i - lo == first_index(cs@.subrange(lo as int, hi as int), sep),
        forall|j: int| lo <= j < i ==> cs@[j] != sep,
        i < hi ==> cs@[i as int] == sep,
{
    let mut i: usize = lo;
    while i < hi && cs[i] != sep
        invariant
            lo <= i <= hi <= cs.len(),
            forall|j: int| lo <= j < i ==> cs@[j] != sep,
        decreases hi - i,
    {
        i = i + 1;
    }
    proof {
        lemma_first_index_is(cs@.subrange(lo as int, hi as int), sep, i - lo);
    }
    i
}

/// The ranges of the pieces of `[lo, hi)` between occurrences of `sep`.
pub(crate) fn fields(cs: &Vec<char>, lo: usize, hi: usize, sep: char) -> (r: Vec<(usize, usize)>)
    requires
        lo <= hi <= cs.len(),
    ensures
        pieces(cs@, r@) == split(cs@.subrange(lo as int, hi as int), sep),
        r@.len() >= 1,
        forall|k: int| 0 <= k < r@.len() ==> lo <= (#[trigger] r@[k]).0 <= r@[k].1 <= hi,
{
    let ghost whole = cs@.subrange(lo as int, hi as int);
    let mut out: Vec<(usize, usize)> = Vec::new();
    let mut pos: usize = lo;
    let mut done = false;
    while !done
        invariant
            lo <= pos <= hi <= cs.len(),
            whole == cs@.subrange(lo as int, hi as int),
            forall|k: int| 0 <= k < out@.len() ==> lo <= (#[trigger] out@[k]).0 <= out@[k].1 <= hi,
            !done ==> split(whole, sep) == pieces(cs@, out@) + split(
                cs@.subrange(pos as int, hi as int),
                sep,
            ),
            done ==> split(whole, sep) == pieces(cs@, out@) && out@.len() >= 1,
        decreases (hi - pos) + (if done { 0int } else { 1int }),
    {
        let i = find(cs, pos, hi, sep);
        let ghost rest = cs@.subrange(pos as int, hi as int);
        let ghost before = pieces(cs@, out@);
        out.push((pos, i));
        proof {
            assert(rest.subrange(0, i - pos) == cs@.subrange(pos as int, i as int));
            assert(pieces(cs@, out@) == before + seq![cs@.subrange(pos as int, i as int)]);
            if i < hi {
                assert(rest.subrange(i - pos + 1, rest.len() as int) == cs@.subrange(
                    i + 1,
                    hi as int,
                ));
                assert(split(whole, sep) == pieces(cs@, out@) + split(
                    cs@.subrange(i + 1, hi as int),
                    sep,
                ));
            } else {
                assert(rest.subrange(0, i - pos) == rest);
            }
        }
        if i == hi {
            done = true;
        } else {
            pos = i + 1;
        }
    }
    out
}

/// The range of `[lo, hi)` that is left when white space is taken from both ends.
pub(crate) fn trim_range(cs: &Vec<char>, lo: usize, hi: usize) -> (r: (usize, usize))
    requires
        lo <= hi <= cs.len(),
    ensures
        lo <= r.0 <= r.1 <= hi,
        cs@.subrange(r.0 as int, r.1 as int) == trim(cs@.subrange(lo as int, hi as int)),
{
    let mut a: usize = lo;
    while a < hi && is_whitespace(cs[a])
        invariant
            lo <= a <= hi <= cs.len(),
            trim_start(cs@.subrange(lo as int, hi as int)) == trim_start(
                cs@.subrange(a as int, hi as int),
            ),
        decreases hi - a,
    {
        proof {
            let t = cs@.subrange(a as int, hi as int);
            assert(t.drop_first() == cs@.subrange(a + 1, hi as int));
        }
        a = a + 1;
    }
    let mut b: usize = hi;
    while b > a && is_whitespace(cs[b - 1])
        invariant
            a <= b <= hi <= cs.len(),
            trim_end(cs@.subrange(a as int, hi as int)) == trim_end(
                cs@.subrange(a as int, b as int),
            ),
        decreases b - a,
    {
        proof {
            let t = cs@.subrange(a as int, b as int);
            assert(t.drop_last() == cs@.subrange(a as int, b - 1));
        }
        b = b - 1;
    }
    (a, b)
}

/// Reads `[lo, hi)` as a decimal number of at most `max`.
pub(crate) fn read_decimal(cs: &Vec<char>, lo: usize, hi: usize, max: u64) -> (r: Option<u64>)
    requires
        lo <= hi <= cs.len(),
        max <= u32::MAX,
    ensures
        r matches Some(v) ==> decimal_upto(cs@.subrange(lo as int, hi as int), max as nat) == Some(
            v as nat,
        ),
        r is None ==> decimal_upto(cs@.subrange(lo as int, hi as int), max as nat) is None,
{
    let ghost whole = cs@.subrange(lo as int, hi as int);
    if lo == hi {
        return None;
    }
    let mut acc: u64 = 0;
    let mut i: usize = lo;
    while i < hi
        invariant
            lo <= i <= hi <= cs.len(),
            max <= u32::MAX,
            whole == cs@.subrange(lo as int, hi as int),
            acc == decimal_value(cs@.subrange(lo as int, i as int)),
            acc <= max,
            all_digits(cs@.subrange(lo as int, i as int)),
        decreases hi - i,
    {
        let c = cs[i];
        if !is_ascii_digit(c) {
            assert(whole[i - lo] == c);
            return None;
        }
        let ghost prev = cs@.subrange(lo as int, i as int);
        let ghost next = cs@.subrange(lo as int, i + 1);
        proof {
            assert(next.drop_last() == prev);
            assert(next.last() == c);
            assert(next == whole.subrange(0, i + 1 - lo));
            lemma_decimal_prefix(whole, i + 1 - lo);
        }
        let value = acc * 10 + digit_of(c) as u64;
        if value > max {
            return None;
        }
        acc = value;
        i = i + 1;
    }
    Some(acc)
}

/// Reads `[lo, hi)` as an unsigned integer of at most `max`: an optional `+`,
/// then decimal digits.
pub(crate) fn read_unsigned(cs: &Vec<char>, lo: usize, hi: usize, max: u64) -> (r: Option<u64>)
    requires
        lo <= hi <= cs.len(),
        max <= u32::MAX,
    ensures
        r matches Some(v) ==> unsigned_upto(cs@.subrange(lo as int, hi as int), max as nat) == Some(
            v as nat,
        ),
        r is None ==> unsigned_upto(cs@.subrange(lo as int, hi as int), max as nat) is None,
{
    if lo < hi && cs[lo] == '+' {
        proof {
            let t = cs@.subrange(lo as int, hi as int);
            assert(t.drop_first() == cs@.subrange(lo + 1, hi as int));
        }
        read_decimal(cs, lo + 1, hi, max)
    } else {
        read_decimal(cs, lo, hi, max)
    }
}

/// Whether the range `[lo, hi)` of `cs` reads the same as `other`.
pub(crate) fn same_text(cs: &Vec<char>, lo: usize, hi: usize, other: &Vec<char>) -> (b: bool)
    requires
        lo <= hi <= cs.len(),
    ensures
        b == (cs@.subrange(lo as int, hi as int) == other@),
{
    if hi - lo != other.len() {
        return false;
    }
    let n = other.len();
    let mut i: usize = 0;
    while i < n
        invariant
            lo <= hi <= cs.len(),
            n == other@.len(),
            n == hi - lo,
            i <= n,
            forall|j: int| 0 <= j < i ==> cs@[lo + j] == other@[j],
        decreases n - i,
    {
        if cs[lo + i] != other[i] {
            assert(cs@.subrange(lo as int, hi as int)[i as int] != other@[i as int]);
            return false;
        }
        i = i + 1;
    }
    assert(cs@.subrange(lo as int, hi as int) =~= other@);
    true
}

/// Whether `needle` occurs in `hay`.
pub(crate) fn contains(hay: &Vec<char>, needle: &Vec<char>) -> (b: bool)
    ensures
        b == contains_text(hay@, needle@),
{
    if needle.len() > hay.len() {
        assert forall|i: int| !occurs_at(hay@, needle@, i) by {}
        return false;
    }
    let last = hay.len() - needle.len();
    let mut i: usize = 0;
    loop
        invariant
            last + needle@.len() == hay@.len(),
            hay@.len() <= usize::MAX,
            i <= last,
            forall|j: int| 0 <= j < i ==> !occurs_at(hay@, needle@, j),
        decreases last - i,
    {
        if same_text(hay, i, i + needle.len(), needle) {
            assert(occurs_at(hay@, needle@, i as int));
            return true;
        }
        if i == last {
            assert forall|j: int| !occurs_at(hay@, needle@, j) by {
                if 0 <= j <= i {
                    assert(j == i || j < i);
                }
            }
            return false;
        }
        i = i + 1;
    }
}

} // verus!
