//! Textual syntax of IP addresses and socket addresses.
//!
//! An IPv4 address is four decimal octets separated by dots, none written
//! with a leading zero. An IPv6 address is eight groups of up to four
//! hexadecimal digits separated by colons, where one run of zero groups may
//! be written `::` and the last two groups may be written as an IPv4 address.
//! A socket address is `ipv4:port` or `[ipv6]:port`, the latter with an
//! optional `%scope` behind the address.

use crate::text::{
    chars_of, decimal_upto, fields, find, first_index, is_ascii_digit, is_digit, pieces,
    read_decimal, split,
};
use vstd::prelude::*;

verus! {

/// Whether `c` is a hexadecimal digit, in either case.
pub open spec fn is_hex_digit(c: char) -> bool {
    is_digit(c) || 'a' <= c <= 'f' || 'A' <= c <= 'F'
}

/// One decimal octet: at most three digits, no leading zero, at most 255.
pub open spec fn is_octet(f: Seq<char>) -> bool {
    &&& f.len() <= 3
    &&& (f.len() > 1 ==> f[0] != '0')
    &&& decimal_upto(f, 255) is Some
}

/// Whether `s` is the text of an IPv4 address: four octets separated by dots.
pub open spec fn is_ipv4(s: Seq<char>) -> bool {
    let parts = split(s, '.');
    parts.len() == 4 && forall|k: int| 0 <= k < 4 ==> is_octet(#[trigger] parts[k])
}

/// One group of an IPv6 address: one to four hexadecimal digits.
pub open spec fn is_hex_group(f: Seq<char>) -> bool {
    1 <= f.len() <= 4 && forall|i: int| 0 <= i < f.len() ==> is_hex_digit(#[trigger] f[i])
}

/// The number of 16-bit groups that `s` writes as a colon-separated list of
/// hexadecimal groups. With `v4_tail` the last item may be an IPv4 address,
/// which stands for two groups. `None` where `s` is no such list.
pub open spec fn group_count(s: Seq<char>, v4_tail: bool) -> Option<nat> {
    let parts = split(s, ':');
    let n = parts.len();
    if !(forall|k: int| 0 <= k < n - 1 ==> is_hex_group(#[trigger] parts[k])) {
        None
    } else if is_hex_group(parts.last()) {
        Some(n)
    } else if v4_tail && is_ipv4(parts.last()) {
        Some(n + 1)
    } else {
        None
    }
}

/// Whether `::` stands at index `j` of `s`.
pub open spec fn double_colon_at(s: Seq<char>, j: int) -> bool {
    0 <= j && j + 1 < s.len() && s[j] == ':' && s[j + 1] == ':'
}

/// Index of the first `::` in `s`, or `s.len()` where `s` holds none.
pub open spec fn double_colon_index(s: Seq<char>) -> nat
    decreases s.len(),
{
    if s.len() < 2 {
        s.len()
    } else if s[0] == ':' && s[1] == ':' {
        0
    } else {
        1 + double_colon_index(s.drop_first())
    }
}

/// Whether `s` is the text of an IPv6 address: eight groups, or fewer around
/// one `::` that stands for the missing ones.
pub open spec fn is_ipv6(s: Seq<char>) -> bool {
    let i = double_colon_index(s) as int;
    if i >= s.len() {
        group_count(s, true) == Some(8nat)
    } else {
        let head = s.subrange(0, i);
        let tail = s.subrange(i + 2, s.len() as int);
        let h = if head.len() == 0 {
            Some(0nat)
        } else {
            group_count(head, false)
        };
        let t = if tail.len() == 0 {
            Some(0nat)
        } else {
            group_count(tail, true)
        };
        h is Some && t is Some && h.unwrap() + t.unwrap() <= 7
    }
}

/// Whether `s` is the text of an IPv4 or IPv6 address.
pub open spec fn is_ip_address(s: Seq<char>) -> bool {
    is_ipv4(s) || is_ipv6(s)
}

/// Whether `p` writes a port: decimal digits with a value of at most 65535.
pub open spec fn is_port(p: Seq<char>) -> bool {
    decimal_upto(p, 65535) is Some
}

/// Whether `p` writes a scope: decimal digits with a value that fits 32 bits.
pub open spec fn is_scope_id(p: Seq<char>) -> bool {
    decimal_upto(p, 0xffff_ffff) is Some
}

/// Whether `s` is an IPv4 address, a colon and a port.
pub open spec fn is_socket_v4(s: Seq<char>) -> bool {
    let i = first_index(s, ':') as int;
    i < s.len() && is_ipv4(s.subrange(0, i)) && is_port(s.subrange(i + 1, s.len() as int))
}

/// What stands between the brackets of an IPv6 socket address.
pub open spec fn is_scoped_ipv6(inner: Seq<char>) -> bool {
    let pct = first_index(inner, '%') as int;
    &&& is_ipv6(inner.subrange(0, pct))
    &&& (pct < inner.len() ==> is_scope_id(inner.subrange(pct + 1, inner.len() as int)))
}

/// Whether `s` is an IPv6 address in brackets, with or without a scope, a
/// colon and a port.
pub open spec fn is_socket_v6(s: Seq<char>) -> bool {
    let close = first_index(s, ']') as int;
    &&& s.len() > 0 && s[0] == '['
    &&& close + 1 < s.len()
    &&& is_scoped_ipv6(s.subrange(1, close))
    &&& s[close + 1] == ':'
    &&& is_port(s.subrange(close + 2, s.len() as int))
}

/// Whether `s` is the text of a socket address.
pub open spec fn is_socket_address(s: Seq<char>) -> bool {
    is_socket_v4(s) || is_socket_v6(s)
}

/// The first `::` stands at the index that has one and none before it.
proof fn lemma_double_colon_is(s: Seq<char>, k: int)
    requires
        0 <= k <= s.len(),
        forall|j: int| 0 <= j < k ==> !double_colon_at(s, j),
        k < s.len() ==> double_colon_at(s, k),
    ensures
        double_colon_index(s) == k,
    decreases s.len(),
{
    if s.len() >= 2 && !(s[0] == ':' && s[1] == ':') {
        let t = s.drop_first();
        assert(!double_colon_at(s, 0));
        assert forall|j: int| 0 <= j < k - 1 implies !double_colon_at(t, j) by {
            assert(!double_colon_at(s, j + 1));
            if j + 1 < t.len() {
                assert(t[j] == s[j + 1]);
                assert(t[j + 1] == s[j + 2]);
            }
        }
        if k - 1 < t.len() {
            assert(double_colon_at(s, k));
            assert(t[k - 1] == s[k]);
            assert(t[k] == s[k + 1]);
        }
        lemma_double_colon_is(t, k - 1);
    } else if s.len() < 2 {
        if k < s.len() {
            assert(double_colon_at(s, k));
        }
    } else {
        if k > 0 {
            assert(!double_colon_at(s, 0));
        }
    }
}

fn is_hex(c: char) -> (b: bool)
    ensures
        b == is_hex_digit(c),
{
    is_ascii_digit(c) || (c >= 'a' && c <= 'f') || (c >= 'A' && c <= 'F')
}

fn octet_ok(cs: &Vec<char>, lo: usize, hi: usize) -> (b: bool)
    requires
        lo <= hi <= cs.len(),
    ensures
        b == is_octet(cs@.subrange(lo as int, hi as int)),
{
    if hi - lo > 3 {
        return false;
    }
    if hi - lo > 1 && cs[lo] == '0' {
        return false;
    }
    read_decimal(cs, lo, hi, 255).is_some()
}

fn ipv4_ok(cs: &Vec<char>, lo: usize, hi: usize) -> (b: bool)
    requires
        lo <= hi <= cs.len(),
    ensures
        b == is_ipv4(cs@.subrange(lo as int, hi as int)),
{
    let ghost parts = split(cs@.subrange(lo as int, hi as int), '.');
    let r = fields(cs, lo, hi, '.');
    if r.len() != 4 {
        return false;
    }
    let mut k: usize = 0;
    while k < 4
        invariant
            k <= 4,
            r@.len() == 4,
            lo <= hi <= cs.len(),
            parts == split(cs@.subrange(lo as int, hi as int), '.'),
            parts == pieces(cs@, r@),
            forall|j: int| 0 <= j < r@.len() ==> lo <= (#[trigger] r@[j]).0 <= r@[j].1 <= hi,
            forall|j: int| 0 <= j < k ==> is_octet(#[trigger] parts[j]),
        decreases 4 - k,
    {
        let (a, b) = r[k];
        assert(parts[k as int] == cs@.subrange(a as int, b as int));
        if !octet_ok(cs, a, b) {
            return false;
        }
        k = k + 1;
    }
    true
}

fn hex_group_ok(cs: &Vec<char>, lo: usize, hi: usize) -> (b: bool)
    requires
        lo <= hi <= cs.len(),
    ensures
        b == is_hex_group(cs@.subrange(lo as int, hi as int)),
{
    let ghost f = cs@.subrange(lo as int, hi as int);
    if hi == lo || hi - lo > 4 {
        return false;
    }
    let mut i: usize = lo;
    while i < hi
        invariant
            lo <= i <= hi <= cs.len(),
            f == cs@.subrange(lo as int, hi as int),
            forall|j: int| 0 <= j < i - lo ==> is_hex_digit(#[trigger] f[j]),
        decreases hi - i,
    {
        if !is_hex(cs[i]) {
            assert(f[i - lo] == cs@[i as int]);
            return false;
        }
        i = i + 1;
    }
    true
}

/// The group count of `[lo, hi)` where it is at most eight; `None` where the
/// range is no list of groups or writes more than eight.
fn count_groups(cs: &Vec<char>, lo: usize, hi: usize, v4_tail: bool) -> (r: Option<usize>)
    requires
        lo <= hi <= cs.len(),
    ensures
        r matches Some(n) ==> n <= 8 && group_count(cs@.subrange(lo as int, hi as int), v4_tail)
            == Some(n as nat),
        r is None ==> (match group_count(cs@.subrange(lo as int, hi as int), v4_tail) {
            None => true,
            Some(n) => n > 8,
        }),
{
    let ghost parts = split(cs@.subrange(lo as int, hi as int), ':');
    let r = fields(cs, lo, hi, ':');
    let n = r.len();
    if n > 8 {
        return None;
    }
    let mut k: usize = 0;
    while k + 1 < n
        invariant
            k < n,
            n == r@.len(),
            n <= 8,
            lo <= hi <= cs.len(),
            parts == split(cs@.subrange(lo as int, hi as int), ':'),
            parts == pieces(cs@, r@),
            forall|j: int| 0 <= j < r@.len() ==> lo <= (#[trigger] r@[j]).0 <= r@[j].1 <= hi,
            forall|j: int| 0 <= j < k ==> is_hex_group(#[trigger] parts[j]),
        decreases n - k,
    {
        let (a, b) = r[k];
        assert(parts[k as int] == cs@.subrange(a as int, b as int));
        if !hex_group_ok(cs, a, b) {
            return None;
        }
        k = k + 1;
    }
    let (a, b) = r[n - 1];
    assert(parts.last() == cs@.subrange(a as int, b as int));
    if hex_group_ok(cs, a, b) {
        Some(n)
    } else if v4_tail && ipv4_ok(cs, a, b) {
        if n == 8 {
            None
        } else {
            Some(n + 1)
        }
    } else {
        None
    }
}

/// Position of the first `::` in `[lo, hi)`, or `hi` where there is none.
fn find_double_colon(cs: &Vec<char>, lo: usize, hi: usize) -> (i: usize)
    requires
        lo <= hi <= cs.len(),
    ensures
        lo <= i <= hi,
        i < hi ==> i + 2 <= hi,
        i - lo == double_colon_index(cs@.subrange(lo as int, hi as int)),
{
    let ghost s = cs@.subrange(lo as int, hi as int);
    if hi - lo < 2 {
        proof {
            lemma_double_colon_is(s, hi - lo);
        }
        return hi;
    }
    let mut i: usize = lo;
    while i + 1 < hi
        invariant
            lo <= i < hi <= cs.len(),
            s == cs@.subrange(lo as int, hi as int),
            forall|j: int| 0 <= j < i - lo ==> !double_colon_at(s, j),
        decreases hi - i,
    {
        proof {
            assert(s[i - lo] == cs@[i as int]);
            assert(s[i - lo + 1] == cs@[i + 1]);
        }
        if cs[i] == ':' && cs[i + 1] == ':' {
            proof {
                lemma_double_colon_is(s, i - lo);
            }
            return i;
        }
        i = i + 1;
    }
    proof {
        lemma_double_colon_is(s, hi - lo);
    }
    hi
}

fn ipv6_ok(cs: &Vec<char>, lo: usize, hi: usize) -> (b: bool)
    requires
        lo <= hi <= cs.len(),
    ensures
        b == is_ipv6(cs@.subrange(lo as int, hi as int)),
{
    let ghost s = cs@.subrange(lo as int, hi as int);
    let i = find_double_colon(cs, lo, hi);
    if i == hi {
        match count_groups(cs, lo, hi, true) {
            Some(n) => n == 8,
            None => false,
        }
    } else {
        proof {
            assert(s.subrange(0, i - lo) == cs@.subrange(lo as int, i as int));
            assert(s.subrange(i - lo + 2, s.len() as int) == cs@.subrange(i + 2, hi as int));
        }
        let h: usize = if i == lo {
            0
        } else {
            match count_groups(cs, lo, i, false) {
                Some(n) => n,
                None => {
                    return false;
                },
            }
        };
        let t: usize = if i + 2 == hi {
            0
        } else {
            match count_groups(cs, i + 2, hi, true) {
                Some(n) => n,
                None => {
                    return false;
                },
            }
        };
        h + t <= 7
    }
}

fn port_ok(cs: &Vec<char>, lo: usize, hi: usize) -> (b: bool)
    requires
        lo <= hi <= cs.len(),
    ensures
        b == is_port(cs@.subrange(lo as int, hi as int)),
{
    read_decimal(cs, lo, hi, 65535).is_some()
}

fn socket_v4_ok(cs: &Vec<char>) -> (b: bool)
    ensures
        b == is_socket_v4(cs@),
{
    let n = cs.len();
    assert(cs@.subrange(0, n as int) == cs@);
    let i = find(cs, 0, n, ':');
    i < n && ipv4_ok(cs, 0, i) && port_ok(cs, i + 1, n)
}

fn scoped_ipv6_ok(cs: &Vec<char>, lo: usize, hi: usize) -> (b: bool)
    requires
        lo <= hi <= cs.len(),
    ensures
        b == is_scoped_ipv6(cs@.subrange(lo as int, hi as int)),
{
    let ghost inner = cs@.subrange(lo as int, hi as int);
    let pct = find(cs, lo, hi, '%');
    proof {
        assert(inner.subrange(0, pct - lo) == cs@.subrange(lo as int, pct as int));
        if pct < hi {
            assert(inner.subrange(pct - lo + 1, inner.len() as int) == cs@.subrange(
                pct + 1,
                hi as int,
            ));
        }
    }
    if !ipv6_ok(cs, lo, pct) {
        return false;
    }
    if pct < hi {
        read_decimal(cs, pct + 1, hi, 0xffff_ffff).is_some()
    } else {
        true
    }
}

fn socket_v6_ok(cs: &Vec<char>) -> (b: bool)
    ensures
        b == is_socket_v6(cs@),
{
    let n = cs.len();
    assert(cs@.subrange(0, n as int) == cs@);
    if n == 0 || cs[0] != '[' {
        return false;
    }
    let close = find(cs, 0, n, ']');
    if close >= n - 1 {
        return false;
    }
    scoped_ipv6_ok(cs, 1, close) && cs[close + 1] == ':' && port_ok(cs, close + 2, n)
}

/// Whether the range `[lo, hi)` of `cs` is an IPv4 or IPv6 address.
pub(crate) fn is_ip_range(cs: &Vec<char>, lo: usize, hi: usize) -> (b: bool)
    requires
        lo <= hi <= cs.len(),
    ensures
        b == is_ip_address(cs@.subrange(lo as int, hi as int)),
{
    ipv4_ok(cs, lo, hi) || ipv6_ok(cs, lo, hi)
}

/// Whether `text` is an IPv4 or IPv6 address.
pub fn is_ip_text(text: &str) -> (b: bool)
    ensures
        b == is_ip_address(text@),
{
    let cs = chars_of(text);
    let n = cs.len();
    assert(cs@.subrange(0, n as int) == cs@);
    is_ip_range(&cs, 0, n)
}

/// Whether `text` is a socket address.
pub fn is_socket_text(text: &str) -> (b: bool)
    ensures
        b == is_socket_address(text@),
{
    let cs = chars_of(text);
    socket_v4_ok(&cs) || socket_v6_ok(&cs)
}

} // verus!
