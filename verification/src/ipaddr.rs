//! Recognition of IP address text, in the syntax that
//! `std::net::IpAddr` accepts: dotted-decimal IPv4 without leading zeros,
//! and IPv6 with hexadecimal groups, one optional `::` and an optional
//! trailing embedded IPv4 address.
use vstd::prelude::*;
use crate::text::{chars_of, is_digit, digits_value};

verus! {

/// `s` cut at every occurrence of `sep` (an empty `s` gives one empty piece).
pub open spec fn split_on(s: Seq<char>, sep: char) -> Seq<Seq<char>>
    decreases s.len(),
{
    if s.len() == 0 {
        seq![Seq::<char>::empty()]
    } else {
        let r = split_on(s.drop_last(), sep);
        if s.last() == sep {
            r.push(Seq::<char>::empty())
        } else {
            r.update(r.len() - 1, r.last().push(s.last()))
        }
    }
}

/// Splitting always yields at least one piece.
pub proof fn lemma_split_nonempty(s: Seq<char>, sep: char)
    ensures
        split_on(s, sep).len() >= 1,
    decreases s.len(),
{
    if s.len() > 0 {
        lemma_split_nonempty(s.drop_last(), sep);
    }
}

/// An IPv4 octet: one to three decimal digits, no leading zero unless it
/// is the only digit, value at most 255.
pub open spec fn is_octet(d: Seq<char>) -> bool {
    &&& 1 <= d.len() <= 3
    &&& forall|i: int| 0 <= i < d.len() ==> is_digit(#[trigger] d[i])
    &&& (d.len() == 1 || d[0] != '0')
    &&& digits_value(d) <= 255
}

/// Dotted-decimal IPv4 text: four octets separated by `.`.
pub open spec fn is_ipv4_text(s: Seq<char>) -> bool {
    let p = split_on(s, '.');
    &&& p.len() == 4
    &&& forall|i: int| 0 <= i < 4 ==> is_octet(#[trigger] p[i])
}

/// An ASCII hexadecimal digit.
pub open spec fn is_hex_digit(c: char) -> bool {
    ('0' <= c && c <= '9') || ('a' <= c && c <= 'f') || ('A' <= c && c <= 'F')
}

/// An IPv6 group: one to four hexadecimal digits.
pub open spec fn is_hex_group(d: Seq<char>) -> bool {
    &&& 1 <= d.len() <= 4
    &&& forall|i: int| 0 <= i < d.len() ==> is_hex_digit(#[trigger] d[i])
}

/// Whether `::` occurs at position `i`.
pub open spec fn double_colon_at(s: Seq<char>, i: int) -> bool {
    0 <= i && i + 1 < s.len() && s[i] == ':' && s[i + 1] == ':'
}

/// Whether `::` occurs in `s`.
pub open spec fn has_double_colon(s: Seq<char>) -> bool {
    exists|i: int| #[trigger] double_colon_at(s, i)
}

/// The first position of `::` in `s`.
pub open spec fn first_double_colon(s: Seq<char>) -> int {
    choose|i: int| #[trigger] double_colon_at(s, i) && forall|j: int| 0 <= j < i ==> !double_colon_at(s, j)
}

/// Colon-separated pieces all of which are IPv6 groups.
pub open spec fn all_hex_groups(p: Seq<Seq<char>>) -> bool {
    forall|i: int| 0 <= i < p.len() ==> is_hex_group(#[trigger] p[i])
}

/// The number of 16-bit groups that the text before `::` holds, if it is
/// well formed (empty, or colon-separated groups).
pub open spec fn head_groups(h: Seq<char>) -> Option<nat> {
    if h.len() == 0 {
        Some(0)
    } else if all_hex_groups(split_on(h, ':')) {
        Some(split_on(h, ':').len())
    } else {
        None
    }
}

/// The number of 16-bit groups that the text after `::` holds, if it is
/// well formed (empty, or colon-separated groups of which the last may be
/// an embedded IPv4 address, counting for two).
pub open spec fn tail_groups(t: Seq<char>) -> Option<nat> {
    let p = split_on(t, ':');
    if t.len() == 0 {
        Some(0)
    } else if all_hex_groups(p) {
        Some(p.len())
    } else if all_hex_groups(p.drop_last()) && is_ipv4_text(p.last()) {
        Some(p.len() + 1)
    } else {
        None
    }
}

/// IPv6 text: eight groups, or six groups and an embedded IPv4 address,
/// or groups around one `::` standing for at least one zero group.
pub open spec fn is_ipv6_text(s: Seq<char>) -> bool {
    if !has_double_colon(s) {
        let p = split_on(s, ':');
        ||| p.len() == 8 && all_hex_groups(p)
        ||| p.len() == 7 && all_hex_groups(p.drop_last()) && is_ipv4_text(p.last())
    } else {
        let j = first_double_colon(s);
        match (head_groups(s.take(j)), tail_groups(s.skip(j + 2))) {
            (Some(h), Some(t)) => t <= 7 && (h as u128) + t <= 7,
            _ => false,
        }
    }
}

/// IP address text, IPv4 or IPv6.
pub open spec fn is_ip_text(s: Seq<char>) -> bool {
    is_ipv4_text(s) || is_ipv6_text(s)
}

/// The pieces of `s[from..to]` cut at `sep`.
fn split_range(s: &Vec<char>, from: usize, to: usize, sep: char) -> (r: Vec<Vec<char>>)
    requires
        from <= to <= s.len(),
    ensures
        r@.map_values(|v: Vec<char>| v@) == split_on(s@.subrange(from as int, to as int), sep),
{
    let mut r: Vec<Vec<char>> = Vec::new();
    r.push(Vec::new());
    let ghost t = s@.subrange(from as int, to as int);
    proof {
        assert(t.take(0) =~= Seq::<char>::empty());
        assert(r@.map_values(|v: Vec<char>| v@) =~= split_on(t.take(0), sep));
    }
    let mut i: usize = from;
    while i < to
        invariant
            from <= i <= to,
            to <= s.len(),
            t == s@.subrange(from as int, to as int),
            r@.len() >= 1,
            r@.map_values(|v: Vec<char>| v@) == split_on(t.take(i - from), sep),
        decreases to - i,
    {
        let c = s[i];
        let ghost before = r@.map_values(|v: Vec<char>| v@);
        let ghost k = (i - from) as int;
        proof {
            assert(t.take(k + 1).drop_last() =~= t.take(k));
            assert(t.take(k + 1).last() == c);
        }
        if c == sep {
            r.push(Vec::new());
            proof {
                assert(r@.map_values(|v: Vec<char>| v@) =~= before.push(Seq::<char>::empty()));
            }
        } else {
            let last = r.len() - 1;
            let mut piece = r.pop().unwrap();
            piece.push(c);
            r.push(piece);
            proof {
                assert(r@.map_values(|v: Vec<char>| v@) =~= before.update(
                    before.len() - 1,
                    before.last().push(c),
                ));
            }
        }
        i = i + 1;
    }
    proof {
        assert(t.take(to - from) =~= t);
    }
    r
}

/// Whether a piece is an IPv4 octet.
fn check_octet(d: &Vec<char>) -> (b: bool)
    ensures
        b == is_octet(d@),
{
    let n = d.len();
    if n < 1 || n > 3 {
        return false;
    }
    let mut value: u32 = 0;
    for i in 0..n
        invariant
            n == d.len(),
            1 <= n <= 3,
            forall|j: int| 0 <= j < i ==> is_digit(#[trigger] d@[j]),
            value == digits_value(d@.take(i as int)),
            value < 1000,
    {
        let c = d[i];
        if !('0' <= c && c <= '9') {
            proof {
                assert(!is_digit(d@[i as int]));
            }
            return false;
        }
        proof {
            assert(d@.take(i + 1).drop_last() =~= d@.take(i as int));
            assert(d@.take(i + 1).last() == c);
            assert(value * 10 + 9 < 10000);
            if i >= 1 {
                assert(value < 100) by {
                    lemma_small_digits(d@.take(i as int));
                }
            }
        }
        value = value * 10 + (c as u32 - '0' as u32);
    }
    proof {
        assert(d@.take(n as int) =~= d@);
    }
    if n > 1 && d[0] == '0' {
        return false;
    }
    value <= 255
}

proof fn lemma_small_digits(d: Seq<char>)
    requires
        d.len() <= 2,
        forall|j: int| 0 <= j < d.len() ==> is_digit(#[trigger] d[j]),
    ensures
        digits_value(d) < 100,
        d.len() <= 1 ==> digits_value(d) < 10,
    decreases d.len(),
{
    if d.len() > 0 {
        lemma_small_digits(d.drop_last());
        assert(is_digit(d[d.len() - 1]));
    }
}

/// Whether `s[from..to]` is dotted-decimal IPv4 text.
fn check_ipv4(s: &Vec<char>, from: usize, to: usize) -> (b: bool)
    requires
        from <= to <= s.len(),
    ensures
        b == is_ipv4_text(s@.subrange(from as int, to as int)),
{
    let p = split_range(s, from, to, '.');
    let ghost pv = p@.map_values(|v: Vec<char>| v@);
    if p.len() != 4 {
        return false;
    }
    for i in 0..4
        invariant
            p.len() == 4,
            pv == p@.map_values(|v: Vec<char>| v@),
            from <= to <= s.len(),
            pv == split_on(s@.subrange(from as int, to as int), '.'),
            forall|j: int| 0 <= j < i ==> is_octet(#[trigger] pv[j]),
    {
        if !check_octet(&p[i]) {
            proof {
                assert(pv[i as int] == p@[i as int]@);
                assert(!is_octet(pv[i as int]));
            }
            return false;
        }
    }
    true
}

/// Whether `c` is a hexadecimal digit.
fn char_is_hex(c: char) -> (b: bool)
    ensures
        b == is_hex_digit(c),
{
    ('0' <= c && c <= '9') || ('a' <= c && c <= 'f') || ('A' <= c && c <= 'F')
}

/// Whether a piece is an IPv6 group.
fn check_hex_group(d: &Vec<char>) -> (b: bool)
    ensures
        b == is_hex_group(d@),
{
    let n = d.len();
    if n < 1 || n > 4 {
        return false;
    }
    for i in 0..n
        invariant
            n == d.len(),
            forall|j: int| 0 <= j < i ==> is_hex_digit(#[trigger] d@[j]),
    {
        if !char_is_hex(d[i]) {
            return false;
        }
    }
    true
}

/// Whether the first `count` pieces are IPv6 groups.
fn check_hex_groups(p: &Vec<Vec<char>>, count: usize) -> (b: bool)
    requires
        count <= p.len(),
    ensures
        b == all_hex_groups(p@.map_values(|v: Vec<char>| v@).take(count as int)),
{
    let ghost pv = p@.map_values(|v: Vec<char>| v@);
    for i in 0..count
        invariant
            count <= p.len(),
            pv == p@.map_values(|v: Vec<char>| v@),
            forall|j: int| 0 <= j < i ==> is_hex_group(#[trigger] pv[j]),
    {
        if !check_hex_group(&p[i]) {
            proof {
                assert(pv.take(count as int)[i as int] == pv[i as int]);
            }
            return false;
        }
    }
    proof {
        assert forall|j: int| 0 <= j < pv.take(count as int).len() implies is_hex_group(
            #[trigger] pv.take(count as int)[j],
        ) by {
            assert(pv.take(count as int)[j] == pv[j]);
        }
    }
    true
}

/// The number of groups the text before `::` holds, if well formed.
fn count_head(s: &Vec<char>, from: usize, to: usize) -> (r: Option<usize>)
    requires
        from <= to <= s.len(),
    ensures
        r matches Some(n) ==> head_groups(s@.subrange(from as int, to as int)) == Some(n as nat),
        r is None ==> head_groups(s@.subrange(from as int, to as int)) is None,
{
    if from == to {
        return Some(0);
    }
    let p = split_range(s, from, to, ':');
    let ghost pv = p@.map_values(|v: Vec<char>| v@);
    let ok = check_hex_groups(&p, p.len());
    proof {
        assert(pv.take(p.len() as int) =~= pv);
    }
    if ok {
        Some(p.len())
    } else {
        None
    }
}

/// The number of groups the text after `::` holds, if well formed.
fn count_tail(s: &Vec<char>, from: usize, to: usize) -> (r: Option<u128>)
    requires
        from <= to <= s.len(),
    ensures
        r matches Some(n) ==> tail_groups(s@.subrange(from as int, to as int)) == Some(n as nat),
        r is None ==> tail_groups(s@.subrange(from as int, to as int)) is None,
{
    if from == to {
        return Some(0);
    }
    let p = split_range(s, from, to, ':');
    let len = p.len() as u128;
    let ghost pv = p@.map_values(|v: Vec<char>| v@);
    proof {
        lemma_split_nonempty(s@.subrange(from as int, to as int), ':');
        assert(pv.take(p.len() as int) =~= pv);
        assert(pv.take(p.len() - 1) =~= pv.drop_last());
    }
    if check_hex_groups(&p, p.len()) {
        return Some(len);
    }
    let last = p.len() - 1;
    if check_hex_groups(&p, last) && check_ipv4(&p[last], 0, p[last].len()) {
        proof {
            assert(p[last as int]@.subrange(0, p[last as int]@.len() as int) =~= pv.last());
        }
        Some(len + 1)
    } else {
        proof {
            assert(p[last as int]@.subrange(0, p[last as int]@.len() as int) =~= pv.last());
        }
        None
    }
}

/// Whether `s` is IPv6 text.
fn check_ipv6(s: &Vec<char>) -> (b: bool)
    ensures
        b == is_ipv6_text(s@),
{
    let n = s.len();
    let mut j: usize = 0;
    while j < n && j + 1 < n && !(s[j] == ':' && s[j + 1] == ':')
        invariant
            n == s.len(),
            j <= n,
            forall|k: int| 0 <= k < j ==> !double_colon_at(s@, k),
        decreases n - j,
    {
        j = j + 1;
    }
    if j >= n || j + 1 >= n {
        proof {
            assert forall|k: int| !#[trigger] double_colon_at(s@, k) by {
                if 0 <= k && k < j {
                }
            }
            assert(s@.subrange(0, n as int) =~= s@);
        }
        let p = split_range(s, 0, n, ':');
        let ghost pv = p@.map_values(|v: Vec<char>| v@);
        if p.len() == 8 {
            let ok = check_hex_groups(&p, 8);
            proof {
                assert(pv.take(8) =~= pv);
            }
            return ok;
        }
        if p.len() == 7 {
            let ok = check_hex_groups(&p, 6) && check_ipv4(&p[6], 0, p[6].len());
            proof {
                assert(pv.take(6) =~= pv.drop_last());
                assert(p[6]@.subrange(0, p[6]@.len() as int) =~= pv.last());
            }
            return ok;
        }
        return false;
    }
    proof {
        assert(double_colon_at(s@, j as int));
        let f = first_double_colon(s@);
        if f < j {
            assert(!double_colon_at(s@, f));
        }
        if j < f {
            assert(!double_colon_at(s@, j as int));
        }
        assert(f == j);
        assert(s@.subrange(0, j as int) =~= s@.take(j as int));
        assert(s@.subrange(j + 2, n as int) =~= s@.skip(j + 2));
    }
    match (count_head(s, 0, j), count_tail(s, j + 2, n)) {
        (Some(h), Some(t)) => t <= 7 && (h as u128) + t <= 7,
        _ => false,
    }
}

/// Whether `text` is an IPv4 or IPv6 address in the syntax of `std::net::IpAddr`.
pub fn is_ip_address(text: &str) -> (b: bool)
    ensures
        b == is_ip_text(text@),
{
    let s = chars_of(text);
    proof {
        assert(s@.subrange(0, s@.len() as int) =~= s@);
    }
    check_ipv4(&s, 0, s.len()) || check_ipv6(&s)
}

} // verus!
