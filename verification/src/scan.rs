//! Reading text a character at a time: trimming, prefixes, finding a separator, slicing and
//! decimal integers, each as `str` does it.

use crate::kwin_place::{all_digits, digit_of, digits_value, is_white_space, lemma_digits_grow};
use crate::text::push_char;
use vstd::prelude::*;

verus! {

/// `s` without its leading white space.
pub open spec fn trim_start(s: Seq<char>) -> Seq<char>
    decreases s.len(),
{
    if s.len() > 0 && is_white_space(s[0]) {
        trim_start(s.drop_first())
    } else {
        s
    }
}

/// `s` without its trailing white space.
pub open spec fn trim_end(s: Seq<char>) -> Seq<char>
    decreases s.len(),
{
    if s.len() > 0 && is_white_space(s.last()) {
        trim_end(s.drop_last())
    } else {
        s
    }
}

/// `s` without leading and trailing white space, as `str::trim` gives it.
pub open spec fn trim(s: Seq<char>) -> Seq<char> {
    trim_end(trim_start(s))
}

/// `s` begins with `p`.
pub open spec fn has_prefix(s: Seq<char>, p: Seq<char>) -> bool {
    p.len() <= s.len() && s.subrange(0, p.len() as int) == p
}

/// What follows the prefix `p` in `s`.
pub open spec fn after_prefix(s: Seq<char>, p: Seq<char>) -> Seq<char> {
    s.subrange(p.len() as int, s.len() as int)
}

/// The first position at or after `i` that holds `c`, or the length where there is none.
pub open spec fn find_from(s: Seq<char>, c: char, i: int) -> int
    decreases s.len() - i,
{
    if i >= s.len() {
        s.len() as int
    } else if s[i] == c {
        i
    } else {
        find_from(s, c, i + 1)
    }
}

/// The first position at or after `i` that holds white space, or the length where there is none.
pub open spec fn find_space_from(s: Seq<char>, i: int) -> int
    decreases s.len() - i,
{
    if i >= s.len() {
        s.len() as int
    } else if is_white_space(s[i]) {
        i
    } else {
        find_space_from(s, i + 1)
    }
}

/// `s` split at its first `c`, as `str::split_once` does it.
pub open spec fn split_once(s: Seq<char>, c: char) -> Option<(Seq<char>, Seq<char>)> {
    let k = find_from(s, c, 0);
    if k < s.len() {
        Some((s.subrange(0, k), s.subrange(k + 1, s.len() as int)))
    } else {
        None
    }
}

/// `s` split at its first white space character.
pub open spec fn split_once_space(s: Seq<char>) -> Option<(Seq<char>, Seq<char>)> {
    let k = find_space_from(s, 0);
    if k < s.len() {
        Some((s.subrange(0, k), s.subrange(k + 1, s.len() as int)))
    } else {
        None
    }
}

/// The first piece of `s` split at `c` (all of `s` where there is no `c`).
pub open spec fn first_piece(s: Seq<char>, c: char) -> Seq<char> {
    s.subrange(0, find_from(s, c, 0))
}

/// The second piece of `s` split at `c`, where there is one.
pub open spec fn second_piece(s: Seq<char>, c: char) -> Option<Seq<char>> {
    match split_once(s, c) {
        Some((_, rest)) => Some(first_piece(rest, c)),
        None => None,
    }
}

/// The pieces of `s` between the separators `sep`, the last one included (`str::split`).
pub open spec fn pieces(s: Seq<char>, sep: char) -> Seq<Seq<char>>
    decreases s.len(),
{
    if s.len() == 0 {
        seq![Seq::empty()]
    } else {
        let p = pieces(s.drop_last(), sep);
        if s.last() == sep {
            p.push(Seq::empty())
        } else {
            p.update(p.len() - 1, p.last().push(s.last()))
        }
    }
}

pub proof fn lemma_pieces_nonempty(s: Seq<char>, sep: char)
    ensures
        pieces(s, sep).len() >= 1,
    decreases s.len(),
{
    if s.len() > 0 {
        lemma_pieces_nonempty(s.drop_last(), sep);
    }
}

pub open spec fn views_of(v: Seq<Vec<char>>) -> Seq<Seq<char>> {
    v.map_values(|p: Vec<char>| p@)
}

/// The pieces of `v` between the separators `sep`.
pub fn split_chars(v: &Vec<char>, sep: char) -> (out: Vec<Vec<char>>)
    ensures
        views_of(out@) == pieces(v@, sep),
        out@.len() >= 1,
{
    let mut out: Vec<Vec<char>> = Vec::new();
    let mut current: Vec<char> = Vec::new();
    let mut i: usize = 0;
    while i < v.len()
        invariant
            i <= v@.len(),
            pieces(v@.subrange(0, i as int), sep).len() >= 1,
            views_of(out@) == pieces(v@.subrange(0, i as int), sep).drop_last(),
            current@ == pieces(v@.subrange(0, i as int), sep).last(),
        decreases v@.len() - i,
    {
        let c = v[i];
        let ghost pre = v@.subrange(0, i as int);
        let ghost next = v@.subrange(0, i + 1);
        assert(next.drop_last() =~= pre);
        assert(next.last() == c);
        proof {
            lemma_pieces_nonempty(pre, sep);
        }
        if c == sep {
            let ghost before = out@;
            let mut done: Vec<char> = Vec::new();
            std::mem::swap(&mut done, &mut current);
            out.push(done);
            assert(views_of(out@) =~= views_of(before).push(pieces(pre, sep).last()));
            assert(pieces(pre, sep).drop_last().push(pieces(pre, sep).last()) =~= pieces(pre, sep));
            assert(pieces(next, sep).drop_last() =~= pieces(pre, sep));
        } else {
            current.push(c);
            assert(pieces(next, sep).drop_last() =~= pieces(pre, sep).drop_last());
        }
        i += 1;
    }
    let ghost all = v@.subrange(0, i as int);
    assert(all =~= v@);
    let ghost before = out@;
    out.push(current);
    assert(views_of(out@) =~= views_of(before).push(pieces(all, sep).last()));
    assert(pieces(all, sep).drop_last().push(pieces(all, sep).last()) =~= pieces(all, sep));
    out
}

/// `i32` parsing as `str::parse` does it: an optional sign, then at least one decimal digit,
/// the value within `i32`.
pub open spec fn parse_i32_text(t: Seq<char>) -> Option<i32> {
    if t.len() > 0 && t[0] == '-' {
        let d = t.drop_first();
        if d.len() > 0 && all_digits(d) && digits_value(d) <= 0x8000_0000 {
            Some((-digits_value(d)) as i32)
        } else {
            None
        }
    } else {
        let d = if t.len() > 0 && t[0] == '+' {
            t.drop_first()
        } else {
            t
        };
        if d.len() > 0 && all_digits(d) && digits_value(d) <= i32::MAX {
            Some(digits_value(d) as i32)
        } else {
            None
        }
    }
}

/// The characters of `v` from `lo` up to `hi`.
pub fn slice_chars(v: &Vec<char>, lo: usize, hi: usize) -> (out: Vec<char>)
    requires
        lo <= hi <= v@.len(),
    ensures
        out@ == v@.subrange(lo as int, hi as int),
{
    let mut out: Vec<char> = Vec::new();
    let mut i: usize = lo;
    while i < hi
        invariant
            lo <= i <= hi <= v@.len(),
            out@ == v@.subrange(lo as int, i as int),
        decreases hi - i,
    {
        out.push(v[i]);
        assert(out@ =~= v@.subrange(lo as int, i + 1));
        i += 1;
    }
    out
}

/// The string made of the characters of `v`.
pub fn string_of(v: &Vec<char>) -> (s: String)
    ensures
        s@ == v@,
{
    let mut s = String::new();
    let mut i: usize = 0;
    while i < v.len()
        invariant
            i <= v@.len(),
            s@ == v@.subrange(0, i as int),
        decreases v@.len() - i,
    {
        push_char(&mut s, v[i]);
        assert(s@ =~= v@.subrange(0, i + 1));
        i += 1;
    }
    assert(v@.subrange(0, v@.len() as int) =~= v@);
    s
}

pub fn white_space_char(c: char) -> (b: bool)
    ensures
        b == is_white_space(c),
{
    let u = c as u32;
    (9 <= u && u <= 13) || u == 32 || u == 0x85 || u == 0xa0 || u == 0x1680 || (0x2000 <= u && u
        <= 0x200a) || u == 0x2028 || u == 0x2029 || u == 0x202f || u == 0x205f || u == 0x3000
}

/// `v` without leading and trailing white space.
pub fn trim_chars(v: &Vec<char>) -> (out: Vec<char>)
    ensures
        out@ == trim(v@),
{
    let n = v.len();
    let mut i: usize = 0;
    assert(v@.subrange(0, n as int) =~= v@);
    while i < n && white_space_char(v[i])
        invariant
            i <= n == v@.len(),
            trim_start(v@) == trim_start(v@.subrange(i as int, n as int)),
        decreases n - i,
    {
        assert(v@.subrange(i as int, n as int).drop_first() =~= v@.subrange(i + 1, n as int));
        i += 1;
    }
    assert(trim_start(v@.subrange(i as int, n as int)) == v@.subrange(i as int, n as int));
    let mut j: usize = n;
    while j > i && white_space_char(v[j - 1])
        invariant
            i <= j <= n == v@.len(),
            trim_start(v@) == v@.subrange(i as int, n as int),
            trim(v@) == trim_end(v@.subrange(i as int, j as int)),
        decreases j,
    {
        assert(v@.subrange(i as int, j as int).drop_last() =~= v@.subrange(i as int, j - 1));
        j -= 1;
    }
    slice_chars(v, i, j)
}

/// Whether `v` begins with `p`.
pub fn starts_with_chars(v: &Vec<char>, p: &Vec<char>) -> (b: bool)
    ensures
        b == has_prefix(v@, p@),
{
    if p.len() > v.len() {
        return false;
    }
    let mut k: usize = 0;
    while k < p.len()
        invariant
            k <= p@.len() <= v@.len(),
            forall|m: int| 0 <= m < k ==> v@[m] == p@[m],
        decreases p@.len() - k,
    {
        if v[k] != p[k] {
            assert(v@.subrange(0, p@.len() as int)[k as int] != p@[k as int]);
            return false;
        }
        k += 1;
    }
    assert(v@.subrange(0, p@.len() as int) =~= p@);
    true
}

/// The first position of `c` in `v`, or the length where there is none.
pub fn find_char(v: &Vec<char>, c: char) -> (k: usize)
    ensures
        k == find_from(v@, c, 0),
{
    let mut i: usize = 0;
    while i < v.len() && v[i] != c
        invariant
            i <= v@.len(),
            find_from(v@, c, 0) == find_from(v@, c, i as int),
        decreases v@.len() - i,
    {
        i += 1;
    }
    i
}

/// The first white space position in `v`, or the length where there is none.
pub fn find_space(v: &Vec<char>) -> (k: usize)
    ensures
        k == find_space_from(v@, 0),
{
    let mut i: usize = 0;
    while i < v.len() && !white_space_char(v[i])
        invariant
            i <= v@.len(),
            find_space_from(v@, 0) == find_space_from(v@, i as int),
        decreases v@.len() - i,
    {
        i += 1;
    }
    i
}

pub proof fn lemma_find_bounds(s: Seq<char>, c: char, i: int)
    requires
        0 <= i <= s.len(),
    ensures
        i <= find_from(s, c, i) <= s.len(),
        find_from(s, c, i) < s.len() ==> s[find_from(s, c, i)] == c,
    decreases s.len() - i,
{
    if i < s.len() && s[i] != c {
        lemma_find_bounds(s, c, i + 1);
    }
}

pub proof fn lemma_find_space_bounds(s: Seq<char>, i: int)
    requires
        0 <= i <= s.len(),
    ensures
        i <= find_space_from(s, i) <= s.len(),
    decreases s.len() - i,
{
    if i < s.len() && !is_white_space(s[i]) {
        lemma_find_space_bounds(s, i + 1);
    }
}

/// The value of the decimal digits of `t` from `start` on, where there is at least one, all are
/// digits and the value is at most `limit`.
fn parse_digits(t: &Vec<char>, start: usize, limit: u64) -> (v: Option<u64>)
    requires
        start <= t@.len(),
        limit <= 0x1_0000_0000,
    ensures
        ({
            let d = t@.subrange(start as int, t@.len() as int);
            &&& v is Some <==> (d.len() > 0 && all_digits(d) && digits_value(d) <= limit)
            &&& v matches Some(m) ==> m == digits_value(d) && m <= limit
        }),
{
    let ghost d = t@.subrange(start as int, t@.len() as int);
    if start >= t.len() {
        return None;
    }
    let mut value: u64 = 0;
    let mut i: usize = start;
    while i < t.len()
        invariant
            start <= i <= t@.len(),
            limit <= 0x1_0000_0000,
            d == t@.subrange(start as int, t@.len() as int),
            all_digits(d.subrange(0, i - start)),
            value == digits_value(d.subrange(0, i - start)),
            value <= limit,
        decreases t@.len() - i,
    {
        let c = t[i];
        if !('0' <= c && c <= '9') {
            assert(d[i - start] == c);
            assert(!all_digits(d));
            return None;
        }
        let next: u64 = value * 10 + digit_of(c);
        assert(d.subrange(0, i + 1 - start).drop_last() =~= d.subrange(0, i - start));
        assert(d.subrange(0, i + 1 - start).last() == c);
        assert(all_digits(d.subrange(0, i + 1 - start)));
        assert(digits_value(d.subrange(0, i + 1 - start)) == next);
        if next > limit {
            proof {
                if all_digits(d) {
                    lemma_digits_grow(d, i + 1 - start);
                }
            }
            return None;
        }
        value = next;
        i += 1;
    }
    assert(d.subrange(0, d.len() as int) =~= d);
    Some(value)
}

/// Parses a whole text as an `i32`.
pub fn parse_i32(t: &Vec<char>) -> (v: Option<i32>)
    ensures
        v == parse_i32_text(t@),
{
    if t.len() > 0 && (t[0] == '-' || t[0] == '+') {
        assert(t@.drop_first() =~= t@.subrange(1, t@.len() as int));
        let negative = t[0] == '-';
        let limit: u64 = if negative {
            0x8000_0000
        } else {
            0x7fff_ffff
        };
        match parse_digits(t, 1, limit) {
            Some(m) => {
                assert(m <= limit);
                if negative {
                    let signed: i64 = 0 - (m as i64);
                    Some(signed as i32)
                } else {
                    Some(m as i32)
                }
            },
            None => None,
        }
    } else {
        assert(t@ =~= t@.subrange(0, t@.len() as int));
        match parse_digits(t, 0, 0x7fff_ffff) {
            Some(m) => Some(m as i32),
            None => None,
        }
    }
}

} // verus!
