//! Building text one character at a time, with decimal numbers in fixed-width fields.

use vstd::prelude::*;
use vstd::string::StringExecFns;
use vstd::utf8::{decode_utf8, valid_utf8};

verus! {

/// Appends one character to a string.
///
/// Trusted: `String::push`, which the standard library documents as appending the given
/// character to the end of the string.
#[verifier::external_body]
pub fn push_char(s: &mut String, c: char)
    ensures
        final(s)@ == old(s)@.push(c),
{
    s.push(c);
}

/// The string whose UTF-8 encoding is `bytes`, if they are valid UTF-8.
///
/// Trusted: `String::from_utf8`, which the standard library documents as succeeding exactly
/// when the bytes are valid UTF-8 and as then holding those bytes as the string's contents.
#[verifier::external_body]
pub fn string_from_utf8(bytes: Vec<u8>) -> (s: Option<String>)
    ensures
        s is Some <==> valid_utf8(bytes@),
        s matches Some(t) ==> t@ == decode_utf8(bytes@),
{
    String::from_utf8(bytes).ok()
}

/// Appends a string slice.
pub fn push_text(s: &mut String, t: &str)
    ensures
        final(s)@ == old(s)@ + t@,
{
    s.append(t);
}

/// The decimal digit character of `d` (`0 <= d < 10`).
pub open spec fn digit_char(d: int) -> char {
    if d == 0 {
        '0'
    } else if d == 1 {
        '1'
    } else if d == 2 {
        '2'
    } else if d == 3 {
        '3'
    } else if d == 4 {
        '4'
    } else if d == 5 {
        '5'
    } else if d == 6 {
        '6'
    } else if d == 7 {
        '7'
    } else if d == 8 {
        '8'
    } else {
        '9'
    }
}

/// The decimal representation of `n`, without leading zeros (`"0"` for zero).
pub open spec fn decimal(n: nat) -> Seq<char>
    decreases n,
{
    if n < 10 {
        seq![digit_char(n as int)]
    } else {
        decimal(n / 10).push(digit_char((n % 10) as int))
    }
}

/// `s` preceded by as many `'0'` as it takes to reach `width` characters.
pub open spec fn zero_padded(s: Seq<char>, width: nat) -> Seq<char> {
    if s.len() >= width {
        s
    } else {
        Seq::new((width - s.len()) as nat, |i: int| '0') + s
    }
}

/// `n` in decimal, zero-padded to `width` characters (Rust's `{:0width$}`).
pub open spec fn padded_decimal(n: nat, width: nat) -> Seq<char> {
    zero_padded(decimal(n), width)
}

/// A signed `n` zero-padded to `width` characters, the sign counted in the width.
pub open spec fn padded_signed(n: int, width: nat) -> Seq<char> {
    if n < 0 {
        seq!['-'] + zero_padded(decimal((-n) as nat), if width >= 1 { (width - 1) as nat } else { 0 })
    } else {
        padded_decimal(n as nat, width)
    }
}

pub fn digit(d: u64) -> (c: char)
    requires
        d < 10,
    ensures
        c == digit_char(d as int),
{
    if d == 0 {
        '0'
    } else if d == 1 {
        '1'
    } else if d == 2 {
        '2'
    } else if d == 3 {
        '3'
    } else if d == 4 {
        '4'
    } else if d == 5 {
        '5'
    } else if d == 6 {
        '6'
    } else if d == 7 {
        '7'
    } else if d == 8 {
        '8'
    } else {
        '9'
    }
}

/// Ten to the power `k`.
pub open spec fn pow10(k: nat) -> nat
    decreases k,
{
    if k == 0 {
        1
    } else {
        10 * pow10((k - 1) as nat)
    }
}

/// Number of decimal digits of `n`.
pub fn decimal_len(n: u64) -> (len: usize)
    ensures
        len == decimal(n as nat).len(),
        1 <= len <= 20,
        len >= 2 ==> n >= pow10((len - 1) as nat),
    decreases n,
{
    if n < 10 {
        1
    } else {
        let rest = decimal_len(n / 10);
        proof {
            assert(pow10(rest as nat) == 10 * pow10((rest - 1) as nat));
            assert(n as int >= 10 * (n / 10) as int);
            assert(10 * (n / 10) as int >= 10 * pow10((rest - 1) as nat)) by (nonlinear_arith)
                requires
                    (n / 10) as int >= pow10((rest - 1) as nat) as int,
            ;
            if rest >= 20 {
                assert(pow10(19) == 10_000_000_000_000_000_000nat) by {
                    reveal_with_fuel(pow10, 20);
                }
                assert(false);
            }
        }
        rest + 1
    }
}

/// Appends `n` in decimal.
pub fn push_decimal(s: &mut String, n: u64)
    ensures
        final(s)@ == old(s)@ + decimal(n as nat),
    decreases n,
{
    if n >= 10 {
        push_decimal(s, n / 10);
        push_char(s, digit(n % 10));
        proof {
            assert(decimal(n as nat) == decimal((n / 10) as nat).push(digit_char((n % 10) as int)));
        }
    } else {
        push_char(s, digit(n));
    }
}

/// Appends `n` in decimal, zero-padded to `width` characters.
pub fn push_padded(s: &mut String, n: u64, width: usize)
    ensures
        final(s)@ == old(s)@ + padded_decimal(n as nat, width as nat),
{
    let len = decimal_len(n);
    let ghost start = s@;
    let mut k: usize = len;
    while k < width
        invariant
            len <= k <= width || (k == len && len >= width),
            len == decimal(n as nat).len(),
            s@ == start + Seq::new((k - len) as nat, |i: int| '0'),
        decreases width - k,
    {
        push_char(s, '0');
        proof {
            assert(s@ =~= start + Seq::new((k + 1 - len) as nat, |i: int| '0'));
        }
        k += 1;
    }
    let ghost zeros = s@;
    push_decimal(s, n);
    proof {
        if len >= width {
            assert(zeros =~= start);
            assert(s@ =~= start + decimal(n as nat));
        } else {
            assert(s@ =~= start + (Seq::new((width - len) as nat, |i: int| '0') + decimal(
                n as nat,
            )));
        }
    }
}

/// Appends a signed `n`, zero-padded to `width` characters with the sign counted in the width.
pub fn push_padded_signed(s: &mut String, n: i64, width: usize)
    ensures
        final(s)@ == old(s)@ + padded_signed(n as int, width as nat),
{
    if n < 0 {
        let ghost start = s@;
        push_char(s, '-');
        let magnitude: u64 = if n == i64::MIN {
            9_223_372_036_854_775_808u64
        } else {
            (-n) as u64
        };
        let w: usize = if width >= 1 { width - 1 } else { 0 };
        push_padded(s, magnitude, w);
        proof {
            assert(s@ =~= start + padded_signed(n as int, width as nat));
        }
    } else {
        push_padded(s, n as u64, width);
    }
}

/// The characters of `s`, in order.
pub fn chars_of(s: &str) -> (v: Vec<char>)
    ensures
        v@ == s@,
{
    broadcast use vstd::string::axiom_spec_iter;

    let mut v: Vec<char> = Vec::new();
    for c in it: s.chars()
        invariant
            v@ == it.seq().take(it.index() as int),
    {
        v.push(c);
    }
    v
}

/// Whether two character vectors hold the same characters.
pub fn chars_equal(a: &Vec<char>, b: &Vec<char>) -> (same: bool)
    ensures
        same == (a@ == b@),
{
    if a.len() != b.len() {
        return false;
    }
    let mut k: usize = 0;
    while k < a.len()
        invariant
            k <= a@.len() == b@.len(),
            forall|m: int| 0 <= m < k ==> a@[m] == b@[m],
        decreases a@.len() - k,
    {
        if a[k] != b[k] {
            assert(a@[k as int] != b@[k as int]);
            return false;
        }
        k += 1;
    }
    assert(a@ =~= b@);
    true
}

/// Whether two strings hold the same characters.
pub fn same_text(a: &str, b: &str) -> (same: bool)
    ensures
        same == (a@ == b@),
{
    chars_equal(&chars_of(a), &chars_of(b))
}

} // verus!
