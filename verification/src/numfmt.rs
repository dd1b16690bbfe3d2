//! Rendering integers as decimal and lowercase hexadecimal text.

use vstd::prelude::*;

use crate::strkit::{push_char, push_str};

verus! {

/// The character for one digit value below 16, lowercase.
pub open spec fn digit_char(d: int) -> char {
    if d == 0 {
        '0'
    } else if d == 1 {
        '1'
    } else if d == 2 {
        '2'
    } else if d == 3 {
        '3'
    } else if d == 4 {
        '4'
    } else if d == 5 {
        '5'
    } else if d == 6 {
        '6'
    } else if d == 7 {
        '7'
    } else if d == 8 {
        '8'
    } else if d == 9 {
        '9'
    } else if d == 10 {
        'a'
    } else if d == 11 {
        'b'
    } else if d == 12 {
        'c'
    } else if d == 13 {
        'd'
    } else if d == 14 {
        'e'
    } else {
        'f'
    }
}

/// The digits of `n` in the given base, most significant first, with no
/// leading zeros (a single `'0'` for zero itself).
pub open spec fn spec_radix(n: nat, base: nat) -> Seq<char>
    recommends
        2 <= base <= 16,
    decreases n,
    via spec_radix_decreases
{
    if n < base || base < 2 {
        seq![digit_char(n as int)]
    } else {
        spec_radix(n / base, base).push(digit_char((n % base) as int))
    }
}

#[via_fn]
proof fn spec_radix_decreases(n: nat, base: nat) {
    if !(n < base || base < 2) {
        vstd::arithmetic::div_mod::lemma_div_is_strictly_smaller(n as int, base as int);
    }
}

/// The decimal rendering of `n`.
pub open spec fn spec_dec(n: nat) -> Seq<char> {
    spec_radix(n, 10)
}

/// The lowercase hexadecimal rendering of `n`.
pub open spec fn spec_hex(n: nat) -> Seq<char> {
    spec_radix(n, 16)
}

/// The decimal rendering of a signed value: a minus sign before the
/// digits of its magnitude.
pub open spec fn spec_dec_signed(v: int) -> Seq<char> {
    if v >= 0 {
        spec_dec(v as nat)
    } else {
        seq!['-'] + spec_dec((-v) as nat)
    }
}

/// The character for one digit value below 16.
fn digit_char_exec(d: u64) -> (c: char)
    requires
        d < 16,
    ensures
        c == digit_char(d as int),
{
    if d == 0 {
        '0'
    } else if d == 1 {
        '1'
    } else if d == 2 {
        '2'
    } else if d == 3 {
        '3'
    } else if d == 4 {
        '4'
    } else if d == 5 {
        '5'
    } else if d == 6 {
        '6'
    } else if d == 7 {
        '7'
    } else if d == 8 {
        '8'
    } else if d == 9 {
        '9'
    } else if d == 10 {
        'a'
    } else if d == 11 {
        'b'
    } else if d == 12 {
        'c'
    } else if d == 13 {
        'd'
    } else if d == 14 {
        'e'
    } else {
        'f'
    }
}

/// Render `n` in the given base, lowercase, without leading zeros.
fn radix_u64(n: u64, base: u64) -> (s: String)
    requires
        2 <= base <= 16,
    ensures
        s@ == spec_radix(n as nat, base as nat),
{
    let mut digits: Vec<char> = Vec::new();
    let mut m = n;
    proof {
        assert(digits@.reverse() =~= Seq::<char>::empty());
        assert(spec_radix(n as nat, base as nat) =~= spec_radix(m as nat, base as nat)
            + digits@.reverse());
    }
    while m >= base
        invariant
            2 <= base <= 16,
            spec_radix(n as nat, base as nat) =~= spec_radix(m as nat, base as nat)
                + digits@.reverse(),
        decreases m,
    {
        let d = m % base;
        let ghost old_digits = digits@;
        digits.push(digit_char_exec(d));
        m = m / base;
        proof {
            assert(digits@.reverse() =~= seq![digit_char(d as int)] + old_digits.reverse());
            assert(spec_radix(n as nat, base as nat) =~= spec_radix(m as nat, base as nat)
                + digits@.reverse());
        }
    }
    let ghost old_digits = digits@;
    digits.push(digit_char_exec(m));
    proof {
        assert(digits@.reverse() =~= seq![digit_char(m as int)] + old_digits.reverse());
        assert(spec_radix(m as nat, base as nat) =~= seq![digit_char(m as int)]);
        assert(spec_radix(n as nat, base as nat) =~= digits@.reverse());
    }

    let mut s = String::new();
    let k = digits.len();
    let mut i: usize = 0;
    while i < k
        invariant
            k == digits@.len(),
            i <= k,
            s@ =~= digits@.reverse().take(i as int),
        decreases k - i,
    {
        push_char(&mut s, digits[k - 1 - i]);
        proof {
            assert(digits@.reverse()[i as int] == digits@[k - 1 - i as int]);
            assert(digits@.reverse().take(i + 1 as int) =~= digits@.reverse().take(i as int).push(
                digits@.reverse()[i as int],
            ));
        }
        i = i + 1;
    }
    proof {
        assert(digits@.reverse().take(k as int) =~= digits@.reverse());
    }
    s
}

/// Render `n` in decimal.
pub fn dec_u64(n: u64) -> (s: String)
    ensures
        s@ == spec_dec(n as nat),
{
    radix_u64(n, 10)
}

/// Render `n` in lowercase hexadecimal.
pub fn hex_u64(n: u64) -> (s: String)
    ensures
        s@ == spec_hex(n as nat),
{
    radix_u64(n, 16)
}

/// Render a signed value in decimal.
pub fn dec_i32(v: i32) -> (s: String)
    ensures
        s@ == spec_dec_signed(v as int),
{
    let wide: i64 = v as i64;
    if wide < 0 {
        let mag: u64 = (-wide) as u64;
        let mut s = String::new();
        push_char(&mut s, '-');
        let rest = dec_u64(mag);
        push_str(&mut s, rest.as_str());
        proof {
            assert(s@ =~= seq!['-'] + spec_dec(mag as nat));
        }
        s
    } else {
        dec_u64(wide as u64)
    }
}

} // verus!
