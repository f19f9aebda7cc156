//! Human-readable byte counts: a size is shown in the largest binary unit up
//! to the terabyte that it fills, with one decimal place.
//!
//! The count passes through a double-precision number on its way, so a count
//! of more than 53 bits is first rounded to the nearest representable one.
//! Everything here is stated over integers.

use vstd::prelude::*;
use vstd::arithmetic::div_mod::lemma_mod_bound;
use vstd::arithmetic::div_mod::lemma_fundamental_div_mod;
use crate::text::decimal;
use crate::text::decimal_digits;
use crate::text::digit_char;
use crate::text::digit_str;

verus! {

/// The first count that a double cannot always hold exactly: two to the 53rd.
pub const DOUBLE_EXACT_LIMIT: u64 = 0x20_0000_0000_0000;

/// The quotient `num / den` rounded to the nearest integer, a tie going to
/// the even neighbour.
pub open spec fn round_half_even(num: nat, den: nat) -> nat
    recommends
        den > 0,
{
    let q = num / den;
    let r = num % den;
    if 2 * r > den || (2 * r == den && q % 2 == 1) {
        q + 1
    } else {
        q
    }
}

/// The distance between neighbouring doubles at `n`.
pub open spec fn double_ulp(n: nat) -> nat
    decreases n,
{
    if n < DOUBLE_EXACT_LIMIT {
        1
    } else {
        2 * double_ulp(n / 2)
    }
}

/// The value that the count `n` has once it is held as a double.
pub open spec fn as_double(n: nat) -> nat {
    round_half_even(n, double_ulp(n)) * double_ulp(n)
}

/// The index of the unit in which `size` is shown: 0 for bytes up to 4 for
/// terabytes.
pub open spec fn unit_index(size: nat) -> nat {
    if size < 0x400 {
        0
    } else if size < 0x10_0000 {
        1
    } else if size < 0x4000_0000 {
        2
    } else if size < 0x100_0000_0000 {
        3
    } else {
        4
    }
}

/// The number of bytes in the unit with index `k`.
pub open spec fn unit_scale(k: nat) -> nat {
    if k == 0 {
        1
    } else if k == 1 {
        0x400
    } else if k == 2 {
        0x10_0000
    } else if k == 3 {
        0x4000_0000
    } else {
        0x100_0000_0000
    }
}

/// The name of the unit with index `k`.
pub open spec fn unit_label(k: nat) -> Seq<char> {
    if k == 0 {
        seq!['B']
    } else if k == 1 {
        seq!['K', 'B']
    } else if k == 2 {
        seq!['M', 'B']
    } else if k == 3 {
        seq!['G', 'B']
    } else {
        seq!['T', 'B']
    }
}

/// `size` in tenths of its unit, rounded to the nearest tenth.
pub open spec fn scaled_tenths(size: nat) -> nat {
    round_half_even(as_double(size) * 10, unit_scale(unit_index(size)))
}

/// A number of tenths written with one decimal place.
pub open spec fn one_decimal(tenths: nat) -> Seq<char> {
    decimal_digits(tenths / 10) + seq!['.'] + seq![digit_char(tenths % 10)]
}

/// The text for `size`: the scaled number, the separator, the unit.
pub open spec fn size_text(size: nat, separator: Seq<char>) -> Seq<char> {
    one_decimal(scaled_tenths(size)) + separator + unit_label(unit_index(size))
}

/// Divides and rounds to the nearest integer, ties to even.
pub fn divide_round_half_even(num: u128, den: u128) -> (q: u128)
    requires
        den > 0,
    ensures
        q == round_half_even(num as nat, den as nat),
        num / den <= q <= num / den + 1,
{
    let whole: u128 = num / den;
    let rest: u128 = num % den;
    proof {
        lemma_mod_bound(num as int, den as int);
        lemma_fundamental_div_mod(num as int, den as int);
        assert(whole <= num) by (nonlinear_arith)
            requires
                num == den * whole + rest,
                den >= 1,
                whole >= 0,
                rest >= 0,
        ;
        if rest > 0 {
            assert(2 * whole <= num) by (nonlinear_arith)
                requires
                    num == den * whole + rest,
                    rest < den,
                    rest > 0,
                    whole >= 0,
            ;
        }
    }
    let up = rest > den - rest || (rest == den - rest && whole % 2 == 1);
    if up {
        whole + 1
    } else {
        whole
    }
}

/// The distance between neighbouring doubles at `n`.
pub fn double_ulp_of(n: u64) -> (ulp: u64)
    ensures
        ulp == double_ulp(n as nat),
        ulp >= 1,
        n >= DOUBLE_EXACT_LIMIT ==> ulp * 0x10_0000_0000_0000 <= n,
    decreases n,
{
    if n < DOUBLE_EXACT_LIMIT {
        1
    } else {
        let half: u64 = double_ulp_of(n / 2);
        2 * half
    }
}

/// The double nearest to the count `n`, as an integer.
pub fn nearest_double(n: u64) -> (d: u128)
    ensures
        d == as_double(n as nat),
        n < DOUBLE_EXACT_LIMIT ==> d == n,
        d <= n + 0x1000,
{
    let ulp: u64 = double_ulp_of(n);
    let steps: u128 = divide_round_half_even(n as u128, ulp as u128);
    proof {
        lemma_fundamental_div_mod(n as int, ulp as int);
        lemma_mod_bound(n as int, ulp as int);
        assert(steps * ulp <= n + ulp) by (nonlinear_arith)
            requires
                steps <= (n as int) / (ulp as int) + 1,
                n == ulp * ((n as int) / (ulp as int)) + (n as int) % (ulp as int),
                0 <= (n as int) % (ulp as int),
                ulp >= 1,
                steps >= 0,
        ;
        if n < DOUBLE_EXACT_LIMIT {
            assert(steps == n);
            assert(steps * ulp == n) by (nonlinear_arith)
                requires
                    steps == n,
                    ulp == 1,
            ;
        }
    }
    steps * (ulp as u128)
}

/// `size` in tenths of its unit.
pub fn scaled_tenths_of(size: u64) -> (tenths: u64)
    ensures
        tenths == scaled_tenths(size as nat),
{
    let d: u128 = nearest_double(size);
    let t: u128 = if size < 0x400 {
        divide_round_half_even(d * 10, 1)
    } else if size < 0x10_0000 {
        divide_round_half_even(d * 10, 0x400)
    } else if size < 0x4000_0000 {
        divide_round_half_even(d * 10, 0x10_0000)
    } else if size < 0x100_0000_0000 {
        divide_round_half_even(d * 10, 0x4000_0000)
    } else {
        divide_round_half_even(d * 10, 0x100_0000_0000)
    };
    t as u64
}

/// The name of the unit in which `size` is shown.
pub fn unit_of(size: u64) -> (unit: &'static str)
    ensures
        unit@ == unit_label(unit_index(size as nat)),
{
    proof {
        reveal_strlit("B");
        reveal_strlit("KB");
        reveal_strlit("MB");
        reveal_strlit("GB");
        reveal_strlit("TB");
    }
    let unit = if size < 0x400 {
        "B"
    } else if size < 0x10_0000 {
        "KB"
    } else if size < 0x4000_0000 {
        "MB"
    } else if size < 0x100_0000_0000 {
        "GB"
    } else {
        "TB"
    };
    assert(unit@ =~= unit_label(unit_index(size as nat)));
    unit
}

/// Writes `size` with one decimal place in its unit, with `separator`
/// between the number and the unit.
pub fn render_size(size: u64, separator: &str) -> (s: String)
    ensures
        s@ == size_text(size as nat, separator@),
{
    let tenths: u64 = scaled_tenths_of(size);
    let mut s = decimal(tenths / 10);
    proof {
        reveal_strlit(".");
    }
    s.append(".");
    s.append(digit_str(tenths % 10));
    s.append(separator);
    s.append(unit_of(size));
    assert(s@ =~= size_text(size as nat, separator@));
    s
}

/// A number of megabytes in tenths of a gigabyte, rounded to the nearest
/// tenth.
pub open spec fn gigabyte_tenths(megabytes: nat) -> nat {
    round_half_even(as_double(megabytes) * 10, 0x400)
}

/// The text for an amount of memory given in megabytes: the number of
/// gigabytes with one decimal place, a space, and `GB`.
pub open spec fn gigabytes_text(megabytes: nat) -> Seq<char> {
    one_decimal(gigabyte_tenths(megabytes)) + seq![' ', 'G', 'B']
}

/// Writes an amount of memory given in megabytes as gigabytes with one
/// decimal place.
pub fn format_gigabytes(megabytes: u64) -> (s: String)
    ensures
        s@ == gigabytes_text(megabytes as nat),
{
    let d: u128 = nearest_double(megabytes);
    let tenths: u128 = divide_round_half_even(d * 10, 0x400);
    let tenths: u64 = tenths as u64;
    let mut s = decimal(tenths / 10);
    proof {
        reveal_strlit(".");
        reveal_strlit(" GB");
    }
    s.append(".");
    s.append(digit_str(tenths % 10));
    s.append(" GB");
    assert(s@ =~= gigabytes_text(megabytes as nat));
    s
}

/// The number of whole megabytes in a number of bytes.
pub fn megabytes(bytes: u64) -> (mb: u64)
    ensures
        mb == bytes / 0x10_0000,
{
    bytes / 1024 / 1024
}

/// Rounding to the nearest integer is off by at most half: the rounded
/// quotient, taken times the divisor, differs from the dividend by no more
/// than half the divisor, and a dividend that is a multiple of the divisor
/// is divided exactly.
pub proof fn lemma_round_half_even_is_nearest(num: nat, den: nat)
    requires
        den > 0,
    ensures
        2 * (round_half_even(num, den) * den - num) <= den,
        2 * (num - round_half_even(num, den) * den) <= den,
        num % den == 0 ==> round_half_even(num, den) * den == num,
{
    let q = num / den;
    let r = num % den;
    lemma_mod_bound(num as int, den as int);
    lemma_fundamental_div_mod(num as int, den as int);
    assert((q + 1) * den == q * den + den) by (nonlinear_arith);
    assert(q * den == den * q) by (nonlinear_arith);
}

/// A count of less than 53 bits is held exactly as a double; a larger one
/// is off by at most half the distance between neighbouring doubles.
pub proof fn lemma_as_double_is_nearest(n: nat)
    ensures
        n < DOUBLE_EXACT_LIMIT ==> as_double(n) == n,
        2 * (as_double(n) - n) <= double_ulp(n),
        2 * (n - as_double(n)) <= double_ulp(n),
{
    lemma_double_ulp_positive(n);
    lemma_round_half_even_is_nearest(n, double_ulp(n));
    if n < DOUBLE_EXACT_LIMIT {
        assert(n % 1 == 0);
        assert(round_half_even(n, 1) * 1 == n);
    }
}

proof fn lemma_double_ulp_positive(n: nat)
    ensures
        double_ulp(n) > 0,
    decreases n,
{
    if n >= DOUBLE_EXACT_LIMIT {
        lemma_double_ulp_positive(n / 2);
    }
}

} // verus!
