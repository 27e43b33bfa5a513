//! Decimal rendering of integers and digit-grouped formatting.

use vstd::prelude::*;

verus! {

/// The decimal digits of `n`, as ASCII bytes, most significant first.
pub open spec fn dec_digits(n: nat) -> Seq<u8>
    decreases n,
{
    if n < 10 {
        seq![(n + 48) as u8]
    } else {
        dec_digits(n / 10).push(((n % 10) + 48) as u8)
    }
}

/// The decimal rendering of a possibly negative integer: a leading `-`
/// (byte 45) for negative values, then the digits of the magnitude.
pub open spec fn dec_digits_int(n: int) -> Seq<u8> {
    if n < 0 {
        seq![45u8] + dec_digits((-n) as nat)
    } else {
        dec_digits(n as nat)
    }
}

/// The numeric value of a sequence of ASCII decimal digits
/// (most significant first; the empty sequence has value 0).
pub open spec fn dec_value(s: Seq<u8>) -> int
    decreases s.len(),
{
    if s.len() == 0 {
        0
    } else {
        dec_value(s.drop_last()) * 10 + (s.last() - 48)
    }
}

/// Whether every byte of `s` is an ASCII decimal digit.
pub open spec fn all_digits(s: Seq<u8>) -> bool {
    forall|i: int| 0 <= i < s.len() ==> 48 <= #[trigger] s[i] <= 57
}

/// Ten to the power `n`.
pub open spec fn pow10(n: nat) -> int
    decreases n,
{
    if n == 0 {
        1
    } else {
        10 * pow10((n - 1) as nat)
    }
}

pub proof fn lemma_dec_value_bound(s: Seq<u8>)
    requires
        all_digits(s),
    ensures
        0 <= dec_value(s) < pow10(s.len()),
    decreases s.len(),
{
    if s.len() > 0 {
        assert(all_digits(s.drop_last()));
        lemma_dec_value_bound(s.drop_last());
    }
}

/// A digit string without a leading zero is at least as large as the
/// smallest number of its width.
pub proof fn lemma_dec_value_lower(s: Seq<u8>)
    requires
        all_digits(s),
        s.len() >= 1,
        s[0] != 48,
    ensures
        dec_value(s) >= pow10((s.len() - 1) as nat),
    decreases s.len(),
{
    if s.len() == 1 {
    } else {
        assert(all_digits(s.drop_last()));
        assert(s.drop_last()[0] == s[0]);
        lemma_dec_value_lower(s.drop_last());
        assert(dec_value(s.drop_last()) * 10 >= pow10((s.len() - 2) as nat) * 10)
            by (nonlinear_arith)
            requires
                dec_value(s.drop_last()) >= pow10((s.len() - 2) as nat),
        ;
    }
}

/// The decimal digits of `n` are digits, are never empty, carry no
/// leading zero unless `n` is zero itself, and denote `n` exactly.
pub proof fn lemma_dec_digits_value(n: nat)
    ensures
        all_digits(dec_digits(n)),
        dec_digits(n).len() >= 1,
        dec_digits(n).len() > 1 ==> dec_digits(n)[0] != 48,
        dec_value(dec_digits(n)) == n,
    decreases n,
{
    if n < 10 {
        assert(dec_digits(n) =~= seq![(n + 48) as u8]);
        assert(dec_digits(n).drop_last() =~= Seq::<u8>::empty());
        assert(dec_value(Seq::<u8>::empty()) == 0);
        assert(dec_value(dec_digits(n)) == dec_value(Seq::<u8>::empty()) * 10 + ((n + 48) as u8
            - 48));
    } else {
        lemma_dec_digits_value(n / 10);
        let d = dec_digits(n / 10).push(((n % 10) + 48) as u8);
        assert(dec_digits(n) == d);
        assert(d.drop_last() =~= dec_digits(n / 10));
        assert(d[0] == dec_digits(n / 10)[0]);
        if dec_digits(n / 10).len() == 1 {
            // A one-digit prefix of a number of ten or more denotes at
            // least one, so its digit byte is not a zero.
            let x = dec_digits(n / 10)[0];
            assert(dec_digits(n / 10) =~= seq![x]);
            assert(dec_digits(n / 10).drop_last() =~= Seq::<u8>::empty());
            assert(dec_value(Seq::<u8>::empty()) == 0);
            assert(dec_value(dec_digits(n / 10)) == dec_value(Seq::<u8>::empty()) * 10 + (x
                - 48));
            assert(n / 10 >= 1);
        }
        assert(dec_value(d) == dec_value(dec_digits(n / 10)) * 10 + (n % 10));
        assert((n / 10) * 10 + (n % 10) == n) by {
            vstd::arithmetic::div_mod::lemma_fundamental_div_mod(n as int, 10);
        }
        assert forall|i: int| 0 <= i < d.len() implies 48 <= #[trigger] d[i] <= 57 by {
            if i < d.len() - 1 {
                assert(d[i] == dec_digits(n / 10)[i]);
            }
        }
    }
}

pub proof fn lemma_dec_value_prefix(s: Seq<u8>, i: int)
    requires
        all_digits(s),
        0 <= i <= s.len(),
    ensures
        dec_value(s.subrange(0, i)) <= dec_value(s),
    decreases s.len() - i,
{
    if i < s.len() {
        assert(s.subrange(0, i + 1).drop_last() =~= s.subrange(0, i));
        assert(all_digits(s.subrange(0, i)));
        lemma_dec_value_bound(s.subrange(0, i));
        lemma_dec_value_prefix(s, i + 1);
    } else {
        assert(s.subrange(0, s.len() as int) =~= s);
    }
}

pub proof fn lemma_pow10_mono(a: nat, b: nat)
    requires
        a <= b,
    ensures
        pow10(a) <= pow10(b),
    decreases b,
{
    if a < b {
        lemma_pow10_mono(a, (b - 1) as nat);
        assert(pow10(b) == 10 * pow10((b - 1) as nat));
        assert(pow10((b - 1) as nat) >= 1) by {
            lemma_pow10_pos((b - 1) as nat);
        }
    }
}

pub proof fn lemma_pow10_pos(n: nat)
    ensures
        pow10(n) >= 1,
    decreases n,
{
    if n > 0 {
        lemma_pow10_pos((n - 1) as nat);
    }
}

/// The concrete values of the largest powers of ten the parsers reason
/// about.
pub proof fn lemma_pow10_is()
    ensures
        pow10(17) == 100000000000000000,
        pow10(18) == 1000000000000000000,
        pow10(19) == 10000000000000000000,
{
    assert(pow10(0) == 1);
    assert(pow10(1) == 10);
    assert(pow10(2) == 100);
    assert(pow10(3) == 1000);
    assert(pow10(4) == 10000);
    assert(pow10(5) == 100000);
    assert(pow10(6) == 1000000);
    assert(pow10(7) == 10000000);
    assert(pow10(8) == 100000000);
    assert(pow10(9) == 1000000000);
    assert(pow10(10) == 10000000000);
    assert(pow10(11) == 100000000000);
    assert(pow10(12) == 1000000000000);
    assert(pow10(13) == 10000000000000);
    assert(pow10(14) == 100000000000000);
    assert(pow10(15) == 1000000000000000);
    assert(pow10(16) == 10000000000000000);
    assert(pow10(17) == 100000000000000000);
    assert(pow10(18) == 1000000000000000000);
    assert(pow10(19) == 10000000000000000000);
}

/// Render `n` in decimal.
pub fn u64_to_dec(n: u64) -> (r: Vec<u8>)
    ensures
        r@ == dec_digits(n as nat),
    decreases n,
{
    if n < 10 {
        let mut v: Vec<u8> = Vec::new();
        v.push((n as u8) + 48);
        v
    } else {
        let mut v = u64_to_dec(n / 10);
        v.push((n % 10) as u8 + 48);
        v
    }
}

/// Render `n` in decimal, with a leading minus sign when negative.
pub fn i64_to_dec(n: i64) -> (r: Vec<u8>)
    ensures
        r@ == dec_digits_int(n as int),
{
    if n >= 0 {
        u64_to_dec(n as u64)
    } else {
        let mag: u64 = if n == i64::MIN {
            9223372036854775808u64
        } else {
            (-n) as u64
        };
        let mut v: Vec<u8> = Vec::new();
        v.push(45u8);
        let digits = u64_to_dec(mag);
        let mut k: usize = 0;
        while k < digits.len()
            invariant
                k <= digits.len(),
                v@ == seq![45u8] + digits@.subrange(0, k as int),
            decreases digits.len() - k,
        {
            v.push(digits[k]);
            assert(digits@.subrange(0, k as int).push(digits@[k as int]) =~= digits@.subrange(
                0,
                k + 1,
            ));
            k = k + 1;
        }
        assert(digits@.subrange(0, digits@.len() as int) =~= digits@);
        v
    }
}

/// The digits `d` with a comma (byte 44) inserted before every position
/// `i > 0` whose distance to the end is a multiple of three, starting
/// at position `i`.
pub open spec fn grouped_from(d: Seq<u8>, i: int) -> Seq<u8>
    decreases d.len() - i,
{
    if i < 0 || i >= d.len() {
        Seq::empty()
    } else if i > 0 && (d.len() - i) % 3 == 0 {
        seq![44u8, d[i]] + grouped_from(d, i + 1)
    } else {
        seq![d[i]] + grouped_from(d, i + 1)
    }
}

/// The decimal digits of `n` grouped in threes by commas.
pub open spec fn grouped_decimal(n: nat) -> Seq<u8> {
    grouped_from(dec_digits(n), 0)
}

/// Render `n` in decimal with thousands separators (`1234567` becomes
/// `1,234,567`).
pub fn format_number(n: usize) -> (r: Vec<u8>)
    ensures
        r@ == grouped_decimal(n as nat),
{
    let digits = u64_to_dec(n as u64);
    let mut v: Vec<u8> = Vec::new();
    let mut i: usize = 0;
    while i < digits.len()
        invariant
            i <= digits.len(),
            grouped_from(digits@, 0) == v@ + grouped_from(digits@, i as int),
        decreases digits.len() - i,
    {
        if i > 0 && (digits.len() - i) % 3 == 0 {
            v.push(44u8);
        }
        v.push(digits[i]);
        i = i + 1;
    }
    assert(v@ + grouped_from(digits@, digits@.len() as int) =~= v@);
    v
}

} // verus!
