//! Decimal digit strings as byte sequences.
use vstd::arithmetic::div_mod::lemma_fundamental_div_mod;
use vstd::prelude::*;
use vstd::utf8::{decode_utf8, encode_utf8, encode_utf8_decode_utf8, encode_utf8_valid_utf8, is_ascii_chars, is_ascii_chars_encode_utf8, valid_utf8};

verus! {

/// The ASCII code of the character `'0'`.
pub const ZERO: u8 = 48;

/// The ASCII code of the decimal digit `d`.
pub open spec fn digit_byte(d: nat) -> u8 {
    (d + 48) as u8
}

/// Whether `b` is the ASCII code of one of `'0'` to `'9'`.
pub open spec fn is_digit_byte(b: u8) -> bool {
    48 <= b <= 57
}

/// Whether every byte of `s` is an ASCII decimal digit.
pub open spec fn all_digits(s: Seq<u8>) -> bool {
    forall|i: int| 0 <= i < s.len() ==> is_digit_byte(#[trigger] s[i])
}

/// The decimal rendering of `n`: most significant digit first, no leading zeros
/// (a single `'0'` for zero).
pub open spec fn decimal(n: nat) -> Seq<u8>
    decreases n,
{
    if n < 10 {
        seq![digit_byte(n)]
    } else {
        decimal(n / 10).push(digit_byte(n % 10))
    }
}

/// The characters whose ASCII codes are the bytes of `b`.
pub open spec fn ascii_text(b: Seq<u8>) -> Seq<char> {
    b.map_values(|x: u8| x as char)
}

/// `k` copies of the character `'0'`.
pub open spec fn zeros(k: nat) -> Seq<u8> {
    Seq::new(k, |i: int| ZERO)
}

/// `s` right-aligned in a field of `width` characters, the rest filled with `'0'`.
pub open spec fn zero_padded(s: Seq<u8>, width: nat) -> Seq<u8> {
    zeros((width - s.len()) as nat) + s
}

/// `v` in decimal, right-aligned in `width` characters and padded with `'0'`.
pub open spec fn formatted(v: nat, width: nat) -> Seq<u8> {
    zero_padded(decimal(v), width)
}

/// The value of a string of decimal digits, read most significant digit first
/// (zero for the empty string).
pub open spec fn value_of(s: Seq<u8>) -> nat
    decreases s.len(),
{
    if s.len() == 0 {
        0
    } else {
        value_of(s.drop_last()) * 10 + (s.last() - ZERO) as nat
    }
}

/// The number of digits that `decimal(n)` has.
pub open spec fn digit_count(n: nat) -> nat
    decreases n,
{
    if n < 10 {
        1
    } else {
        digit_count(n / 10) + 1
    }
}

/// The largest value whose decimal rendering fits in `width` characters, plus one.
pub open spec fn pow10(width: nat) -> nat
    decreases width,
{
    if width == 0 {
        1
    } else {
        10 * pow10((width - 1) as nat)
    }
}

/// A string of digit bytes is valid UTF-8 and reads as the matching characters.
pub proof fn lemma_digits_as_text(b: Seq<u8>)
    requires
        all_digits(b),
    ensures
        valid_utf8(b),
        decode_utf8(b) == ascii_text(b),
{
    let c = ascii_text(b);
    assert forall|i: int| 0 <= i < c.len() implies '\0' <= #[trigger] c[i] <= '\u{7f}' by {
        assert(is_digit_byte(b[i]));
    }
    assert(is_ascii_chars(c));
    is_ascii_chars_encode_utf8(c);
    assert forall|i: int| 0 <= i < c.len() implies #[trigger] encode_utf8(c)[i] == b[i] by {
        assert(c[i] as u8 == b[i]);
    }
    assert(encode_utf8(c) =~= b);
    encode_utf8_valid_utf8(c);
    encode_utf8_decode_utf8(c);
}

/// Padding a digit string with `'0'` keeps it a digit string.
pub proof fn lemma_zero_padded_digits(s: Seq<u8>, width: nat)
    requires
        all_digits(s),
    ensures
        all_digits(zero_padded(s, width)),
{
    let p = zero_padded(s, width);
    let k = (width - s.len()) as nat;
    assert forall|i: int| 0 <= i < p.len() implies is_digit_byte(#[trigger] p[i]) by {
        if i >= k {
            assert(p[i] == s[i - k]);
        }
    }
}

pub proof fn lemma_decimal_shape(n: nat)
    ensures
        decimal(n).len() == digit_count(n),
        all_digits(decimal(n)),
        value_of(decimal(n)) == n,
    decreases n,
{
    if n >= 10 {
        lemma_decimal_shape(n / 10);
        let s = decimal(n);
        assert(s.drop_last() == decimal(n / 10));
        assert(s.last() - ZERO == n % 10);
        lemma_fundamental_div_mod(n as int, 10);
        assert(value_of(s) == value_of(decimal(n / 10)) * 10 + n % 10);
    } else {
        let s = decimal(n);
        assert(s.drop_last() =~= Seq::<u8>::empty());
        assert(value_of(s.drop_last()) == 0);
        assert(s.last() - ZERO == n);
    }
}

/// A number below `10^width` has at most `width` digits.
pub proof fn lemma_digit_count_bound(n: nat, width: nat)
    requires
        1 <= width,
        n < pow10(width),
    ensures
        digit_count(n) <= width,
    decreases width,
{
    if n >= 10 {
        if width == 1 {
            assert(pow10(0) == 1);
            assert(pow10(1) == 10);
        }
        let p = pow10((width - 1) as nat);
        assert(n / 10 < p) by (nonlinear_arith)
            requires
                n < 10 * p,
        ;
        lemma_digit_count_bound(n / 10, (width - 1) as nat);
    }
}

/// A wider field holds larger values.
pub proof fn lemma_pow10_monotone(a: nat, b: nat)
    requires
        a <= b,
    ensures
        pow10(a) <= pow10(b),
    decreases b,
{
    if a < b {
        lemma_pow10_monotone(a, (b - 1) as nat);
    }
}

/// A run of leading zeros adds nothing to the value of a digit string.
pub proof fn lemma_value_of_zero_prefix(k: nat, s: Seq<u8>)
    ensures
        value_of(zeros(k) + s) == value_of(s),
    decreases s.len(), k,
{
    if s.len() == 0 {
        assert(zeros(k) + s == zeros(k));
        if k > 0 {
            assert(zeros(k).drop_last() == zeros((k - 1) as nat));
            lemma_value_of_zero_prefix((k - 1) as nat, s);
            assert(zeros((k - 1) as nat) + s == zeros((k - 1) as nat));
        }
    } else {
        let t = zeros(k) + s;
        assert(t.drop_last() == zeros(k) + s.drop_last());
        lemma_value_of_zero_prefix(k, s.drop_last());
    }
}

/// A value below `10^width` formats to exactly `width` ASCII digits.
pub proof fn law_fixed_width(v: nat, width: nat)
    requires
        1 <= width,
        v < pow10(width),
    ensures
        digit_count(v) <= width,
        formatted(v, width).len() == width,
        all_digits(formatted(v, width)),
        formatted(v, width) == zeros((width - digit_count(v)) as nat) + decimal(v),
{
    lemma_digit_count_bound(v, width);
    lemma_decimal_shape(v);
    lemma_zero_padded_digits(decimal(v), width);
}

/// Formatting is idempotent: the formatted text already fills the field, so
/// padding it again to the same width changes nothing.
pub proof fn law_format_idempotent(v: nat, width: nat)
    requires
        digit_count(v) <= width,
    ensures
        zero_padded(formatted(v, width), width) == formatted(v, width),
{
    lemma_decimal_shape(v);
    assert(zeros(0) + formatted(v, width) =~= formatted(v, width));
}

/// Reading the formatted text back as a decimal number gives the value again.
pub proof fn law_round_trip(v: nat, width: nat)
    requires
        digit_count(v) <= width,
    ensures
        value_of(formatted(v, width)) == v,
{
    lemma_decimal_shape(v);
    lemma_value_of_zero_prefix((width - decimal(v).len()) as nat, decimal(v));
}

} // verus!
