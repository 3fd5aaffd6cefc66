//! A writer that renders numbers right-aligned and zero-padded into a borrowed
//! byte buffer.
use crate::decimal::{
    ascii_text, decimal, digit_count, formatted, lemma_decimal_shape, lemma_digit_count_bound,
    lemma_digits_as_text, lemma_zero_padded_digits, pow10, zero_padded, ZERO,
};
use vstd::prelude::*;
use vstd::slice::slice_subrange;
use vstd::string::StringSliceAdditionalSpecFns;
use vstd::utf8::{decode_utf8, encode_utf8_decode_utf8, valid_utf8};

verus! {

/// `core::fmt::Error`, the error half of `core::fmt::Result`.
#[verifier::external_type_specification]
#[verifier::external_body]
pub struct ExFmtError(core::fmt::Error);

/// Relies on `core::str::from_utf8`: on valid UTF-8 it returns `Ok` with a
/// string slice over exactly the given bytes.
#[verifier::external_body]
fn str_from_utf8(b: &[u8]) -> (r: &str)
    requires
        valid_utf8(b@),
    ensures
        r.spec_bytes() == b@,
{
    core::str::from_utf8(b).unwrap()
}

/// Writes the decimal digits of `n` to the front of `out` and returns how many
/// there are.
fn render_decimal(n: u16, out: &mut [u8]) -> (len: usize)
    requires
        old(out)@.len() == 5,
    ensures
        len == digit_count(n as nat),
        final(out)@.len() == 5,
        final(out)@.subrange(0, len as int) == decimal(n as nat),
    decreases n,
{
    proof {
        reveal_with_fuel(pow10, 6);
        lemma_digit_count_bound(n as nat, 5);
    }
    let len: usize = if n >= 10 {
        render_decimal(n / 10, out)
    } else {
        0
    };
    let ghost before = out@;
    out[len] = ZERO + (n % 10) as u8;
    proof {
        assert(out@.subrange(0, len as int) == before.subrange(0, len as int));
        assert(out@.subrange(0, len + 1) =~= decimal(n as nat));
    }
    len + 1
}

/// Renders numbers right-aligned into a borrowed buffer, filling the
/// positions in front with `'0'`, so the buffer always holds a full-width text.
pub struct FourDigitWriter<'a> {
    buf: &'a mut [u8],
}

impl<'a> FourDigitWriter<'a> {
    /// The bytes that the buffer holds.
    pub closed spec fn contents(&self) -> Seq<u8> {
        (*self.buf)@
    }

    pub fn new(buf: &'a mut [u8]) -> (r: Self)
        ensures
            r.contents() == old(buf)@,
    {
        FourDigitWriter { buf }
    }

    pub fn capacity(&self) -> (r: usize)
        ensures
            r == self.contents().len(),
    {
        self.buf.len()
    }

    /// The whole buffer as text.
    pub fn as_str(&self) -> (r: &str)
        requires
            valid_utf8(self.contents()),
        ensures
            r.spec_bytes() == self.contents(),
            r@ == decode_utf8(self.contents()),
    {
        let all = slice_subrange(self.buf, 0, self.capacity());
        assert(all@ =~= self.contents());
        let r = str_from_utf8(all);
        proof {
            encode_utf8_decode_utf8(r@);
        }
        r
    }

    /// Fills the front of the buffer with `'0'` and puts `digits` right-aligned
    /// after it.
    fn put_right_aligned(&mut self, digits: &[u8])
        requires
            digits@.len() <= old(self).contents().len(),
        ensures
            final(self).contents() == zero_padded(digits@, old(self).contents().len() as nat),
    {
        let cap = self.capacity();
        let idx = cap - digits.len();
        let mut i: usize = 0;
        while i < idx
            invariant
                idx == cap - digits@.len(),
                i <= idx,
                self.contents().len() == cap,
                forall|k: int| 0 <= k < i ==> self.contents()[k] == ZERO,
            decreases idx - i,
        {
            self.buf[i] = ZERO;
            i = i + 1;
        }
        let mut j: usize = 0;
        while j < digits.len()
            invariant
                idx == cap - digits@.len(),
                j <= digits@.len(),
                self.contents().len() == cap,
                forall|k: int| 0 <= k < idx ==> self.contents()[k] == ZERO,
                forall|k: int| 0 <= k < j ==> self.contents()[idx + k] == digits@[k],
            decreases digits@.len() - j,
        {
            self.buf[idx + j] = digits[j];
            j = j + 1;
        }
        assert(self.contents() =~= zero_padded(digits@, cap as nat));
    }

    /// Puts `s` right-aligned into the buffer, the positions before it filled
    /// with `'0'`.
    pub fn write_str(&mut self, s: &str) -> (r: core::fmt::Result)
        requires
            s.spec_bytes().len() <= old(self).contents().len(),
        ensures
            final(self).contents() == zero_padded(s.spec_bytes(), old(self).contents().len() as nat),
            r is Ok,
    {
        self.put_right_aligned(s.as_bytes());
        Ok(())
    }

    /// Renders `v` in decimal, right-aligned and zero-padded to the full
    /// capacity.
    pub fn format(&mut self, v: u16) -> (r: &str)
        requires
            1 <= old(self).contents().len(),
            (v as nat) < pow10(old(self).contents().len() as nat),
        ensures
            final(self).contents() == formatted(v as nat, old(self).contents().len() as nat),
            r@ == ascii_text(formatted(v as nat, old(self).contents().len() as nat)),
    {
        proof {
            lemma_digit_count_bound(v as nat, self.contents().len() as nat);
        }
        let mut tmp: [u8; 5] = [0u8; 5];
        let len = render_decimal(v, &mut tmp);
        let whole = tmp.as_slice();
        proof {
            reveal_with_fuel(pow10, 6);
            lemma_digit_count_bound(v as nat, 5);
        }
        let digits = slice_subrange(whole, 0, len);
        self.put_right_aligned(digits);
        proof {
            lemma_decimal_shape(v as nat);
            lemma_zero_padded_digits(decimal(v as nat), self.contents().len() as nat);
            lemma_digits_as_text(self.contents());
        }
        self.as_str()
    }
}

} // verus!
