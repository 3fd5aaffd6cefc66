//! The counter shown on the display: it runs from zero to `COUNTER_MAX` and
//! then starts again at zero.
use crate::decimal::{ascii_text, formatted, lemma_pow10_monotone, pow10};
use crate::writer::FourDigitWriter;
use vstd::prelude::*;

verus! {

/// The largest value the counter reaches; four display digits hold it.
pub const COUNTER_MAX: u16 = 9999;

/// The value that follows `v`.
pub open spec fn next_count(v: nat) -> nat {
    if v >= COUNTER_MAX {
        0
    } else {
        v + 1
    }
}

/// The value reached from `v` after `k` increments.
pub open spec fn count_after(v: nat, k: nat) -> nat
    decreases k,
{
    if k == 0 {
        v
    } else {
        next_count(count_after(v, (k - 1) as nat))
    }
}

/// A value in `0..=COUNTER_MAX`.
pub struct Counter {
    value: u16,
}

impl View for Counter {
    type V = nat;

    closed spec fn view(&self) -> nat {
        self.value as nat
    }
}

impl Counter {
    #[verifier::type_invariant]
    spec fn in_range(&self) -> bool {
        self.value <= COUNTER_MAX
    }

    pub fn new() -> (r: Counter)
        ensures
            r@ == 0,
    {
        Counter { value: 0 }
    }

    pub fn value(&self) -> (r: u16)
        ensures
            r as nat == self@,
            r <= COUNTER_MAX,
    {
        proof {
            use_type_invariant(self);
        }
        self.value
    }

    /// Moves to the next value, wrapping from `COUNTER_MAX` to zero.
    pub fn increment(&mut self)
        ensures
            final(self)@ == next_count(old(self)@),
    {
        proof {
            use_type_invariant(&*self);
        }
        if self.value >= COUNTER_MAX {
            self.value = 0;
        } else {
            self.value = self.value + 1;
        }
    }

    /// One tick of the counting display: renders the current value into
    /// `writer`, zero-padded to its capacity, and moves to the next value.
    /// Returns the rendered text.
    pub fn tick<'a, 'w>(&mut self, writer: &'w mut FourDigitWriter<'a>) -> (r: &'w str)
        requires
            old(writer).contents().len() >= 4,
        ensures
            final(writer).contents() == formatted(old(self)@, old(writer).contents().len() as nat),
            r@ == ascii_text(formatted(old(self)@, old(writer).contents().len() as nat)),
            final(self)@ == next_count(old(self)@),
    {
        let v = self.value();
        proof {
            reveal_with_fuel(pow10, 5);
            lemma_pow10_monotone(4, writer.contents().len() as nat);
        }
        let text = writer.format(v);
        self.increment();
        text
    }
}

/// The counter never leaves `0..=COUNTER_MAX`, and after `k` increments from
/// `v` it stands at `(v + k) mod (COUNTER_MAX + 1)`: so after `COUNTER_MAX`
/// comes zero, then one.
pub proof fn law_counter_wraps(v: nat, k: nat)
    requires
        v <= COUNTER_MAX,
    ensures
        count_after(v, k) == (v + k) % (COUNTER_MAX as nat + 1),
        count_after(v, k) <= COUNTER_MAX,
    decreases k,
{
    if k == 0 {
        assert(v % 10000 == v);
    } else {
        law_counter_wraps(v, (k - 1) as nat);
        let prev = count_after(v, (k - 1) as nat);
        let n = v + k;
        assert(prev == (n - 1) % 10000);
        if prev >= 9999 {
            assert(n % 10000 == 0) by (nonlinear_arith)
                requires
                    (n - 1) % 10000 == 9999,
                    n >= 1,
            ;
        } else {
            assert(n % 10000 == (n - 1) % 10000 + 1) by (nonlinear_arith)
                requires
                    (n - 1) % 10000 < 9999,
                    n >= 1,
            ;
        }
    }
}

} // verus!
