//! Routing of a four-character text onto the two display segments.
//!
//! Segment A shows the first two characters and segment B the last two, each
//! at columns 0 and 5. The composition writes the four characters in order,
//! then commits segment B and then segment A, and stops at the first failure.
//! The bus work itself is done by the caller: it asks for the pending
//! operation, performs it, and reports the outcome back.
use vstd::prelude::*;

verus! {

/// Number of operations in one composition: four writes and two commits.
pub const STEPS: usize = 6;

/// Column of the first character cell of a segment.
pub const LEFT_COLUMN: u8 = 0;

/// Column of the second character cell of a segment.
pub const RIGHT_COLUMN: u8 = 5;

/// One of the two display segments.
#[derive(Clone, Copy, Debug, PartialEq, Eq, Structural)]
pub enum Segment {
    /// Shows characters 0 and 1 of the text.
    A,
    /// Shows characters 2 and 3 of the text.
    B,
}

/// One bus operation on a segment.
#[derive(Clone, Copy, Debug, PartialEq, Eq, Structural)]
pub enum Op {
    /// Put a character into the cell at a column.
    SetCharacter { segment: Segment, column: u8, ch: char },
    /// Commit what was written, so that the segment shows it.
    Show { segment: Segment },
}

/// The operation at step `k` of composing `text`.
pub open spec fn op_at(text: Seq<char>, k: int) -> Op {
    if k == 0 {
        Op::SetCharacter { segment: Segment::A, column: LEFT_COLUMN, ch: text[0] }
    } else if k == 1 {
        Op::SetCharacter { segment: Segment::A, column: RIGHT_COLUMN, ch: text[1] }
    } else if k == 2 {
        Op::SetCharacter { segment: Segment::B, column: LEFT_COLUMN, ch: text[2] }
    } else if k == 3 {
        Op::SetCharacter { segment: Segment::B, column: RIGHT_COLUMN, ch: text[3] }
    } else if k == 4 {
        Op::Show { segment: Segment::B }
    } else {
        Op::Show { segment: Segment::A }
    }
}

/// The operation that waits to be performed, if any.
pub open spec fn pending_spec(text: Seq<char>, position: nat, finished: bool) -> Option<Op> {
    if finished || position >= STEPS {
        None
    } else {
        Some(op_at(text, position as int))
    }
}

/// What the composition answers when the operation at `position` ends with
/// `outcome`: the result of the whole composition once it is over, `None`
/// while operations remain.
pub open spec fn reply_spec<E>(position: nat, outcome: Result<(), E>) -> Option<Result<(), E>> {
    match outcome {
        Err(e) => Some(Err(e)),
        Ok(()) => if position + 1 >= STEPS {
            Some(Ok(()))
        } else {
            None
        },
    }
}

/// Relies on `str::chars` and `Iterator::nth`: the character at index `i`.
#[verifier::external_body]
fn char_at(s: &str, i: usize) -> (r: char)
    requires
        i < s@.len(),
    ensures
        r == s@[i as int],
{
    s.chars().nth(i).unwrap()
}

/// The progress of one composition: the text, how many operations have
/// succeeded, and whether it is over.
pub struct Composer {
    text: [char; 4],
    position: usize,
    finished: bool,
}

impl Composer {
    #[verifier::type_invariant]
    spec fn well_formed(&self) -> bool {
        &&& self.position <= STEPS
        &&& self.position == STEPS ==> self.finished
    }

    /// The text being composed.
    pub closed spec fn text(&self) -> Seq<char> {
        self.text@
    }

    /// How many operations have succeeded.
    pub closed spec fn position(&self) -> nat {
        self.position as nat
    }

    /// Whether the composition is over, by success or failure.
    pub closed spec fn is_finished(&self) -> bool {
        self.finished
    }

    pub fn new(text: &str) -> (r: Composer)
        requires
            text@.len() == 4,
        ensures
            r.text() == text@,
            r.position() == 0,
            !r.is_finished(),
    {
        let chars = [char_at(text, 0), char_at(text, 1), char_at(text, 2), char_at(text, 3)];
        assert(chars@ =~= text@);
        Composer { text: chars, position: 0, finished: false }
    }

    /// The operation to perform next, or `None` once the composition is over.
    pub fn pending(&self) -> (r: Option<Op>)
        ensures
            r == pending_spec(self.text(), self.position(), self.is_finished()),
    {
        proof {
            use_type_invariant(self);
        }
        if self.finished {
            None
        } else {
            let k = self.position;
            let op = if k == 0 {
                Op::SetCharacter { segment: Segment::A, column: LEFT_COLUMN, ch: self.text[0] }
            } else if k == 1 {
                Op::SetCharacter { segment: Segment::A, column: RIGHT_COLUMN, ch: self.text[1] }
            } else if k == 2 {
                Op::SetCharacter { segment: Segment::B, column: LEFT_COLUMN, ch: self.text[2] }
            } else if k == 3 {
                Op::SetCharacter { segment: Segment::B, column: RIGHT_COLUMN, ch: self.text[3] }
            } else if k == 4 {
                Op::Show { segment: Segment::B }
            } else {
                Op::Show { segment: Segment::A }
            };
            Some(op)
        }
    }

    /// Records the outcome of the pending operation. A failure ends the
    /// composition with that error; the last success ends it with `Ok`.
    pub fn complete<E>(&mut self, outcome: Result<(), E>) -> (r: Option<Result<(), E>>)
        requires
            pending_spec(old(self).text(), old(self).position(), old(self).is_finished()) is Some,
        ensures
            r == reply_spec(old(self).position(), outcome),
            final(self).text() == old(self).text(),
            final(self).position() == if outcome is Ok {
                old(self).position() + 1
            } else {
                old(self).position()
            },
            final(self).is_finished() == (r is Some),
    {
        proof {
            use_type_invariant(&*self);
        }
        match outcome {
            Err(e) => {
                self.finished = true;
                Some(Err(e))
            },
            Ok(()) => {
                let next = self.position + 1;
                if next >= STEPS {
                    self.finished = true;
                    self.position = next;
                    Some(Ok(()))
                } else {
                    self.position = next;
                    None
                }
            },
        }
    }
}

/// The first failure ends the composition: the composer answers with that
/// same error, and no further operation is pending.
pub proof fn law_failure_stops<E>(text: Seq<char>, position: nat, e: E)
    requires
        position < STEPS,
    ensures
        reply_spec(position, Err::<(), E>(e)) == Some(Err::<(), E>(e)),
        pending_spec(text, position, true) is None,
{
}

/// Only after four successful writes are the segments committed, segment B
/// before segment A; and a composition in which every operation succeeds
/// answers `Ok` after exactly `STEPS` operations.
pub proof fn law_commit_order(text: Seq<char>)
    ensures
        forall|k: int| 0 <= k < 4 ==> (#[trigger] op_at(text, k)) is SetCharacter,
        op_at(text, 4) == (Op::Show { segment: Segment::B }),
        op_at(text, 5) == (Op::Show { segment: Segment::A }),
        forall|p: nat| p + 1 < STEPS ==> #[trigger] reply_spec::<()>(p, Ok(())) is None,
        reply_spec::<()>((STEPS - 1) as nat, Ok(())) == Some(Ok::<(), ()>(())),
{
}

} // verus!
