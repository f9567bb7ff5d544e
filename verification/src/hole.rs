use vstd::prelude::*;

use crate::instr::Instr;
use crate::program::Program;

verus! {

/// What `combine` produces, at the level of instruction sequences: the left
/// prefix precedes the right prefix, while the right suffix precedes the left
/// suffix, nesting the right operand into the left operand's hole.
pub open spec fn spec_combine(
    a: (Seq<Instr>, Seq<Instr>),
    b: (Seq<Instr>, Seq<Instr>),
) -> (Seq<Instr>, Seq<Instr>) {
    (a.0 + b.0, b.1 + a.1)
}

/// A program with one open insertion point, representing
/// `prefix ++ <hole> ++ suffix`. Closing it is irreversible and yields a
/// standalone `Program`.
#[derive(Debug)]
pub struct ProgramWithHole {
    pre: Program,
    post: Program,
}

impl View for ProgramWithHole {
    type V = (Seq<Instr>, Seq<Instr>);

    closed spec fn view(&self) -> (Seq<Instr>, Seq<Instr>) {
        (self.pre@, self.post@)
    }
}

impl ProgramWithHole {
    /// A holed program with the given prefix and suffix around the hole.
    pub fn new(pre: Program, post: Program) -> (r: ProgramWithHole)
        ensures
            r@ == (pre@, post@),
    {
        ProgramWithHole { pre, post }
    }

    /// Nests `other` into `self`'s hole: `other`'s prefix lands after
    /// `self`'s prefix, and `other`'s suffix lands before `self`'s suffix,
    /// so earlier-combined prefixes come first and their closing suffixes
    /// wrap around everything combined later.
    pub fn combine(self, other: ProgramWithHole) -> (r: ProgramWithHole)
        ensures
            r@ == spec_combine(self@, other@),
    {
        ProgramWithHole::new(self.pre.concat(other.pre), other.post.concat(self.post))
    }

    /// Seals the hole: the prefix followed by the suffix, as one final
    /// `Program`. Consumes the value; no further composition is possible.
    pub fn close(self) -> (r: Program)
        ensures
            r@ == self@.0 + self@.1,
    {
        self.pre.concat(self.post)
    }
}

} // verus!
