use vstd::prelude::*;

verus! {

/// A predicate over an unsigned integer, deciding whether a rule contributes
/// its fragment.
#[derive(Clone, Copy, Debug)]
pub enum Condition {
    /// Satisfied by exactly the multiples of the stored factor.
    HasAsFactor(u32),
}

impl Condition {
    /// A condition is well formed when its factor is positive. A zero factor
    /// is a caller programming error and is never evaluated.
    pub open spec fn wf(self) -> bool {
        match self {
            Condition::HasAsFactor(k) => k > 0,
        }
    }
}

/// What `satisfy` decides: whether `i` is a multiple of the condition's factor.
pub open spec fn spec_satisfy(cond: Condition, i: u32) -> bool {
    match cond {
        Condition::HasAsFactor(k) => i % k == 0,
    }
}

/// Evaluates a condition against an integer.
pub fn satisfy(cond: &Condition, i: u32) -> (r: bool)
    requires
        cond.wf(),
    ensures
        r == spec_satisfy(*cond, i),
{
    match cond {
        Condition::HasAsFactor(k) => i % *k == 0,
    }
}

/// One rule: a condition and the text fragment it contributes when satisfied.
/// Fragments are owned, so generated programs do not borrow from the rule
/// list.
#[derive(Debug)]
pub struct Rule(pub Condition, pub String);

} // verus!
