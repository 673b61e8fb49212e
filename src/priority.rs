use vstd::prelude::*;

verus! {

/// The urgency of a message, ascending: `Low < Medium < Normal < High < Critical`.
#[derive(Clone, Copy, Debug, PartialEq, Eq, Structural, PartialOrd, Ord, Hash)]
pub enum Priority {
    Low,
    Medium,
    Normal,
    High,
    Critical,
}

/// Number of distinct priority levels.
pub const PRIORITY_LEVELS: usize = 5;

impl Priority {
    /// Position of the priority on the ascending scale, `Low` being 0.
    pub open spec fn spec_rank(self) -> nat {
        match self {
            Priority::Low => 0,
            Priority::Medium => 1,
            Priority::Normal => 2,
            Priority::High => 3,
            Priority::Critical => 4,
        }
    }

    pub fn rank(&self) -> (r: usize)
        ensures
            r == self.spec_rank(),
            r < PRIORITY_LEVELS,
    {
        match self {
            Priority::Low => 0,
            Priority::Medium => 1,
            Priority::Normal => 2,
            Priority::High => 3,
            Priority::Critical => 4,
        }
    }

    /// Whether `self` is at least as urgent as `min`.
    pub fn at_least(&self, min: &Priority) -> (r: bool)
        ensures
            r == (self.spec_rank() >= min.spec_rank()),
    {
        self.rank() >= min.rank()
    }
}

} // verus!
