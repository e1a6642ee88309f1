use vstd::prelude::*;
use vstd::std_specs::ops::NotSpecImpl;

verus! {

/// The side to move (`Us`) or the other side (`Them`).
#[derive(Debug, Copy, Clone, PartialEq, Eq, Structural)]
pub enum Side {
    Us,
    Them,
}

impl Side {
    /// The position of the side in tables indexed by side: us 0, them 1.
    pub open spec fn spec_index(self) -> usize {
        match self {
            Side::Us => 0,
            Side::Them => 1,
        }
    }

    pub open spec fn spec_other(self) -> Side {
        match self {
            Side::Us => Side::Them,
            Side::Them => Side::Us,
        }
    }

    /// The other side.
    pub fn other(self) -> (r: Side)
        ensures
            r == self.spec_other(),
    {
        match self {
            Side::Us => Side::Them,
            Side::Them => Side::Us,
        }
    }

    pub fn index(self) -> (r: usize)
        ensures
            r == self.spec_index(),
    {
        match self {
            Side::Us => 0,
            Side::Them => 1,
        }
    }
}

impl core::ops::Not for Side {
    type Output = Self;

    fn not(self) -> (r: Self) {
        match self {
            Side::Us => Side::Them,
            Side::Them => Side::Us,
        }
    }
}

impl NotSpecImpl for Side {
    open spec fn obeys_not_spec() -> bool {
        true
    }

    open spec fn not_req(self) -> bool {
        true
    }

    open spec fn not_spec(self) -> Self {
        self.spec_other()
    }
}

/// The other side of the other side is the side itself.
pub proof fn lemma_side_not_involution(s: Side)
    ensures
        s.spec_other().spec_other() == s,
        s.spec_other() != s,
{
}

} // verus!
