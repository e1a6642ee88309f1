use vstd::prelude::*;
use vstd::std_specs::ops::NotSpecImpl;

verus! {

#[derive(Debug, Copy, Clone, PartialEq, Eq, Structural)]
pub enum Colour {
    White,
    Black,
}

impl Colour {
    /// The position of the colour in tables indexed by colour: white 0, black 1.
    pub open spec fn spec_index(self) -> usize {
        match self {
            Colour::White => 0,
            Colour::Black => 1,
        }
    }

    pub open spec fn spec_other(self) -> Colour {
        match self {
            Colour::White => Colour::Black,
            Colour::Black => Colour::White,
        }
    }

    pub fn index(self) -> (r: usize)
        ensures
            r == self.spec_index(),
    {
        match self {
            Colour::White => 0,
            Colour::Black => 1,
        }
    }

    /// The other colour.
    pub fn other(self) -> (r: Colour)
        ensures
            r == self.spec_other(),
    {
        match self {
            Colour::White => Colour::Black,
            Colour::Black => Colour::White,
        }
    }

    /// The name of the colour, `White` or `Black`.
    pub fn name(&self) -> (r: &'static str)
        ensures
            r@ == (if *self == Colour::White { "White"@ } else { "Black"@ }),
    {
        match self {
            Colour::White => "White",
            Colour::Black => "Black",
        }
    }
}

impl core::ops::Not for Colour {
    type Output = Self;

    fn not(self) -> (r: Self) {
        match self {
            Colour::White => Colour::Black,
            Colour::Black => Colour::White,
        }
    }
}

impl NotSpecImpl for Colour {
    open spec fn obeys_not_spec() -> bool {
        true
    }

    open spec fn not_req(self) -> bool {
        true
    }

    open spec fn not_spec(self) -> Self {
        self.spec_other()
    }
}

/// The other colour of the other colour is the colour itself.
pub proof fn lemma_colour_not_involution(c: Colour)
    ensures
        c.spec_other().spec_other() == c,
        c.spec_other() != c,
{
}

} // verus!
