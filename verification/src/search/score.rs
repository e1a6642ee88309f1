use vstd::prelude::*;
use vstd::std_specs::ops::{AddSpecImpl, MulSpecImpl, SubSpecImpl};

verus! {

/// A score in two parts: its middlegame value and its endgame value.
#[derive(Copy, Clone, Debug, PartialEq, Eq, Structural)]
pub struct Score(pub i32, pub i32);

/// The value fits an `i32`.
pub open spec fn fits_i32(v: int) -> bool {
    i32::MIN <= v <= i32::MAX
}

impl Score {
    /// The middlegame value.
    pub fn mg(&self) -> (r: i32)
        ensures
            r == self.0,
    {
        self.0
    }

    /// The endgame value.
    pub fn eg(&self) -> (r: i32)
        ensures
            r == self.1,
    {
        self.1
    }
}

impl Default for Score {
    fn default() -> (r: Self)
        ensures
            r == Score(0, 0),
    {
        Score(0, 0)
    }
}

impl core::ops::Add for Score {
    type Output = Self;

    fn add(self, rhs: Self) -> (r: Self) {
        Self(self.0 + rhs.0, self.1 + rhs.1)
    }
}

impl AddSpecImpl for Score {
    open spec fn obeys_add_spec() -> bool {
        true
    }

    open spec fn add_req(self, rhs: Self) -> bool {
        fits_i32(self.0 + rhs.0) && fits_i32(self.1 + rhs.1)
    }

    open spec fn add_spec(self, rhs: Self) -> Self {
        Score((self.0 + rhs.0) as i32, (self.1 + rhs.1) as i32)
    }
}

impl core::ops::Sub for Score {
    type Output = Self;

    fn sub(self, rhs: Self) -> (r: Self) {
        Self(self.0 - rhs.0, self.1 - rhs.1)
    }
}

impl SubSpecImpl for Score {
    open spec fn obeys_sub_spec() -> bool {
        true
    }

    open spec fn sub_req(self, rhs: Self) -> bool {
        fits_i32(self.0 - rhs.0) && fits_i32(self.1 - rhs.1)
    }

    open spec fn sub_spec(self, rhs: Self) -> Self {
        Score((self.0 - rhs.0) as i32, (self.1 - rhs.1) as i32)
    }
}

impl core::ops::Mul<i32> for Score {
    type Output = Self;

    fn mul(self, rhs: i32) -> (r: Self) {
        Self(self.0 * rhs, self.1 * rhs)
    }
}

impl MulSpecImpl<i32> for Score {
    open spec fn obeys_mul_spec() -> bool {
        true
    }

    open spec fn mul_req(self, rhs: i32) -> bool {
        fits_i32(self.0 * rhs) && fits_i32(self.1 * rhs)
    }

    open spec fn mul_spec(self, rhs: i32) -> Self {
        Score((self.0 * rhs) as i32, (self.1 * rhs) as i32)
    }
}

impl core::ops::Mul<Score> for i32 {
    type Output = Score;

    fn mul(self, rhs: Score) -> (r: Score) {
        Score(self * rhs.0, self * rhs.1)
    }
}

impl MulSpecImpl<Score> for i32 {
    open spec fn obeys_mul_spec() -> bool {
        true
    }

    open spec fn mul_req(self, rhs: Score) -> bool {
        fits_i32(self * rhs.0) && fits_i32(self * rhs.1)
    }

    open spec fn mul_spec(self, rhs: Score) -> Score {
        Score((self * rhs.0) as i32, (self * rhs.1) as i32)
    }
}

impl core::ops::AddAssign for Score {
    fn add_assign(&mut self, rhs: Self)
        requires
            fits_i32(old(self).0 + rhs.0) && fits_i32(old(self).1 + rhs.1),
        ensures
            *final(self) == Score((old(self).0 + rhs.0) as i32, (old(self).1 + rhs.1) as i32),
    {
        self.0 = self.0 + rhs.0;
        self.1 = self.1 + rhs.1;
    }
}

impl core::ops::SubAssign for Score {
    fn sub_assign(&mut self, rhs: Self)
        requires
            fits_i32(old(self).0 - rhs.0) && fits_i32(old(self).1 - rhs.1),
        ensures
            *final(self) == Score((old(self).0 - rhs.0) as i32, (old(self).1 - rhs.1) as i32),
    {
        self.0 = self.0 - rhs.0;
        self.1 = self.1 - rhs.1;
    }
}

} // verus!
