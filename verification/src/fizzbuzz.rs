//! A small demonstration type used by the example program: a counter that
//! knows whether it is divisible by three, by five, or by both.

use vstd::prelude::*;

verus! {

/// A counter with divisibility tests.
pub struct FizzBuzz(pub usize);

impl core::convert::From<usize> for FizzBuzz {
    fn from(val: usize) -> (r: Self) {
        FizzBuzz(val)
    }
}

impl vstd::std_specs::convert::FromSpecImpl<usize> for FizzBuzz {
    open spec fn obeys_from_spec() -> bool {
        true
    }

    open spec fn from_spec(val: usize) -> Self {
        FizzBuzz(val)
    }
}

impl FizzBuzz {
    /// Divisible by three.
    pub fn is_fizz(&self) -> (r: bool)
        ensures
            r == (self.0 % 3 == 0),
    {
        self.0 % 3 == 0
    }

    /// Divisible by five.
    pub fn is_buzz(&self) -> (r: bool)
        ensures
            r == (self.0 % 5 == 0),
    {
        self.0 % 5 == 0
    }

    /// Divisible by both three and five.
    pub fn is_fizz_buzz(&self) -> (r: bool)
        ensures
            r == (self.0 % 3 == 0 && self.0 % 5 == 0),
    {
        self.is_fizz() && self.is_buzz()
    }
}

} // verus!
