//! The small example library that the shipped example projects build
//! into a C ABI: a counter for odd numbers and a trivial adder.

use vstd::prelude::*;

verus! {

/// Adds two to the given value and returns the result.
pub fn add_two(value: usize) -> (r: usize)
    requires
        value + 2 <= usize::MAX,
    ensures
        r == value + 2,
{
    value + 2
}

/// A counter for odd numbers.
#[derive(Debug)]
pub struct OddCounter {
    pub number: u32,
}

/// Error type for [`OddCounter::new`].
#[derive(Debug)]
pub enum OddCounterError {
    /// An even number was specified as `start` value.
    Even,
}

impl OddCounter {
    /// The counter always holds an odd number.
    pub open spec fn inv(&self) -> bool {
        self.number % 2 == 1
    }

    /// Create a new counter, given an odd number to start.
    pub fn new(start: u32) -> (r: Result<OddCounter, OddCounterError>)
        ensures
            r is Ok <==> start % 2 == 1,
            r matches Ok(c) ==> c.number == start && c.inv(),
    {
        if start % 2 == 0 {
            Err(OddCounterError::Even)
        } else {
            Ok(OddCounter { number: start })
        }
    }

    /// Increment by 2.
    pub fn increment(&mut self)
        requires
            old(self).number + 2 <= u32::MAX,
        ensures
            final(self).number == old(self).number + 2,
            old(self).inv() ==> final(self).inv(),
    {
        self.number = self.number + 2;
    }

    /// Obtain the current (odd) number.
    pub fn current(&self) -> (r: u32)
        ensures
            r == self.number,
    {
        self.number
    }
}

} // verus!
