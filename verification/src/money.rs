//! Money as a count of minor currency units (cents). All arithmetic on money
//! is integer arithmetic and is checked: overflow is reported, never wrapped.

use vstd::prelude::*;

verus! {

/// A signed amount of money in minor currency units.
#[derive(Clone, Copy, Debug, PartialEq, Eq, Structural)]
pub struct Cents(pub i64);

impl Cents {
    /// Checked addition: `None` exactly when the mathematical sum does not
    /// fit in the representation.
    pub fn checked_add(self, other: Cents) -> (r: Option<Cents>)
        ensures
            match r {
                Some(c) => c.0 == self.0 + other.0,
                None => !(i64::MIN <= self.0 + other.0 <= i64::MAX),
            },
    {
        match self.0.checked_add(other.0) {
            Some(v) => Some(Cents(v)),
            None => None,
        }
    }

    /// Checked subtraction: `None` exactly when the mathematical difference
    /// does not fit in the representation.
    pub fn checked_sub(self, other: Cents) -> (r: Option<Cents>)
        ensures
            match r {
                Some(c) => c.0 == self.0 - other.0,
                None => !(i64::MIN <= self.0 - other.0 <= i64::MAX),
            },
    {
        match self.0.checked_sub(other.0) {
            Some(v) => Some(Cents(v)),
            None => None,
        }
    }
}

} // verus!
