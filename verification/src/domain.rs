use vstd::prelude::*;

verus! {

/// An hour of the day, kept in `[0, 23]`.
#[derive(Debug, Clone, Copy, PartialEq, Eq, Structural)]
pub struct Hours(u8);

impl Hours {
    pub closed spec fn spec_value(&self) -> u8 {
        self.0
    }

    /// `Some` exactly when `hours` is a valid hour of the day.
    pub fn new(hours: u8) -> (r: Option<Hours>)
        ensures
            r is Some <==> hours <= 23,
            r is Some ==> r->0.spec_value() == hours,
    {
        if hours > 23 {
            return None;
        }

        Some(Hours(hours))
    }

    pub fn value(&self) -> (r: u8)
        ensures
            r == self.spec_value(),
    {
        self.0
    }
}

/// A minute of the hour, kept in `[0, 59]`.
#[derive(Debug, Clone, Copy, PartialEq, Eq, Structural)]
pub struct Minutes(u8);

impl Minutes {
    pub closed spec fn spec_value(&self) -> u8 {
        self.0
    }

    /// `Some` exactly when `minutes` is a valid minute of the hour.
    pub fn new(minutes: u8) -> (r: Option<Minutes>)
        ensures
            r is Some <==> minutes <= 59,
            r is Some ==> r->0.spec_value() == minutes,
    {
        if minutes > 59 {
            return None;
        }

        Some(Minutes(minutes))
    }

    pub fn value(&self) -> (r: u8)
        ensures
            r == self.spec_value(),
    {
        self.0
    }
}

} // verus!
