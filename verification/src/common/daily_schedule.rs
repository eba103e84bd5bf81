use vstd::prelude::*;
use crate::application_protocol::primitives::data_value::{Enumerated, Time};

verus! {

/// A value that a schedule can set at a given time. Floating-point numbers
/// are held by their bit patterns.
#[derive(Debug, Clone, Copy, PartialEq, Eq, Structural)]
pub enum SimpleApplicationDataValue {
    Boolean(bool),
    SignedInt(i32),
    UnsignedInt(u32),
    Real(u32),
    Double(u64),
    Enumerated(Enumerated),
}

/// One entry of a day's schedule: from `time` on, `value` holds.
#[derive(Debug, Clone, Copy, PartialEq, Eq, Structural)]
pub struct TimeValue {
    pub time: Time,
    pub value: SimpleApplicationDataValue,
}

/// The entries of each day of a week.
#[derive(Debug, Clone, PartialEq, Eq)]
pub struct WeeklySchedule {
    pub monday: Vec<TimeValue>,
    pub tuesday: Vec<TimeValue>,
    pub wednesday: Vec<TimeValue>,
    pub thursday: Vec<TimeValue>,
    pub friday: Vec<TimeValue>,
    pub saturday: Vec<TimeValue>,
    pub sunday: Vec<TimeValue>,
}

} // verus!
