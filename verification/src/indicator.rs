//! The per-row indicator: a tri-state marker distinguishing a null value, a
//! value whose exact source length was not reported, and a value with a known
//! length in bytes. The raw form is one platform-native signed word per row,
//! using the sentinel values of the row-group binding interface.

use vstd::prelude::*;

verus! {

/// Raw sentinel marking a row as null.
pub const NULL_SENTINEL: isize = -1;

/// Raw sentinel marking a row whose data is present but whose total length
/// the data source did not report.
pub const NO_TOTAL_SENTINEL: isize = -4;

/// Per-row state of a text column buffer. `Length` carries the length in
/// bytes as reported by the data source; it may exceed the committed buffer
/// capacity, which signals truncation.
#[derive(Clone, Copy, Debug, PartialEq, Eq, Structural)]
pub enum Indicator {
    /// The row holds no data.
    Null,
    /// Data is present, but the source reported no total length; a consumer
    /// must assume the full committed maximum length was written.
    NoTotal,
    /// Exact length of the value at the data source, in bytes.
    Length(usize),
}

/// A raw indicator word is meaningful if it is one of the two sentinels or a
/// non-negative byte length.
pub open spec fn valid_raw_indicator(raw: isize) -> bool {
    raw == NULL_SENTINEL || raw == NO_TOTAL_SENTINEL || raw >= 0
}

/// Mathematical form of the raw-word classification.
pub open spec fn spec_indicator_from(raw: isize) -> Indicator
    recommends
        valid_raw_indicator(raw),
{
    if raw == NULL_SENTINEL {
        Indicator::Null
    } else if raw == NO_TOTAL_SENTINEL {
        Indicator::NoTotal
    } else {
        Indicator::Length(raw as usize)
    }
}

impl Indicator {
    /// Classifies a raw indicator word. Negative words other than the two
    /// sentinels carry no meaning and are ruled out by contract.
    pub fn from_isize(raw: isize) -> (r: Indicator)
        requires
            valid_raw_indicator(raw),
        ensures
            r == spec_indicator_from(raw),
    {
        if raw == NULL_SENTINEL {
            Indicator::Null
        } else if raw == NO_TOTAL_SENTINEL {
            Indicator::NoTotal
        } else {
            Indicator::Length(raw as usize)
        }
    }
}

} // verus!
