use vstd::prelude::*;

verus! {

/// Why chart data could not be built.
#[derive(Clone, Copy, Debug, PartialEq, Eq, Structural)]
pub enum ChartError {
    /// The time-range code is not one of the known codes.
    UnimplementedRange,
    /// A timestamp lies outside the calendar that dates can be given in.
    InvalidTimestamp,
    /// The day-range text is not two parts around one `" - "`.
    MalformedRangeString,
    /// One part of the day-range text is not a decimal number.
    NumberParseError,
    /// There are no quotes.
    EmptySeries,
}

} // verus!
