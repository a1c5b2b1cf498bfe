//! Chart data for a stock quote viewer: axis labels bucketed by time range,
//! quartile ticks of a day's trading range, prices scaled to pixel space and
//! currency-aware price text, all built from plain values.
pub mod calendar;
pub mod chars;
pub mod chart;
pub mod ellipsis;
pub mod error;
pub mod fixed;
pub mod info;
pub mod labels;
pub mod money;
pub mod scale;
pub mod session;
pub mod text;
pub mod ticks;
