//! Exact, integer-based rendering of elapsed-time intervals as short
//! human-readable text with an automatically chosen unit.

pub mod format;
pub mod interval;

pub use format::TimeFormat;
pub use interval::Interval;
