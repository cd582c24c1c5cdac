//! Small value types for graphics code and a named-variable store that can be
//! driven over a colon-delimited text protocol.

pub mod math;
pub mod net;
