//! Operations on bounded values: comparison, conversion, operator
//! forwarding, and the default-value capability.

pub mod cmp;
pub mod convert;
pub mod misc;
pub mod ops;
