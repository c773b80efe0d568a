//! Constant-time comparison, selection and time-period helpers.

pub mod bytes;
pub mod cmp;
pub mod swap;
pub mod time;
pub mod order;
