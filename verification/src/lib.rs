//! An in-memory registry of person records: length-validated input types,
//! a calendar-date codec for the `YYYY-MM-DD` wire form, and a concurrent
//! store of records keyed by a process-unique 128-bit identifier.

pub mod date;
pub mod person;
pub mod registry;
pub mod shared;
pub mod validate;
