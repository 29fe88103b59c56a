//! Rows and enumerated column types of the persistent store.

pub mod enum_type;
pub mod model;
pub mod query_buider;
