//! The values that the sample routes take, and the rules that they must meet.

pub mod body;
pub mod query;
