//! What the scheduled jobs decide.

pub mod cmc;
