//! Listing engine of a business-review backend: a composer of filtered
//! selections over businesses, a sampler, a batched loader of media per
//! business, and the account plumbing that surrounds them.

pub mod database;
pub mod error;
pub mod intercept;
pub mod listing;
pub mod routes;
pub mod schedulers;
pub mod services;
