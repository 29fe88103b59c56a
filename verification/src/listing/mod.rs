//! The listing engine: predicate set, query composer, sampler, batched loader of
//! media and result assembler.

pub mod assembler;
pub mod engine;
pub mod loader;
pub mod predicate;
pub mod sampler;
pub mod selection;
pub mod store;
