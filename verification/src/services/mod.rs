//! What the endpoints of the platform decide, apart from the transport.

pub mod auth;
pub mod business;
