//! Who a caller is: what is read from the credentials that come with a request.

pub mod did;
pub mod sercurity;
