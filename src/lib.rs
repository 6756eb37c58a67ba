pub mod urlencoding;
pub mod query;
pub mod auth;
pub mod session;
