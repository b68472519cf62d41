pub mod auth;
pub mod keys;
pub mod lifecycle;
pub mod responses;
