//! The request and response shapes of the question API.
pub mod question;
pub mod search;
