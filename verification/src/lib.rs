//! The verified core of a small issue tracker: issue statuses, password
//! hashing, request checks and the HTML fragments the server answers with.

pub mod status;
pub mod text;
pub mod digest;
pub mod auth;
pub mod requests;
pub mod pages;
