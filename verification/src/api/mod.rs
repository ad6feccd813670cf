//! The decisions behind the web pages: validation of forms, pagination,
//! verdict display, contest listings and standings.
pub mod handlers;
pub mod standings;
