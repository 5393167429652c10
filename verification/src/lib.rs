//! Bookmarks with recurring "check back" reminders: the record store, the
//! rule that decides when a reminder is due, and the scheduler that polls it.

pub mod clock;
pub mod database;
pub mod error;
pub mod export;
pub mod import;
pub mod laws;
pub mod models;
pub mod reminder;
pub mod text;
