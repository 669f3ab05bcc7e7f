//! A chat bot's command layer for a recruiter search API: request building,
//! response classification, per-user sessions and the command handlers.

pub mod honeypot;
pub mod handlers;
