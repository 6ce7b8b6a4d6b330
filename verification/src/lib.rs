//! Local mail between coding-agent sessions, kept in Maildir inboxes under one mail root.
//!
//! The library decides; its caller reads the mail root, runs the identity tool, and
//! carries out the changes that a command returns.

pub mod cli;
pub mod error;
pub mod laws;
pub mod mail;
pub mod maildir;
pub mod message;
pub mod prime;
pub mod render;
pub mod report;
pub mod store;
pub mod text;
pub mod validate;
