//! The screens' view models: pure logic the shell draws from.
pub mod search;
pub mod library;
pub mod queue;
pub mod login;
pub mod ingest;
pub mod settings;
pub mod details;
pub mod home;
