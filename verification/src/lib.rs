//! Verified core of the emiko shell assistant.
pub mod text;
pub mod chunking;
pub mod rag;
pub mod command;
pub mod prompt;
pub mod terminal;
pub mod paths;
pub mod records;
pub mod config;
pub mod args;
pub mod session;
