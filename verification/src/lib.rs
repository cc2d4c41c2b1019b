//! A dotfiles manager: configuration files move into one repository directory,
//! symbolic links take their old places, and a small manifest records which
//! file belongs where.
//!
//! The library never touches the disk. Each command is a machine that names the
//! next filesystem operation, takes its outcome, and decides what follows; a
//! driver outside the library performs the operations.

pub mod actions;
pub mod cli;
pub mod config;
pub mod document;
pub mod effect;
pub mod error;
pub mod paths;
pub mod reconcile;
pub mod world;
pub mod laws;
