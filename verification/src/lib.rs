//! Backup-protected, case-insensitive text substitution.
//!
//! [`replace`] rewrites the text of one file after saving what it held under
//! a backup directory that mirrors the live paths; [`restore_backup`] writes
//! every backup back and removes that directory. Neither reads or writes by
//! itself: each is a chain of states that tell the caller what to do next
//! and take what came of it, so that the order of the steps, and what is
//! written where, is decided here.

pub mod caller;
pub mod error;
pub mod mutate;
pub mod paths;
pub mod pattern;
pub mod restore;
pub mod store;
pub mod text;

pub use crate::error::Failure;
pub use crate::mutate::replace;
pub use crate::restore::restore_backup;
