//! A diary kept as one text file per day, edited with an external editor.
//!
//! The library holds the decisions: where the data lives, which files are
//! entries and which are backups, which entry an index selects, and the
//! backup/restore protocol that keeps an entry intact when an edit fails.
//! The program around it performs the file and process work that those
//! decisions ask for.
use vstd::prelude::*;

pub mod config;
pub mod date;
pub mod error;
pub mod listing;
pub mod model;
pub mod paths;
pub mod session;
pub mod sweep;
