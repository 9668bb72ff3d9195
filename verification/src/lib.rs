//! Verified core of a command-line administration client for a URL
//! shortener's API-key service: subcommand and flag dispatch, decoded
//! response interpretation, aligned table rendering, timestamp
//! formatting, and diagnostic message construction.

pub mod args;
pub mod decimal;
pub mod payload;
pub mod report;
pub mod table;
pub mod timestamp;
