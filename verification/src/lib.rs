//! Batch file renaming: the rename modes, the preview engine, the
//! interactive application state machine and the preset configuration,
//! each with its contract.

pub mod modes;
pub mod text;
pub mod entry;
pub mod operations;
pub mod date;
pub mod pattern;
pub mod rules;
pub mod utf8text;
pub mod app;
pub mod keys;
pub mod config;
pub mod cli;
pub mod panels;
