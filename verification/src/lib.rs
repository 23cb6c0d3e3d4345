//! File-system observation and classification core of a desktop indexing agent.

pub mod batch;
pub mod bundle;
pub mod clock;
pub mod commands;
pub mod config;
pub mod event_buffer;
pub mod file_monitor;
pub mod file_monitor_debounced;
pub mod file_scanner;
pub mod hashing;
pub mod metadata;
pub mod paths;
pub mod rules;
pub mod scan;
pub mod seqs;
pub mod startup;
pub mod text;
pub mod watch;
