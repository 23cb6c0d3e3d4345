//! What the shell answers to the user interface: the plain values of the
//! answers, and the small decisions behind them.

use vstd::prelude::*;
use crate::file_monitor::{FileMonitor, MonitorStats};
use crate::text::{chars_of, has_prefix, starts_with};

verus! {

/// Why a command could not be answered.
#[derive(Debug, Clone, Copy, PartialEq, Eq, Structural)]
pub enum CommandError {
    /// Monitoring has not been started.
    MonitorNotStarted,
}

/// The counters of the monitor, as the user interface gets them.
#[derive(Debug, Clone, Copy, PartialEq, Eq, Structural)]
pub struct MonitorStatsResponse {
    pub processed_files: u64,
    pub filtered_files: u64,
    pub filtered_bundles: u64,
    pub error_count: u64,
}

/// One subdirectory, as the user interface gets it.
#[derive(Debug, PartialEq, Eq)]
pub struct DirectoryEntry {
    pub name: String,
    pub path: String,
    pub is_directory: bool,
}

/// The answer for the counters `stats`.
pub open spec fn response_of(stats: MonitorStats) -> MonitorStatsResponse {
    MonitorStatsResponse {
        processed_files: stats.processed_files,
        filtered_files: stats.filtered_files,
        filtered_bundles: stats.filtered_bundles,
        error_count: stats.error_count,
    }
}

/// An entry is listed if it is a directory whose name does not start with a
/// dot.
pub open spec fn listed(name: Seq<char>, is_directory: bool) -> bool {
    is_directory && !starts_with(name, seq!['.'])
}

/// The counters of `monitor`, or an error where there is no monitor yet.
pub fn get_file_monitor_stats(monitor: Option<&FileMonitor>) -> (r: Result<
    MonitorStatsResponse,
    CommandError,
>)
    ensures
        match monitor {
            Some(m) => r == Ok::<MonitorStatsResponse, CommandError>(response_of(m@.stats)),
            None => r == Err::<MonitorStatsResponse, CommandError>(CommandError::MonitorNotStarted),
        },
{
    match monitor {
        Some(m) => {
            let stats = m.get_monitor_stats();
            Ok(
                MonitorStatsResponse {
                    processed_files: stats.processed_files,
                    filtered_files: stats.filtered_files,
                    filtered_bundles: stats.filtered_bundles,
                    error_count: stats.error_count,
                },
            )
        },
        None => Err(CommandError::MonitorNotStarted),
    }
}

/// The entry for a directory named `name` at `path`, if it is to be listed:
/// files and hidden directories are not.
pub fn directory_entry(name: &str, path: &str, is_directory: bool) -> (r: Option<DirectoryEntry>)
    ensures
        r.is_some() == listed(name@, is_directory),
        r.is_some() ==> r.unwrap().name@ == name@ && r.unwrap().path@ == path@
            && r.unwrap().is_directory,
{
    if !is_directory {
        return None;
    }
    let n = chars_of(name);
    let mut dot: Vec<char> = Vec::new();
    dot.push('.');
    assert(dot@ =~= seq!['.']);
    if has_prefix(n.as_slice(), dot.as_slice()) {
        return None;
    }
    Some(DirectoryEntry { name: name.to_owned(), path: path.to_owned(), is_directory })
}

} // verus!
