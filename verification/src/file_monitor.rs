//! The monitor: the directory sets, the configuration cache, the cache of
//! bundle suffixes and the counters, and the classification of single paths
//! against them.

use vstd::prelude::*;
use crate::bundle::{
    builtin_bundle_extensions, builtin_suffixes, fallback_bundle_extensions, fallback_suffixes,
    inside_bundle, is_inside_bundle, names_bundle, path_names_bundle,
};
use crate::clock::unix_time_millis;
use crate::config::{
    blacklist_set, clone_directories, extension_allowed, passes_whitelist, select_blacklisted,
    select_watched, watch_set, AllConfigurations, AllConfigurationsView, DirectoryAuthStatus,
    MonitoredDirectory, MonitoredDirectoryView,
};
use crate::file_monitor_debounced::ChangeKind;
use crate::hashing::{calculate_simple_hash, simple_hash, HASH_PREFIX_LIMIT};
use crate::metadata::{
    bundle_layout, bundle_manifest, clone_strings, get_file_metadata, has_bundle_layout,
    has_bundle_manifest, initial_metadata, FileMetadata, FileMetadataView, PathProbe,
    PathProbeView,
};
use crate::paths::{extension, get_file_extension, hidden_path, is_hidden_path};
use crate::rules::{classified, evaluate_rules, final_state};
use crate::text::{chars_of, has_prefix, starts_with};

verus! {

/// How many records a batch holds at most, unless set otherwise.
pub const DEFAULT_BATCH_SIZE: usize = 50;

/// After how many milliseconds a batch is sent at the latest, unless set
/// otherwise.
pub const DEFAULT_BATCH_INTERVAL_MS: u64 = 5000;

/// For how many milliseconds a fetched list of bundle suffixes is served.
pub const BUNDLE_CACHE_TTL_MS: u64 = 3600000;

/// What the monitor has counted. The counters only grow; each stays at its
/// largest value once it has reached it.
#[derive(Debug, Clone, Copy, PartialEq, Eq, Structural)]
pub struct MonitorStats {
    /// Records that went through the rules.
    pub processed_files: u64,
    /// Paths and records that were filtered out.
    pub filtered_files: u64,
    /// Bundles that were filtered out.
    pub filtered_bundles: u64,
    /// Errors met.
    pub error_count: u64,
}

/// `count` raised by `by`, and no further than the largest value.
pub open spec fn raised(count: u64, by: int) -> u64 {
    if count + by > u64::MAX {
        u64::MAX
    } else {
        (count + by) as u64
    }
}

/// `count` raised by `by`, and no further than the largest value.
pub fn raise(count: u64, by: u64) -> (r: u64)
    ensures
        r == raised(count, by as int),
        r >= count,
{
    if count > u64::MAX - by {
        u64::MAX
    } else {
        count + by
    }
}

/// Why the monitor could not do what it was asked.
#[derive(Debug, Clone, Copy, PartialEq, Eq, Structural)]
pub enum MonitorError {
    /// No watched directory has this number.
    DirectoryNotFound(i32),
}

/// The monitor.
#[derive(Debug)]
pub struct FileMonitor {
    monitored_dirs: Vec<MonitoredDirectory>,
    blacklist_dirs: Vec<MonitoredDirectory>,
    config_cache: Option<AllConfigurations>,
    bundle_extensions_cache: Option<Vec<String>>,
    bundle_cache_timestamp: Option<u64>,
    api_host: String,
    api_port: u16,
    batch_size: usize,
    batch_interval_ms: u64,
    stats: MonitorStats,
}

/// The value of a [`FileMonitor`].
pub struct FileMonitorView {
    /// The directories that are watched.
    pub monitored_dirs: Seq<MonitoredDirectoryView>,
    /// The directories whose content is left out.
    pub blacklist_dirs: Seq<MonitoredDirectoryView>,
    /// The configuration fetched last.
    pub config: Option<AllConfigurationsView>,
    /// The bundle suffixes fetched last.
    pub bundle_extensions: Option<Seq<Seq<char>>>,
    /// When they were fetched, in milliseconds since the epoch.
    pub bundle_timestamp: Option<u64>,
    /// Where the remote service listens.
    pub api_host: Seq<char>,
    pub api_port: u16,
    /// How batches are cut.
    pub batch_size: usize,
    pub batch_interval_ms: u64,
    /// The counters.
    pub stats: MonitorStats,
}

impl View for FileMonitor {
    type V = FileMonitorView;

    closed spec fn view(&self) -> FileMonitorView {
        FileMonitorView {
            monitored_dirs: self.monitored_dirs.deep_view(),
            blacklist_dirs: self.blacklist_dirs.deep_view(),
            config: self.config_cache.deep_view(),
            bundle_extensions: self.bundle_extensions_cache.deep_view(),
            bundle_timestamp: self.bundle_cache_timestamp,
            api_host: self.api_host@,
            api_port: self.api_port,
            batch_size: self.batch_size,
            batch_interval_ms: self.batch_interval_ms,
            stats: self.stats,
        }
    }
}

/// `s` without the separators at its end.
pub open spec fn trim_slashes(s: Seq<char>) -> Seq<char>
    decreases s.len(),
{
    if s.len() > 0 && s.last() == '/' {
        trim_slashes(s.drop_last())
    } else {
        s
    }
}

/// `p` is the directory `dir` or lies below it.
pub open spec fn at_or_below(p: Seq<char>, dir: Seq<char>) -> bool {
    starts_with(p, trim_slashes(dir).push('/')) || p == trim_slashes(dir)
}

/// The blacklisted directory `dir` covers `path`, as written or as resolved.
pub open spec fn covers(dir: Seq<char>, path: Seq<char>, canonical: Option<Seq<char>>) -> bool {
    at_or_below(path, dir) || (canonical.is_some() && at_or_below(canonical.unwrap(), dir))
}

/// One of `dirs` covers `path`.
pub open spec fn blacklisted(
    dirs: Seq<MonitoredDirectoryView>,
    path: Seq<char>,
    canonical: Option<Seq<char>>,
) -> bool {
    exists|i: int| 0 <= i < dirs.len() && covers((#[trigger] dirs[i]).path, path, canonical)
}

/// `path` starts with the path of one of `dirs`.
pub open spec fn under_watch(dirs: Seq<MonitoredDirectoryView>, path: Seq<char>) -> bool {
    exists|i: int| 0 <= i < dirs.len() && starts_with(path, (#[trigger] dirs[i]).path)
}

/// `i` is the first of `dirs` with the path `path`.
pub open spec fn is_first_at(dirs: Seq<MonitoredDirectoryView>, path: Seq<char>, i: int) -> bool {
    &&& 0 <= i < dirs.len()
    &&& dirs[i].path == path
    &&& forall|j: int| 0 <= j < i ==> (#[trigger] dirs[j]).path != path
}

/// `dirs` with the status of the first directory at `path` set to `status`.
pub open spec fn with_status(
    dirs: Seq<MonitoredDirectoryView>,
    path: Seq<char>,
    status: DirectoryAuthStatus,
) -> Seq<MonitoredDirectoryView> {
    if exists|i: int| is_first_at(dirs, path, i) {
        let i = choose|i: int| is_first_at(dirs, path, i);
        dirs.update(i, MonitoredDirectoryView { auth_status: status, ..dirs[i] })
    } else {
        dirs
    }
}

/// `i` is the first of `dirs` with the number `id`.
pub open spec fn is_first_numbered(dirs: Seq<MonitoredDirectoryView>, id: i32, i: int) -> bool {
    &&& 0 <= i < dirs.len()
    &&& dirs[i].id == Some(id)
    &&& forall|j: int| 0 <= j < i ==> (#[trigger] dirs[j]).id != Some(id)
}

/// One of `dirs` has the number `id`.
pub open spec fn has_numbered(dirs: Seq<MonitoredDirectoryView>, id: i32) -> bool {
    exists|i: int| is_first_numbered(dirs, id, i)
}

/// `dirs` without the first directory that has the number `id`.
pub open spec fn without_numbered(dirs: Seq<MonitoredDirectoryView>, id: i32) -> Seq<
    MonitoredDirectoryView,
> {
    if has_numbered(dirs, id) {
        dirs.remove(choose|i: int| is_first_numbered(dirs, id, i))
    } else {
        dirs
    }
}

/// The list fetched at `timestamp` has expired at `now_ms`: it was never
/// fetched, the clock has gone back behind the fetch, or more than the time
/// to live has passed.
pub open spec fn cache_expired(timestamp: Option<u64>, now_ms: u64) -> bool {
    match timestamp {
        Some(at) => now_ms < at || now_ms - at > BUNDLE_CACHE_TTL_MS,
        None => true,
    }
}

/// The bundle suffixes in force at `now_ms`: the fetched list while it is
/// fresh, else the fallback list.
pub open spec fn active_suffixes(view: FileMonitorView, now_ms: u64) -> Seq<Seq<char>> {
    if view.bundle_extensions.is_some() && !cache_expired(view.bundle_timestamp, now_ms) {
        view.bundle_extensions.unwrap()
    } else {
        fallback_suffixes()
    }
}

/// What the monitor tells about its configuration.
#[derive(Debug, Clone, Copy, PartialEq, Eq, Structural)]
pub struct ConfigurationSummary {
    pub has_config_cache: bool,
    pub config_categories_count: usize,
    pub config_filter_rules_count: usize,
    pub config_extension_maps_count: usize,
    pub full_disk_access: bool,
    pub monitored_dirs_count: usize,
    pub blacklist_dirs_count: usize,
    pub bundle_cache_count: usize,
    pub bundle_cache_expired: bool,
    /// When the bundle suffixes were fetched, in seconds since the epoch.
    pub bundle_cache_timestamp: Option<u64>,
}

/// The summary of `view` at `now_ms`.
pub open spec fn summary_of(view: FileMonitorView, now_ms: u64) -> ConfigurationSummary {
    ConfigurationSummary {
        has_config_cache: view.config.is_some(),
        config_categories_count: match view.config {
            Some(c) => c.file_categories.len() as usize,
            None => 0,
        },
        config_filter_rules_count: match view.config {
            Some(c) => c.file_filter_rules.len() as usize,
            None => 0,
        },
        config_extension_maps_count: match view.config {
            Some(c) => c.file_extension_maps.len() as usize,
            None => 0,
        },
        full_disk_access: match view.config {
            Some(c) => c.full_disk_access,
            None => false,
        },
        monitored_dirs_count: view.monitored_dirs.len() as usize,
        blacklist_dirs_count: view.blacklist_dirs.len() as usize,
        bundle_cache_count: match view.bundle_extensions {
            Some(list) => list.len() as usize,
            None => 0,
        },
        bundle_cache_expired: cache_expired(view.bundle_timestamp, now_ms),
        bundle_cache_timestamp: match view.bundle_timestamp {
            Some(at) => Some((at / 1000) as u64),
            None => None,
        },
    }
}

/// `p` without the separators at its end: how many characters stay.
pub fn trimmed_len(p: &[char]) -> (n: usize)
    ensures
        n <= p.len(),
        p@.take(n as int) == trim_slashes(p@),
{
    let mut n: usize = p.len();
    assert(p@.take(n as int) =~= p@);
    while n > 0 && p[n - 1] == '/'
        invariant
            n <= p.len(),
            trim_slashes(p@.take(n as int)) == trim_slashes(p@),
        decreases n,
    {
        assert(p@.take(n as int).drop_last() =~= p@.take(n - 1));
        n -= 1;
    }
    proof {
        let rest = p@.take(n as int);
        if n > 0 {
            assert(rest.last() == p@[n - 1]);
        }
        assert(trim_slashes(rest) == rest);
    }
    n
}

/// Whether `p` is the directory `dir` or lies below it.
pub fn is_at_or_below(p: &[char], dir: &[char]) -> (r: bool)
    ensures
        r == at_or_below(p@, dir@),
{
    let n = trimmed_len(dir);
    let ghost trimmed = trim_slashes(dir@);
    let ghost prefix = trimmed.push('/');
    if p.len() < n {
        proof {
            assert(!starts_with(p@, prefix));
            assert(p@.len() != trimmed.len());
        }
        return false;
    }
    let mut k: usize = 0;
    while k < n
        invariant
            k <= n <= dir.len(),
            n <= p.len(),
            trimmed == dir@.take(n as int),
            trimmed == trim_slashes(dir@),
            prefix == trimmed.push('/'),
            forall|j: int| 0 <= j < k ==> p@[j] == dir@[j],
        decreases n - k,
    {
        if p[k] != dir[k] {
            proof {
                assert(trimmed[k as int] == dir@[k as int]);
                if starts_with(p@, prefix) {
                    assert(p@.subrange(0, prefix.len() as int)[k as int] == prefix[k as int]);
                }
                if p@ == trimmed {
                    assert(p@[k as int] == trimmed[k as int]);
                }
            }
            return false;
        }
        k += 1;
    }
    proof {
        assert(p@.take(n as int) =~= trimmed);
    }
    if p.len() == n {
        proof {
            assert(p@ =~= trimmed);
        }
        return true;
    }
    let r = p[n] == '/';
    proof {
        assert(p@.len() != trimmed.len());
        if r {
            assert(p@.subrange(0, n + 1) =~= prefix);
        } else if starts_with(p@, prefix) {
            assert(p@.subrange(0, prefix.len() as int)[n as int] == prefix[n as int]);
        }
    }
    r
}

/// Whether one of `dirs` covers `path`, as written or as resolved.
pub fn is_blacklisted(dirs: &Vec<MonitoredDirectory>, path: &str, canonical: &Option<String>) -> (r:
    bool)
    ensures
        r == blacklisted(dirs.deep_view(), path@, canonical.deep_view()),
{
    let p = chars_of(path);
    let resolved = match canonical.as_ref() {
        Some(c) => Some(chars_of(c.as_str())),
        None => None,
    };
    let ghost list = dirs.deep_view();
    let mut i: usize = 0;
    while i < dirs.len()
        invariant
            i <= dirs.len(),
            list == dirs.deep_view(),
            p@ == path@,
            resolved.is_some() == canonical.is_some(),
            resolved.is_some() ==> canonical.deep_view() == Some(resolved.unwrap()@),
            canonical.is_none() ==> canonical.deep_view().is_none(),
            forall|j: int| 0 <= j < i ==> !covers((#[trigger] list[j]).path, path@, canonical.deep_view()),
        decreases dirs.len() - i,
    {
        assert(list[i as int] == dirs[i as int]@);
        let dir = chars_of(dirs[i].path.as_str());
        if is_at_or_below(p.as_slice(), dir.as_slice()) {
            return true;
        }
        match &resolved {
            Some(c) => {
                if is_at_or_below(c.as_slice(), dir.as_slice()) {
                    return true;
                }
            },
            None => {},
        }
        i += 1;
    }
    false
}

/// Whether `path` starts with the path of one of `dirs`.
pub fn is_under_watch(dirs: &Vec<MonitoredDirectory>, path: &str) -> (r: bool)
    ensures
        r == under_watch(dirs.deep_view(), path@),
{
    let p = chars_of(path);
    let ghost list = dirs.deep_view();
    let mut i: usize = 0;
    while i < dirs.len()
        invariant
            i <= dirs.len(),
            list == dirs.deep_view(),
            p@ == path@,
            forall|j: int| 0 <= j < i ==> !starts_with(path@, (#[trigger] list[j]).path),
        decreases dirs.len() - i,
    {
        assert(list[i as int] == dirs[i as int]@);
        let dir = chars_of(dirs[i].path.as_str());
        if has_prefix(p.as_slice(), dir.as_slice()) {
            return true;
        }
        i += 1;
    }
    false
}

/// Where the first of `dirs` with the number `id` stands.
pub fn position_of_id(dirs: &Vec<MonitoredDirectory>, id: i32) -> (r: Option<usize>)
    ensures
        match r {
            Some(i) => is_first_numbered(dirs.deep_view(), id, i as int),
            None => !has_numbered(dirs.deep_view(), id),
        },
{
    let ghost list = dirs.deep_view();
    let mut i: usize = 0;
    while i < dirs.len()
        invariant
            i <= dirs.len(),
            list == dirs.deep_view(),
            forall|j: int| 0 <= j < i ==> (#[trigger] list[j]).id != Some(id),
        decreases dirs.len() - i,
    {
        assert(list[i as int] == dirs[i as int]@);
        let found = match dirs[i].id {
            Some(have) => have == id,
            None => false,
        };
        if found {
            return Some(i);
        }
        i += 1;
    }
    proof {
        if has_numbered(list, id) {
            let k = choose|k: int| is_first_numbered(list, id, k);
            assert(list[k].id != Some(id));
        }
    }
    None
}

/// Takes the first directory with the number `id` out of `dirs`. Says whether
/// there was one.
pub fn remove_numbered(dirs: &mut Vec<MonitoredDirectory>, id: i32) -> (found: bool)
    ensures
        found == has_numbered(old(dirs).deep_view(), id),
        final(dirs).deep_view() == without_numbered(old(dirs).deep_view(), id),
{
    let ghost before = dirs.deep_view();
    match position_of_id(dirs, id) {
        Some(i) => {
            proof {
                let k = choose|k: int| is_first_numbered(before, id, k);
                assert(k == i);
            }
            dirs.remove(i);
            assert(dirs.deep_view() =~= before.remove(i as int));
            true
        },
        None => false,
    }
}

/// Why a path yields no record.
#[derive(Debug, Clone, Copy, PartialEq, Eq, Structural)]
pub enum RejectReason {
    /// The event says that the path is gone.
    Removed,
    /// The path lies under no watched directory.
    NotMonitored,
    /// No configuration has been fetched.
    ConfigUnavailable,
    /// The path cannot be reached.
    Vanished,
    /// A component of the path is hidden.
    Hidden,
    /// The file's extension is not on the whitelist.
    NotWhitelisted,
    /// The path names a bundle, or the directory is one.
    Bundle,
    /// The path leads into a bundle.
    InsideBundle,
    /// A blacklisted directory covers the path.
    Blacklisted,
    /// The path has no file name to make a record of.
    Unreadable,
}

/// What classification makes of a path.
#[derive(Debug)]
pub enum Classification {
    /// The record to hand on.
    Accepted(FileMetadata),
    /// No record, and why.
    Rejected(RejectReason),
}

/// The value of a [`Classification`].
pub enum ClassificationView {
    Accepted(FileMetadataView),
    Rejected(RejectReason),
}

impl View for Classification {
    type V = ClassificationView;

    open spec fn view(&self) -> ClassificationView {
        match self {
            Classification::Accepted(m) => ClassificationView::Accepted(m@),
            Classification::Rejected(r) => ClassificationView::Rejected(*r),
        }
    }
}

/// The record of an accepted path.
pub open spec fn accepted(c: ClassificationView) -> Option<FileMetadataView> {
    match c {
        ClassificationView::Accepted(m) => Some(m),
        ClassificationView::Rejected(_) => None,
    }
}

/// A directory with more than five hidden entries, on a host where bundles
/// occur.
pub open spec fn many_hidden_entries(probe: PathProbeView) -> bool {
    probe.is_dir && probe.bundle_host && probe.hidden_entries > 5
}

/// Why the path is turned away before a record is made, if it is. The tests
/// are made in this order, and the first that fails decides.
pub open spec fn screening(
    view: FileMonitorView,
    path: Seq<char>,
    kind: ChangeKind,
    probe: PathProbeView,
    now_ms: u64,
) -> Option<RejectReason> {
    if kind == ChangeKind::Removed {
        Some(RejectReason::Removed)
    } else if !under_watch(view.monitored_dirs, path) {
        Some(RejectReason::NotMonitored)
    } else if view.config.is_none() {
        Some(RejectReason::ConfigUnavailable)
    } else if !probe.exists {
        Some(RejectReason::Vanished)
    } else if hidden_path(path) {
        Some(RejectReason::Hidden)
    } else if probe.is_file && !passes_whitelist(
        view.config.unwrap().file_extension_maps,
        extension(path),
    ) {
        Some(RejectReason::NotWhitelisted)
    } else if names_bundle(path, active_suffixes(view, now_ms)) || bundle_layout(probe) {
        Some(RejectReason::Bundle)
    } else if inside_bundle(path) {
        Some(RejectReason::InsideBundle)
    } else if bundle_manifest(probe) || many_hidden_entries(probe) {
        Some(RejectReason::Bundle)
    } else if blacklisted(view.blacklist_dirs, path, probe.canonical_path) {
        Some(RejectReason::Blacklisted)
    } else {
        None
    }
}

/// The counters after a path was screened: a bundle counts as a filtered
/// bundle; a file off the whitelist, a path inside a bundle and a blacklisted
/// path count as filtered files.
pub open spec fn screened_stats(stats: MonitorStats, outcome: Option<RejectReason>) -> MonitorStats {
    match outcome {
        Some(RejectReason::Bundle) => MonitorStats {
            filtered_bundles: raised(stats.filtered_bundles, 1),
            ..stats
        },
        Some(RejectReason::NotWhitelisted) | Some(RejectReason::InsideBundle) | Some(
            RejectReason::Blacklisted,
        ) => MonitorStats { filtered_files: raised(stats.filtered_files, 1), ..stats },
        _ => stats,
    }
}

/// The record of a path as it enters the rules: what the file system
/// reports, with the bundle flag set by the suffixes in force, and for a
/// file the fingerprint of its content.
pub open spec fn described(
    view: FileMonitorView,
    path: Seq<char>,
    probe: PathProbeView,
    content: Seq<u8>,
    now_ms: u64,
) -> Option<FileMetadataView> {
    match initial_metadata(path, probe, active_suffixes(view, now_ms), (now_ms / 1000) as u64) {
        Some(m) => Some(
            if m.is_dir {
                m
            } else {
                FileMetadataView { hash_value: simple_hash(content, HASH_PREFIX_LIMIT as int), ..m }
            },
        ),
        None => None,
    }
}

/// The record as the rules of the cached configuration leave it. Without a
/// configuration it stays as it is.
pub open spec fn ruled(view: FileMonitorView, meta: FileMetadataView) -> FileMetadataView {
    match view.config {
        Some(config) => classified(meta, config),
        None => meta,
    }
}

/// The counters after the rules were applied to a record: the record counts
/// as processed, and each rule that excluded it as a filtered file.
pub open spec fn ruled_stats(view: FileMonitorView, meta: FileMetadataView) -> MonitorStats {
    match view.config {
        Some(config) => MonitorStats {
            processed_files: raised(view.stats.processed_files, 1),
            filtered_files: raised(
                view.stats.filtered_files,
                final_state(meta, config).excluded as int,
            ),
            ..view.stats
        },
        None => view.stats,
    }
}

/// What becomes of a path that passed the screening: its record, as the
/// rules leave it. A record that a rule has marked as excluded is handed on
/// with the mark; it is for the batch stage to drop it. Only a path of which
/// no record can be made is turned away.
pub open spec fn completion(
    view: FileMonitorView,
    path: Seq<char>,
    probe: PathProbeView,
    content: Seq<u8>,
    now_ms: u64,
) -> ClassificationView {
    match described(view, path, probe, content, now_ms) {
        None => ClassificationView::Rejected(RejectReason::Unreadable),
        Some(m) => ClassificationView::Accepted(ruled(view, m)),
    }
}

/// The counters after a path that passed the screening was completed.
pub open spec fn completed_stats(
    view: FileMonitorView,
    path: Seq<char>,
    probe: PathProbeView,
    content: Seq<u8>,
    now_ms: u64,
) -> MonitorStats {
    match described(view, path, probe, content, now_ms) {
        None => view.stats,
        Some(m) => ruled_stats(view, m),
    }
}

/// What classification makes of a path: turned away by the screening, or
/// completed.
pub open spec fn classification(
    view: FileMonitorView,
    path: Seq<char>,
    kind: ChangeKind,
    probe: PathProbeView,
    content: Seq<u8>,
    now_ms: u64,
) -> ClassificationView {
    match screening(view, path, kind, probe, now_ms) {
        Some(reason) => ClassificationView::Rejected(reason),
        None => completion(view, path, probe, content, now_ms),
    }
}

/// The counters after a path was classified.
pub open spec fn classified_stats(
    view: FileMonitorView,
    path: Seq<char>,
    kind: ChangeKind,
    probe: PathProbeView,
    content: Seq<u8>,
    now_ms: u64,
) -> MonitorStats {
    match screening(view, path, kind, probe, now_ms) {
        Some(reason) => screened_stats(view.stats, Some(reason)),
        None => completed_stats(view, path, probe, content, now_ms),
    }
}

impl FileMonitor {
    /// A monitor for the service at `api_host` and `api_port`, with no
    /// directories, no configuration and all counters at zero.
    pub fn new(api_host: String, api_port: u16) -> (r: FileMonitor)
        ensures
            r@ == (FileMonitorView {
                monitored_dirs: Seq::empty(),
                blacklist_dirs: Seq::empty(),
                config: None,
                bundle_extensions: None,
                bundle_timestamp: None,
                api_host: api_host@,
                api_port,
                batch_size: DEFAULT_BATCH_SIZE,
                batch_interval_ms: DEFAULT_BATCH_INTERVAL_MS,
                stats: MonitorStats {
                    processed_files: 0,
                    filtered_files: 0,
                    filtered_bundles: 0,
                    error_count: 0,
                },
            }),
    {
        let r = FileMonitor {
            monitored_dirs: Vec::new(),
            blacklist_dirs: Vec::new(),
            config_cache: None,
            bundle_extensions_cache: None,
            bundle_cache_timestamp: None,
            api_host,
            api_port,
            batch_size: DEFAULT_BATCH_SIZE,
            batch_interval_ms: DEFAULT_BATCH_INTERVAL_MS,
            stats: MonitorStats {
                processed_files: 0,
                filtered_files: 0,
                filtered_bundles: 0,
                error_count: 0,
            },
        };
        assert(r.monitored_dirs.deep_view() =~= Seq::empty());
        assert(r.blacklist_dirs.deep_view() =~= Seq::empty());
        r
    }

    /// Takes over a fetched configuration: it becomes the cached snapshot,
    /// and the watched and the blacklisted directories are derived from it
    /// anew.
    pub fn store_configuration(&mut self, config: AllConfigurations)
        ensures
            final(self)@ == (FileMonitorView {
                config: Some(config@),
                monitored_dirs: watch_set(config@.monitored_folders, config.full_disk_access),
                blacklist_dirs: blacklist_set(config@.monitored_folders),
                ..old(self)@
            }),
    {
        self.monitored_dirs = select_watched(&config.monitored_folders, config.full_disk_access);
        self.blacklist_dirs = select_blacklisted(&config.monitored_folders);
        self.config_cache = Some(config);
    }

    /// Takes in what an attempt to fetch the configuration gave: a snapshot
    /// is taken over as by [`FileMonitor::store_configuration`]; a failure
    /// changes nothing, so that the last good snapshot stays in force, and
    /// is handed back.
    pub fn refresh_folder_configuration(&mut self, fetched: Result<AllConfigurations, String>) -> (r:
        Result<(), String>)
        ensures
            match fetched {
                Ok(config) => r.is_ok() && final(self)@ == (FileMonitorView {
                    config: Some(config@),
                    monitored_dirs: watch_set(config@.monitored_folders, config.full_disk_access),
                    blacklist_dirs: blacklist_set(config@.monitored_folders),
                    ..old(self)@
                }),
                Err(e) => r == Err::<(), String>(e) && final(self)@ == old(self)@,
            },
    {
        match fetched {
            Ok(config) => {
                self.store_configuration(config);
                Ok(())
            },
            Err(e) => Err(e),
        }
    }

    /// The cached configuration.
    pub fn get_configurations(&self) -> (r: Option<AllConfigurations>)
        ensures
            r.deep_view() == self@.config,
    {
        match &self.config_cache {
            Some(config) => Some(config.clone()),
            None => None,
        }
    }

    /// The watched directories.
    pub fn get_monitored_directories(&self) -> (r: Vec<MonitoredDirectory>)
        ensures
            r.deep_view() == self@.monitored_dirs,
    {
        clone_directories(&self.monitored_dirs)
    }

    /// The blacklisted directories.
    pub fn get_blacklist_directories(&self) -> (r: Vec<MonitoredDirectory>)
        ensures
            r.deep_view() == self@.blacklist_dirs,
    {
        clone_directories(&self.blacklist_dirs)
    }

    /// The host of the remote service.
    pub fn get_api_host(&self) -> (r: &str)
        ensures
            r@ == self@.api_host,
    {
        self.api_host.as_str()
    }

    /// The port of the remote service.
    pub fn get_api_port(&self) -> (r: u16)
        ensures
            r == self@.api_port,
    {
        self.api_port
    }

    /// How many records a batch holds at most.
    pub fn get_batch_size(&self) -> (r: usize)
        ensures
            r == self@.batch_size,
    {
        self.batch_size
    }

    /// After how many milliseconds a batch is sent at the latest.
    pub fn get_batch_interval_ms(&self) -> (r: u64)
        ensures
            r == self@.batch_interval_ms,
    {
        self.batch_interval_ms
    }

    /// The counters.
    pub fn get_monitor_stats(&self) -> (r: MonitorStats)
        ensures
            r == self@.stats,
    {
        self.stats
    }

    /// Sets the status of the first watched directory at `path`.
    pub fn update_directory_status(&mut self, path: &str, status: DirectoryAuthStatus)
        ensures
            final(self)@ == (FileMonitorView {
                monitored_dirs: with_status(old(self)@.monitored_dirs, path@, status),
                ..old(self)@
            }),
    {
        let ghost before = self.monitored_dirs.deep_view();
        let wanted = path.to_owned();
        let mut i: usize = 0;
        while i < self.monitored_dirs.len()
            invariant
                i <= self.monitored_dirs.len(),
                *self == *old(self),
                before == self.monitored_dirs.deep_view(),
                wanted@ == path@,
                forall|j: int| 0 <= j < i ==> (#[trigger] before[j]).path != path@,
            decreases self.monitored_dirs.len() - i,
        {
            assert(before[i as int] == self.monitored_dirs[i as int]@);
            if self.monitored_dirs[i].path == wanted {
                proof {
                    assert(is_first_at(before, path@, i as int));
                    let k = choose|k: int| is_first_at(before, path@, k);
                    assert(k == i);
                }
                let mut dir = self.monitored_dirs[i].clone();
                dir.auth_status = status;
                self.monitored_dirs.set(i, dir);
                assert(self.monitored_dirs.deep_view() =~= with_status(before, path@, status));
                return ;
            }
            i += 1;
        }
        proof {
            if exists|k: int| is_first_at(before, path@, k) {
                let k = choose|k: int| is_first_at(before, path@, k);
                assert(before[k].path != path@);
            }
        }
    }

    /// Stops watching the directory with the number `directory_id`: takes it
    /// off the watched directories and, if it was there, off the blacklisted
    /// ones too. Fails where no watched directory has that number.
    pub fn stop_monitoring_directory(&mut self, directory_id: i32) -> (r: Result<(), MonitorError>)
        ensures
            r.is_ok() == has_numbered(old(self)@.monitored_dirs, directory_id),
            r.is_err() ==> r == Err::<(), MonitorError>(
                MonitorError::DirectoryNotFound(directory_id),
            ) && final(self)@ == old(self)@,
            r.is_ok() ==> final(self)@ == (FileMonitorView {
                monitored_dirs: without_numbered(old(self)@.monitored_dirs, directory_id),
                blacklist_dirs: without_numbered(old(self)@.blacklist_dirs, directory_id),
                ..old(self)@
            }),
    {
        if remove_numbered(&mut self.monitored_dirs, directory_id) {
            let _ = remove_numbered(&mut self.blacklist_dirs, directory_id);
            Ok(())
        } else {
            Err(MonitorError::DirectoryNotFound(directory_id))
        }
    }

    /// The bundle suffixes that are served while no fetched list is fresh.
    pub fn get_fallback_bundle_extensions() -> (r: Vec<String>)
        ensures
            r.deep_view() == fallback_suffixes(),
    {
        fallback_bundle_extensions()
    }

    /// Takes over a fetched list of bundle suffixes, fetched at `now_ms`.
    pub fn update_bundle_cache(&mut self, extensions: Vec<String>, now_ms: u64)
        ensures
            final(self)@ == (FileMonitorView {
                bundle_extensions: Some(extensions.deep_view()),
                bundle_timestamp: Some(now_ms),
                ..old(self)@
            }),
    {
        self.bundle_extensions_cache = Some(extensions);
        self.bundle_cache_timestamp = Some(now_ms);
    }

    /// Whether the fetched list of bundle suffixes has expired at `now_ms`.
    pub fn is_bundle_cache_expired_at(&self, now_ms: u64) -> (r: bool)
        ensures
            r == cache_expired(self@.bundle_timestamp, now_ms),
    {
        match self.bundle_cache_timestamp {
            Some(at) => now_ms < at || now_ms - at > BUNDLE_CACHE_TTL_MS,
            None => true,
        }
    }

    /// Whether the fetched list of bundle suffixes has expired now. The
    /// clock is read once.
    pub fn is_bundle_cache_expired(&self) -> (r: bool)
        ensures
            exists|now_ms: u64| r == cache_expired(self@.bundle_timestamp, now_ms),
    {
        let now_ms = unix_time_millis();
        let r = self.is_bundle_cache_expired_at(now_ms);
        assert(r == cache_expired(self@.bundle_timestamp, now_ms));
        r
    }

    /// The bundle suffixes in force at `now_ms`: the fetched list while it
    /// is fresh, else the fallback list.
    pub fn get_cached_bundle_extensions_at(&self, now_ms: u64) -> (r: Vec<String>)
        ensures
            r.deep_view() == active_suffixes(self@, now_ms),
    {
        match &self.bundle_extensions_cache {
            Some(list) => {
                if !self.is_bundle_cache_expired_at(now_ms) {
                    return clone_strings(list);
                }
            },
            None => {},
        }
        fallback_bundle_extensions()
    }

    /// The bundle suffixes in force now. The clock is read once.
    pub fn get_cached_bundle_extensions(&self) -> (r: Vec<String>)
        ensures
            exists|now_ms: u64| r.deep_view() == active_suffixes(self@, now_ms),
    {
        let now_ms = unix_time_millis();
        let r = self.get_cached_bundle_extensions_at(now_ms);
        assert(r.deep_view() == active_suffixes(self@, now_ms));
        r
    }

    /// Takes in what an attempt to fetch the bundle suffixes at `now_ms`
    /// gave: a list becomes the cached one, a failure changes nothing and is
    /// handed back.
    pub fn refresh_bundle_extensions(
        &mut self,
        fetched: Result<Vec<String>, String>,
        now_ms: u64,
    ) -> (r: Result<(), String>)
        ensures
            match fetched {
                Ok(list) => r.is_ok() && final(self)@ == (FileMonitorView {
                    bundle_extensions: Some(list.deep_view()),
                    bundle_timestamp: Some(now_ms),
                    ..old(self)@
                }),
                Err(e) => r == Err::<(), String>(e) && final(self)@ == old(self)@,
            },
    {
        match fetched {
            Ok(list) => {
                self.update_bundle_cache(list, now_ms);
                Ok(())
            },
            Err(e) => Err(e),
        }
    }

    /// The bundle suffixes to go by at `now_ms`, after the shell has tried to
    /// fetch them where that was due. `refreshed` is the list that the
    /// attempt gave, or `None` where none was made or it failed. While the
    /// cached list is fresh the attempt is not looked at. Once it has
    /// expired, a fetched list is taken over and served; without one the
    /// fallback list is served.
    pub fn ensure_bundle_cache_valid(&mut self, refreshed: Option<Vec<String>>, now_ms: u64) -> (r:
        Vec<String>)
        ensures
            final(self)@ == valid_cache(old(self)@, refreshed.deep_view(), now_ms),
            r.deep_view() == active_suffixes(final(self)@, now_ms),
            cache_expired(old(self)@.bundle_timestamp, now_ms) && refreshed.is_none()
                ==> r.deep_view() == fallback_suffixes(),
    {
        if self.is_bundle_cache_expired_at(now_ms) {
            match refreshed {
                Some(list) => {
                    self.update_bundle_cache(list, now_ms);
                },
                None => {},
            }
        }
        self.get_cached_bundle_extensions_at(now_ms)
    }

    /// The summary of the monitor's configuration at `now_ms`.
    pub fn get_configuration_summary_at(&self, now_ms: u64) -> (r: ConfigurationSummary)
        ensures
            r == summary_of(self@, now_ms),
    {
        ConfigurationSummary {
            has_config_cache: self.config_cache.is_some(),
            config_categories_count: match &self.config_cache {
                Some(c) => c.file_categories.len(),
                None => 0,
            },
            config_filter_rules_count: match &self.config_cache {
                Some(c) => c.file_filter_rules.len(),
                None => 0,
            },
            config_extension_maps_count: match &self.config_cache {
                Some(c) => c.file_extension_maps.len(),
                None => 0,
            },
            full_disk_access: match &self.config_cache {
                Some(c) => c.full_disk_access,
                None => false,
            },
            monitored_dirs_count: self.monitored_dirs.len(),
            blacklist_dirs_count: self.blacklist_dirs.len(),
            bundle_cache_count: match &self.bundle_extensions_cache {
                Some(list) => list.len(),
                None => 0,
            },
            bundle_cache_expired: self.is_bundle_cache_expired_at(now_ms),
            bundle_cache_timestamp: match self.bundle_cache_timestamp {
                Some(at) => Some(at / 1000),
                None => None,
            },
        }
    }

    /// The summary of the monitor's configuration now. The clock is read
    /// once.
    pub fn get_configuration_summary(&self) -> (r: ConfigurationSummary)
        ensures
            exists|now_ms: u64| r == summary_of(self@, now_ms),
    {
        let now_ms = unix_time_millis();
        let r = self.get_configuration_summary_at(now_ms);
        assert(r == summary_of(self@, now_ms));
        r
    }

    /// Whether `path` is hidden.
    pub fn is_hidden_file(path: &str) -> (r: bool)
        ensures
            r == hidden_path(path@),
    {
        let p = chars_of(path);
        is_hidden_path(p.as_slice())
    }

    /// Whether `path` is a bundle by the built-in suffixes: whether one of
    /// its components has such a suffix, or the directory is laid out as a
    /// bundle.
    pub fn is_macos_bundle_folder(path: &str, probe: &PathProbe) -> (r: bool)
        ensures
            r == (names_bundle(path@, builtin_suffixes()) || bundle_layout(probe@)),
    {
        let suffixes = builtin_bundle_extensions();
        path_names_bundle(path, &suffixes) || has_bundle_layout(probe)
    }

    /// Whether `path` is a bundle by the suffixes in force at `now_ms`.
    pub fn is_macos_bundle_folder_dynamic(&self, path: &str, probe: &PathProbe, now_ms: u64) -> (r:
        bool)
        ensures
            r == (names_bundle(path@, active_suffixes(self@, now_ms)) || bundle_layout(probe@)),
    {
        let suffixes = self.get_cached_bundle_extensions_at(now_ms);
        path_names_bundle(path, &suffixes) || has_bundle_layout(probe)
    }

    /// Whether `path` leads into a bundle.
    pub fn is_inside_macos_bundle(path: &str) -> (r: bool)
        ensures
            r == inside_bundle(path@),
    {
        is_inside_bundle(path)
    }

    /// Whether a blacklisted directory covers `path`, as written or as the
    /// probe resolved it.
    pub fn is_in_blacklist(&self, path: &str, probe: &PathProbe) -> (r: bool)
        ensures
            r == blacklisted(self@.blacklist_dirs, path@, probe@.canonical_path),
    {
        is_blacklisted(&self.blacklist_dirs, path, &probe.canonical_path)
    }

    /// Whether a file with the extension `ext` passes the whitelist of the
    /// cached configuration. Without a configuration every file passes.
    pub fn extension_whitelisted(&self, ext: &Option<String>) -> (r: bool)
        ensures
            r == passes_whitelist(cached_maps(self@), ext.deep_view()),
    {
        match &self.config_cache {
            Some(config) => extension_allowed(&config.file_extension_maps, ext),
            None => true,
        }
    }

    /// Adds what a scan has counted to the counters.
    pub fn record_scan(&mut self, processed: u64, skipped: u64, bundles: u64)
        ensures
            final(self)@ == (FileMonitorView {
                stats: MonitorStats {
                    processed_files: raised(old(self)@.stats.processed_files, processed as int),
                    filtered_files: raised(old(self)@.stats.filtered_files, skipped as int),
                    filtered_bundles: raised(old(self)@.stats.filtered_bundles, bundles as int),
                    ..old(self)@.stats
                },
                ..old(self)@
            }),
    {
        self.stats.processed_files = raise(self.stats.processed_files, processed);
        self.stats.filtered_files = raise(self.stats.filtered_files, skipped);
        self.stats.filtered_bundles = raise(self.stats.filtered_bundles, bundles);
    }

    /// Whether a record of `path` can only be made after a configuration has
    /// been fetched: the event is no removal, the path lies under a watched
    /// directory, and no configuration is cached.
    pub fn needs_configuration(&self, path: &str, kind: ChangeKind) -> (r: bool)
        ensures
            r == (kind != ChangeKind::Removed && under_watch(self@.monitored_dirs, path@)
                && self@.config.is_none()),
    {
        kind != ChangeKind::Removed && is_under_watch(&self.monitored_dirs, path)
            && self.config_cache.is_none()
    }

    /// Screens `path`: says why it is turned away before a record is made,
    /// or `None` if it is not, and counts what it filtered. Nothing of the
    /// file's content is needed for this.
    pub fn screen_path(&mut self, path: &str, kind: ChangeKind, probe: &PathProbe, now_ms: u64) -> (r:
        Option<RejectReason>)
        ensures
            r == screening(old(self)@, path@, kind, probe@, now_ms),
            final(self)@ == (FileMonitorView {
                stats: screened_stats(old(self)@.stats, r),
                ..old(self)@
            }),
    {
        if kind == ChangeKind::Removed {
            return Some(RejectReason::Removed);
        }
        if !is_under_watch(&self.monitored_dirs, path) {
            return Some(RejectReason::NotMonitored);
        }
        let passes = match &self.config_cache {
            None => {
                return Some(RejectReason::ConfigUnavailable);
            },
            Some(config) => {
                if !probe.exists {
                    return Some(RejectReason::Vanished);
                }
                if Self::is_hidden_file(path) {
                    return Some(RejectReason::Hidden);
                }
                !probe.is_file || extension_allowed(
                    &config.file_extension_maps,
                    &get_file_extension(path),
                )
            },
        };
        if !passes {
            self.stats.filtered_files = raise(self.stats.filtered_files, 1);
            return Some(RejectReason::NotWhitelisted);
        }
        if self.is_macos_bundle_folder_dynamic(path, probe, now_ms) {
            self.stats.filtered_bundles = raise(self.stats.filtered_bundles, 1);
            return Some(RejectReason::Bundle);
        }
        if is_inside_bundle(path) {
            self.stats.filtered_files = raise(self.stats.filtered_files, 1);
            return Some(RejectReason::InsideBundle);
        }
        if has_bundle_manifest(probe) || (probe.is_dir && probe.bundle_host && probe.hidden_entries
            > 5) {
            self.stats.filtered_bundles = raise(self.stats.filtered_bundles, 1);
            return Some(RejectReason::Bundle);
        }
        if self.is_in_blacklist(path, probe) {
            self.stats.filtered_files = raise(self.stats.filtered_files, 1);
            return Some(RejectReason::Blacklisted);
        }
        None
    }

    /// Applies the rules of the cached configuration to a record: the record
    /// comes back as they leave it, counted as processed, and each rule that
    /// excluded it is counted as a filtered file. Without a configuration the
    /// record comes back as it is and nothing is counted.
    pub fn apply_initial_rules(&mut self, metadata: FileMetadata) -> (r: FileMetadata)
        ensures
            r@ == ruled(old(self)@, metadata@),
            final(self)@ == (FileMonitorView {
                stats: ruled_stats(old(self)@, metadata@),
                ..old(self)@
            }),
    {
        match &self.config_cache {
            None => metadata,
            Some(config) => {
                let (done, excluded) = evaluate_rules(config, metadata);
                self.stats.processed_files = raise(self.stats.processed_files, 1);
                self.stats.filtered_files = raise(self.stats.filtered_files, excluded as u64);
                done
            },
        }
    }

    /// Completes the classification of a path that passed the screening:
    /// makes its record from what the file system reports, fingerprints the
    /// content of a file and applies the rules. A record that the rules
    /// marked as excluded is handed on with the mark. `content` is what was
    /// read from the start of the file.
    pub fn complete_classification(
        &mut self,
        path: &str,
        probe: &PathProbe,
        content: &[u8],
        now_ms: u64,
    ) -> (r: Classification)
        ensures
            r@ == completion(old(self)@, path@, probe@, content@, now_ms),
            final(self)@ == (FileMonitorView {
                stats: completed_stats(old(self)@, path@, probe@, content@, now_ms),
                ..old(self)@
            }),
    {
        let suffixes = self.get_cached_bundle_extensions_at(now_ms);
        let mut metadata = match get_file_metadata(path, probe, &suffixes, now_ms / 1000) {
            Some(m) => m,
            None => {
                return Classification::Rejected(RejectReason::Unreadable);
            },
        };
        if !metadata.is_dir {
            metadata.hash_value = calculate_simple_hash(content, HASH_PREFIX_LIMIT);
        }
        Classification::Accepted(self.apply_initial_rules(metadata))
    }

    /// Classifies one path: screens it and, if it passes, completes it.
    pub fn classify(
        &mut self,
        path: &str,
        kind: ChangeKind,
        probe: &PathProbe,
        content: &[u8],
        now_ms: u64,
    ) -> (r: Classification)
        ensures
            r@ == classification(old(self)@, path@, kind, probe@, content@, now_ms),
            final(self)@ == (FileMonitorView {
                stats: classified_stats(old(self)@, path@, kind, probe@, content@, now_ms),
                ..old(self)@
            }),
    {
        match self.screen_path(path, kind, probe, now_ms) {
            Some(reason) => Classification::Rejected(reason),
            None => self.complete_classification(path, probe, content, now_ms),
        }
    }

    /// Handles the event of one path: the record to hand on, if the path is
    /// accepted.
    pub fn process_file_event(
        &mut self,
        path: &str,
        kind: ChangeKind,
        probe: &PathProbe,
        content: &[u8],
        now_ms: u64,
    ) -> (r: Option<FileMetadata>)
        ensures
            r.deep_view() == accepted(
                classification(old(self)@, path@, kind, probe@, content@, now_ms),
            ),
            final(self)@ == (FileMonitorView {
                stats: classified_stats(old(self)@, path@, kind, probe@, content@, now_ms),
                ..old(self)@
            }),
    {
        match self.classify(path, kind, probe, content, now_ms) {
            Classification::Accepted(metadata) => Some(metadata),
            Classification::Rejected(_) => None,
        }
    }
}

/// The extension maps of the cached configuration; none without one.
pub open spec fn cached_maps(view: FileMonitorView) -> Seq<crate::config::FileExtensionMapView> {
    match view.config {
        Some(config) => config.file_extension_maps,
        None => Seq::empty(),
    }
}

/// The monitor after the bundle suffixes were asked for at `now_ms`: an
/// expired cache takes over a fetched list; else nothing changes.
pub open spec fn valid_cache(
    view: FileMonitorView,
    refreshed: Option<Seq<Seq<char>>>,
    now_ms: u64,
) -> FileMonitorView {
    if cache_expired(view.bundle_timestamp, now_ms) && refreshed.is_some() {
        FileMonitorView { bundle_extensions: refreshed, bundle_timestamp: Some(now_ms), ..view }
    } else {
        view
    }
}

/// A path with a hidden component never yields a record and never reaches
/// the rules: whatever else holds of it, it is turned away by the screening,
/// and no record is counted as processed. Where the event is no removal, the
/// path lies under a watched directory, a configuration is cached and the
/// path can be reached, the reason given is that it is hidden.
pub proof fn lemma_hidden_is_rejected(
    view: FileMonitorView,
    path: Seq<char>,
    kind: ChangeKind,
    probe: PathProbeView,
    content: Seq<u8>,
    now_ms: u64,
)
    requires
        hidden_path(path),
    ensures
        screening(view, path, kind, probe, now_ms).is_some(),
        accepted(classification(view, path, kind, probe, content, now_ms)).is_none(),
        classified_stats(view, path, kind, probe, content, now_ms) == view.stats,
        kind != ChangeKind::Removed && under_watch(view.monitored_dirs, path)
            && view.config.is_some() && probe.exists ==> classification(
            view,
            path,
            kind,
            probe,
            content,
            now_ms,
        ) == ClassificationView::Rejected(RejectReason::Hidden),
{
}

/// A path of which a component has one of the bundle suffixes in force is
/// turned away by the screening, which looks at no content: no fingerprint
/// is made of it, and what the file holds makes no difference.
pub proof fn lemma_bundle_is_rejected(
    view: FileMonitorView,
    path: Seq<char>,
    kind: ChangeKind,
    probe: PathProbeView,
    content: Seq<u8>,
    other_content: Seq<u8>,
    now_ms: u64,
)
    requires
        names_bundle(path, active_suffixes(view, now_ms)),
    ensures
        screening(view, path, kind, probe, now_ms).is_some(),
        accepted(classification(view, path, kind, probe, content, now_ms)).is_none(),
        classification(view, path, kind, probe, content, now_ms) == classification(
            view,
            path,
            kind,
            probe,
            other_content,
            now_ms,
        ),
        view.stats.processed_files == classified_stats(
            view,
            path,
            kind,
            probe,
            content,
            now_ms,
        ).processed_files,
{
}

/// A path that a blacklisted directory covers is turned away, whether it is
/// the path as written that lies in the directory or the path as resolved.
pub proof fn lemma_blacklisted_is_rejected(
    view: FileMonitorView,
    path: Seq<char>,
    kind: ChangeKind,
    probe: PathProbeView,
    content: Seq<u8>,
    now_ms: u64,
    i: int,
)
    requires
        0 <= i < view.blacklist_dirs.len(),
        at_or_below(path, view.blacklist_dirs[i].path) || (probe.canonical_path.is_some()
            && at_or_below(probe.canonical_path.unwrap(), view.blacklist_dirs[i].path)),
    ensures
        blacklisted(view.blacklist_dirs, path, probe.canonical_path),
        screening(view, path, kind, probe, now_ms).is_some(),
        accepted(classification(view, path, kind, probe, content, now_ms)).is_none(),
{
    assert(covers(view.blacklist_dirs[i].path, path, probe.canonical_path));
}

/// A path made of a directory, a separator and anything after it lies below
/// that directory, however many separators the directory is written with at
/// its end.
pub proof fn lemma_below_directory(dir: Seq<char>, rest: Seq<char>)
    ensures
        at_or_below(trim_slashes(dir) + seq!['/'] + rest, dir),
        at_or_below(trim_slashes(dir), dir),
{
    let base = trim_slashes(dir);
    let p = base + seq!['/'] + rest;
    assert(p.subrange(0, base.len() as int + 1) =~= base.push('/'));
}

/// What an accepted record looks like. It is the record of the path that
/// was classified, of an added path that exists under a watched directory
/// while a configuration is cached. It is not hidden, not flagged as a
/// bundle, and under no blacklisted directory. A directory has no size, no
/// fingerprint and no extension; anything else has the extension of its path
/// in lower case, the size that was reported and the fingerprint of what was
/// read, and a regular file has passed the whitelist. The rules of the
/// cached configuration have been applied to it.
pub proof fn lemma_accepted_record(
    view: FileMonitorView,
    path: Seq<char>,
    kind: ChangeKind,
    probe: PathProbeView,
    content: Seq<u8>,
    now_ms: u64,
    m: FileMetadataView,
)
    requires
        classification(view, path, kind, probe, content, now_ms) == ClassificationView::Accepted(m),
    ensures
        kind == ChangeKind::Added,
        probe.exists,
        under_watch(view.monitored_dirs, path),
        view.config.is_some(),
        m.file_path == path,
        crate::paths::file_name(path) == Some(m.file_name),
        !m.is_hidden,
        m.is_os_bundle == Some(false),
        !blacklisted(view.blacklist_dirs, path, probe.canonical_path),
        m.is_dir == probe.is_dir,
        m.is_dir ==> m.hash_value.is_none() && m.file_size == 0 && m.extension.is_none(),
        !m.is_dir ==> m.extension == extension(path) && m.file_size == probe.size && m.hash_value
            == simple_hash(content, HASH_PREFIX_LIMIT as int),
        probe.is_file && !m.is_dir ==> passes_whitelist(cached_maps(view), m.extension),
        described(view, path, probe, content, now_ms).is_some(),
        m == classified(
            described(view, path, probe, content, now_ms).unwrap(),
            view.config.unwrap(),
        ),
{
}

/// A record that a rule has marked as excluded is not turned away by the
/// classification: it is handed on with the mark, and it is the batch stage
/// that drops it, under whatever extension maps, and counts it as excluded
/// by a rule.
pub proof fn lemma_excluded_is_dropped_by_batch(
    view: FileMonitorView,
    path: Seq<char>,
    kind: ChangeKind,
    probe: PathProbeView,
    content: Seq<u8>,
    now_ms: u64,
    maps: Seq<crate::config::FileExtensionMapView>,
)
    requires
        screening(view, path, kind, probe, now_ms).is_none(),
        described(view, path, probe, content, now_ms).is_some(),
        crate::rules::marked_excluded(
            ruled(view, described(view, path, probe, content, now_ms).unwrap()),
        ),
    ensures
        classification(view, path, kind, probe, content, now_ms) == ClassificationView::Accepted(
            ruled(view, described(view, path, probe, content, now_ms).unwrap()),
        ),
        crate::batch::skip_reason(
            ruled(view, described(view, path, probe, content, now_ms).unwrap()),
            maps,
        ) == Some(crate::batch::SkipReason::ExcludedByRule),
{
    let m = ruled(view, described(view, path, probe, content, now_ms).unwrap());
    lemma_accepted_record(view, path, kind, probe, content, now_ms, m);
}

/// A regular file whose extension the configuration maps, and which nothing
/// screens out, is accepted where the configuration holds no rules: its
/// record carries the extension, the category of the first map for it and
/// the tag of the extension, and no mark of exclusion.
pub proof fn lemma_mapped_file_is_accepted(
    view: FileMonitorView,
    path: Seq<char>,
    probe: PathProbeView,
    content: Seq<u8>,
    now_ms: u64,
    ext: Seq<char>,
    i: int,
)
    requires
        view.config.is_some(),
        view.config.unwrap().file_filter_rules.len() == 0,
        crate::rules::is_first_map(view.config.unwrap().file_extension_maps, ext, i),
        under_watch(view.monitored_dirs, path),
        probe.exists && probe.is_file && !probe.is_dir,
        crate::paths::file_name(path).is_some(),
        extension(path) == Some(ext),
        !hidden_path(path),
        !names_bundle(path, active_suffixes(view, now_ms)),
        !inside_bundle(path),
        !blacklisted(view.blacklist_dirs, path, probe.canonical_path),
    ensures
        ({
            let got = classification(view, path, ChangeKind::Added, probe, content, now_ms);
            &&& got is Accepted
            &&& accepted(got).unwrap().file_path == path
            &&& accepted(got).unwrap().file_name == crate::paths::file_name(path).unwrap()
            &&& accepted(got).unwrap().extension == Some(ext)
            &&& accepted(got).unwrap().category_id == Some(
                view.config.unwrap().file_extension_maps[i].category_id,
            )
            &&& accepted(got).unwrap().tags == Some(seq![crate::rules::extension_tag(ext)])
            &&& !accepted(got).unwrap().is_dir
            &&& !accepted(got).unwrap().is_hidden
            &&& accepted(got).unwrap().is_os_bundle == Some(false)
            &&& !crate::rules::marked_excluded(accepted(got).unwrap())
        }),
{
    let config = view.config.unwrap();
    let maps = config.file_extension_maps;
    assert(crate::config::whitelisted(maps, ext)) by {
        assert(crate::text::lowercase(maps[i].extension) == crate::text::lowercase(ext));
    }
    assert(screening(view, path, ChangeKind::Added, probe, now_ms).is_none());
    let m = described(view, path, probe, content, now_ms).unwrap();
    assert(m.extension == Some(ext));
    assert(exists|k: int| crate::rules::is_first_map(maps, ext, k));
    let k = choose|k: int| crate::rules::is_first_map(maps, ext, k);
    assert(k == i);
    assert(crate::rules::first_map(maps, ext) == Some(maps[i]));
    let first = crate::rules::initial_state(m, config);
    assert(crate::rules::final_state(m, config) == first);
    assert(crate::rules::tags_or_empty(m.tags).push(crate::rules::extension_tag(ext)) =~= seq![
        crate::rules::extension_tag(ext),
    ]);
}

/// No counter is lower than `before` in `after`.
pub open spec fn not_below(before: MonitorStats, after: MonitorStats) -> bool {
    &&& before.processed_files <= after.processed_files
    &&& before.filtered_files <= after.filtered_files
    &&& before.filtered_bundles <= after.filtered_bundles
    &&& before.error_count <= after.error_count
}

/// The counters only grow: whatever path is classified, none of them is
/// lower afterwards.
pub proof fn lemma_counters_only_grow(
    view: FileMonitorView,
    path: Seq<char>,
    kind: ChangeKind,
    probe: PathProbeView,
    content: Seq<u8>,
    now_ms: u64,
)
    ensures
        not_below(view.stats, classified_stats(view, path, kind, probe, content, now_ms)),
{
}

} // verus!
