//! Scanning a directory tree: which entries of a walk are descended into,
//! what is done with each entry that is reached, and what the scan adds to
//! the monitor's counters.
//!
//! The walk itself belongs to the shell. It asks the entry filter before it visits
//! an entry, so that a whole subtree is left out at once, and hands every
//! entry that it reaches to the scan.

use vstd::prelude::*;
use crate::bundle::{builtin_suffixes, inside_bundle, is_inside_bundle, names_bundle};
use crate::config::passes_whitelist;
use crate::file_monitor::{
    accepted, blacklisted, cached_maps, classification, classified_stats, completed_stats,
    completion, raised, screened_stats, screening, Classification, FileMonitor, FileMonitorView,
    MonitorStats,
};
use crate::file_monitor_debounced::ChangeKind;
use crate::metadata::{
    bundle_layout, bundle_manifest, has_bundle_manifest, FileMetadata, PathProbe, PathProbeView,
};
use crate::paths::{extension, get_file_extension, hidden_path};
use crate::seqs::{lemma_filter_empty, lemma_filter_step};
use crate::text::chars_of;

verus! {

/// After how many entries a running scan looks at the blacklist again.
pub const BLACKLIST_RECHECK_EVERY: u64 = 1000;

/// What a scan has counted.
#[derive(Debug, Clone, Copy, PartialEq, Eq, Structural)]
pub struct ScanTally {
    /// Entries reached.
    pub total_files: u64,
    /// Entries that gave no record.
    pub skipped_files: u64,
    /// Entries that gave a record.
    pub processed_files: u64,
    /// Bundles left out.
    pub skipped_bundles: u64,
}

/// What the entry filter of a scan says of an entry.
#[derive(Debug, Clone, Copy, PartialEq, Eq, Structural)]
pub enum EntryVerdict {
    /// The entry is visited, and descended into if it is a directory.
    Admit,
    /// A component of the path is hidden.
    Hidden,
    /// A blacklisted directory covers the path.
    Blacklisted,
    /// The path names a bundle, or the directory is laid out as one.
    Bundle,
    /// The path leads into a bundle.
    InsideBundle,
    /// The directory holds the manifest of a bundle.
    BundleManifest,
    /// The file's extension is not on the whitelist.
    NotWhitelisted,
}

/// Why a scan of one directory does not take place.
#[derive(Debug, Clone, Copy, PartialEq, Eq, Structural)]
pub enum ScanError {
    /// The directory is not there.
    DirectoryMissing,
}

/// How a scan of one directory begins.
#[derive(Debug, Clone, Copy, PartialEq, Eq, Structural)]
pub enum ScanStart {
    /// The directory is walked.
    Walk,
    /// The directory is blacklisted: nothing is done, and nothing is wrong.
    Skip,
}

/// How many separators `path` holds.
pub open spec fn separators(path: Seq<char>) -> nat {
    path.filter(|c: char| c == '/').len()
}

/// A path that lies at the top: it holds one separator at most.
pub open spec fn top_level(path: Seq<char>) -> bool {
    separators(path) <= 1
}

/// What the entry filter of the first scan says of an entry. The tests are made in
/// this order.
pub open spec fn initial_filter(view: FileMonitorView, path: Seq<char>, probe: PathProbeView) -> EntryVerdict {
    if hidden_path(path) {
        EntryVerdict::Hidden
    } else if blacklisted(view.blacklist_dirs, path, probe.canonical_path) {
        EntryVerdict::Blacklisted
    } else if names_bundle(path, builtin_suffixes()) || bundle_layout(probe) {
        EntryVerdict::Bundle
    } else if inside_bundle(path) {
        EntryVerdict::InsideBundle
    } else if bundle_manifest(probe) {
        EntryVerdict::BundleManifest
    } else if probe.is_file && !passes_whitelist(cached_maps(view), extension(path)) {
        EntryVerdict::NotWhitelisted
    } else {
        EntryVerdict::Admit
    }
}

/// What the entry filter of the scan of one directory says of an entry.
pub open spec fn single_filter(path: Seq<char>, probe: PathProbeView) -> EntryVerdict {
    if hidden_path(path) {
        EntryVerdict::Hidden
    } else if names_bundle(path, builtin_suffixes()) || bundle_layout(probe) {
        EntryVerdict::Bundle
    } else if inside_bundle(path) {
        EntryVerdict::InsideBundle
    } else {
        EntryVerdict::Admit
    }
}

/// `count` and one more, and no further than the largest value.
pub open spec fn next_count(count: u64) -> u64 {
    raised(count, 1)
}

/// The tally of the first scan after its entry filter has said `verdict` of `path`: a
/// bundle at the top and a directory with a manifest count as bundles left
/// out.
pub open spec fn initial_filter_tally(tally: ScanTally, verdict: EntryVerdict, path: Seq<char>) -> ScanTally {
    if (verdict == EntryVerdict::Bundle && top_level(path)) || verdict == EntryVerdict::BundleManifest {
        ScanTally { skipped_bundles: next_count(tally.skipped_bundles), ..tally }
    } else {
        tally
    }
}

/// The tally of the scan of one directory after its entry filter has said `verdict`:
/// every bundle counts as left out.
pub open spec fn single_filter_tally(tally: ScanTally, verdict: EntryVerdict) -> ScanTally {
    if verdict == EntryVerdict::Bundle {
        ScanTally { skipped_bundles: next_count(tally.skipped_bundles), ..tally }
    } else {
        tally
    }
}

/// The blacklist is looked at again for the entry that makes the count of
/// entries reached a multiple of the recheck distance.
pub open spec fn recheck_due(tally: ScanTally) -> bool {
    next_count(tally.total_files) % BLACKLIST_RECHECK_EVERY == 0
}

/// Whether `path` lies at the top.
pub fn is_top_level(path: &str) -> (r: bool)
    ensures
        r == top_level(path@),
{
    let p = chars_of(path);
    let ghost is_sep = |c: char| c == '/';
    let mut found: usize = 0;
    let mut i: usize = 0;
    proof {
        lemma_filter_empty(p@.take(0), is_sep);
    }
    while i < p.len()
        invariant
            i <= p.len(),
            is_sep == |c: char| c == '/',
            found <= i,
            found == p@.take(i as int).filter(is_sep).len(),
        decreases p.len() - i,
    {
        proof {
            lemma_filter_step(p@, is_sep, i as int);
        }
        if p[i] == '/' {
            found += 1;
        }
        i += 1;
    }
    assert(p@.take(p.len() as int) =~= p@);
    found <= 1
}

impl ScanTally {
    /// Nothing counted yet.
    pub fn new() -> (r: ScanTally)
        ensures
            r == (ScanTally {
                total_files: 0,
                skipped_files: 0,
                processed_files: 0,
                skipped_bundles: 0,
            }),
    {
        ScanTally { total_files: 0, skipped_files: 0, processed_files: 0, skipped_bundles: 0 }
    }

    /// The entry filter of the first scan: whether the walk is to visit `path`, and
    /// if not, why. Bundles left out are counted.
    pub fn admit_initial(&mut self, monitor: &FileMonitor, path: &str, probe: &PathProbe) -> (r:
        EntryVerdict)
        ensures
            r == initial_filter(monitor@, path@, probe@),
            *final(self) == initial_filter_tally(*old(self), r, path@),
    {
        if FileMonitor::is_hidden_file(path) {
            return EntryVerdict::Hidden;
        }
        if monitor.is_in_blacklist(path, probe) {
            return EntryVerdict::Blacklisted;
        }
        if FileMonitor::is_macos_bundle_folder(path, probe) {
            if is_top_level(path) {
                self.skipped_bundles = crate::file_monitor::raise(self.skipped_bundles, 1);
            }
            return EntryVerdict::Bundle;
        }
        if is_inside_bundle(path) {
            return EntryVerdict::InsideBundle;
        }
        if has_bundle_manifest(probe) {
            self.skipped_bundles = crate::file_monitor::raise(self.skipped_bundles, 1);
            return EntryVerdict::BundleManifest;
        }
        if probe.is_file && !monitor.extension_whitelisted(&get_file_extension(path)) {
            return EntryVerdict::NotWhitelisted;
        }
        EntryVerdict::Admit
    }

    /// The entry filter of the scan of one directory: whether the walk is to visit
    /// `path`, and if not, why. Bundles left out are counted.
    pub fn admit_single(&mut self, path: &str, probe: &PathProbe) -> (r: EntryVerdict)
        ensures
            r == single_filter(path@, probe@),
            *final(self) == single_filter_tally(*old(self), r),
    {
        if FileMonitor::is_hidden_file(path) {
            return EntryVerdict::Hidden;
        }
        if FileMonitor::is_macos_bundle_folder(path, probe) {
            self.skipped_bundles = crate::file_monitor::raise(self.skipped_bundles, 1);
            return EntryVerdict::Bundle;
        }
        if is_inside_bundle(path) {
            return EntryVerdict::InsideBundle;
        }
        EntryVerdict::Admit
    }

    /// An entry could not be read during the scan of one directory: it
    /// counts as skipped.
    pub fn entry_failed(&mut self)
        ensures
            *final(self) == (ScanTally {
                skipped_files: next_count(old(self).skipped_files),
                ..*old(self)
            }),
    {
        self.skipped_files = crate::file_monitor::raise(self.skipped_files, 1);
    }

    /// Adds the tally to the counters of `monitor`, as at the end of a scan.
    pub fn finish(&self, monitor: &mut FileMonitor)
        ensures
            final(monitor)@ == (FileMonitorView {
                stats: MonitorStats {
                    processed_files: raised(
                        old(monitor)@.stats.processed_files,
                        self.processed_files as int,
                    ),
                    filtered_files: raised(
                        old(monitor)@.stats.filtered_files,
                        self.skipped_files as int,
                    ),
                    filtered_bundles: raised(
                        old(monitor)@.stats.filtered_bundles,
                        self.skipped_bundles as int,
                    ),
                    ..old(monitor)@.stats
                },
                ..old(monitor)@
            }),
    {
        monitor.record_scan(self.processed_files, self.skipped_files, self.skipped_bundles);
    }
}

/// The entry is one for which the running first scan turns to the blacklist
/// again and finds the path covered.
pub open spec fn caught_by_recheck(
    tally: ScanTally,
    view: FileMonitorView,
    path: Seq<char>,
    probe: PathProbeView,
) -> bool {
    recheck_due(tally) && blacklisted(view.blacklist_dirs, path, probe.canonical_path)
}

/// The tally after an entry was reached that gave a record or gave none.
pub open spec fn visited_tally(tally: ScanTally, gave_record: bool) -> ScanTally {
    if gave_record {
        ScanTally {
            total_files: next_count(tally.total_files),
            processed_files: next_count(tally.processed_files),
            ..tally
        }
    } else {
        ScanTally {
            total_files: next_count(tally.total_files),
            skipped_files: next_count(tally.skipped_files),
            ..tally
        }
    }
}

/// What the first step of a visit comes to.
#[derive(Debug, Clone, Copy, PartialEq, Eq, Structural)]
pub enum VisitStep {
    /// The entry gives no record; its content is not to be read.
    Skip,
    /// The entry has passed the screening: its content is to be read and the
    /// visit completed.
    Complete,
}

/// The first step of a visit of the first scan: the entry is skipped if the
/// blacklist is looked at again and covers it, or if the screening turns it
/// away.
pub open spec fn initial_step(
    tally: ScanTally,
    view: FileMonitorView,
    path: Seq<char>,
    probe: PathProbeView,
    now_ms: u64,
) -> VisitStep {
    if caught_by_recheck(tally, view, path, probe) || screening(
        view,
        path,
        ChangeKind::Added,
        probe,
        now_ms,
    ).is_some() {
        VisitStep::Skip
    } else {
        VisitStep::Complete
    }
}

/// The counters of the monitor after the first step of a visit of the
/// first scan: what the screening counts, unless the renewed look at the
/// blacklist came before it.
pub open spec fn initial_step_stats(
    tally: ScanTally,
    view: FileMonitorView,
    path: Seq<char>,
    probe: PathProbeView,
    now_ms: u64,
) -> MonitorStats {
    if caught_by_recheck(tally, view, path, probe) {
        view.stats
    } else {
        screened_stats(view.stats, screening(view, path, ChangeKind::Added, probe, now_ms))
    }
}

/// The first step of a visit of the scan of one directory: only a regular
/// file that the screening lets pass is completed.
pub open spec fn single_step(
    view: FileMonitorView,
    path: Seq<char>,
    probe: PathProbeView,
    now_ms: u64,
) -> VisitStep {
    if !probe.is_file || screening(view, path, ChangeKind::Added, probe, now_ms).is_some() {
        VisitStep::Skip
    } else {
        VisitStep::Complete
    }
}

/// The tally after the first step of a visit: the entry counts as reached,
/// and as skipped if `skipped` says so.
pub open spec fn begun_tally(tally: ScanTally, skipped: bool) -> ScanTally {
    ScanTally {
        total_files: next_count(tally.total_files),
        skipped_files: if skipped {
            next_count(tally.skipped_files)
        } else {
            tally.skipped_files
        },
        ..tally
    }
}

/// The tally after the second step of a visit: the entry counts as
/// processed if it gave a record, else as skipped.
pub open spec fn completed_tally(tally: ScanTally, gave_record: bool) -> ScanTally {
    if gave_record {
        ScanTally { processed_files: next_count(tally.processed_files), ..tally }
    } else {
        ScanTally { skipped_files: next_count(tally.skipped_files), ..tally }
    }
}

impl ScanTally {
    /// The first step of a visit of the first scan, for which nothing of
    /// the entry's content is needed. The entry is counted as reached. It is
    /// skipped, and counted so, if the blacklist is looked at again for it
    /// and covers it, or if the screening turns it away.
    pub fn begin_visit_initial(
        &mut self,
        monitor: &mut FileMonitor,
        path: &str,
        probe: &PathProbe,
        now_ms: u64,
    ) -> (r: VisitStep)
        ensures
            r == initial_step(*old(self), old(monitor)@, path@, probe@, now_ms),
            *final(self) == begun_tally(*old(self), r == VisitStep::Skip),
            final(monitor)@ == (FileMonitorView {
                stats: initial_step_stats(*old(self), old(monitor)@, path@, probe@, now_ms),
                ..old(monitor)@
            }),
    {
        self.total_files = crate::file_monitor::raise(self.total_files, 1);
        if self.total_files % BLACKLIST_RECHECK_EVERY == 0 && monitor.is_in_blacklist(path, probe) {
            self.skipped_files = crate::file_monitor::raise(self.skipped_files, 1);
            return VisitStep::Skip;
        }
        match monitor.screen_path(path, ChangeKind::Added, probe, now_ms) {
            Some(_) => {
                self.skipped_files = crate::file_monitor::raise(self.skipped_files, 1);
                VisitStep::Skip
            },
            None => VisitStep::Complete,
        }
    }

    /// The first step of a visit of the scan of one directory, for which
    /// nothing of the entry's content is needed. The entry is counted as
    /// reached. Anything but a regular file is skipped without more; a file
    /// that the screening turns away is skipped and counted so.
    pub fn begin_visit_single(
        &mut self,
        monitor: &mut FileMonitor,
        path: &str,
        probe: &PathProbe,
        now_ms: u64,
    ) -> (r: VisitStep)
        ensures
            r == single_step(old(monitor)@, path@, probe@, now_ms),
            *final(self) == begun_tally(*old(self), probe.is_file && r == VisitStep::Skip),
            final(monitor)@ == (FileMonitorView {
                stats: if probe.is_file {
                    screened_stats(
                        old(monitor)@.stats,
                        screening(old(monitor)@, path@, ChangeKind::Added, probe@, now_ms),
                    )
                } else {
                    old(monitor)@.stats
                },
                ..old(monitor)@
            }),
    {
        self.total_files = crate::file_monitor::raise(self.total_files, 1);
        if !probe.is_file {
            return VisitStep::Skip;
        }
        match monitor.screen_path(path, ChangeKind::Added, probe, now_ms) {
            Some(_) => {
                self.skipped_files = crate::file_monitor::raise(self.skipped_files, 1);
                VisitStep::Skip
            },
            None => VisitStep::Complete,
        }
    }

    /// The second step of a visit, for an entry that the first step did not
    /// skip: the classification is completed with what was read of the
    /// entry. The entry counts as processed if it gives a record, else as
    /// skipped.
    pub fn complete_visit(
        &mut self,
        monitor: &mut FileMonitor,
        path: &str,
        probe: &PathProbe,
        content: &[u8],
        now_ms: u64,
    ) -> (r: Option<FileMetadata>)
        ensures
            r.deep_view() == accepted(completion(old(monitor)@, path@, probe@, content@, now_ms)),
            *final(self) == completed_tally(*old(self), r.is_some()),
            final(monitor)@ == (FileMonitorView {
                stats: completed_stats(old(monitor)@, path@, probe@, content@, now_ms),
                ..old(monitor)@
            }),
    {
        match monitor.complete_classification(path, probe, content, now_ms) {
            Classification::Accepted(metadata) => {
                self.processed_files = crate::file_monitor::raise(self.processed_files, 1);
                Some(metadata)
            },
            Classification::Rejected(_) => {
                self.skipped_files = crate::file_monitor::raise(self.skipped_files, 1);
                None
            },
        }
    }

    /// An entry of the first scan is reached and its content is at hand:
    /// both steps of the visit in one. It is classified as a new path would
    /// be, unless the blacklist is looked at again for it and covers it. The
    /// entry counts as processed if it gives a record, else as skipped.
    pub fn visit_initial(
        &mut self,
        monitor: &mut FileMonitor,
        path: &str,
        probe: &PathProbe,
        content: &[u8],
        now_ms: u64,
    ) -> (r: Option<FileMetadata>)
        ensures
            if caught_by_recheck(*old(self), old(monitor)@, path@, probe@) {
                r.is_none() && final(monitor)@ == old(monitor)@
            } else {
                r.deep_view() == accepted(
                    classification(
                        old(monitor)@,
                        path@,
                        ChangeKind::Added,
                        probe@,
                        content@,
                        now_ms,
                    ),
                ) && final(monitor)@ == (FileMonitorView {
                    stats: classified_stats(
                        old(monitor)@,
                        path@,
                        ChangeKind::Added,
                        probe@,
                        content@,
                        now_ms,
                    ),
                    ..old(monitor)@
                })
            },
            *final(self) == visited_tally(*old(self), r.is_some()),
    {
        match self.begin_visit_initial(monitor, path, probe, now_ms) {
            VisitStep::Skip => None,
            VisitStep::Complete => self.complete_visit(monitor, path, probe, content, now_ms),
        }
    }

    /// An entry of the scan of one directory is reached and its content is
    /// at hand: both steps of the visit in one. Only a file is classified;
    /// it counts as processed if it gives a record, else as skipped.
    /// Anything else is only counted as reached.
    pub fn visit_single(
        &mut self,
        monitor: &mut FileMonitor,
        path: &str,
        probe: &PathProbe,
        content: &[u8],
        now_ms: u64,
    ) -> (r: Option<FileMetadata>)
        ensures
            if probe.is_file {
                r.deep_view() == accepted(
                    classification(
                        old(monitor)@,
                        path@,
                        ChangeKind::Added,
                        probe@,
                        content@,
                        now_ms,
                    ),
                ) && final(monitor)@ == (FileMonitorView {
                    stats: classified_stats(
                        old(monitor)@,
                        path@,
                        ChangeKind::Added,
                        probe@,
                        content@,
                        now_ms,
                    ),
                    ..old(monitor)@
                }) && *final(self) == visited_tally(*old(self), r.is_some())
            } else {
                r.is_none() && final(monitor)@ == old(monitor)@ && *final(self) == (ScanTally {
                    total_files: next_count(old(self).total_files),
                    ..*old(self)
                })
            },
    {
        match self.begin_visit_single(monitor, path, probe, now_ms) {
            VisitStep::Skip => None,
            VisitStep::Complete => self.complete_visit(monitor, path, probe, content, now_ms),
        }
    }
}

/// How the scan of the directory `path` begins: a blacklisted directory is
/// passed over, a directory that is not there is an error, any other is
/// walked.
pub fn begin_single_scan(monitor: &FileMonitor, path: &str, probe: &PathProbe) -> (r: Result<
    ScanStart,
    ScanError,
>)
    ensures
        r == if blacklisted(monitor@.blacklist_dirs, path@, probe@.canonical_path) {
            Ok::<ScanStart, ScanError>(ScanStart::Skip)
        } else if !probe.exists {
            Err::<ScanStart, ScanError>(ScanError::DirectoryMissing)
        } else {
            Ok::<ScanStart, ScanError>(ScanStart::Walk)
        },
{
    if monitor.is_in_blacklist(path, probe) {
        Ok(ScanStart::Skip)
    } else if !probe.exists {
        Err(ScanError::DirectoryMissing)
    } else {
        Ok(ScanStart::Walk)
    }
}

} // verus!
