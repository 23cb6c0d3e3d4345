//! The batch stage: records are filtered once more, collected, and handed
//! out in batches when enough have come together, when enough time has
//! passed, or when the stream ends.
//!
//! The stage decides; sending a batch is left to the shell, which reports
//! back when it is done. A batch that could not be delivered is dropped.

use vstd::prelude::*;
use crate::config::{
    extension_allowed, passes_whitelist, FileExtensionMapRust, FileExtensionMapView,
};
use crate::metadata::{FileMetadata, FileMetadataView};
use crate::rules::{is_marked_excluded, marked_excluded};
use crate::text::{chars_of, contains, has_infix};

verus! {

/// Why the batch stage drops a record.
#[derive(Debug, Clone, Copy, PartialEq, Eq, Structural)]
pub enum SkipReason {
    /// The record is of a hidden entry.
    Hidden,
    /// The record is of a bundle.
    Bundle,
    /// A rule marked the record as excluded.
    ExcludedByRule,
    /// The file's extension is missing or not on the whitelist.
    InvalidExtension,
    /// The file is an artifact of the desktop.
    SystemArtifact,
    /// The record is of a directory.
    Directory,
}

/// What the batch stage has counted.
#[derive(Debug, Clone, Copy, PartialEq, Eq, Structural)]
pub struct BatchProcessorStats {
    pub received_files: u64,
    pub hidden_files_skipped: u64,
    pub rule_excluded_files_skipped: u64,
    pub invalid_extension_skipped: u64,
    pub ds_store_skipped: u64,
    pub directory_skipped: u64,
    pub bundle_skipped: u64,
    pub processed_files: u64,
}

/// What becomes of a submitted record.
#[derive(Debug)]
pub enum Submission {
    /// The record was dropped.
    Skipped(SkipReason),
    /// The record waits in the buffer.
    Buffered,
    /// The buffer was full with this record: the batch to send.
    Flush(Vec<FileMetadata>),
}

/// The value of a [`Submission`].
pub enum SubmissionView {
    Skipped(SkipReason),
    Buffered,
    Flush(Seq<FileMetadataView>),
}

impl View for Submission {
    type V = SubmissionView;

    open spec fn view(&self) -> SubmissionView {
        match self {
            Submission::Skipped(reason) => SubmissionView::Skipped(*reason),
            Submission::Buffered => SubmissionView::Buffered,
            Submission::Flush(batch) => SubmissionView::Flush(batch.deep_view()),
        }
    }
}

/// The name of the desktop's artifact that no batch carries.
pub open spec fn artifact_name() -> Seq<char> {
    ".DS_Store"@
}

/// Why the batch stage drops the record `meta` under the extension maps
/// `maps`, if it does. The tests are made in this order.
pub open spec fn skip_reason(meta: FileMetadataView, maps: Seq<FileExtensionMapView>) -> Option<
    SkipReason,
> {
    if meta.is_hidden {
        Some(SkipReason::Hidden)
    } else if meta.is_os_bundle == Some(true) {
        Some(SkipReason::Bundle)
    } else if marked_excluded(meta) {
        Some(SkipReason::ExcludedByRule)
    } else if !meta.is_dir && !passes_whitelist(maps, meta.extension) {
        Some(SkipReason::InvalidExtension)
    } else if contains(meta.file_name, artifact_name()) {
        Some(SkipReason::SystemArtifact)
    } else if meta.is_dir {
        Some(SkipReason::Directory)
    } else {
        None
    }
}

/// `count` and one more, and no further than the largest value.
pub open spec fn one_more(count: u64) -> u64 {
    if count == u64::MAX {
        count
    } else {
        (count + 1) as u64
    }
}

/// The counters after a record was received and `outcome` was found for it.
pub open spec fn counted(stats: BatchProcessorStats, outcome: Option<SkipReason>) -> BatchProcessorStats {
    let received = BatchProcessorStats { received_files: one_more(stats.received_files), ..stats };
    match outcome {
        Some(SkipReason::Hidden) => BatchProcessorStats {
            hidden_files_skipped: one_more(stats.hidden_files_skipped),
            ..received
        },
        Some(SkipReason::Bundle) => BatchProcessorStats {
            bundle_skipped: one_more(stats.bundle_skipped),
            ..received
        },
        Some(SkipReason::ExcludedByRule) => BatchProcessorStats {
            rule_excluded_files_skipped: one_more(stats.rule_excluded_files_skipped),
            ..received
        },
        Some(SkipReason::InvalidExtension) => BatchProcessorStats {
            invalid_extension_skipped: one_more(stats.invalid_extension_skipped),
            ..received
        },
        Some(SkipReason::SystemArtifact) => BatchProcessorStats {
            ds_store_skipped: one_more(stats.ds_store_skipped),
            ..received
        },
        Some(SkipReason::Directory) => BatchProcessorStats {
            directory_skipped: one_more(stats.directory_skipped),
            ..received
        },
        None => BatchProcessorStats { processed_files: one_more(stats.processed_files), ..received },
    }
}

/// The counters of the batch stage only grow, and each record that is
/// received raises exactly one of them beside the count of the received.
pub proof fn lemma_one_reason_counted(stats: BatchProcessorStats, outcome: Option<SkipReason>)
    ensures
        ({
            let after = counted(stats, outcome);
            &&& after.received_files == one_more(stats.received_files)
            &&& stats.hidden_files_skipped <= after.hidden_files_skipped
            &&& stats.rule_excluded_files_skipped <= after.rule_excluded_files_skipped
            &&& stats.invalid_extension_skipped <= after.invalid_extension_skipped
            &&& stats.ds_store_skipped <= after.ds_store_skipped
            &&& stats.directory_skipped <= after.directory_skipped
            &&& stats.bundle_skipped <= after.bundle_skipped
            &&& stats.processed_files <= after.processed_files
            &&& outcome.is_none() ==> after == (BatchProcessorStats {
                received_files: after.received_files,
                processed_files: one_more(stats.processed_files),
                ..stats
            })
            &&& outcome.is_some() ==> after.processed_files == stats.processed_files
        }),
{
}

/// `count` and one more, and no further than the largest value.
pub fn increment(count: u64) -> (r: u64)
    ensures
        r == one_more(count),
{
    if count == u64::MAX {
        count
    } else {
        count + 1
    }
}

/// Why the batch stage drops `metadata`, if it does.
pub fn find_skip_reason(metadata: &FileMetadata, maps: &Vec<FileExtensionMapRust>) -> (r: Option<
    SkipReason,
>)
    ensures
        r == skip_reason(metadata@, maps.deep_view()),
{
    if metadata.is_hidden {
        return Some(SkipReason::Hidden);
    }
    let is_bundle = match metadata.is_os_bundle {
        Some(flag) => flag,
        None => false,
    };
    if is_bundle {
        return Some(SkipReason::Bundle);
    }
    if is_marked_excluded(metadata) {
        return Some(SkipReason::ExcludedByRule);
    }
    if !metadata.is_dir && !extension_allowed(maps, &metadata.extension) {
        return Some(SkipReason::InvalidExtension);
    }
    let name = chars_of(metadata.file_name.as_str());
    let artifact = chars_of(".DS_Store");
    if has_infix(name.as_slice(), artifact.as_slice()) {
        return Some(SkipReason::SystemArtifact);
    }
    if metadata.is_dir {
        return Some(SkipReason::Directory);
    }
    None
}

/// The batch stage.
#[derive(Debug)]
pub struct BatchProcessor {
    batch: Vec<FileMetadata>,
    batch_size: usize,
    batch_interval_ms: u64,
    last_send_ms: u64,
    stats: BatchProcessorStats,
}

/// The value of a [`BatchProcessor`].
pub struct BatchProcessorView {
    /// The records that wait, in the order in which they came.
    pub batch: Seq<FileMetadataView>,
    /// With how many records the buffer is full.
    pub batch_size: usize,
    /// After how many milliseconds the buffer is emptied at the latest.
    pub batch_interval_ms: u64,
    /// When the last batch was sent, on the clock that ticks are told by.
    pub last_send_ms: u64,
    /// The counters.
    pub stats: BatchProcessorStats,
}

/// A batch is due at `now_ms`: records wait, and the interval has passed
/// since the last batch was sent.
pub open spec fn batch_due(view: BatchProcessorView, now_ms: u64) -> bool {
    view.batch.len() > 0 && now_ms >= view.last_send_ms && now_ms - view.last_send_ms
        >= view.batch_interval_ms
}

impl View for BatchProcessor {
    type V = BatchProcessorView;

    closed spec fn view(&self) -> BatchProcessorView {
        BatchProcessorView {
            batch: self.batch.deep_view(),
            batch_size: self.batch_size,
            batch_interval_ms: self.batch_interval_ms,
            last_send_ms: self.last_send_ms,
            stats: self.stats,
        }
    }
}

/// The buffer of `view` is never left full: fewer records wait than make a
/// batch, and none where every record makes one.
pub open spec fn within_bound(view: BatchProcessorView) -> bool {
    if view.batch_size == 0 {
        view.batch.len() == 0
    } else {
        view.batch.len() < view.batch_size
    }
}

impl BatchProcessor {
    /// The buffer is never left full.
    pub open spec fn wf(&self) -> bool {
        within_bound(self@)
    }

    /// A stage that cuts batches of `batch_size` records, or after
    /// `batch_interval_ms` milliseconds, started at `now_ms`.
    pub fn new(batch_size: usize, batch_interval_ms: u64, now_ms: u64) -> (r: BatchProcessor)
        ensures
            r.wf(),
            r@ == (BatchProcessorView {
                batch: Seq::empty(),
                batch_size,
                batch_interval_ms,
                last_send_ms: now_ms,
                stats: BatchProcessorStats {
                    received_files: 0,
                    hidden_files_skipped: 0,
                    rule_excluded_files_skipped: 0,
                    invalid_extension_skipped: 0,
                    ds_store_skipped: 0,
                    directory_skipped: 0,
                    bundle_skipped: 0,
                    processed_files: 0,
                },
            }),
    {
        let r = BatchProcessor {
            batch: Vec::new(),
            batch_size,
            batch_interval_ms,
            last_send_ms: now_ms,
            stats: BatchProcessorStats {
                received_files: 0,
                hidden_files_skipped: 0,
                rule_excluded_files_skipped: 0,
                invalid_extension_skipped: 0,
                ds_store_skipped: 0,
                directory_skipped: 0,
                bundle_skipped: 0,
                processed_files: 0,
            },
        };
        assert(r.batch.deep_view() =~= Seq::empty());
        r
    }

    /// The counters.
    pub fn get_stats(&self) -> (r: BatchProcessorStats)
        ensures
            r == self@.stats,
    {
        self.stats
    }

    /// How many records wait.
    pub fn pending(&self) -> (r: usize)
        ensures
            r == self@.batch.len(),
    {
        self.batch.len()
    }

    /// Empties the buffer and hands out what it held.
    fn take_batch(&mut self) -> (r: Vec<FileMetadata>)
        ensures
            r.deep_view() == old(self)@.batch,
            final(self)@ == (BatchProcessorView { batch: Seq::empty(), ..old(self)@ }),
    {
        let mut out: Vec<FileMetadata> = Vec::new();
        std::mem::swap(&mut self.batch, &mut out);
        assert(self.batch.deep_view() =~= Seq::empty());
        out
    }

    /// Takes in one record. It is counted as received. A record that the
    /// second filter drops is counted under the reason. Any other is counted
    /// as processed and joins the buffer; if the buffer is full with it, the
    /// whole buffer is handed out as a batch and left empty.
    pub fn submit(&mut self, metadata: FileMetadata, maps: &Vec<FileExtensionMapRust>) -> (r:
        Submission)
        requires
            old(self).wf(),
        ensures
            final(self).wf(),
            final(self)@.stats == counted(
                old(self)@.stats,
                skip_reason(metadata@, maps.deep_view()),
            ),
            final(self)@.batch_size == old(self)@.batch_size,
            final(self)@.batch_interval_ms == old(self)@.batch_interval_ms,
            final(self)@.last_send_ms == old(self)@.last_send_ms,
            r matches Submission::Flush(sent) ==> sent.len() == old(self)@.batch.len() + 1,
            match skip_reason(metadata@, maps.deep_view()) {
                Some(reason) => r@ == SubmissionView::Skipped(reason) && final(self)@.batch == old(self)@.batch,
                None => if old(self)@.batch.len() + 1 >= old(self)@.batch_size {
                    r@ == SubmissionView::Flush(old(self)@.batch.push(metadata@)) && final(self)@.batch == Seq::<FileMetadataView>::empty()
                } else {
                    r@ == SubmissionView::Buffered && final(self)@.batch == old(self)@.batch.push(
                        metadata@,
                    )
                },
            },
    {
        self.stats.received_files = increment(self.stats.received_files);
        match find_skip_reason(&metadata, maps) {
            Some(reason) => {
                match reason {
                    SkipReason::Hidden => {
                        self.stats.hidden_files_skipped = increment(
                            self.stats.hidden_files_skipped,
                        );
                    },
                    SkipReason::Bundle => {
                        self.stats.bundle_skipped = increment(self.stats.bundle_skipped);
                    },
                    SkipReason::ExcludedByRule => {
                        self.stats.rule_excluded_files_skipped = increment(
                            self.stats.rule_excluded_files_skipped,
                        );
                    },
                    SkipReason::InvalidExtension => {
                        self.stats.invalid_extension_skipped = increment(
                            self.stats.invalid_extension_skipped,
                        );
                    },
                    SkipReason::SystemArtifact => {
                        self.stats.ds_store_skipped = increment(self.stats.ds_store_skipped);
                    },
                    SkipReason::Directory => {
                        self.stats.directory_skipped = increment(self.stats.directory_skipped);
                    },
                }
                Submission::Skipped(reason)
            },
            None => {
                self.stats.processed_files = increment(self.stats.processed_files);
                let ghost before = self.batch.deep_view();
                self.batch.push(metadata);
                assert(self.batch.deep_view() =~= before.push(metadata@));
                if self.batch.len() >= self.batch_size {
                    Submission::Flush(self.take_batch())
                } else {
                    Submission::Buffered
                }
            },
        }
    }

    /// The timer has ticked at `now_ms`. If records wait and the interval has
    /// passed since the last batch was sent, the whole buffer is handed out
    /// as a batch and left empty.
    pub fn on_tick(&mut self, now_ms: u64) -> (r: Option<Vec<FileMetadata>>)
        requires
            old(self).wf(),
        ensures
            final(self).wf(),
            r.is_some() ==> r.unwrap().len() == old(self)@.batch.len(),
            if batch_due(old(self)@, now_ms) {
                r.deep_view() == Some(old(self)@.batch) && final(self)@ == (BatchProcessorView {
                    batch: Seq::empty(),
                    ..old(self)@
                })
            } else {
                r.is_none() && final(self)@ == old(self)@
            },
    {
        if self.batch.len() > 0 && now_ms >= self.last_send_ms && now_ms - self.last_send_ms
            >= self.batch_interval_ms {
            Some(self.take_batch())
        } else {
            None
        }
    }

    /// The stream of records has ended. What still waits is handed out as
    /// the last batch.
    pub fn on_close(&mut self) -> (r: Option<Vec<FileMetadata>>)
        requires
            old(self).wf(),
        ensures
            final(self).wf(),
            final(self)@ == (BatchProcessorView { batch: Seq::empty(), ..old(self)@ }),
            r.is_some() ==> r.unwrap().len() == old(self)@.batch.len(),
            if old(self)@.batch.len() > 0 {
                r.deep_view() == Some(old(self)@.batch)
            } else {
                r.is_none()
            },
    {
        if self.batch.len() > 0 {
            Some(self.take_batch())
        } else {
            assert(self.batch.deep_view() =~= Seq::empty());
            None
        }
    }

    /// A batch has been sent, or given up, at `now_ms`: the interval starts
    /// anew.
    pub fn batch_sent(&mut self, now_ms: u64)
        requires
            old(self).wf(),
        ensures
            final(self).wf(),
            final(self)@ == (BatchProcessorView { last_send_ms: now_ms, ..old(self)@ }),
    {
        self.last_send_ms = now_ms;
    }
}

} // verus!
