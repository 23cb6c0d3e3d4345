//! Debouncing of raw file-system events: what kind of change an event
//! stands for, and the buffer that keeps the last change of each path until
//! the next tick.
//!
//! The native watches belong to the shell. It hands every raw event to the
//! buffer and empties the buffer on each tick.

use vstd::prelude::*;
use crate::file_monitor::{at_or_below, is_at_or_below};
use crate::seqs::{lemma_filter_empty, lemma_filter_step};
use crate::text::chars_of;

verus! {

/// What happened to a path, once an event is reduced to what matters.
#[derive(Debug, Clone, Copy, PartialEq, Eq, Structural)]
pub enum ChangeKind {
    /// The path came into being or changed.
    Added,
    /// The path is gone.
    Removed,
}

/// What a native event says, as far as the debouncer tells kinds apart.
#[derive(Debug, Clone, Copy, PartialEq, Eq, Structural)]
pub enum RawEventKind {
    /// Something was created.
    Create,
    /// Something was removed.
    Remove,
    /// The path is the old name of something renamed.
    RenameFrom,
    /// The path is the new name of something renamed.
    RenameTo,
    /// The event carries both names of something renamed.
    RenameBoth,
    /// Any other change.
    Other,
}

/// The change that a raw event stands for. Creation and the new name of a
/// rename add; removal and the old name of a rename remove; for any other
/// event the path decides: it adds if the path exists when the event is
/// looked at, else it removes.
pub open spec fn normalized(kind: RawEventKind, exists: bool) -> ChangeKind {
    match kind {
        RawEventKind::Create => ChangeKind::Added,
        RawEventKind::Remove => ChangeKind::Removed,
        RawEventKind::RenameFrom => ChangeKind::Removed,
        RawEventKind::RenameTo => ChangeKind::Added,
        RawEventKind::RenameBoth => ChangeKind::Added,
        RawEventKind::Other => if exists {
            ChangeKind::Added
        } else {
            ChangeKind::Removed
        },
    }
}

/// The change that a raw event stands for, where `exists` says whether the
/// path of the event exists, be it a file or a directory.
pub fn normalize(kind: RawEventKind, exists: bool) -> (r: ChangeKind)
    ensures
        r == normalized(kind, exists),
{
    match kind {
        RawEventKind::Create => ChangeKind::Added,
        RawEventKind::Remove => ChangeKind::Removed,
        RawEventKind::RenameFrom => ChangeKind::Removed,
        RawEventKind::RenameTo => ChangeKind::Added,
        RawEventKind::RenameBoth => ChangeKind::Added,
        RawEventKind::Other => if exists {
            ChangeKind::Added
        } else {
            ChangeKind::Removed
        },
    }
}

/// A change of one path, as it leaves the debouncer.
#[derive(Debug, PartialEq, Eq)]
pub enum SimpleFileEvent {
    /// The file is new: created or moved in.
    Added(String),
    /// The file is gone: removed or moved out.
    Removed(String),
}

/// The value of a [`SimpleFileEvent`].
pub enum SimpleFileEventView {
    Added(Seq<char>),
    Removed(Seq<char>),
}

impl View for SimpleFileEvent {
    type V = SimpleFileEventView;

    open spec fn view(&self) -> SimpleFileEventView {
        match self {
            SimpleFileEvent::Added(path) => SimpleFileEventView::Added(path@),
            SimpleFileEvent::Removed(path) => SimpleFileEventView::Removed(path@),
        }
    }
}

impl DeepView for SimpleFileEvent {
    type V = SimpleFileEventView;

    open spec fn deep_view(&self) -> SimpleFileEventView {
        self.view()
    }
}

impl SimpleFileEvent {
    /// The path that changed.
    pub fn path(&self) -> (r: &str)
        ensures
            r@ == event_path(self@),
    {
        match self {
            SimpleFileEvent::Added(path) => path.as_str(),
            SimpleFileEvent::Removed(path) => path.as_str(),
        }
    }

    /// The kind of the change.
    pub fn kind(&self) -> (r: ChangeKind)
        ensures
            r == event_kind(self@),
    {
        match self {
            SimpleFileEvent::Added(_) => ChangeKind::Added,
            SimpleFileEvent::Removed(_) => ChangeKind::Removed,
        }
    }
}

/// The path of an event.
pub open spec fn event_path(event: SimpleFileEventView) -> Seq<char> {
    match event {
        SimpleFileEventView::Added(path) => path,
        SimpleFileEventView::Removed(path) => path,
    }
}

/// The kind of an event.
pub open spec fn event_kind(event: SimpleFileEventView) -> ChangeKind {
    match event {
        SimpleFileEventView::Added(_) => ChangeKind::Added,
        SimpleFileEventView::Removed(_) => ChangeKind::Removed,
    }
}

/// What the buffer keeps of one path between two ticks.
#[derive(Debug)]
pub struct DebounceRecord {
    pub path: String,
    /// The kind of the last change.
    pub last_kind: ChangeKind,
    /// When the first change of this window came.
    pub first_seen: u64,
    /// When the last change came.
    pub last_seen: u64,
    /// How many changes came.
    pub count: u64,
}

/// The value of a [`DebounceRecord`].
pub struct DebounceRecordView {
    pub path: Seq<char>,
    pub last_kind: ChangeKind,
    pub first_seen: u64,
    pub last_seen: u64,
    pub count: u64,
}

impl View for DebounceRecord {
    type V = DebounceRecordView;

    open spec fn view(&self) -> DebounceRecordView {
        DebounceRecordView {
            path: self.path@,
            last_kind: self.last_kind,
            first_seen: self.first_seen,
            last_seen: self.last_seen,
            count: self.count,
        }
    }
}

impl DeepView for DebounceRecord {
    type V = DebounceRecordView;

    open spec fn deep_view(&self) -> DebounceRecordView {
        self.view()
    }
}

/// No two of `records` are of the same path.
pub open spec fn distinct_paths(records: Seq<DebounceRecordView>) -> bool {
    forall|i: int, j: int|
        0 <= i < j < records.len() ==> (#[trigger] records[i]).path != (#[trigger] records[j]).path
}

/// `records[i]` is the record of `path`.
pub open spec fn is_record_of(records: Seq<DebounceRecordView>, path: Seq<char>, i: int) -> bool {
    0 <= i < records.len() && records[i].path == path
}

/// `records` holds a record of `path`.
pub open spec fn has_record(records: Seq<DebounceRecordView>, path: Seq<char>) -> bool {
    exists|i: int| is_record_of(records, path, i)
}

/// The record of `path` after one more change of the kind `kind` at `now_ms`.
pub open spec fn touched(record: DebounceRecordView, kind: ChangeKind, now_ms: u64) -> DebounceRecordView {
    DebounceRecordView {
        last_kind: kind,
        last_seen: now_ms,
        count: if record.count == u64::MAX {
            record.count
        } else {
            (record.count + 1) as u64
        },
        ..record
    }
}

/// The record of a path whose first change, of the kind `kind`, came at
/// `now_ms`.
pub open spec fn first_record(path: Seq<char>, kind: ChangeKind, now_ms: u64) -> DebounceRecordView {
    DebounceRecordView { path, last_kind: kind, first_seen: now_ms, last_seen: now_ms, count: 1 }
}

/// `records` after a change of `path` of the kind `kind` at `now_ms`: the
/// record of `path` takes the new kind, or a record of `path` is added at
/// the end.
pub open spec fn ingested(
    records: Seq<DebounceRecordView>,
    path: Seq<char>,
    kind: ChangeKind,
    now_ms: u64,
) -> Seq<DebounceRecordView> {
    if has_record(records, path) {
        let i = choose|i: int| is_record_of(records, path, i);
        records.update(i, touched(records[i], kind, now_ms))
    } else {
        records.push(first_record(path, kind, now_ms))
    }
}

/// The event that a record is forwarded as.
pub open spec fn event_of(record: DebounceRecordView) -> SimpleFileEventView {
    match record.last_kind {
        ChangeKind::Added => SimpleFileEventView::Added(record.path),
        ChangeKind::Removed => SimpleFileEventView::Removed(record.path),
    }
}

/// The events that `records` are forwarded as, one for each record.
pub open spec fn events_of(records: Seq<DebounceRecordView>) -> Seq<SimpleFileEventView> {
    Seq::new(records.len(), |i: int| event_of(records[i]))
}

/// The records of `records` that are not of `dir` nor of a path below it.
pub open spec fn released(records: Seq<DebounceRecordView>, dir: Seq<char>) -> Seq<
    DebounceRecordView,
> {
    records.filter(|r: DebounceRecordView| !at_or_below(r.path, dir))
}

/// Last write wins: after a change of `path` is taken in, exactly one record
/// is of `path`, it holds the kind of that change, and no two records are of
/// one path. The records of other paths are as they were.
pub proof fn lemma_ingest_coalesces(
    records: Seq<DebounceRecordView>,
    path: Seq<char>,
    kind: ChangeKind,
    now_ms: u64,
)
    requires
        distinct_paths(records),
    ensures
        distinct_paths(ingested(records, path, kind, now_ms)),
        exists|i: int| #[trigger]
            is_record_of(ingested(records, path, kind, now_ms), path, i) && ingested(
                records,
                path,
                kind,
                now_ms,
            )[i].last_kind == kind && forall|j: int| #[trigger]
                is_record_of(ingested(records, path, kind, now_ms), path, j) ==> j == i,
        forall|other: Seq<char>, j: int|
            other != path && #[trigger] is_record_of(records, other, j) ==> is_record_of(
                ingested(records, path, kind, now_ms),
                other,
                j,
            ) && ingested(records, path, kind, now_ms)[j] == records[j],
        has_record(records, path) ==> ingested(records, path, kind, now_ms).len() == records.len(),
        !has_record(records, path) ==> ingested(records, path, kind, now_ms).len() == records.len()
            + 1,
{
    let after = ingested(records, path, kind, now_ms);
    if has_record(records, path) {
        let i = choose|i: int| is_record_of(records, path, i);
        assert(is_record_of(after, path, i));
        assert forall|j: int| #[trigger] is_record_of(after, path, j) implies j == i by {
            if j != i {
                assert(after[j] == records[j]);
                if j < i {
                    assert(records[j].path != records[i].path);
                } else {
                    assert(records[i].path != records[j].path);
                }
            }
        }
        assert forall|a: int, b: int| 0 <= a < b < after.len() implies (#[trigger] after[a]).path
            != (#[trigger] after[b]).path by {
            assert(after[a].path == records[a].path);
            assert(after[b].path == records[b].path);
        }
    } else {
        let i = records.len() as int;
        assert(is_record_of(after, path, i));
        assert forall|j: int| #[trigger] is_record_of(after, path, j) implies j == i by {
            if j != i {
                assert(after[j] == records[j]);
                assert(is_record_of(records, path, j));
            }
        }
        assert forall|a: int, b: int| 0 <= a < b < after.len() implies (#[trigger] after[a]).path
            != (#[trigger] after[b]).path by {
            if b == i {
                assert(after[a] == records[a]);
                if after[a].path == path {
                    assert(is_record_of(records, path, a));
                }
            } else {
                assert(after[a] == records[a]);
                assert(after[b] == records[b]);
            }
        }
    }
}

/// Two changes of one path between two ticks are forwarded as one event, of
/// the kind of the second change; the number of events for other paths is
/// what it was.
pub proof fn lemma_last_write_wins(
    records: Seq<DebounceRecordView>,
    path: Seq<char>,
    first: ChangeKind,
    first_ms: u64,
    second: ChangeKind,
    second_ms: u64,
)
    requires
        distinct_paths(records),
    ensures
        ({
            let once = ingested(records, path, first, first_ms);
            let twice = ingested(once, path, second, second_ms);
            &&& twice.len() == once.len()
            &&& distinct_paths(twice)
            &&& exists|i: int|
                0 <= i < twice.len() && #[trigger] events_of(twice)[i] == event_of(
                    first_record(path, second, 0),
                ) && forall|j: int|
                    0 <= j < twice.len() && j != i ==> event_path(#[trigger] events_of(twice)[j])
                        != path
        }),
{
    let once = ingested(records, path, first, first_ms);
    let twice = ingested(once, path, second, second_ms);
    lemma_ingest_coalesces(records, path, first, first_ms);
    lemma_ingest_coalesces(once, path, second, second_ms);
    let i = choose|i: int| #[trigger]
        is_record_of(twice, path, i) && twice[i].last_kind == second && forall|j: int| #[trigger]
            is_record_of(twice, path, j) ==> j == i;
    let k = choose|k: int| #[trigger] is_record_of(once, path, k);
    assert(has_record(once, path));
    assert(events_of(twice)[i] == event_of(first_record(path, second, 0)));
    assert forall|j: int| 0 <= j < twice.len() && j != i implies event_path(
        #[trigger] events_of(twice)[j],
    ) != path by {
        if twice[j].path == path {
            assert(is_record_of(twice, path, j));
        }
    }
}

/// The buffer of the debouncer: one record for each path that changed since
/// the last tick.
#[derive(Debug)]
pub struct DebounceBuffer {
    records: Vec<DebounceRecord>,
}

impl View for DebounceBuffer {
    type V = Seq<DebounceRecordView>;

    closed spec fn view(&self) -> Seq<DebounceRecordView> {
        self.records.deep_view()
    }
}

impl DebounceBuffer {
    /// No two records are of one path.
    pub open spec fn wf(&self) -> bool {
        distinct_paths(self@)
    }

    /// An empty buffer.
    pub fn new() -> (r: DebounceBuffer)
        ensures
            r.wf(),
            r@ == Seq::<DebounceRecordView>::empty(),
    {
        let r = DebounceBuffer { records: Vec::new() };
        assert(r.records.deep_view() =~= Seq::empty());
        r
    }

    /// How many paths have changed since the last tick.
    pub fn len(&self) -> (r: usize)
        ensures
            r == self@.len(),
    {
        self.records.len()
    }

    /// Where the record of `path` stands.
    fn position(&self, path: &String) -> (r: Option<usize>)
        ensures
            match r {
                Some(i) => is_record_of(self@, path@, i as int),
                None => !has_record(self@, path@),
            },
    {
        let ghost list = self.records.deep_view();
        let mut i: usize = 0;
        while i < self.records.len()
            invariant
                i <= self.records.len(),
                list == self.records.deep_view(),
                forall|j: int| 0 <= j < i ==> (#[trigger] list[j]).path != path@,
            decreases self.records.len() - i,
        {
            assert(list[i as int] == self.records[i as int]@);
            if self.records[i].path == *path {
                return Some(i);
            }
            i += 1;
        }
        proof {
            if has_record(list, path@) {
                let k = choose|k: int| is_record_of(list, path@, k);
                assert(list[k].path != path@);
            }
        }
        None
    }

    /// Takes in a change of `path` of the kind `kind` at `now_ms`. The last
    /// change of a path is the one that is kept.
    pub fn ingest(&mut self, path: &str, kind: ChangeKind, now_ms: u64)
        requires
            old(self).wf(),
        ensures
            final(self).wf(),
            final(self)@ == ingested(old(self)@, path@, kind, now_ms),
    {
        let ghost before = self@;
        proof {
            lemma_ingest_coalesces(before, path@, kind, now_ms);
        }
        let key = path.to_owned();
        match self.position(&key) {
            Some(i) => {
                proof {
                    let k = choose|k: int| is_record_of(before, path@, k);
                    if k != i {
                        if k < i {
                            assert(before[k].path != before[i as int].path);
                        } else {
                            assert(before[i as int].path != before[k].path);
                        }
                    }
                }
                let have = &self.records[i];
                assert(have@ == before[i as int]);
                let record = DebounceRecord {
                    path: key,
                    last_kind: kind,
                    first_seen: have.first_seen,
                    last_seen: now_ms,
                    count: if have.count == u64::MAX {
                        have.count
                    } else {
                        have.count + 1
                    },
                };
                self.records.set(i, record);
                assert(self.records.deep_view() =~= ingested(before, path@, kind, now_ms));
            },
            None => {
                self.records.push(
                    DebounceRecord {
                        path: key,
                        last_kind: kind,
                        first_seen: now_ms,
                        last_seen: now_ms,
                        count: 1,
                    },
                );
                assert(self.records.deep_view() =~= ingested(before, path@, kind, now_ms));
            },
        }
    }

    /// The timer has ticked: all records are taken out and handed over as
    /// events, one for each path, in the order in which the paths first
    /// changed. The buffer is empty at once.
    pub fn flush(&mut self) -> (r: Vec<SimpleFileEvent>)
        requires
            old(self).wf(),
        ensures
            final(self).wf(),
            final(self)@ == Seq::<DebounceRecordView>::empty(),
            r.deep_view() == events_of(old(self)@),
    {
        let mut taken: Vec<DebounceRecord> = Vec::new();
        std::mem::swap(&mut self.records, &mut taken);
        assert(self.records.deep_view() =~= Seq::empty());
        let ghost list = taken.deep_view();
        let mut events: Vec<SimpleFileEvent> = Vec::new();
        let mut i: usize = 0;
        while i < taken.len()
            invariant
                i <= taken.len(),
                list == taken.deep_view(),
                events.len() == i,
                forall|k: int| 0 <= k < i ==> (#[trigger] events[k])@ == event_of(list[k]),
            decreases taken.len() - i,
        {
            assert(list[i as int] == taken[i as int]@);
            let path = taken[i].path.clone();
            let event = match taken[i].last_kind {
                ChangeKind::Added => SimpleFileEvent::Added(path),
                ChangeKind::Removed => SimpleFileEvent::Removed(path),
            };
            events.push(event);
            i += 1;
        }
        assert(events.deep_view() =~= events_of(list));
        events
    }

    /// Drops the records of `dir` and of the paths below it, as when the
    /// watch of `dir` is stopped.
    pub fn release_under(&mut self, dir: &str)
        requires
            old(self).wf(),
        ensures
            final(self).wf(),
            final(self)@ == released(old(self)@, dir@),
    {
        let d = chars_of(dir);
        let mut taken: Vec<DebounceRecord> = Vec::new();
        std::mem::swap(&mut self.records, &mut taken);
        let ghost list = taken.deep_view();
        let ghost keep = |r: DebounceRecordView| !at_or_below(r.path, dir@);
        let ghost mut origin: Seq<int> = Seq::empty();
        proof {
            lemma_filter_empty(list.take(0), keep);
            assert(self.records.deep_view() =~= list.take(0).filter(keep));
        }
        let mut i: usize = 0;
        while i < taken.len()
            invariant
                i <= taken.len(),
                d@ == dir@,
                list == taken.deep_view(),
                distinct_paths(list),
                keep == |r: DebounceRecordView| !at_or_below(r.path, dir@),
                self.records.deep_view() == list.take(i as int).filter(keep),
                origin.len() == self.records.len(),
                forall|a: int|
                    0 <= a < origin.len() ==> 0 <= #[trigger] origin[a] < i
                        && self.records.deep_view()[a] == list[origin[a]],
                forall|a: int, b: int|
                    0 <= a < b < origin.len() ==> #[trigger] origin[a] < #[trigger] origin[b],
            decreases taken.len() - i,
        {
            assert(list[i as int] == taken[i as int]@);
            let ghost before = self.records.deep_view();
            proof {
                lemma_filter_step(list, keep, i as int);
            }
            let p = chars_of(taken[i].path.as_str());
            if !is_at_or_below(p.as_slice(), d.as_slice()) {
                let record = DebounceRecord {
                    path: taken[i].path.clone(),
                    last_kind: taken[i].last_kind,
                    first_seen: taken[i].first_seen,
                    last_seen: taken[i].last_seen,
                    count: taken[i].count,
                };
                self.records.push(record);
                proof {
                    origin = origin.push(i as int);
                    assert(self.records.deep_view() =~= before.push(list[i as int]));
                }
            }
            i += 1;
        }
        proof {
            assert(list.take(taken.len() as int) =~= list);
            let out = self.records.deep_view();
            assert forall|a: int, b: int| 0 <= a < b < out.len() implies (#[trigger] out[a]).path
                != (#[trigger] out[b]).path by {
                assert(origin[a] < origin[b]);
                assert(list[origin[a]].path != list[origin[b]].path);
            }
        }
    }
}

} // verus!
