//! Throttling of the notifications that go to the user interface: some are
//! passed on at once, some are held back and merged, some are let through
//! only so often.

use vstd::prelude::*;
use crate::seqs::{lemma_filter_empty, lemma_filter_step};
use crate::text::same_text;

verus! {

/// How the notifications of one name are treated.
#[derive(Debug, Clone, Copy, PartialEq, Eq, Structural)]
pub enum EventBufferStrategy {
    /// Passed on at once.
    Immediate,
    /// Held back; within the window, given in milliseconds, only the last
    /// one is sent.
    DelayedMerge(u64),
    /// Let through once in the interval, given in milliseconds.
    Throttle(u64),
}

/// A notification: its name and what it carries, as text.
#[derive(Debug, PartialEq, Eq)]
pub struct BridgeEventData {
    pub event: String,
    pub payload: String,
}

/// The value of a [`BridgeEventData`].
pub struct BridgeEventView {
    pub event: Seq<char>,
    pub payload: Seq<char>,
}

impl View for BridgeEventData {
    type V = BridgeEventView;

    open spec fn view(&self) -> BridgeEventView {
        BridgeEventView { event: self.event@, payload: self.payload@ }
    }
}

impl DeepView for BridgeEventData {
    type V = BridgeEventView;

    open spec fn deep_view(&self) -> BridgeEventView {
        self.view()
    }
}

impl Clone for BridgeEventData {
    fn clone(&self) -> (r: Self)
        ensures
            r@ == self@,
    {
        BridgeEventData { event: self.event.clone(), payload: self.payload.clone() }
    }
}

/// A notification that is held back.
#[derive(Debug)]
pub struct BufferedEvent {
    /// The notification that came last.
    pub data: BridgeEventData,
    /// When the first one came.
    pub first_time: u64,
    /// When the last one came.
    pub last_time: u64,
    /// How many came.
    pub count: u32,
}

/// The value of a [`BufferedEvent`].
pub struct BufferedEventView {
    pub data: BridgeEventView,
    pub first_time: u64,
    pub last_time: u64,
    pub count: u32,
}

impl View for BufferedEvent {
    type V = BufferedEventView;

    open spec fn view(&self) -> BufferedEventView {
        BufferedEventView {
            data: self.data@,
            first_time: self.first_time,
            last_time: self.last_time,
            count: self.count,
        }
    }
}

impl DeepView for BufferedEvent {
    type V = BufferedEventView;

    open spec fn deep_view(&self) -> BufferedEventView {
        self.view()
    }
}

/// How the notifications named `name` are treated. A name that is not
/// listed is merged within half a second.
pub open spec fn strategy_of(name: Seq<char>) -> EventBufferStrategy {
    if name == "error-occurred"@ || name == "system-status"@ || name == "model-status-changed"@ {
        EventBufferStrategy::Immediate
    } else if name == "tags-updated"@ {
        EventBufferStrategy::DelayedMerge(5000)
    } else if name == "database-updated"@ {
        EventBufferStrategy::DelayedMerge(3000)
    } else if name == "task-completed"@ {
        EventBufferStrategy::DelayedMerge(2000)
    } else if name == "parsing-progress"@ || name == "screening-progress"@ {
        EventBufferStrategy::Throttle(1000)
    } else if name == "file-processed"@ {
        EventBufferStrategy::Throttle(2000)
    } else {
        EventBufferStrategy::DelayedMerge(500)
    }
}

/// After how many milliseconds without a new one a held notification named
/// `name` is sent.
pub open spec fn quiet_time(name: Seq<char>) -> u64 {
    if name == "tags-updated"@ || name == "database-updated"@ {
        5000
    } else if name == "task-completed"@ || name == "file-processed"@ {
        2000
    } else {
        1000
    }
}

/// How many milliseconds have passed from `then` to `now_ms`; none if the
/// clock stands before `then`.
pub open spec fn elapsed(then: u64, now_ms: u64) -> u64 {
    if now_ms >= then {
        (now_ms - then) as u64
    } else {
        0
    }
}

/// The held notification is due at `now_ms`.
pub open spec fn is_due(held: BufferedEventView, now_ms: u64) -> bool {
    elapsed(held.last_time, now_ms) >= quiet_time(held.data.event)
}

/// How the notifications named `name` are treated.
pub fn strategy_for(name: &str) -> (r: EventBufferStrategy)
    ensures
        r == strategy_of(name@),
{
    if same_text(name, "error-occurred") || same_text(name, "system-status") || same_text(
        name,
        "model-status-changed",
    ) {
        EventBufferStrategy::Immediate
    } else if same_text(name, "tags-updated") {
        EventBufferStrategy::DelayedMerge(5000)
    } else if same_text(name, "database-updated") {
        EventBufferStrategy::DelayedMerge(3000)
    } else if same_text(name, "task-completed") {
        EventBufferStrategy::DelayedMerge(2000)
    } else if same_text(name, "parsing-progress") || same_text(name, "screening-progress") {
        EventBufferStrategy::Throttle(1000)
    } else if same_text(name, "file-processed") {
        EventBufferStrategy::Throttle(2000)
    } else {
        EventBufferStrategy::DelayedMerge(500)
    }
}

/// After how many milliseconds without a new one a held notification named
/// `name` is sent.
pub fn quiet_time_for(name: &str) -> (r: u64)
    ensures
        r == quiet_time(name@),
{
    if same_text(name, "tags-updated") || same_text(name, "database-updated") {
        5000
    } else if same_text(name, "task-completed") || same_text(name, "file-processed") {
        2000
    } else {
        1000
    }
}

/// No two of `held` have the same name.
pub open spec fn distinct_names(held: Seq<BufferedEventView>) -> bool {
    forall|i: int, j: int|
        0 <= i < j < held.len() ==> (#[trigger] held[i]).data.event != (#[trigger] held[j]).data.event
}

/// `held[i]` is the notification named `name`.
pub open spec fn is_held_at(held: Seq<BufferedEventView>, name: Seq<char>, i: int) -> bool {
    0 <= i < held.len() && held[i].data.event == name
}

/// A notification named `name` is held.
pub open spec fn is_held(held: Seq<BufferedEventView>, name: Seq<char>) -> bool {
    exists|i: int| is_held_at(held, name, i)
}

/// The notification `data`, held since `now_ms` as the first of its name.
pub open spec fn fresh(data: BridgeEventView, now_ms: u64) -> BufferedEventView {
    BufferedEventView { data, first_time: now_ms, last_time: now_ms, count: 1 }
}

/// The held notification after `data` has come at `now_ms`.
pub open spec fn merged(have: BufferedEventView, data: BridgeEventView, now_ms: u64) -> BufferedEventView {
    BufferedEventView {
        data,
        last_time: now_ms,
        count: if have.count == u32::MAX {
            have.count
        } else {
            (have.count + 1) as u32
        },
        ..have
    }
}

/// `held` with the notification of the name of `entry` replaced by `entry`,
/// or with `entry` added at the end.
pub open spec fn put(held: Seq<BufferedEventView>, entry: BufferedEventView) -> Seq<
    BufferedEventView,
> {
    if is_held(held, entry.data.event) {
        held.update(choose|i: int| is_held_at(held, entry.data.event, i), entry)
    } else {
        held.push(entry)
    }
}

/// The notification named `name` has come within its interval of
/// `interval` milliseconds before `now_ms`.
pub open spec fn throttled(held: Seq<BufferedEventView>, name: Seq<char>, interval: u64, now_ms: u64) -> bool {
    is_held(held, name) && elapsed(
        held[choose|i: int| is_held_at(held, name, i)].last_time,
        now_ms,
    ) < interval
}

/// What is held after `data` has come at `now_ms`.
pub open spec fn handled(held: Seq<BufferedEventView>, data: BridgeEventView, now_ms: u64) -> Seq<
    BufferedEventView,
> {
    match strategy_of(data.event) {
        EventBufferStrategy::Immediate => held,
        EventBufferStrategy::DelayedMerge(_) => if is_held(held, data.event) {
            put(
                held,
                merged(held[choose|i: int| is_held_at(held, data.event, i)], data, now_ms),
            )
        } else {
            put(held, fresh(data, now_ms))
        },
        EventBufferStrategy::Throttle(interval) => if throttled(
            held,
            data.event,
            interval,
            now_ms,
        ) {
            put(
                held,
                merged(held[choose|i: int| is_held_at(held, data.event, i)], data, now_ms),
            )
        } else {
            put(held, fresh(data, now_ms))
        },
    }
}

/// Whether `data` is passed on at once when it comes at `now_ms`.
pub open spec fn passed_on(held: Seq<BufferedEventView>, data: BridgeEventView, now_ms: u64) -> bool {
    match strategy_of(data.event) {
        EventBufferStrategy::Immediate => true,
        EventBufferStrategy::DelayedMerge(_) => false,
        EventBufferStrategy::Throttle(interval) => !throttled(held, data.event, interval, now_ms),
    }
}

/// The notifications that `held` carries, in their order.
pub open spec fn carried(held: Seq<BufferedEventView>) -> Seq<BridgeEventView> {
    Seq::new(held.len(), |i: int| held[i].data)
}

/// The buffer of held notifications.
#[derive(Debug)]
pub struct EventBuffer {
    buffered_events: Vec<BufferedEvent>,
}

impl View for EventBuffer {
    type V = Seq<BufferedEventView>;

    closed spec fn view(&self) -> Seq<BufferedEventView> {
        self.buffered_events.deep_view()
    }
}

/// Putting a notification among distinct names leaves the names distinct.
pub proof fn lemma_put_keeps_distinct(held: Seq<BufferedEventView>, entry: BufferedEventView)
    requires
        distinct_names(held),
    ensures
        distinct_names(put(held, entry)),
{
    let after = put(held, entry);
    if is_held(held, entry.data.event) {
        let i = choose|i: int| is_held_at(held, entry.data.event, i);
        assert forall|a: int, b: int| 0 <= a < b < after.len() implies (#[trigger] after[a]).data.event
            != (#[trigger] after[b]).data.event by {
            assert(after[a].data.event == held[a].data.event);
            assert(after[b].data.event == held[b].data.event);
        }
    } else {
        assert forall|a: int, b: int| 0 <= a < b < after.len() implies (#[trigger] after[a]).data.event
            != (#[trigger] after[b]).data.event by {
            assert(after[a] == held[a]);
            if b == held.len() {
                if after[a].data.event == entry.data.event {
                    assert(is_held_at(held, entry.data.event, a));
                }
            } else {
                assert(after[b] == held[b]);
            }
        }
    }
}

impl EventBuffer {
    /// No two held notifications have the same name.
    pub open spec fn wf(&self) -> bool {
        distinct_names(self@)
    }

    /// A buffer that holds nothing.
    pub fn new() -> (r: EventBuffer)
        ensures
            r.wf(),
            r@ == Seq::<BufferedEventView>::empty(),
    {
        let r = EventBuffer { buffered_events: Vec::new() };
        assert(r.buffered_events.deep_view() =~= Seq::empty());
        r
    }

    /// Where the notification named `name` is held.
    fn position(&self, name: &String) -> (r: Option<usize>)
        requires
            self.wf(),
        ensures
            match r {
                Some(i) => is_held_at(self@, name@, i as int) && i == choose|k: int|
                    is_held_at(self@, name@, k),
                None => !is_held(self@, name@),
            },
    {
        let ghost list = self.buffered_events.deep_view();
        let mut i: usize = 0;
        while i < self.buffered_events.len()
            invariant
                i <= self.buffered_events.len(),
                list == self.buffered_events.deep_view(),
                distinct_names(list),
                forall|j: int| 0 <= j < i ==> (#[trigger] list[j]).data.event != name@,
            decreases self.buffered_events.len() - i,
        {
            assert(list[i as int] == self.buffered_events[i as int]@);
            if self.buffered_events[i].data.event == *name {
                proof {
                    assert(is_held_at(list, name@, i as int));
                    let k = choose|k: int| is_held_at(list, name@, k);
                    if k < i {
                        assert(list[k].data.event != name@);
                    } else if k > i {
                        assert(list[i as int].data.event != list[k].data.event);
                    }
                }
                return Some(i);
            }
            i += 1;
        }
        proof {
            if is_held(list, name@) {
                let k = choose|k: int| is_held_at(list, name@, k);
                assert(list[k].data.event != name@);
            }
        }
        None
    }

    /// Puts `entry` in the place of the notification of its name, or at the
    /// end.
    fn store(&mut self, at: Option<usize>, entry: BufferedEvent)
        requires
            old(self).wf(),
            match at {
                Some(i) => is_held_at(old(self)@, entry@.data.event, i as int) && i == choose|k: int|
                    is_held_at(old(self)@, entry@.data.event, k),
                None => !is_held(old(self)@, entry@.data.event),
            },
        ensures
            final(self).wf(),
            final(self)@ == put(old(self)@, entry@),
    {
        let ghost before = self@;
        proof {
            lemma_put_keeps_distinct(before, entry@);
        }
        match at {
            Some(i) => {
                assert(is_held(before, entry@.data.event));
                self.buffered_events.set(i, entry);
                assert(self.buffered_events.deep_view() =~= put(before, entry@));
            },
            None => {
                self.buffered_events.push(entry);
                assert(self.buffered_events.deep_view() =~= put(before, entry@));
            },
        }
    }

    /// Takes in the notification `event_data` at `now_ms`. Hands it back if
    /// it is to be passed on at once; else it is held.
    pub fn handle_event(&mut self, event_data: BridgeEventData, now_ms: u64) -> (r: Option<
        BridgeEventData,
    >)
        requires
            old(self).wf(),
        ensures
            final(self).wf(),
            final(self)@ == handled(old(self)@, event_data@, now_ms),
            r.deep_view() == if passed_on(old(self)@, event_data@, now_ms) {
                Some(event_data@)
            } else {
                None::<BridgeEventView>
            },
    {
        match strategy_for(event_data.event.as_str()) {
            EventBufferStrategy::Immediate => Some(event_data),
            EventBufferStrategy::DelayedMerge(_) => {
                let at = self.position(&event_data.event);
                let entry = match at {
                    Some(i) => {
                        let have = &self.buffered_events[i];
                        BufferedEvent {
                            data: event_data,
                            first_time: have.first_time,
                            last_time: now_ms,
                            count: if have.count == u32::MAX {
                                have.count
                            } else {
                                have.count + 1
                            },
                        }
                    },
                    None => BufferedEvent {
                        data: event_data,
                        first_time: now_ms,
                        last_time: now_ms,
                        count: 1,
                    },
                };
                self.store(at, entry);
                None
            },
            EventBufferStrategy::Throttle(interval) => {
                let at = self.position(&event_data.event);
                let held_back = match at {
                    Some(i) => {
                        let last = self.buffered_events[i].last_time;
                        let passed = if now_ms >= last {
                            now_ms - last
                        } else {
                            0
                        };
                        passed < interval
                    },
                    None => false,
                };
                if held_back {
                    let i = at.unwrap();
                    let have = &self.buffered_events[i];
                    let entry = BufferedEvent {
                        data: event_data,
                        first_time: have.first_time,
                        last_time: now_ms,
                        count: if have.count == u32::MAX {
                            have.count
                        } else {
                            have.count + 1
                        },
                    };
                    self.store(at, entry);
                    None
                } else {
                    let out = event_data.clone();
                    let entry = BufferedEvent {
                        data: event_data,
                        first_time: now_ms,
                        last_time: now_ms,
                        count: 1,
                    };
                    self.store(at, entry);
                    Some(out)
                }
            },
        }
    }

    /// Takes everything out of the buffer and hands over the notifications
    /// that were held, as when the application closes.
    pub fn flush_all(&mut self) -> (r: Vec<BridgeEventData>)
        requires
            old(self).wf(),
        ensures
            final(self).wf(),
            final(self)@ == Seq::<BufferedEventView>::empty(),
            r.deep_view() == carried(old(self)@),
    {
        let mut taken: Vec<BufferedEvent> = Vec::new();
        std::mem::swap(&mut self.buffered_events, &mut taken);
        assert(self.buffered_events.deep_view() =~= Seq::empty());
        let ghost list = taken.deep_view();
        let mut out: Vec<BridgeEventData> = Vec::new();
        let mut i: usize = 0;
        while i < taken.len()
            invariant
                i <= taken.len(),
                list == taken.deep_view(),
                out.len() == i,
                forall|k: int| 0 <= k < i ==> (#[trigger] out[k])@ == list[k].data,
            decreases taken.len() - i,
        {
            assert(list[i as int] == taken[i as int]@);
            out.push(taken[i].data.clone());
            i += 1;
        }
        assert(out.deep_view() =~= carried(list));
        out
    }

    /// How many notifications of each name have come since it is held.
    pub fn get_stats(&self) -> (r: Vec<(String, u32)>)
        ensures
            r.len() == self@.len(),
            forall|i: int|
                0 <= i < r.len() ==> (#[trigger] r[i]).0@ == self@[i].data.event && r[i].1
                    == self@[i].count,
    {
        let ghost list = self.buffered_events.deep_view();
        let mut out: Vec<(String, u32)> = Vec::new();
        let mut i: usize = 0;
        while i < self.buffered_events.len()
            invariant
                i <= self.buffered_events.len(),
                list == self.buffered_events.deep_view(),
                out.len() == i,
                forall|k: int|
                    0 <= k < i ==> (#[trigger] out[k]).0@ == list[k].data.event && out[k].1
                        == list[k].count,
            decreases self.buffered_events.len() - i,
        {
            assert(list[i as int] == self.buffered_events[i as int]@);
            out.push((self.buffered_events[i].data.event.clone(), self.buffered_events[i].count));
            i += 1;
        }
        out
    }
}

/// The held notifications that are due at `now_ms`, in their order.
pub open spec fn due_part(held: Seq<BufferedEventView>, now_ms: u64) -> Seq<BufferedEventView> {
    held.filter(|h: BufferedEventView| is_due(h, now_ms))
}

/// The held notifications that are not due at `now_ms`, in their order.
pub open spec fn waiting_part(held: Seq<BufferedEventView>, now_ms: u64) -> Seq<BufferedEventView> {
    held.filter(|h: BufferedEventView| !is_due(h, now_ms))
}

impl EventBuffer {
    /// The timer has ticked at `now_ms`: the notifications that have been
    /// quiet for long enough are taken out and handed over; the others stay.
    pub fn flush_due(&mut self, now_ms: u64) -> (r: Vec<BridgeEventData>)
        requires
            old(self).wf(),
        ensures
            final(self).wf(),
            final(self)@ == waiting_part(old(self)@, now_ms),
            r.deep_view() == carried(due_part(old(self)@, now_ms)),
    {
        let mut taken: Vec<BufferedEvent> = Vec::new();
        std::mem::swap(&mut self.buffered_events, &mut taken);
        let ghost list = taken.deep_view();
        let ghost due = |h: BufferedEventView| is_due(h, now_ms);
        let ghost wait = |h: BufferedEventView| !is_due(h, now_ms);
        let ghost mut origin: Seq<int> = Seq::empty();
        let mut out: Vec<BridgeEventData> = Vec::new();
        proof {
            lemma_filter_empty(list.take(0), due);
            lemma_filter_empty(list.take(0), wait);
            assert(self.buffered_events.deep_view() =~= list.take(0).filter(wait));
            assert(out.deep_view() =~= carried(list.take(0).filter(due)));
        }
        let mut i: usize = 0;
        while i < taken.len()
            invariant
                i <= taken.len(),
                list == taken.deep_view(),
                distinct_names(list),
                due == |h: BufferedEventView| is_due(h, now_ms),
                wait == |h: BufferedEventView| !is_due(h, now_ms),
                self.buffered_events.deep_view() == list.take(i as int).filter(wait),
                out.deep_view() == carried(list.take(i as int).filter(due)),
                origin.len() == self.buffered_events.len(),
                forall|a: int|
                    0 <= a < origin.len() ==> 0 <= #[trigger] origin[a] < i
                        && self.buffered_events.deep_view()[a] == list[origin[a]],
                forall|a: int, b: int|
                    0 <= a < b < origin.len() ==> #[trigger] origin[a] < #[trigger] origin[b],
            decreases taken.len() - i,
        {
            assert(list[i as int] == taken[i as int]@);
            let ghost kept = self.buffered_events.deep_view();
            let ghost sent = out.deep_view();
            proof {
                lemma_filter_step(list, due, i as int);
                lemma_filter_step(list, wait, i as int);
            }
            let last = taken[i].last_time;
            let passed = if now_ms >= last {
                now_ms - last
            } else {
                0
            };
            if passed >= quiet_time_for(taken[i].data.event.as_str()) {
                out.push(taken[i].data.clone());
                proof {
                    let grown = list.take(i as int).filter(due).push(list[i as int]);
                    assert(out.deep_view() =~= sent.push(list[i as int].data));
                    assert(sent.push(list[i as int].data) =~= carried(grown));
                }
            } else {
                let entry = BufferedEvent {
                    data: taken[i].data.clone(),
                    first_time: taken[i].first_time,
                    last_time: taken[i].last_time,
                    count: taken[i].count,
                };
                self.buffered_events.push(entry);
                proof {
                    origin = origin.push(i as int);
                    assert(self.buffered_events.deep_view() =~= kept.push(list[i as int]));
                }
            }
            i += 1;
        }
        proof {
            assert(list.take(taken.len() as int) =~= list);
            let rest = self.buffered_events.deep_view();
            assert forall|a: int, b: int| 0 <= a < b < rest.len() implies (#[trigger] rest[a]).data.event
                != (#[trigger] rest[b]).data.event by {
                assert(origin[a] < origin[b]);
                assert(list[origin[a]].data.event != list[origin[b]].data.event);
            }
        }
        out
    }
}

} // verus!
