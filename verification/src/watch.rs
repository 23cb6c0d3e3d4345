//! The set of live watches: one for each directory that is to be watched,
//! and never two for one directory.
//!
//! The manager keeps the list and says which watches to start and which to
//! stop. Starting and stopping a native watch is left to the shell, which
//! reports back what came of it.

use vstd::prelude::*;
use crate::rules::{add_tag, holds_text, with_tag};
use crate::seqs::{lemma_filter_empty, lemma_filter_step};

verus! {

/// No text occurs twice in `list`.
pub open spec fn distinct(list: Seq<Seq<char>>) -> bool {
    forall|i: int, j: int| 0 <= i < j < list.len() ==> #[trigger] list[i] != #[trigger] list[j]
}

/// The directories of `wanted` that `watched` lacks, each once, in the order
/// in which they first occur.
pub open spec fn to_start(wanted: Seq<Seq<char>>, watched: Seq<Seq<char>>) -> Seq<Seq<char>>
    decreases wanted.len(),
{
    if wanted.len() == 0 {
        Seq::empty()
    } else {
        let before = to_start(wanted.drop_last(), watched);
        if watched.contains(wanted.last()) || before.contains(wanted.last()) {
            before
        } else {
            before.push(wanted.last())
        }
    }
}

/// The directories of `watched` that `wanted` lacks, in their order.
pub open spec fn to_stop(wanted: Seq<Seq<char>>, watched: Seq<Seq<char>>) -> Seq<Seq<char>> {
    watched.filter(|dir: Seq<char>| !wanted.contains(dir))
}

/// What is started is exactly what is wanted and not yet watched, and
/// nothing is started twice.
pub proof fn lemma_to_start(wanted: Seq<Seq<char>>, watched: Seq<Seq<char>>)
    ensures
        distinct(to_start(wanted, watched)),
        forall|dir: Seq<char>| #[trigger]
            to_start(wanted, watched).contains(dir) <==> wanted.contains(dir) && !watched.contains(
                dir,
            ),
    decreases wanted.len(),
{
    let out = to_start(wanted, watched);
    if wanted.len() > 0 {
        let head = wanted.drop_last();
        let last = wanted.last();
        let before = to_start(head, watched);
        lemma_to_start(head, watched);
        assert(out == if watched.contains(last) || before.contains(last) {
            before
        } else {
            before.push(last)
        });
        assert forall|dir: Seq<char>| #[trigger] out.contains(dir) implies wanted.contains(dir)
            && !watched.contains(dir) by {
            let k = choose|k: int| 0 <= k < out.len() && out[k] == dir;
            if k < before.len() {
                assert(before[k] == dir);
                assert(before.contains(dir));
                assert(head.contains(dir));
                let m = choose|m: int| 0 <= m < head.len() && head[m] == dir;
                assert(wanted[m] == dir);
            } else {
                assert(dir == last);
                assert(wanted[wanted.len() - 1] == dir);
            }
        }
        assert forall|dir: Seq<char>| wanted.contains(dir) && !watched.contains(
            dir,
        ) implies #[trigger] out.contains(dir) by {
            let m = choose|m: int| 0 <= m < wanted.len() && wanted[m] == dir;
            if m < head.len() {
                assert(head[m] == dir);
                assert(head.contains(dir));
            } else {
                assert(dir == last);
            }
            if head.contains(dir) {
                assert(before.contains(dir));
            }
            if before.contains(dir) {
                let k = choose|k: int| 0 <= k < before.len() && before[k] == dir;
                assert(out[k] == dir);
            } else {
                assert(dir == last);
                assert(out[out.len() - 1] == dir);
            }
        }
        assert forall|i: int, j: int| 0 <= i < j < out.len() implies #[trigger] out[i]
            != #[trigger] out[j] by {
            if j == before.len() {
                assert(before[i] == out[i]);
                if out[i] == out[j] {
                    assert(before.contains(last));
                }
            } else {
                assert(before[i] == out[i]);
                assert(before[j] == out[j]);
            }
        }
    }
}

/// Why the manager could not do what it was asked.
#[derive(Debug, Clone, Copy, PartialEq, Eq, Structural)]
pub enum WatchError {
    /// Watching has not been started yet.
    NotStarted,
}

/// Which watches to start and which to stop.
#[derive(Debug)]
pub struct WatchPlan {
    pub start: Vec<String>,
    pub stop: Vec<String>,
}

/// The manager of the live watches.
#[derive(Debug)]
pub struct DebouncedFileMonitor {
    started: bool,
    watched: Vec<String>,
}

/// The value of a [`DebouncedFileMonitor`].
pub struct DebouncedFileMonitorView {
    /// Watching has been started.
    pub started: bool,
    /// The directories that have a live watch.
    pub watched: Seq<Seq<char>>,
}

impl View for DebouncedFileMonitor {
    type V = DebouncedFileMonitorView;

    closed spec fn view(&self) -> DebouncedFileMonitorView {
        DebouncedFileMonitorView { started: self.started, watched: self.watched.deep_view() }
    }
}

/// The directories of `wanted` that `watched` lacks, each once.
pub fn select_to_start(wanted: &Vec<String>, watched: &Vec<String>) -> (r: Vec<String>)
    ensures
        r.deep_view() == to_start(wanted.deep_view(), watched.deep_view()),
{
    let ghost all = wanted.deep_view();
    let mut r: Vec<String> = Vec::new();
    let mut i: usize = 0;
    assert(all.take(0) =~= Seq::<Seq<char>>::empty());
    assert(r.deep_view() =~= to_start(all.take(0), watched.deep_view()));
    while i < wanted.len()
        invariant
            i <= wanted.len(),
            all == wanted.deep_view(),
            r.deep_view() == to_start(all.take(i as int), watched.deep_view()),
        decreases wanted.len() - i,
    {
        let ghost before = r.deep_view();
        proof {
            assert(all.take(i + 1).drop_last() =~= all.take(i as int));
            assert(all.take(i + 1).last() == all[i as int]);
            assert(all[i as int] == wanted[i as int]@);
        }
        if !holds_text(watched, &wanted[i]) && !holds_text(&r, &wanted[i]) {
            r.push(wanted[i].clone());
            assert(r.deep_view() =~= before.push(all[i as int]));
        }
        i += 1;
    }
    assert(all.take(wanted.len() as int) =~= all);
    r
}

/// The directories of `watched` that `wanted` lacks.
pub fn select_to_stop(wanted: &Vec<String>, watched: &Vec<String>) -> (r: Vec<String>)
    ensures
        r.deep_view() == to_stop(wanted.deep_view(), watched.deep_view()),
{
    let ghost all = watched.deep_view();
    let ghost want = wanted.deep_view();
    let ghost pred = |dir: Seq<char>| !want.contains(dir);
    let mut r: Vec<String> = Vec::new();
    let mut i: usize = 0;
    proof {
        lemma_filter_empty(all.take(0), pred);
        assert(r.deep_view() =~= all.take(0).filter(pred));
    }
    while i < watched.len()
        invariant
            i <= watched.len(),
            all == watched.deep_view(),
            want == wanted.deep_view(),
            pred == |dir: Seq<char>| !want.contains(dir),
            r.deep_view() == all.take(i as int).filter(pred),
        decreases watched.len() - i,
    {
        let ghost before = r.deep_view();
        proof {
            lemma_filter_step(all, pred, i as int);
            assert(all[i as int] == watched[i as int]@);
        }
        if !holds_text(wanted, &watched[i]) {
            r.push(watched[i].clone());
            assert(r.deep_view() =~= before.push(all[i as int]));
        }
        i += 1;
    }
    assert(all.take(watched.len() as int) =~= all);
    r
}

/// `i` is the first place of `dir` in `list`.
pub open spec fn is_first_place(list: Seq<Seq<char>>, dir: Seq<char>, i: int) -> bool {
    &&& 0 <= i < list.len()
    &&& list[i] == dir
    &&& forall|j: int| 0 <= j < i ==> #[trigger] list[j] != dir
}

/// `list` without the first occurrence of `dir`.
pub open spec fn without_dir(list: Seq<Seq<char>>, dir: Seq<char>) -> Seq<Seq<char>> {
    if list.contains(dir) {
        list.remove(choose|i: int| is_first_place(list, dir, i))
    } else {
        list
    }
}

/// Where `dir` first stands in `list`.
pub fn place_of(list: &Vec<String>, dir: &String) -> (r: Option<usize>)
    ensures
        match r {
            Some(i) => is_first_place(list.deep_view(), dir@, i as int) && without_dir(
                list.deep_view(),
                dir@,
            ) == list.deep_view().remove(i as int),
            None => !list.deep_view().contains(dir@),
        },
{
    let ghost all = list.deep_view();
    let mut i: usize = 0;
    while i < list.len()
        invariant
            i <= list.len(),
            all == list.deep_view(),
            forall|j: int| 0 <= j < i ==> #[trigger] all[j] != dir@,
        decreases list.len() - i,
    {
        assert(all[i as int] == list[i as int]@);
        if list[i] == *dir {
            proof {
                assert(is_first_place(all, dir@, i as int));
                assert(all.contains(dir@));
                let k = choose|k: int| is_first_place(all, dir@, k);
                assert(k == i);
            }
            return Some(i);
        }
        i += 1;
    }
    None
}

impl DebouncedFileMonitor {
    /// No directory has two watches.
    pub open spec fn wf(&self) -> bool {
        distinct(self@.watched)
    }

    /// A manager that watches nothing and has not been started.
    pub fn new() -> (r: DebouncedFileMonitor)
        ensures
            r.wf(),
            !r@.started,
            r@.watched == Seq::<Seq<char>>::empty(),
    {
        let r = DebouncedFileMonitor { started: false, watched: Vec::new() };
        assert(r.watched.deep_view() =~= Seq::empty());
        r
    }

    /// Whether watching has been started.
    pub fn is_started(&self) -> (r: bool)
        ensures
            r == self@.started,
    {
        self.started
    }

    /// Whether `dir` has a live watch.
    pub fn is_watching(&self, dir: &str) -> (r: bool)
        ensures
            r == self@.watched.contains(dir@),
    {
        holds_text(&self.watched, &dir.to_owned())
    }

    /// The directories that have a live watch.
    pub fn watched_directories(&self) -> (r: Vec<String>)
        ensures
            r.deep_view() == self@.watched,
    {
        crate::metadata::clone_strings(&self.watched)
    }

    /// Starts watching: says for which of `directories` a watch is to be set
    /// up, each once, leaving out those that have one. A watch counts as
    /// live only once it is reported as established.
    pub fn start_monitoring(&mut self, directories: &Vec<String>) -> (r: Vec<String>)
        requires
            old(self).wf(),
        ensures
            final(self).wf(),
            final(self)@.started,
            final(self)@.watched == old(self)@.watched,
            r.deep_view() == to_start(directories.deep_view(), old(self)@.watched),
    {
        self.started = true;
        select_to_start(directories, &self.watched)
    }

    /// Whether a watch is to be set up for `dir_path`: it is, unless the
    /// directory has one. Fails before watching has been started.
    pub fn add_directory_to_watch(&self, dir_path: &str) -> (r: Result<bool, WatchError>)
        ensures
            r == if self@.started {
                Ok::<bool, WatchError>(!self@.watched.contains(dir_path@))
            } else {
                Err::<bool, WatchError>(WatchError::NotStarted)
            },
    {
        if !self.started {
            return Err(WatchError::NotStarted);
        }
        Ok(!self.is_watching(dir_path))
    }

    /// The watch of `dir` is live. A directory that had one keeps it alone.
    pub fn watch_established(&mut self, dir: &str)
        requires
            old(self).wf(),
        ensures
            final(self).wf(),
            final(self)@.started == old(self)@.started,
            final(self)@.watched == with_tag(old(self)@.watched, dir@),
    {
        let ghost before = self.watched.deep_view();
        let mut list: Vec<String> = Vec::new();
        std::mem::swap(&mut self.watched, &mut list);
        self.watched = add_tag(list, &dir.to_owned());
        proof {
            let after = self.watched.deep_view();
            assert forall|i: int, j: int| 0 <= i < j < after.len() implies #[trigger] after[i]
                != #[trigger] after[j] by {
                if j == before.len() {
                    assert(after[i] == before[i]);
                    if after[i] == after[j] {
                        assert(before.contains(dir@));
                    }
                } else {
                    assert(after[i] == before[i]);
                    assert(after[j] == before[j]);
                }
            }
        }
    }

    /// Takes `path` off the watched directories. Says whether it had a
    /// watch, which the shell is then to stop.
    pub fn stop_monitoring_path(&mut self, path: &str) -> (r: bool)
        requires
            old(self).wf(),
        ensures
            final(self).wf(),
            final(self)@.started == old(self)@.started,
            r == old(self)@.watched.contains(path@),
            final(self)@.watched == without_dir(old(self)@.watched, path@),
            !final(self)@.watched.contains(path@),
    {
        let ghost before = self.watched.deep_view();
        match place_of(&self.watched, &path.to_owned()) {
            Some(i) => {
                self.watched.remove(i);
                proof {
                    let after = self.watched.deep_view();
                    assert(after =~= before.remove(i as int));
                    assert forall|a: int, b: int| 0 <= a < b < after.len() implies #[trigger] after[a]
                        != #[trigger] after[b] by {
                        let x = if a < i { a } else { a + 1 };
                        let y = if b < i { b } else { b + 1 };
                        assert(after[a] == before[x]);
                        assert(after[b] == before[y]);
                    }
                    if after.contains(path@) {
                        let k = choose|k: int| 0 <= k < after.len() && after[k] == path@;
                        let x = if k < i { k } else { k + 1 };
                        assert(after[k] == before[x]);
                        if x < i {
                            assert(before[x] != before[i as int]);
                        } else {
                            assert(before[i as int] != before[x]);
                        }
                    }
                }
                true
            },
            None => false,
        }
    }

    /// Which watches to start and which to stop so that exactly the
    /// directories of `wanted` are watched.
    pub fn plan(&self, wanted: &Vec<String>) -> (r: WatchPlan)
        ensures
            r.start.deep_view() == to_start(wanted.deep_view(), self@.watched),
            r.stop.deep_view() == to_stop(wanted.deep_view(), self@.watched),
    {
        WatchPlan {
            start: select_to_start(wanted, &self.watched),
            stop: select_to_stop(wanted, &self.watched),
        }
    }
}

} // verus!
