//! Starting up: the configuration is asked for again and again, a bounded
//! number of times, before the monitor either goes on with what it got or
//! gives up and says so.

use vstd::prelude::*;
use vstd::string::StringExecFns;

verus! {

/// How often the configuration is asked for at most.
pub const MAX_CONFIG_RETRIES: u32 = 30;

/// How many milliseconds lie between two attempts.
pub const CONFIG_RETRY_INTERVAL_MS: u64 = 1000;

/// Every how many failures one is reported.
pub const RETRY_REPORT_EVERY: u32 = 5;

/// Why the monitor could not start.
#[derive(Debug, Clone, Copy, PartialEq, Eq, Structural)]
pub enum StartupError {
    /// The configuration could not be had in this many attempts.
    ConfigUnavailable(u32),
}

/// What to do next while starting up.
#[derive(Debug, Clone, Copy, PartialEq, Eq, Structural)]
pub enum StartupAction {
    /// Ask for the configuration.
    FetchConfiguration,
    /// The configuration is there: derive the watches from it and go on.
    Proceed,
    /// Give up and report.
    Fail(StartupError),
}

/// What to do after an attempt has failed.
#[derive(Debug, Clone, Copy, PartialEq, Eq, Structural)]
pub struct RetryAdvice {
    /// This failure is one of those that are reported.
    pub report: bool,
    /// How many milliseconds to wait before the next step.
    pub wait_ms: u64,
}

/// How far starting up has come.
#[derive(Debug, Clone, Copy, PartialEq, Eq, Structural)]
pub struct StartupRetry {
    /// How many attempts are made at most.
    pub max_retries: u32,
    /// How many attempts have failed.
    pub retries: u32,
    /// An attempt has succeeded.
    pub config_fetched: bool,
}

/// What is to be done in the state `state`: go on once an attempt has
/// succeeded, ask again while attempts are left, else give up.
pub open spec fn next_action(state: StartupRetry) -> StartupAction {
    if state.config_fetched {
        StartupAction::Proceed
    } else if state.retries < state.max_retries {
        StartupAction::FetchConfiguration
    } else {
        StartupAction::Fail(StartupError::ConfigUnavailable(state.max_retries))
    }
}

/// The state after one more failure.
pub open spec fn after_failure(state: StartupRetry) -> StartupRetry {
    StartupRetry {
        retries: if state.retries == u32::MAX {
            state.retries
        } else {
            (state.retries + 1) as u32
        },
        ..state
    }
}

/// The state after `n` failures in a row.
pub open spec fn after_failures(state: StartupRetry, n: nat) -> StartupRetry
    decreases n,
{
    if n == 0 {
        state
    } else {
        after_failure(after_failures(state, (n - 1) as nat))
    }
}

impl StartupRetry {
    /// The start, with the usual bound on the attempts.
    pub fn new() -> (r: StartupRetry)
        ensures
            r == (StartupRetry { max_retries: MAX_CONFIG_RETRIES, retries: 0, config_fetched: false }),
    {
        StartupRetry { max_retries: MAX_CONFIG_RETRIES, retries: 0, config_fetched: false }
    }

    /// The start, with at most `max_retries` attempts.
    pub fn with_limit(max_retries: u32) -> (r: StartupRetry)
        ensures
            r == (StartupRetry { max_retries, retries: 0, config_fetched: false }),
    {
        StartupRetry { max_retries, retries: 0, config_fetched: false }
    }

    /// What to do next.
    pub fn next(&self) -> (r: StartupAction)
        ensures
            r == next_action(*self),
    {
        if self.config_fetched {
            StartupAction::Proceed
        } else if self.retries < self.max_retries {
            StartupAction::FetchConfiguration
        } else {
            StartupAction::Fail(StartupError::ConfigUnavailable(self.max_retries))
        }
    }

    /// An attempt has succeeded.
    pub fn record_success(&mut self)
        ensures
            *final(self) == (StartupRetry { config_fetched: true, ..*old(self) }),
    {
        self.config_fetched = true;
    }

    /// An attempt has failed. Every fifth failure, from the first on, is to
    /// be reported; after each the interval is to be waited.
    pub fn record_failure(&mut self) -> (r: RetryAdvice)
        ensures
            *final(self) == after_failure(*old(self)),
            r == (RetryAdvice {
                report: old(self).retries % RETRY_REPORT_EVERY == 0,
                wait_ms: CONFIG_RETRY_INTERVAL_MS,
            }),
    {
        let report = self.retries % RETRY_REPORT_EVERY == 0;
        if self.retries < u32::MAX {
            self.retries = self.retries + 1;
        }
        RetryAdvice { report, wait_ms: CONFIG_RETRY_INTERVAL_MS }
    }
}

/// After `n` failures the count stands at `n`, as far as it can count.
pub proof fn lemma_failures_counted(state: StartupRetry, n: nat)
    requires
        state.retries + n <= u32::MAX,
    ensures
        after_failures(state, n) == (StartupRetry { retries: (state.retries + n) as u32, ..state }),
    decreases n,
{
    if n > 0 {
        lemma_failures_counted(state, (n - 1) as nat);
    }
}

/// While fewer attempts have failed than are allowed, the configuration is
/// asked for again, and a success after them lets the monitor go on. Once as
/// many have failed as are allowed, the monitor gives up. It never goes on
/// before an attempt has succeeded.
pub proof fn lemma_bounded_retry(max_retries: u32, n: nat)
    ensures
        n < max_retries ==> next_action(
            after_failures(StartupRetry { max_retries, retries: 0, config_fetched: false }, n),
        ) == StartupAction::FetchConfiguration,
        n < max_retries ==> next_action(
            StartupRetry {
                config_fetched: true,
                ..after_failures(StartupRetry { max_retries, retries: 0, config_fetched: false }, n)
            },
        ) == StartupAction::Proceed,
        max_retries <= n <= u32::MAX ==> next_action(
            after_failures(StartupRetry { max_retries, retries: 0, config_fetched: false }, n),
        ) == StartupAction::Fail(StartupError::ConfigUnavailable(max_retries)),
        next_action(
            after_failures(StartupRetry { max_retries, retries: 0, config_fetched: false }, n),
        ) != StartupAction::Proceed,
{
    let start = StartupRetry { max_retries, retries: 0, config_fetched: false };
    if n <= u32::MAX {
        lemma_failures_counted(start, n);
    } else {
        lemma_never_fetched(start, n);
    }
}

/// Failures alone never make an attempt count as succeeded.
pub proof fn lemma_never_fetched(state: StartupRetry, n: nat)
    ensures
        after_failures(state, n).config_fetched == state.config_fetched,
        after_failures(state, n).max_retries == state.max_retries,
    decreases n,
{
    if n > 0 {
        lemma_never_fetched(state, (n - 1) as nat);
    }
}

/// What a refresh of everything comes to: what went wrong with the
/// directories, then what went wrong with the bundle suffixes, or nothing.
pub open spec fn refresh_outcome(
    folders: Option<Seq<char>>,
    bundles: Option<Seq<char>>,
) -> Option<Seq<char>> {
    match (folders, bundles) {
        (None, None) => None,
        (Some(f), None) => Some(folders_failed() + f),
        (None, Some(b)) => Some(bundles_failed() + b),
        (Some(f), Some(b)) => Some(folders_failed() + f + "; "@ + bundles_failed() + b),
    }
}

/// What stands before the reason when the directories could not be
/// refreshed.
pub open spec fn folders_failed() -> Seq<char> {
    "文件夹配置刷新失败: "@
}

/// What stands before the reason when the bundle suffixes could not be
/// refreshed.
pub open spec fn bundles_failed() -> Seq<char> {
    "Bundle扩展名刷新失败: "@
}

/// Puts together what the two parts of a refresh of everything gave: each
/// argument is the reason for which that part failed, or `None` where it
/// went well. The result is the message to report, or `None` where both
/// went well.
pub fn combine_refresh_errors(folders: Option<String>, bundles: Option<String>) -> (r: Option<
    String,
>)
    ensures
        r.deep_view() == refresh_outcome(folders.deep_view(), bundles.deep_view()),
{
    match (folders, bundles) {
        (None, None) => None,
        (Some(f), None) => Some(String::from_str("文件夹配置刷新失败: ").concat(f.as_str())),
        (None, Some(b)) => Some(String::from_str("Bundle扩展名刷新失败: ").concat(b.as_str())),
        (Some(f), Some(b)) => Some(
            String::from_str("文件夹配置刷新失败: ").concat(f.as_str()).concat("; ").concat(
                "Bundle扩展名刷新失败: ",
            ).concat(b.as_str()),
        ),
    }
}

/// After how many milliseconds the first scan counts as complete whatever
/// the counters say.
pub const SCAN_WAIT_LIMIT_MS: u64 = 60000;

/// How many milliseconds lie between two looks at the counters.
pub const SCAN_POLL_INTERVAL_MS: u64 = 500;

/// For how many milliseconds the count of processed files must stand still
/// for the scan to count as complete.
pub const SCAN_SETTLE_MS: u64 = 3000;

/// What a look at the counters of the first scan comes to.
#[derive(Debug, Clone, Copy, PartialEq, Eq, Structural)]
pub enum ScanProgress {
    /// Look again after this many milliseconds.
    Wait(u64),
    /// The count stood still: the scan is complete.
    Settled,
    /// The time is up: the scan counts as complete.
    TimedOut,
}

/// Watching for the end of the first scan, which is not signalled but
/// inferred from the count of processed files.
#[derive(Debug, Clone, Copy, PartialEq, Eq, Structural)]
pub struct ScanCompletion {
    /// When the watching began.
    pub started_ms: u64,
    /// The count against which the next look is held, if one was taken.
    pub checkpoint: Option<u64>,
}

/// What a look at `processed` files at `now_ms` comes to. A look that
/// follows a checkpoint finds the scan complete if the count is the same,
/// else it starts over. Any other look first asks whether the time is up,
/// then takes a checkpoint if anything has been processed.
pub open spec fn progress_of(state: ScanCompletion, processed: u64, now_ms: u64) -> ScanProgress {
    match state.checkpoint {
        Some(count) => if processed == count {
            ScanProgress::Settled
        } else {
            ScanProgress::Wait(SCAN_POLL_INTERVAL_MS)
        },
        None => if now_ms >= state.started_ms && now_ms - state.started_ms >= SCAN_WAIT_LIMIT_MS {
            ScanProgress::TimedOut
        } else if processed > 0 {
            ScanProgress::Wait(SCAN_SETTLE_MS)
        } else {
            ScanProgress::Wait(SCAN_POLL_INTERVAL_MS)
        },
    }
}

/// The state after a look at `processed` files at `now_ms`.
pub open spec fn after_look(state: ScanCompletion, processed: u64, now_ms: u64) -> ScanCompletion {
    ScanCompletion {
        checkpoint: if state.checkpoint.is_none() && progress_of(state, processed, now_ms)
            == ScanProgress::Wait(SCAN_SETTLE_MS) {
            Some(processed)
        } else {
            None
        },
        ..state
    }
}

impl ScanCompletion {
    /// The watching begins at `now_ms`.
    pub fn new(now_ms: u64) -> (r: ScanCompletion)
        ensures
            r == (ScanCompletion { started_ms: now_ms, checkpoint: None }),
    {
        ScanCompletion { started_ms: now_ms, checkpoint: None }
    }

    /// Takes a look at the count of processed files at `now_ms`.
    pub fn observe(&mut self, processed: u64, now_ms: u64) -> (r: ScanProgress)
        ensures
            r == progress_of(*old(self), processed, now_ms),
            *final(self) == after_look(*old(self), processed, now_ms),
    {
        match self.checkpoint {
            Some(count) => {
                self.checkpoint = None;
                if processed == count {
                    ScanProgress::Settled
                } else {
                    ScanProgress::Wait(SCAN_POLL_INTERVAL_MS)
                }
            },
            None => {
                if now_ms >= self.started_ms && now_ms - self.started_ms >= SCAN_WAIT_LIMIT_MS {
                    ScanProgress::TimedOut
                } else if processed > 0 {
                    self.checkpoint = Some(processed);
                    ScanProgress::Wait(SCAN_SETTLE_MS)
                } else {
                    ScanProgress::Wait(SCAN_POLL_INTERVAL_MS)
                }
            },
        }
    }
}

} // verus!
