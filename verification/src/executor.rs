//! The retrying request executor: classifies each response, shrinks the
//! page window on server overload, computes how long to wait before the
//! next attempt (combining server hints with an exponential fallback), and
//! gives up after a fixed attempt budget.

use vstd::prelude::*;

verus! {

/// Smallest page window ever requested; shrinking floors here.
pub const MIN_WINDOW: i64 = 1;

/// Largest page window the endpoint accepts.
pub const MAX_WINDOW: i64 = 100;

/// Base of the exponential wait, in seconds.
pub const BASE_RETRY_SECS: u64 = 60;

/// How many attempts one logical page fetch gets, indices 0 through 6.
pub const ATTEMPT_BUDGET: usize = 7;

/// Index of the last attempt.
pub const LAST_ATTEMPT_INDEX: u32 = 6;

/// What the window controller does on a server-overload response:
/// two thirds of the current window, rounded down, floored at 1.
pub open spec fn spec_shrink_window(w: int) -> int {
    if w * 2 / 3 < 1 {
        1
    } else {
        w * 2 / 3
    }
}

/// Shrink the requested page window after an overload response
/// (the server timed out building a page of the current size).
pub fn shrink_window(window: i64) -> (r: i64)
    requires
        MIN_WINDOW <= window <= MAX_WINDOW,
    ensures
        r == spec_shrink_window(window as int),
        MIN_WINDOW <= r <= window,
{
    let shrunk: i64 = window * 2 / 3;
    if shrunk < MIN_WINDOW {
        MIN_WINDOW
    } else {
        shrunk
    }
}

/// Request variables that carry a page-window size. The executor reads the
/// window before a retry and replaces it when the server signals overload.
pub trait Window {
    /// The window these variables currently request.
    spec fn spec_window(&self) -> i64;

    fn get_window(&self) -> (w: i64)
        ensures
            w == self.spec_window(),
    ;

    fn set_window(&mut self, window: i64)
        ensures
            final(self).spec_window() == window,
    ;
}

/// What one attempt's response looks like once the transport and header
/// strings have been reduced to plain values: the status code and the
/// parsed `x-ratelimit-remaining`, `x-ratelimit-reset` and `retry-after`
/// headers, each `None` when absent or malformed.
#[derive(Debug, Clone, Copy, PartialEq, Eq)]
pub struct ResponseInfo {
    pub status: u16,
    pub remaining: Option<i64>,
    pub reset: Option<i64>,
    pub retry_after: Option<i64>,
}

/// The classification of one attempt's outcome; `None` stands for a
/// transport failure with no response at all.
#[derive(Debug, Clone, Copy, PartialEq, Eq, Structural)]
pub enum ResponseClass {
    /// HTTP 200 with quota left: the page is usable.
    Success,
    /// HTTP 200 but the hourly quota is spent.
    PrimaryLimit,
    /// HTTP 502 or 504: the server timed out building the page.
    ServerOverload,
    /// HTTP 403, or another non-200 carrying `retry-after`.
    SecondaryLimit,
    /// Any other status: logged and retried generically.
    Unexpected,
    /// No response arrived.
    NoResponse,
}

/// The classification table of the executor.
pub open spec fn classify_spec(r: Option<ResponseInfo>) -> ResponseClass {
    match r {
        None => ResponseClass::NoResponse,
        Some(ri) => if ri.status == 200 {
            if ri.remaining matches Some(v) && v > 0 {
                ResponseClass::Success
            } else {
                ResponseClass::PrimaryLimit
            }
        } else if ri.status == 502 || ri.status == 504 {
            ResponseClass::ServerOverload
        } else if ri.status == 403 || ri.retry_after is Some {
            ResponseClass::SecondaryLimit
        } else {
            ResponseClass::Unexpected
        },
    }
}

/// A response that ends the attempt loop successfully.
pub open spec fn is_success_response(r: Option<ResponseInfo>) -> bool {
    classify_spec(r) == ResponseClass::Success
}

/// Classify one attempt's outcome.
pub fn classify_response(resp: &Option<ResponseInfo>) -> (c: ResponseClass)
    ensures
        c == classify_spec(*resp),
{
    match resp {
        None => ResponseClass::NoResponse,
        Some(ri) => {
            if ri.status == 200 {
                let left = match ri.remaining {
                    Some(v) => v,
                    None => 0,
                };
                if left > 0 {
                    ResponseClass::Success
                } else {
                    ResponseClass::PrimaryLimit
                }
            } else if ri.status == 502 || ri.status == 504 {
                ResponseClass::ServerOverload
            } else if ri.status == 403 || ri.retry_after.is_some() {
                ResponseClass::SecondaryLimit
            } else {
                ResponseClass::Unexpected
            }
        },
    }
}

/// The exponential fallback term of the wait: the base doubled once per
/// earlier attempt.
pub open spec fn exponential_floor_secs(attempt: nat) -> nat
    decreases attempt,
{
    if attempt == 0 {
        BASE_RETRY_SECS as nat
    } else {
        2 * exponential_floor_secs((attempt - 1) as nat)
    }
}

/// The exponential fallback stays small over the whole attempt budget.
pub proof fn lemma_exponential_floor_bounded(attempt: nat)
    requires
        attempt <= 6,
    ensures
        60 <= exponential_floor_secs(attempt) <= 3840,
{
    assert(exponential_floor_secs(0) == 60);
    assert(exponential_floor_secs(1) == 120);
    assert(exponential_floor_secs(2) == 240);
    assert(exponential_floor_secs(3) == 480);
    assert(exponential_floor_secs(4) == 960);
    assert(exponential_floor_secs(5) == 1920);
    assert(exponential_floor_secs(6) == 3840);
}

/// The wait before the next attempt: the largest of the `retry-after`
/// hint, the time until the quota resets, and the exponential fallback.
pub open spec fn spec_backoff_secs(retry_after: int, reset: int, now: int, attempt: nat) -> int {
    let hint = if retry_after >= reset - now {
        retry_after
    } else {
        reset - now
    };
    if hint >= exponential_floor_secs(attempt) {
        hint
    } else {
        exponential_floor_secs(attempt) as int
    }
}

/// The `retry-after` hint of an attempt's outcome; absent means none.
pub open spec fn effective_retry_after(r: Option<ResponseInfo>) -> int {
    match r {
        Some(ri) => match ri.retry_after {
            Some(v) => v as int,
            None => 0,
        },
        None => 0,
    }
}

/// The quota-reset time of an attempt's outcome; absent means now.
pub open spec fn effective_reset(r: Option<ResponseInfo>, now: int) -> int {
    match r {
        Some(ri) => match ri.reset {
            Some(v) => v as int,
            None => now,
        },
        None => now,
    }
}

/// Compute the wait, in seconds, before the next attempt. Both throttles
/// of the endpoint are dominated: the result is at least the `retry-after`
/// hint and at least the time until the quota resets, and it grows
/// geometrically with the attempt index even with no server hints at all.
pub fn backoff_seconds(retry_after: i64, reset: i64, now: i64, attempt_index: u32) -> (r: u64)
    requires
        attempt_index <= LAST_ATTEMPT_INDEX,
        -200_000_000_000_000 <= now,
    ensures
        r as int == spec_backoff_secs(retry_after as int, reset as int, now as int, attempt_index as nat),
        r as int >= reset - now,
        r >= retry_after,
        r as int >= exponential_floor_secs(attempt_index as nat),
{
    let mut floor: u64 = BASE_RETRY_SECS;
    let mut k: u32 = 0;
    while k < attempt_index
        invariant
            0 <= k <= attempt_index <= LAST_ATTEMPT_INDEX,
            floor == exponential_floor_secs(k as nat),
        decreases attempt_index - k,
    {
        proof {
            lemma_exponential_floor_bounded(k as nat);
        }
        floor = floor * 2;
        k = k + 1;
    }
    proof {
        lemma_exponential_floor_bounded(attempt_index as nat);
    }
    let diff: i128 = (reset as i128) - (now as i128);
    let ra: i128 = retry_after as i128;
    let hint: i128 = if ra >= diff {
        ra
    } else {
        diff
    };
    if hint >= floor as i128 {
        hint as u64
    } else {
        floor
    }
}

/// The per-attempt state of one logical page fetch, discarded once the
/// page succeeds or the attempt budget is exhausted.
#[derive(Debug, Clone, Copy, PartialEq, Eq, Structural)]
pub struct AttemptState {
    pub attempt_index: u32,
    pub window: i64,
}

impl AttemptState {
    /// Attempt indices stay within the budget and the window within its
    /// allowed range.
    pub open spec fn wf(self) -> bool {
        self.attempt_index <= LAST_ATTEMPT_INDEX && MIN_WINDOW <= self.window <= MAX_WINDOW
    }

    /// The state of a fresh page fetch: first attempt, full window.
    pub fn first() -> (r: Self)
        ensures
            r.attempt_index == 0,
            r.window == MAX_WINDOW,
            r.wf(),
    {
        AttemptState { attempt_index: 0, window: MAX_WINDOW }
    }
}

/// The window carried into the next attempt: shrunk only on overload.
pub open spec fn next_window(state: AttemptState, resp: Option<ResponseInfo>) -> int {
    if classify_spec(resp) == ResponseClass::ServerOverload {
        spec_shrink_window(state.window as int)
    } else {
        state.window as int
    }
}

/// What the executor does after one attempt.
#[derive(Debug, Clone, Copy, PartialEq, Eq, Structural)]
pub enum StepVerdict {
    /// The response is usable; stop retrying.
    Success,
    /// Wait, then try again with the carried state.
    Retry { wait_secs: u64, next: AttemptState },
    /// The attempt budget is exhausted; the caller aborts this crawl.
    Fatal,
}

/// Decide what to do after one attempt: succeed on HTTP 200 with quota
/// left; give up once the last attempt has failed; otherwise compute the
/// wait and carry a possibly shrunk window into the next attempt.
pub fn executor_step(state: &AttemptState, resp: &Option<ResponseInfo>, now: i64) -> (v: StepVerdict)
    requires
        state.wf(),
        -200_000_000_000_000 <= now,
    ensures
        v is Success <==> is_success_response(*resp),
        v is Fatal <==> (!is_success_response(*resp) && state.attempt_index
            == LAST_ATTEMPT_INDEX),
        v matches StepVerdict::Retry { wait_secs, next } ==> {
            &&& !is_success_response(*resp)
            &&& state.attempt_index < LAST_ATTEMPT_INDEX
            &&& wait_secs as int == spec_backoff_secs(
                effective_retry_after(*resp),
                effective_reset(*resp, now as int),
                now as int,
                state.attempt_index as nat,
            )
            &&& wait_secs as int >= effective_reset(*resp, now as int) - now
            &&& next.attempt_index == state.attempt_index + 1
            &&& next.window == next_window(*state, *resp)
            &&& next.wf()
        },
{
    let class = classify_response(resp);
    if matches!(class, ResponseClass::Success) {
        return StepVerdict::Success;
    }
    if state.attempt_index >= LAST_ATTEMPT_INDEX {
        return StepVerdict::Fatal;
    }
    let retry_after = match resp {
        Some(ri) => match ri.retry_after {
            Some(v) => v,
            None => 0,
        },
        None => 0,
    };
    let reset = match resp {
        Some(ri) => match ri.reset {
            Some(v) => v,
            None => now,
        },
        None => now,
    };
    let wait_secs = backoff_seconds(retry_after, reset, now, state.attempt_index);
    let window = if matches!(class, ResponseClass::ServerOverload) {
        shrink_window(state.window)
    } else {
        state.window
    };
    StepVerdict::Retry {
        wait_secs,
        next: AttemptState { attempt_index: state.attempt_index + 1, window },
    }
}

/// How the loop ended.
#[derive(Debug, Clone, Copy, PartialEq, Eq, Structural)]
pub enum ExecOutcome {
    /// The attempt with this index returned a usable response.
    Success { attempt_index: usize },
    /// Every attempt in the budget failed.
    Fatal,
}

/// The visible trace of one executor run: how it ended, the wait computed
/// after each failed attempt that was followed by another, and the window
/// the last attempt was sent with.
#[derive(Debug, PartialEq, Eq)]
pub struct ExecRun {
    pub outcome: ExecOutcome,
    pub waits: Vec<u64>,
    pub final_window: i64,
}

/// The window the attempt with index `k` is sent with, given the first
/// `k` outcomes: shrunk once for every earlier overload response.
pub open spec fn window_after(rs: Seq<Option<ResponseInfo>>, w0: int, k: nat) -> int
    decreases k,
{
    if k == 0 {
        w0
    } else {
        let prev = window_after(rs, w0, (k - 1) as nat);
        if classify_spec(rs[k - 1]) == ResponseClass::ServerOverload {
            spec_shrink_window(prev)
        } else {
            prev
        }
    }
}

/// Run the whole attempt loop over the outcomes of the seven attempts of
/// one logical page fetch, exactly as `executor_step` decides them. The
/// first usable response stops the loop; after it, no wait is computed at
/// all. If every attempt fails the run is `Fatal`.
pub fn run_executor(responses: &Vec<Option<ResponseInfo>>, initial_window: i64, now: i64) -> (r:
    ExecRun)
    requires
        responses.len() == ATTEMPT_BUDGET,
        MIN_WINDOW <= initial_window <= MAX_WINDOW,
        -200_000_000_000_000 <= now,
    ensures
        match r.outcome {
            ExecOutcome::Success { attempt_index } => {
                &&& attempt_index < ATTEMPT_BUDGET
                &&& is_success_response(responses@[attempt_index as int])
                &&& forall|j: int|
                    0 <= j < attempt_index ==> !is_success_response(responses@[j])
                &&& r.waits@.len() == attempt_index
                &&& r.final_window == window_after(
                    responses@,
                    initial_window as int,
                    attempt_index as nat,
                )
            },
            ExecOutcome::Fatal => {
                &&& forall|j: int|
                    0 <= j < ATTEMPT_BUDGET ==> !is_success_response(responses@[j])
                &&& r.waits@.len() == ATTEMPT_BUDGET - 1
                &&& r.final_window == window_after(
                    responses@,
                    initial_window as int,
                    (ATTEMPT_BUDGET - 1) as nat,
                )
            },
        },
        forall|k: int|
            0 <= k < r.waits@.len() ==> r.waits@[k] as int == spec_backoff_secs(
                effective_retry_after(responses@[k]),
                effective_reset(responses@[k], now as int),
                now as int,
                k as nat,
            ),
{
    let mut waits: Vec<u64> = Vec::new();
    let mut state = AttemptState { attempt_index: 0, window: initial_window };
    let mut i: usize = 0;
    while i < ATTEMPT_BUDGET - 1
        invariant
            0 <= i < ATTEMPT_BUDGET,
            state.attempt_index == i,
            state.wf(),
            responses@.len() == ATTEMPT_BUDGET,
            MIN_WINDOW <= initial_window <= MAX_WINDOW,
            -200_000_000_000_000 <= now,
            state.window == window_after(responses@, initial_window as int, i as nat),
            forall|j: int| 0 <= j < i ==> !is_success_response(responses@[j]),
            waits@.len() == i,
            forall|k: int|
                0 <= k < i ==> waits@[k] as int == spec_backoff_secs(
                    effective_retry_after(responses@[k]),
                    effective_reset(responses@[k], now as int),
                    now as int,
                    k as nat,
                ),
        decreases ATTEMPT_BUDGET - i,
    {
        let resp = responses[i];
        match executor_step(&state, &resp, now) {
            StepVerdict::Success => {
                return ExecRun {
                    outcome: ExecOutcome::Success { attempt_index: i },
                    waits,
                    final_window: state.window,
                };
            },
            StepVerdict::Retry { wait_secs, next } => {
                waits.push(wait_secs);
                state = next;
                i = i + 1;
            },
            StepVerdict::Fatal => {
                // unreachable: only the last attempt can end the budget
                proof {
                    assert(false);
                }
                return ExecRun { outcome: ExecOutcome::Fatal, waits, final_window: state.window };
            },
        }
    }
    let resp = responses[ATTEMPT_BUDGET - 1];
    match executor_step(&state, &resp, now) {
        StepVerdict::Success => ExecRun {
            outcome: ExecOutcome::Success { attempt_index: ATTEMPT_BUDGET - 1 },
            waits,
            final_window: state.window,
        },
        _ => ExecRun { outcome: ExecOutcome::Fatal, waits, final_window: state.window },
    }
}

} // verus!
