//! The pagination state machine: one crawl walks pages from a resumed
//! (step, cursor) position, persists each non-empty page under its
//! checkpoint name, and stops on an empty page, on the last page, at the
//! per-run step threshold, or when a fetch fails for good.

use vstd::prelude::*;

use crate::checkpoint::{checkpoint_name, cursor_label, format_checkpoint_name};
use crate::query::QueryResult;

verus! {

/// What one fetch of the executor produced for the state machine: a
/// parsed page, or a terminal failure (the attempt budget was exhausted,
/// or the response was missing its payload).
#[derive(Debug, Clone, PartialEq, Eq)]
pub enum FetchEvent {
    Page(QueryResult),
    Failed,
}

/// Why a crawl stopped.
#[derive(Debug, Clone, Copy, PartialEq, Eq, Structural)]
pub enum StopReason {
    /// The page held no nodes; nothing was written for this step.
    EmptyPage,
    /// The page said there is no next page; the crawl is complete.
    NoMorePages,
    /// The per-run step threshold was reached; the next run resumes here.
    StepThreshold,
    /// A fetch failed for good; the checkpoint stays at the last
    /// persisted step.
    AbortFatal,
}

/// What one crawl produced: the files to persist, in order, each a
/// checkpoint filename with its payload text; how many pages were
/// fetched; and why the crawl stopped.
#[derive(Debug, PartialEq, Eq)]
pub struct CrawlRun {
    pub files: Vec<(String, String)>,
    pub pages_fetched: usize,
    pub stop: StopReason,
}

/// The crawl as a function of the fetch outcomes: walking the events from
/// a (step, cursor) position, it yields the persisted entries (step,
/// cursor text filed under, payload), the number of pages fetched, and
/// the stop reason. Each non-empty page is filed under the cursor it was
/// requested with; the crawl continues only while there is a next page
/// and the threshold is not yet reached.
pub open spec fn spec_crawl(
    events: Seq<FetchEvent>,
    step: nat,
    cursor: Option<String>,
    threshold: nat,
) -> (Seq<(nat, Seq<char>, Seq<char>)>, nat, StopReason)
    decreases events.len(),
{
    if step > threshold {
        // resumed past the threshold: nothing to do this run
        (Seq::empty(), 0, StopReason::StepThreshold)
    } else if events.len() == 0 {
        (Seq::empty(), 0, StopReason::AbortFatal)
    } else {
        match events[0] {
            FetchEvent::Failed => (Seq::empty(), 1nat, StopReason::AbortFatal),
            FetchEvent::Page(q) => {
                if q.is_empty_page {
                    (Seq::empty(), 1nat, StopReason::EmptyPage)
                } else {
                    let entry = (step, cursor_label(cursor), q.response_data.spec_payload());
                    if !q.has_next_page {
                        (seq![entry], 1nat, StopReason::NoMorePages)
                    } else if step >= threshold {
                        (seq![entry], 1nat, StopReason::StepThreshold)
                    } else {
                        let rest = spec_crawl(
                            events.drop_first(),
                            step + 1,
                            q.query_cursor,
                            threshold,
                        );
                        (seq![entry] + rest.0, 1 + rest.1, rest.2)
                    }
                }
            },
        }
    }
}

/// A run realizes a crawl plan when its files carry exactly the planned
/// checkpoint names and payload bytes, in order, and its count and stop
/// reason are the planned ones.
pub open spec fn crawl_run_matches(
    run: CrawlRun,
    plan: (Seq<(nat, Seq<char>, Seq<char>)>, nat, StopReason),
) -> bool {
    &&& run.files@.len() == plan.0.len()
    &&& forall|j: int|
        0 <= j < plan.0.len() ==> (#[trigger] run.files@[j]).0@ == checkpoint_name(
            plan.0[j].0,
            plan.0[j].1,
        ) && run.files@[j].1@ == plan.0[j].2
    &&& run.pages_fetched == plan.1
    &&& run.stop == plan.2
}

/// The crawl is a function of its inputs: two runs that realize the same
/// plan persist byte-identical files, fetch the same number of pages, and
/// stop for the same reason.
pub proof fn lemma_crawl_deterministic(
    run1: CrawlRun,
    run2: CrawlRun,
    plan: (Seq<(nat, Seq<char>, Seq<char>)>, nat, StopReason),
)
    requires
        crawl_run_matches(run1, plan),
        crawl_run_matches(run2, plan),
    ensures
        run1.files@.len() == run2.files@.len(),
        forall|j: int|
            0 <= j < run1.files@.len() ==> (#[trigger] run1.files@[j]).0@ == run2.files@[j].0@
                && run1.files@[j].1@ == run2.files@[j].1@,
        run1.pages_fetched == run2.pages_fetched,
        run1.stop == run2.stop,
{
}

/// Step indices strictly increase within one crawl: the entry at position
/// `j` of the plan is for step `step + j`, so no two persisted files ever
/// share a step, and none overwrites an earlier one.
pub proof fn lemma_crawl_steps_increase(
    events: Seq<FetchEvent>,
    step: nat,
    cursor: Option<String>,
    threshold: nat,
)
    ensures
        forall|j: int|
            0 <= j < spec_crawl(events, step, cursor, threshold).0.len() ==> (
            #[trigger] spec_crawl(events, step, cursor, threshold).0[j]).0 == step + j,
    decreases events.len(),
{
    if events.len() > 0 {
        match events[0] {
            FetchEvent::Failed => {},
            FetchEvent::Page(q) => {
                if !q.is_empty_page && q.has_next_page && step < threshold {
                    lemma_crawl_steps_increase(
                        events.drop_first(),
                        step + 1,
                        q.query_cursor,
                        threshold,
                    );
                    let entry = (step, cursor_label(cursor), q.response_data.spec_payload());
                    let rest = spec_crawl(events.drop_first(), step + 1, q.query_cursor, threshold);
                    let plan = spec_crawl(events, step, cursor, threshold);
                    assert(plan.0 == seq![entry] + rest.0);
                    assert(forall|j: int|
                        1 <= j < plan.0.len() ==> #[trigger] plan.0[j] == rest.0[j - 1]);
                }
            },
        }
    }
}

/// What the state machine does with one fetch outcome: stop (persisting
/// the page first, unless nothing is to be written), or persist the page
/// and carry the advanced (step, cursor) position into the next fetch.
#[derive(Debug, PartialEq, Eq)]
pub enum CrawlDecision {
    Stop { persist: Option<(String, String)>, reason: StopReason },
    Continue { file_name: String, payload: String, next_step: u32, next_cursor: Option<String> },
}

/// Decide one transition of the pagination state machine: a failed fetch
/// aborts; an empty page stops with nothing written; otherwise the page is
/// persisted under the checkpoint name of the cursor it was requested
/// with, and the crawl goes on only while there is a next page and the
/// step threshold is not yet reached. Folding this decision over the fetch
/// outcomes is exactly `spec_crawl`; `crawl_pages` is that fold.
pub fn crawl_step(step: u32, cursor: &Option<String>, threshold: u32, event: &FetchEvent) -> (d:
    CrawlDecision)
    requires
        step <= threshold,
    ensures
        *event is Failed ==> d == (CrawlDecision::Stop {
            persist: None,
            reason: StopReason::AbortFatal,
        }),
        *event matches FetchEvent::Page(q) ==> {
            &&& q.is_empty_page ==> d == (CrawlDecision::Stop {
                persist: None,
                reason: StopReason::EmptyPage,
            })
            &&& !q.is_empty_page && !q.has_next_page ==> (d matches CrawlDecision::Stop {
                persist,
                reason,
            } && persist matches Some(f) && f.0@ == checkpoint_name(
                step as nat,
                cursor_label(*cursor),
            ) && f.1@ == q.response_data.spec_payload() && reason == StopReason::NoMorePages)
            &&& !q.is_empty_page && q.has_next_page && step >= threshold ==> (d matches
                CrawlDecision::Stop { persist, reason } && persist matches Some(f) && f.0@
                == checkpoint_name(step as nat, cursor_label(*cursor)) && f.1@
                == q.response_data.spec_payload() && reason == StopReason::StepThreshold)
            &&& !q.is_empty_page && q.has_next_page && step < threshold ==> (d matches
                CrawlDecision::Continue { file_name, payload, next_step, next_cursor } && file_name@
                == checkpoint_name(step as nat, cursor_label(*cursor)) && payload@
                == q.response_data.spec_payload() && next_step == step + 1 && next_cursor
                == q.query_cursor)
        },
{
    match event {
        FetchEvent::Failed => CrawlDecision::Stop {
            persist: None,
            reason: StopReason::AbortFatal,
        },
        FetchEvent::Page(q) => {
            if q.is_empty_page {
                CrawlDecision::Stop { persist: None, reason: StopReason::EmptyPage }
            } else {
                let file_name = format_checkpoint_name(step, cursor);
                let payload = q.response_data.payload().clone();
                if !q.has_next_page {
                    CrawlDecision::Stop {
                        persist: Some((file_name, payload)),
                        reason: StopReason::NoMorePages,
                    }
                } else if step >= threshold {
                    CrawlDecision::Stop {
                        persist: Some((file_name, payload)),
                        reason: StopReason::StepThreshold,
                    }
                } else {
                    let next_cursor = match &q.query_cursor {
                        Some(c) => Some(c.clone()),
                        None => None,
                    };
                    CrawlDecision::Continue {
                        file_name,
                        payload,
                        next_step: step + 1,
                        next_cursor,
                    }
                }
            }
        },
    }
}

/// Walk the events from position `k`, crawling from `step` with `cursor`.
fn crawl_from(
    events: &Vec<FetchEvent>,
    k: usize,
    step: u32,
    cursor: Option<String>,
    threshold: u32,
) -> (r: CrawlRun)
    requires
        step <= threshold,
        k < events@.len(),
        events@.len() - k > threshold - step,
    ensures
        crawl_run_matches(r, spec_crawl(events@.skip(k as int), step as nat, cursor, threshold as nat)),
        r.pages_fetched <= events@.len() - k,
    decreases events@.len() - k,
{
    let n = events.len();
    proof {
        assert(events@.skip(k as int)[0] == events@[k as int]);
        assert(events@.skip(k as int).len() == events@.len() - k);
        assert(n == events@.len());
    }
    match crawl_step(step, &cursor, threshold, &events[k]) {
        CrawlDecision::Stop { persist, reason } => {
            let mut files: Vec<(String, String)> = Vec::new();
            match persist {
                Some(f) => files.push(f),
                None => (),
            }
            CrawlRun { files, pages_fetched: 1, stop: reason }
        },
        CrawlDecision::Continue { file_name, payload, next_step, next_cursor } => {
            proof {
                assert(events@.skip(k as int).drop_first() =~= events@.skip(k as int + 1));
            }
            let mut rest = crawl_from(events, k + 1, next_step, next_cursor, threshold);
            let mut files: Vec<(String, String)> = Vec::new();
            files.push((file_name, payload));
            files.append(&mut rest.files);
            CrawlRun { files, pages_fetched: 1 + rest.pages_fetched, stop: rest.stop }
        },
    }
}

/// Run one crawl over the fetch outcomes, from a resumed (step, cursor)
/// position up to the step threshold. One event is consumed per page
/// fetched; events past the stopping point are never looked at, so the
/// number of pages fetched says how many requests the crawl would issue.
/// A position resumed past the threshold fetches nothing at all.
pub fn crawl_pages(
    events: &Vec<FetchEvent>,
    start_step: u32,
    start_cursor: Option<String>,
    threshold: u32,
) -> (r: CrawlRun)
    requires
        events@.len() > threshold - start_step,
    ensures
        crawl_run_matches(
            r,
            spec_crawl(events@, start_step as nat, start_cursor, threshold as nat),
        ),
        r.pages_fetched <= events@.len(),
{
    if start_step > threshold {
        return CrawlRun { files: Vec::new(), pages_fetched: 0, stop: StopReason::StepThreshold };
    }
    proof {
        assert(events@.skip(0) =~= events@);
    }
    crawl_from(events, 0, start_step, start_cursor, threshold)
}

} // verus!
