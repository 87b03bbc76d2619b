//! Task kinds, the rate-limit quota snapshot parsed from response headers,
//! and the pacing delay inserted between successful page fetches.

use vstd::prelude::*;

use crate::digits::{all_digits, digits_to_nat, parse_header_value};

verus! {

/// Fallback for a missing `x-ratelimit-limit` header.
pub const DEFAULT_LIMIT: i64 = 5000;

/// Fallback for a missing `x-ratelimit-reset` header: one hour from now.
pub const DEFAULT_RESET_DELAY: i64 = 3600;

/// Clock readings are clamped to this magnitude (several million years on
/// either side of the Unix epoch), so that the arithmetic downstream — the
/// default reset an hour from now, the time left until a reset — can never
/// overflow an `i64`.
pub const MAX_CLOCK_SECONDS: i64 = 200_000_000_000_000;

/// The three data categories collected per repository.
#[derive(Debug, Clone, Copy, PartialEq, Eq, Structural)]
pub enum TaskType {
    Discussions,
    ClosedIssues,
    PRCommits,
}

/// The directory label of a task type, as a character sequence.
pub open spec fn task_dir_label(t: TaskType) -> Seq<char> {
    match t {
        TaskType::Discussions => seq!['d', 'i', 's', 'c', 'u', 's', 's', 'i', 'o', 'n'],
        TaskType::ClosedIssues => seq!['i', 's', 's', 'u', 'e'],
        TaskType::PRCommits => seq![
            'p',
            'u',
            'l',
            'l',
            '_',
            'r',
            'e',
            'q',
            'u',
            'e',
            's',
            't',
        ],
    }
}

impl TaskType {
    /// The directory label of the task type in the output tree.
    pub fn dir_name(&self) -> (r: &'static str)
        ensures
            r@ =~= task_dir_label(*self),
    {
        proof {
            reveal_strlit("discussion");
            reveal_strlit("issue");
            reveal_strlit("pull_request");
        }
        match *self {
            TaskType::Discussions => "discussion",
            TaskType::ClosedIssues => "issue",
            TaskType::PRCommits => "pull_request",
        }
    }
}

/// A normalized snapshot of the endpoint's hourly quota, recomputed from
/// every successful response's headers and never persisted.
#[derive(Debug, Clone, Copy, PartialEq, Eq, Structural)]
pub struct RateLimit {
    pub limit: i64,
    pub remaining: i64,
    pub used: i64,
    pub reset: i64,
}

/// What a decimal header string parses to, if it is well formed.
pub open spec fn spec_header_value(s: Option<Seq<char>>) -> Option<int> {
    match s {
        Some(cs) => if cs.len() > 0 && all_digits(cs) && digits_to_nat(cs) <= i64::MAX {
            Some(digits_to_nat(cs) as int)
        } else {
            None
        },
        None => None,
    }
}

impl RateLimit {
    /// Assemble a snapshot from its four fields.
    pub fn new(limit: i64, remaining: i64, used: i64, reset: i64) -> (r: Self)
        ensures
            r == (RateLimit { limit, remaining, used, reset }),
    {
        Self { limit, remaining, used, reset }
    }

    /// Normalize the four quota headers, already parsed to integers, with
    /// the conservative defaults: a missing `remaining` counts as exhausted,
    /// a missing `used` as the whole limit (the parsed one, or its own
    /// default), and a missing `reset` as one hour from now.
    pub fn from_header_numbers(
        limit: Option<i64>,
        remaining: Option<i64>,
        used: Option<i64>,
        reset: Option<i64>,
        now: i64,
    ) -> (r: Self)
        requires
            now <= i64::MAX - DEFAULT_RESET_DELAY,
        ensures
            r.limit == limit.unwrap_or(DEFAULT_LIMIT),
            r.remaining == remaining.unwrap_or(0),
            r.used == used.unwrap_or(limit.unwrap_or(DEFAULT_LIMIT)),
            r.reset == reset.unwrap_or((now + DEFAULT_RESET_DELAY) as i64),
    {
        let effective_limit = match limit {
            Some(v) => v,
            None => DEFAULT_LIMIT,
        };
        Self {
            limit: effective_limit,
            remaining: match remaining {
                Some(v) => v,
                None => 0,
            },
            used: match used {
                Some(v) => v,
                None => effective_limit,
            },
            reset: match reset {
                Some(v) => v,
                None => now + DEFAULT_RESET_DELAY,
            },
        }
    }

    /// Parse the four quota headers from their raw string values.
    /// A header that is absent, or not a plain decimal that fits, falls
    /// back to its default.
    pub fn from_headers(
        limit: Option<&str>,
        remaining: Option<&str>,
        used: Option<&str>,
        reset: Option<&str>,
        now: i64,
    ) -> (r: Self)
        requires
            now <= i64::MAX - DEFAULT_RESET_DELAY,
        ensures
            r.limit as int == spec_header_value(view_opt_str(limit)).unwrap_or(DEFAULT_LIMIT as int),
            r.remaining as int == spec_header_value(view_opt_str(remaining)).unwrap_or(0),
            r.used as int == spec_header_value(view_opt_str(used)).unwrap_or(
                spec_header_value(view_opt_str(limit)).unwrap_or(DEFAULT_LIMIT as int),
            ),
            r.reset as int == spec_header_value(view_opt_str(reset)).unwrap_or(
                now + DEFAULT_RESET_DELAY,
            ),
    {
        Self::from_header_numbers(
            parse_opt(limit),
            parse_opt(remaining),
            parse_opt(used),
            parse_opt(reset),
            now,
        )
    }
}

/// The view of an optional string slice.
pub open spec fn view_opt_str(s: Option<&str>) -> Option<Seq<char>> {
    match s {
        Some(v) => Some(v@),
        None => None,
    }
}

/// Parse an optional header value.
fn parse_opt(s: Option<&str>) -> (r: Option<i64>)
    ensures
        match spec_header_value(view_opt_str(s)) {
            Some(v) => r == Some(v as i64),
            None => r is None,
        },
{
    match s {
        Some(v) => parse_header_value(v),
        None => None,
    }
}

impl Default for RateLimit {
    /// The snapshot assumed before any response has been seen: quota
    /// exhausted, reset one hour past a clamped clock reading.
    fn default() -> (r: Self)
        ensures
            r.limit == DEFAULT_LIMIT,
            r.remaining == 0,
            r.used == DEFAULT_LIMIT,
            -MAX_CLOCK_SECONDS + DEFAULT_RESET_DELAY <= r.reset <= MAX_CLOCK_SECONDS
                + DEFAULT_RESET_DELAY,
    {
        let now = now_unix_seconds();
        RateLimit::from_header_numbers(None, None, None, None, now)
    }
}

/// Relies on std's `SystemTime::now().duration_since(UNIX_EPOCH)`: the
/// whole seconds between the Unix epoch and the system clock, and on which
/// side of the epoch the clock stands (`duration_since` returns an error
/// holding the magnitude when the clock is before its argument). Both
/// variants are handled, so the call never panics; nothing is promised of
/// the values, since a system clock can read anything.
#[verifier::external_body]
fn clock_from_epoch() -> (r: (bool, u64)) {
    match std::time::SystemTime::now().duration_since(std::time::UNIX_EPOCH) {
        Ok(d) => (false, d.as_secs()),
        Err(e) => (true, e.duration().as_secs()),
    }
}

/// The system clock as seconds since the Unix epoch, negative before it,
/// clamped to `MAX_CLOCK_SECONDS` in magnitude so that every caller's
/// arithmetic stays in range whatever the clock reads.
pub fn now_unix_seconds() -> (r: i64)
    ensures
        -MAX_CLOCK_SECONDS <= r <= MAX_CLOCK_SECONDS,
{
    let (before_epoch, seconds) = clock_from_epoch();
    let magnitude: i64 = if seconds > MAX_CLOCK_SECONDS as u64 {
        MAX_CLOCK_SECONDS
    } else {
        seconds as i64
    };
    if before_epoch {
        -magnitude
    } else {
        magnitude
    }
}

/// Relies on rand's `Rng::gen_range`, which samples uniformly from the
/// given range and panics only when the range is empty.
#[verifier::external_body]
fn random_u64_in(lo: u64, hi: u64) -> (r: u64)
    requires
        lo <= hi,
    ensures
        lo <= r <= hi,
{
    rand::Rng::gen_range(&mut rand::thread_rng(), lo..=hi)
}

/// The marker opening an HTML error page.
pub open spec fn html_doctype_label() -> Seq<char> {
    seq!['<', '!', 'D', 'O', 'C', 'T', 'Y', 'P', 'E', ' ', 'h', 't', 'm', 'l', '>']
}

/// Does a failing response body look like an HTML error page from an
/// upstream proxy? Such bodies are dumped to a log file rather than
/// inlined in the log.
pub fn is_html_body(body: &str) -> (r: bool)
    ensures
        r == (body@.len() >= 15 && body@.take(15) == html_doctype_label()),
{
    proof {
        reveal_strlit("<!DOCTYPE html>");
    }
    let pat = "<!DOCTYPE html>";
    let n = body.unicode_len();
    if n < 15 {
        return false;
    }
    let mut i: usize = 0;
    while i < 15
        invariant
            0 <= i <= 15,
            n == body@.len(),
            n >= 15,
            pat@ =~= html_doctype_label(),
            pat@.len() == 15,
            forall|j: int| 0 <= j < i ==> body@[j] == html_doctype_label()[j],
        decreases 15 - i,
    {
        if body.get_char(i) != pat.get_char(i) {
            proof {
                assert(body@.take(15)[i as int] == body@[i as int]);
            }
            return false;
        }
        i = i + 1;
    }
    proof {
        assert(body@.take(15) =~= html_doctype_label());
    }
    true
}

/// Quota is nearly spent: pause for a long, fixed interval.
pub const LOW_QUOTA_PAUSE_MILLIS: u64 = 300_000;

/// How long to pause after a successful page, in milliseconds, given the
/// current quota snapshot. With fewer than three requests left the pause
/// is a fixed five minutes; otherwise it is a random jitter, longer on
/// every third request.
pub fn pacing_millis(rate_limit: &RateLimit) -> (r: u64)
    ensures
        rate_limit.remaining < 3 ==> r == LOW_QUOTA_PAUSE_MILLIS,
        rate_limit.remaining >= 3 && rate_limit.used % 3 == 0 ==> 3_000 <= r <= 9_000,
        rate_limit.remaining >= 3 && rate_limit.used % 3 != 0 ==> 1_000 <= r <= 3_000,
{
    if rate_limit.remaining < 3 {
        LOW_QUOTA_PAUSE_MILLIS
    } else if rate_limit.used % 3 == 0 {
        random_u64_in(3_000, 9_000)
    } else {
        random_u64_in(1_000, 3_000)
    }
}

} // verus!
