use repo_crawler::checkpoint::format_output_rel_path;
use repo_crawler::digits::parse_header_value;
use repo_crawler::query::{GetAnsweredDiscussions, GetClosedIssues, GetPRCommits};
use repo_crawler::util::is_html_body;
use repo_crawler::Window;
use repo_crawler::{
    backoff_seconds, classify_response, crawl_pages, crawl_step, executor_step,
    format_checkpoint_name, now_unix_seconds, parse_checkpoint_name, recover, run_executor,
    shrink_window, AttemptState, CrawlDecision, ExecOutcome, FetchEvent, QueryResponseData,
    QueryResult, RateLimit, ResponseClass, ResponseInfo, StepVerdict, StopReason, TaskType,
};

fn ok_response() -> Option<ResponseInfo> {
    Some(ResponseInfo {
        status: 200,
        remaining: Some(4999),
        reset: Some(1_700_000_000),
        retry_after: None,
    })
}

fn status_response(status: u16) -> Option<ResponseInfo> {
    Some(ResponseInfo { status, remaining: None, reset: None, retry_after: None })
}

fn page(
    nodes: u64,
    has_next: bool,
    end_cursor: Option<&str>,
    payload: &str,
) -> FetchEvent {
    FetchEvent::Page(QueryResult::from_parts(
        true,
        Some(nodes),
        has_next,
        end_cursor.map(|c| c.to_string()),
        RateLimit::new(5000, 4999, 1, 1_700_000_000),
        QueryResponseData::Discussions(payload.to_string()),
    ))
}

#[test]
fn window_shrinks_two_thirds_floored_at_one() {
    let expected = [100i64, 66, 44, 29, 19, 12, 8, 5, 3, 2, 1, 1, 1];
    let mut w: i64 = 100;
    for pair in expected.windows(2) {
        assert_eq!(w, pair[0]);
        w = shrink_window(w);
        assert_eq!(w, pair[1]);
    }
}

#[test]
fn backoff_dominates_reset_hint() {
    // remaining == 0 at time `now`: the wait covers the whole time until reset
    let now: i64 = 1_700_000_000;
    assert_eq!(backoff_seconds(0, now + 500, now, 0), 500);
    // a reset in the past never yields a negative wait
    assert_eq!(backoff_seconds(0, now - 100, now, 0), 60);
}

#[test]
fn backoff_dominates_retry_after_hint() {
    assert_eq!(backoff_seconds(5000, 0, 0, 0), 5000);
    assert_eq!(backoff_seconds(10, 0, 0, 0), 60);
}

#[test]
fn backoff_grows_geometrically_without_hints() {
    let expected = [60u64, 120, 240, 480, 960, 1920, 3840];
    for (attempt, want) in expected.iter().enumerate() {
        assert_eq!(backoff_seconds(0, 0, 0, attempt as u32), *want);
    }
}

#[test]
fn executor_returns_without_sleeping_on_success() {
    let mut responses = vec![ok_response()];
    responses.resize(7, status_response(403));
    let run = run_executor(&responses, 100, 1_700_000_000);
    assert_eq!(run.outcome, ExecOutcome::Success { attempt_index: 0 });
    assert!(run.waits.is_empty());
    assert_eq!(run.final_window, 100);
}

#[test]
fn executor_gives_up_after_seven_attempts() {
    let responses = vec![status_response(403); 7];
    let run = run_executor(&responses, 100, 0);
    assert_eq!(run.outcome, ExecOutcome::Fatal);
    // one wait after each failed attempt that was followed by another
    assert_eq!(run.waits, vec![60, 120, 240, 480, 960, 1920]);
}

#[test]
fn executor_succeeds_mid_budget() {
    let mut responses = vec![status_response(500); 3];
    responses.push(ok_response());
    responses.resize(7, status_response(500));
    let run = run_executor(&responses, 100, 0);
    assert_eq!(run.outcome, ExecOutcome::Success { attempt_index: 3 });
    assert_eq!(run.waits.len(), 3);
}

#[test]
fn executor_shrinks_window_on_overload_only() {
    // six overload responses shrink the window before the last attempt
    let responses = vec![status_response(502); 7];
    let run = run_executor(&responses, 100, 0);
    assert_eq!(run.outcome, ExecOutcome::Fatal);
    assert_eq!(run.final_window, 8); // 100 -> 66 -> 44 -> 29 -> 19 -> 12 -> 8

    let responses = vec![status_response(403); 7];
    let run = run_executor(&responses, 100, 0);
    assert_eq!(run.final_window, 100);
}

#[test]
fn executor_step_classifies_and_waits() {
    let state = AttemptState { attempt_index: 0, window: 100 };
    assert_eq!(executor_step(&state, &ok_response(), 0), StepVerdict::Success);

    // HTTP 200 with the quota spent: wait until the reset, keep the window
    let limited = Some(ResponseInfo {
        status: 200,
        remaining: Some(0),
        reset: Some(900),
        retry_after: None,
    });
    match executor_step(&state, &limited, 100) {
        StepVerdict::Retry { wait_secs, next } => {
            assert!(wait_secs >= 800);
            assert_eq!(wait_secs, 800);
            assert_eq!(next.window, 100);
            assert_eq!(next.attempt_index, 1);
        }
        other => panic!("expected a retry, got {:?}", other),
    }

    // the last attempt's failure is fatal
    let last = AttemptState { attempt_index: 6, window: 100 };
    assert_eq!(executor_step(&last, &status_response(500), 0), StepVerdict::Fatal);
}

#[test]
fn response_classification_table() {
    assert_eq!(classify_response(&ok_response()), ResponseClass::Success);
    let spent = Some(ResponseInfo {
        status: 200,
        remaining: Some(0),
        reset: None,
        retry_after: None,
    });
    assert_eq!(classify_response(&spent), ResponseClass::PrimaryLimit);
    let missing_remaining = Some(ResponseInfo {
        status: 200,
        remaining: None,
        reset: None,
        retry_after: None,
    });
    assert_eq!(classify_response(&missing_remaining), ResponseClass::PrimaryLimit);
    assert_eq!(classify_response(&status_response(502)), ResponseClass::ServerOverload);
    assert_eq!(classify_response(&status_response(504)), ResponseClass::ServerOverload);
    assert_eq!(classify_response(&status_response(403)), ResponseClass::SecondaryLimit);
    let throttled = Some(ResponseInfo {
        status: 429,
        remaining: None,
        reset: None,
        retry_after: Some(30),
    });
    assert_eq!(classify_response(&throttled), ResponseClass::SecondaryLimit);
    assert_eq!(classify_response(&status_response(500)), ResponseClass::Unexpected);
    assert_eq!(classify_response(&None), ResponseClass::NoResponse);
}

#[test]
fn recover_picks_last_step_and_cursor() {
    let names = vec![
        "000_first_cursor.json".to_string(),
        "001_abc.json".to_string(),
        "002_def.json".to_string(),
    ];
    assert_eq!(recover(&names), Some((2, "def".to_string())));
}

#[test]
fn recover_on_empty_or_fresh_directory_is_none() {
    assert_eq!(recover(&Vec::new()), None);
    let only_first = vec!["000_first_cursor.json".to_string()];
    assert_eq!(recover(&only_first), None);
}

#[test]
fn recover_restarts_on_malformed_checkpoint_name() {
    let names = vec!["001_abc.json".to_string(), "woops.json".to_string()];
    assert_eq!(recover(&names), None);
    // zero-padding beyond three digits is never written by the store
    let padded = vec!["0002_abc.json".to_string()];
    assert_eq!(recover(&padded), None);
}

#[test]
fn recover_ignores_files_without_the_extension() {
    let names = vec![
        "notes.txt".to_string(),
        "001_abc.json".to_string(),
        "002_def.json.bak".to_string(),
    ];
    assert_eq!(recover(&names), Some((1, "abc".to_string())));
}

#[test]
fn recover_orders_by_step_then_cursor() {
    let names = vec![
        "002_zzz.json".to_string(),
        "010_aaa.json".to_string(),
        "002_aaa.json".to_string(),
    ];
    assert_eq!(recover(&names), Some((10, "aaa".to_string())));
    let tied = vec!["002_aaa.json".to_string(), "002_zzz.json".to_string()];
    assert_eq!(recover(&tied), Some((2, "zzz".to_string())));
}

#[test]
fn checkpoint_names_are_zero_padded() {
    assert_eq!(format_checkpoint_name(0, &None), "000_first_cursor.json");
    assert_eq!(format_checkpoint_name(7, &Some("c".to_string())), "007_c.json");
    assert_eq!(format_checkpoint_name(12, &Some("abc".to_string())), "012_abc.json");
    assert_eq!(format_checkpoint_name(345, &Some("x".to_string())), "345_x.json");
    assert_eq!(format_checkpoint_name(1234, &Some("x".to_string())), "1234_x.json");
}

#[test]
fn checkpoint_names_parse_back() {
    assert_eq!(
        parse_checkpoint_name("000_first_cursor.json"),
        Some((0, "first_cursor".to_string()))
    );
    assert_eq!(parse_checkpoint_name("002_def.json"), Some((2, "def".to_string())));
    // a cursor may itself contain underscores and digits
    assert_eq!(parse_checkpoint_name("003_a_9b.json"), Some((3, "a_9b".to_string())));
    assert_eq!(parse_checkpoint_name("1234_x.json"), Some((1234, "x".to_string())));
    // an empty cursor still round-trips
    assert_eq!(parse_checkpoint_name("005_.json"), Some((5, "".to_string())));
}

#[test]
fn malformed_checkpoint_names_do_not_parse() {
    assert_eq!(parse_checkpoint_name("12_x.json"), None); // too little padding
    assert_eq!(parse_checkpoint_name("0004_x.json"), None); // too much padding
    assert_eq!(parse_checkpoint_name("003_x.txt"), None); // wrong extension
    assert_eq!(parse_checkpoint_name("abc_x.json"), None); // no step
    assert_eq!(parse_checkpoint_name("003x.json"), None); // no separator
    assert_eq!(parse_checkpoint_name(""), None);
    assert_eq!(parse_checkpoint_name("99999999999_x.json"), None); // step too large
}

#[test]
fn output_paths_name_owner_repo_and_task() {
    let path = format_output_rel_path(
        "AleoHQ",
        "leo",
        TaskType::ClosedIssues,
        2,
        &Some("def".to_string()),
    );
    assert_eq!(path, "output/AleoHQ_leo/issue/002_def.json");
    assert_eq!(TaskType::Discussions.dir_name(), "discussion");
    assert_eq!(TaskType::ClosedIssues.dir_name(), "issue");
    assert_eq!(TaskType::PRCommits.dir_name(), "pull_request");
}

#[test]
fn fresh_crawl_writes_three_pages_and_stops() {
    let events = vec![
        page(10, true, Some("c1"), "{\"page\":0}"),
        page(10, true, Some("c2"), "{\"page\":1}"),
        page(10, false, None, "{\"page\":2}"),
        FetchEvent::Failed, // never reached: no fourth request is issued
    ];
    let run = crawl_pages(&events, 0, None, 3);
    assert_eq!(run.pages_fetched, 3);
    assert_eq!(run.stop, StopReason::NoMorePages);
    let names: Vec<&str> = run.files.iter().map(|f| f.0.as_str()).collect();
    assert_eq!(
        names,
        vec!["000_first_cursor.json", "001_c1.json", "002_c2.json"]
    );
    assert_eq!(run.files[1].1, "{\"page\":1}");
}

#[test]
fn crawl_is_idempotent_for_identical_state_and_responses() {
    let events = vec![
        page(10, true, Some("c1"), "{\"a\":1}"),
        page(10, false, None, "{\"b\":2}"),
        FetchEvent::Failed,
        FetchEvent::Failed,
    ];
    let first = crawl_pages(&events, 1, Some("resume".to_string()), 3);
    let second = crawl_pages(&events, 1, Some("resume".to_string()), 3);
    assert_eq!(first.files, second.files);
    assert_eq!(first.pages_fetched, second.pages_fetched);
    assert_eq!(first.stop, second.stop);
    assert_eq!(first.files[0].0, "001_resume.json");
}

#[test]
fn crawl_stops_on_empty_page_without_writing() {
    let events = vec![page(0, true, Some("c1"), "{}"), FetchEvent::Failed];
    let run = crawl_pages(&events, 0, None, 1);
    assert_eq!(run.stop, StopReason::EmptyPage);
    assert!(run.files.is_empty());
    assert_eq!(run.pages_fetched, 1);
}

#[test]
fn crawl_stops_at_step_threshold() {
    let events = vec![
        page(10, true, Some("c1"), "{}"),
        page(10, true, Some("c2"), "{}"),
        page(10, true, Some("c3"), "{}"),
        page(10, true, Some("c4"), "{}"),
        page(10, true, Some("c5"), "{}"),
    ];
    let run = crawl_pages(&events, 0, None, 3);
    assert_eq!(run.stop, StopReason::StepThreshold);
    assert_eq!(run.pages_fetched, 4); // steps 0 through 3 inclusive
    assert_eq!(run.files.len(), 4);
    assert_eq!(run.files[3].0, "003_c3.json");
}

#[test]
fn clock_readings_are_clamped() {
    let now = now_unix_seconds();
    assert!((-200_000_000_000_000..=200_000_000_000_000).contains(&now));
}

#[test]
fn crawl_step_follows_the_transition_table() {
    let cursor = Some("c0".to_string());

    assert_eq!(
        crawl_step(1, &cursor, 3, &FetchEvent::Failed),
        CrawlDecision::Stop { persist: None, reason: StopReason::AbortFatal }
    );

    assert_eq!(
        crawl_step(1, &cursor, 3, &page(0, true, Some("c1"), "{}")),
        CrawlDecision::Stop { persist: None, reason: StopReason::EmptyPage }
    );

    assert_eq!(
        crawl_step(1, &cursor, 3, &page(5, false, None, "{}")),
        CrawlDecision::Stop {
            persist: Some(("001_c0.json".to_string(), "{}".to_string())),
            reason: StopReason::NoMorePages,
        }
    );

    assert_eq!(
        crawl_step(3, &cursor, 3, &page(5, true, Some("c1"), "{}")),
        CrawlDecision::Stop {
            persist: Some(("003_c0.json".to_string(), "{}".to_string())),
            reason: StopReason::StepThreshold,
        }
    );

    assert_eq!(
        crawl_step(1, &cursor, 3, &page(5, true, Some("c1"), "{}")),
        CrawlDecision::Continue {
            file_name: "001_c0.json".to_string(),
            payload: "{}".to_string(),
            next_step: 2,
            next_cursor: Some("c1".to_string()),
        }
    );
}

#[test]
fn crawl_resumed_past_the_threshold_does_nothing() {
    let events = vec![FetchEvent::Failed];
    let run = crawl_pages(&events, 4, Some("c9".to_string()), 3);
    assert_eq!(run.pages_fetched, 0);
    assert!(run.files.is_empty());
    assert_eq!(run.stop, StopReason::StepThreshold);
}

#[test]
fn crawl_aborts_on_fatal_fetch() {
    let events = vec![
        page(10, true, Some("c1"), "{}"),
        FetchEvent::Failed,
        FetchEvent::Failed,
        FetchEvent::Failed,
    ];
    let run = crawl_pages(&events, 0, None, 3);
    assert_eq!(run.stop, StopReason::AbortFatal);
    assert_eq!(run.pages_fetched, 2);
    assert_eq!(run.files.len(), 1); // only the page before the failure
}

#[test]
fn missing_repository_counts_as_empty_page() {
    let result = QueryResult::from_parts(
        false,
        None,
        true,
        Some("c".to_string()),
        RateLimit::new(5000, 4999, 1, 0),
        QueryResponseData::ClosedIssues("{}".to_string()),
    );
    assert!(result.is_empty_page);
    assert!(!result.has_next_page);
    assert_eq!(result.query_cursor, None);
}

#[test]
fn cursor_is_carried_only_with_a_next_page() {
    let more = QueryResult::from_parts(
        true,
        Some(7),
        true,
        Some("c9".to_string()),
        RateLimit::new(5000, 4999, 1, 0),
        QueryResponseData::PRCommits("{}".to_string()),
    );
    assert!(!more.is_empty_page);
    assert!(more.has_next_page);
    assert_eq!(more.query_cursor, Some("c9".to_string()));

    let last = QueryResult::from_parts(
        true,
        Some(7),
        false,
        Some("c9".to_string()),
        RateLimit::new(5000, 4999, 1, 0),
        QueryResponseData::PRCommits("{}".to_string()),
    );
    assert!(!last.has_next_page);
    assert_eq!(last.query_cursor, None);
}

#[test]
fn header_values_parse_or_fall_back() {
    assert_eq!(parse_header_value("0"), Some(0));
    assert_eq!(parse_header_value("4999"), Some(4999));
    assert_eq!(parse_header_value("007"), Some(7));
    assert_eq!(parse_header_value("9223372036854775807"), Some(i64::MAX));
    assert_eq!(parse_header_value("9223372036854775808"), None);
    assert_eq!(parse_header_value(""), None);
    assert_eq!(parse_header_value("12a"), None);
    assert_eq!(parse_header_value("+5"), None);
    assert_eq!(parse_header_value("-5"), None);
}

#[test]
fn rate_limit_defaults_are_conservative() {
    let now: i64 = 1_700_000_000;
    let parsed = RateLimit::from_headers(None, None, None, None, now);
    assert_eq!(parsed.limit, 5000);
    assert_eq!(parsed.remaining, 0);
    assert_eq!(parsed.used, 5000);
    assert_eq!(parsed.reset, now + 3600);

    let parsed = RateLimit::from_headers(Some("5000"), Some("4989"), Some("11"), Some("9"), now);
    assert_eq!(parsed, RateLimit::new(5000, 4989, 11, 9));

    // a malformed header falls back like a missing one
    let parsed = RateLimit::from_headers(Some("5000"), Some("12a"), None, None, now);
    assert_eq!(parsed.remaining, 0);

    // a missing `used` counts as the whole parsed limit, not the default
    let parsed = RateLimit::from_headers(Some("6000"), Some("10"), None, None, now);
    assert_eq!(parsed.limit, 6000);
    assert_eq!(parsed.used, 6000);

    let fresh = RateLimit::default();
    assert_eq!(fresh.limit, 5000);
    assert_eq!(fresh.remaining, 0);
    assert_eq!(fresh.used, 5000);
    assert!(fresh.reset > 3600); // one hour past a sane clock
}

#[test]
fn pacing_blocks_long_when_quota_is_low() {
    let low = RateLimit::new(5000, 2, 4998, 0);
    assert_eq!(repo_crawler::pacing_millis(&low), 300_000);

    let third = RateLimit::new(5000, 4000, 999, 0);
    let ms = repo_crawler::pacing_millis(&third);
    assert!((3_000..=9_000).contains(&ms));

    let other = RateLimit::new(5000, 4000, 1000, 0);
    let ms = repo_crawler::pacing_millis(&other);
    assert!((1_000..=3_000).contains(&ms));
}

#[test]
fn query_variables_carry_a_window() {
    let mut vars = repo_crawler::QueryVariables::new(
        "AleoHQ".to_string(),
        "leo".to_string(),
        None,
    );
    assert_eq!(vars.get_window(), 100);
    vars.set_window(66);
    assert_eq!(vars.get_window(), 66);
    assert_eq!(vars.repo_owner, "AleoHQ");

    assert!(matches!(GetAnsweredDiscussions::task_type(), TaskType::Discussions));
    assert!(matches!(GetPRCommits::task_type(), TaskType::PRCommits));
    assert!(matches!(GetClosedIssues::task_type(), TaskType::ClosedIssues));
    let wrapped = GetAnsweredDiscussions::wrap("{}".to_string());
    assert_eq!(wrapped, QueryResponseData::Discussions("{}".to_string()));
    assert!(matches!(wrapped.task_type(), TaskType::Discussions));
    assert_eq!(wrapped.payload(), "{}");
}

#[test]
fn html_error_pages_are_recognized() {
    assert!(is_html_body("<!DOCTYPE html><html><body>oops</body></html>"));
    assert!(!is_html_body("{\"message\":\"API rate limit exceeded\"}"));
    assert!(!is_html_body("<!doctype"));
}
