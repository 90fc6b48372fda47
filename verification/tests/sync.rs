use feeding_tube::sync::{
    after_attempt, backoff_delay, batch_args, chunk_ranges, enriched_ids, ids_to_fetch,
    is_throttled, list_args, make_batches, parse_id_list, plan_prime, progress_after,
    summarize_prime, videos_url, Attempt, Step, BATCH_ATTEMPTS, BATCH_BASE_DELAY_MS, BATCH_SIZE,
    LIST_ATTEMPTS, LIST_BASE_DELAY_MS,
};
use feeding_tube::video::Video;

fn video(id: &str, duration: Option<i64>) -> Video {
    Video {
        id: id.to_string(),
        title: format!("Video {}", id),
        url: format!("https://youtube.com/watch?v={}", id),
        is_short: false,
        channel_name: Some("TestChannel".to_string()),
        channel_id: Some("ch1".to_string()),
        published_date: None,
        stored_at: None,
        relative_date: String::new(),
        duration,
        duration_string: None,
        view_count: None,
    }
}

fn ids(names: &[&str]) -> Vec<String> {
    names.iter().map(|s| s.to_string()).collect()
}

fn step(s: Step) -> (u8, String, u64) {
    match s {
        Step::Done(a) => (0, a, 0),
        Step::GiveUp(e) => (1, e, 0),
        Step::RetryAfter { delay_ms } => (2, String::new(), delay_ms),
    }
}

#[test]
fn the_list_is_asked_for_at_the_videos_address() {
    assert_eq!(videos_url("https://www.youtube.com/@name"), "https://www.youtube.com/@name/videos");
    assert_eq!(videos_url("https://www.youtube.com/@name///"), "https://www.youtube.com/@name/videos");
    assert_eq!(
        videos_url("https://www.youtube.com/@name/videos/"),
        "https://www.youtube.com/@name/videos/"
    );
    assert_eq!(videos_url(""), "/videos");
    assert_eq!(
        list_args("https://www.youtube.com/@name/"),
        vec![
            "--flat-playlist",
            "--print",
            "%(id)s",
            "--no-warnings",
            "--extractor-args",
            "youtube:skip=dash,hls",
            "--playlist-end",
            "5000",
            "https://www.youtube.com/@name/videos"
        ]
    );
}

#[test]
fn the_listed_ids_are_the_lines_that_are_not_empty() {
    assert_eq!(parse_id_list("\n a\nb\r\n\nc \n"), vec!["a", "b", "c"]);
    assert_eq!(parse_id_list("a\n \nb"), vec!["a", " ", "b"]);
    assert!(parse_id_list("").is_empty());
    assert!(parse_id_list(" \n\n").is_empty());
}

#[test]
fn only_videos_with_a_duration_count_as_known() {
    let known = enriched_ids(&vec![video("a", Some(1)), video("b", None), video("c", Some(0))]);
    assert!(known.contains("a"));
    assert!(!known.contains("b"));
    assert!(known.contains("c"));
    assert_eq!(known.len(), 2);
}

#[test]
fn no_known_id_is_fetched() {
    let known = enriched_ids(&vec![video("b", Some(1)), video("d", Some(1)), video("x", Some(1))]);
    let listed = ids(&["a", "b", "c", "d", "a"]);
    assert_eq!(ids_to_fetch(&listed, &known), vec!["a", "c", "a"]);
    assert!(ids_to_fetch(&ids(&["b", "d"]), &known).is_empty());
    assert!(ids_to_fetch(&vec![], &known).is_empty());
}

#[test]
fn ten_listed_and_seven_known_leave_three_to_fetch() {
    let listed: Vec<String> = (0..10).map(|i| format!("v{}", i)).collect();
    let stored: Vec<Video> = (0..7).map(|i| video(&format!("v{}", i), Some(60))).collect();
    let known = enriched_ids(&stored);
    let plan = plan_prime(&listed, &known);
    assert_eq!(plan.total, 10);
    assert_eq!(plan.skipped, 7);
    assert_eq!(plan.to_fetch, vec!["v7", "v8", "v9"]);
    assert_eq!(plan.batches, vec![ids(&["v7", "v8", "v9"])]);
    let fetched: usize = plan.batches.iter().map(|b| b.len()).sum();
    assert_eq!(fetched, 3);
    for batch in &plan.batches {
        for id in batch {
            assert!(!known.contains(id));
        }
    }
}

#[test]
fn a_channel_that_is_wholly_known_needs_no_batch() {
    let listed = ids(&["a", "b"]);
    let known = enriched_ids(&vec![video("a", Some(1)), video("b", Some(1)), video("c", Some(1))]);
    let plan = plan_prime(&listed, &known);
    assert!(plan.to_fetch.is_empty());
    assert!(plan.batches.is_empty());
    assert_eq!(plan.skipped, 3);
    let result = summarize_prime(plan.total, plan.skipped, &vec![]);
    assert_eq!((result.added, result.total, result.skipped, result.failed), (0, 2, 3, 0));
    assert!(result.videos.is_empty());
}

#[test]
fn batches_hold_five_ids_but_for_the_last() {
    let listed: Vec<String> = (0..12).map(|i| format!("v{}", i)).collect();
    let batches = make_batches(&listed, BATCH_SIZE);
    let sizes: Vec<usize> = batches.iter().map(|b| b.len()).collect();
    assert_eq!(sizes, vec![5, 5, 2]);
    assert_eq!(batches.concat(), listed);
    assert_eq!(make_batches(&listed[..10].to_vec(), 5).len(), 2);
    assert!(make_batches(&vec![], 5).is_empty());
    assert_eq!(make_batches(&listed, 100), vec![listed.clone()]);
    assert_eq!(make_batches(&listed, 1).len(), 12);
}

#[test]
fn chunks_cover_the_whole_in_order() {
    assert_eq!(chunk_ranges(45, 20), vec![(0, 20), (20, 40), (40, 45)]);
    assert_eq!(chunk_ranges(40, 20), vec![(0, 20), (20, 40)]);
    assert_eq!(chunk_ranges(1, 20), vec![(0, 1)]);
    assert!(chunk_ranges(0, 20).is_empty());
    assert_eq!(chunk_ranges(usize::MAX, usize::MAX), vec![(0, usize::MAX)]);
    assert_eq!(chunk_ranges(usize::MAX, usize::MAX - 1).len(), 2);
}

#[test]
fn a_batch_is_asked_for_by_the_addresses_of_its_videos() {
    assert_eq!(
        batch_args(&ids(&["a", "b"])),
        vec![
            "--dump-json",
            "--no-warnings",
            "--extractor-args",
            "youtube:skip=dash,hls",
            "--socket-timeout",
            "30",
            "https://www.youtube.com/watch?v=a",
            "https://www.youtube.com/watch?v=b"
        ]
    );
    assert_eq!(batch_args(&vec![]).len(), 6);
}

#[test]
fn throttling_is_told_by_three_marks() {
    assert!(is_throttled("HTTP Error 429"));
    assert!(is_throttled("ERROR: Too Many Requests"));
    assert!(is_throttled("you hit the rate limit"));
    assert!(!is_throttled("too many requests"));
    assert!(!is_throttled("Rate Limit"));
    assert!(!is_throttled("HTTP Error 404"));
    assert!(!is_throttled(""));
}

#[test]
fn the_delay_doubles_with_each_attempt() {
    assert_eq!(backoff_delay(2000, 0), 2000);
    assert_eq!(backoff_delay(2000, 1), 4000);
    assert_eq!(backoff_delay(2000, 2), 8000);
    assert_eq!(backoff_delay(1000, 10), 1_024_000);
    assert_eq!(backoff_delay(0, 100), 0);
    assert_eq!(backoff_delay(1, 63), 1 << 63);
    assert_eq!(backoff_delay(1, 64), u64::MAX);
    assert_eq!(backoff_delay(3, 63), u64::MAX);
    assert_eq!(backoff_delay(u64::MAX, 0), u64::MAX);
    assert_eq!(backoff_delay(u64::MAX, 1), u64::MAX);
    assert_eq!(backoff_delay(5, usize::MAX), u64::MAX);
}

#[test]
fn an_answer_is_taken() {
    assert_eq!(
        step(after_attempt(0, 3, 2000, Attempt::Succeeded("out".to_string()))),
        (0, "out".to_string(), 0)
    );
    assert_eq!(
        step(after_attempt(7, 3, 2000, Attempt::Succeeded(String::new()))),
        (0, String::new(), 0)
    );
}

#[test]
fn a_throttled_run_is_tried_again_while_attempts_are_left() {
    let throttled = || Attempt::Failed("HTTP Error 429: Too Many Requests".to_string());
    assert_eq!(step(after_attempt(0, LIST_ATTEMPTS, LIST_BASE_DELAY_MS, throttled())).2, 2000);
    assert_eq!(step(after_attempt(1, LIST_ATTEMPTS, LIST_BASE_DELAY_MS, throttled())).2, 4000);
    assert_eq!(
        step(after_attempt(2, LIST_ATTEMPTS, LIST_BASE_DELAY_MS, throttled())),
        (1, "HTTP Error 429: Too Many Requests".to_string(), 0)
    );
    assert_eq!(step(after_attempt(0, BATCH_ATTEMPTS, BATCH_BASE_DELAY_MS, throttled())).2, 1000);
    assert_eq!(step(after_attempt(1, BATCH_ATTEMPTS, BATCH_BASE_DELAY_MS, throttled())).0, 1);
    assert_eq!(step(after_attempt(0, 1, 1000, throttled())).0, 1);
    assert_eq!(step(after_attempt(0, 0, 1000, throttled())).0, 1);
    assert_eq!(step(after_attempt(usize::MAX, usize::MAX, 1000, throttled())).0, 1);
}

#[test]
fn another_failure_is_final() {
    assert_eq!(
        step(after_attempt(0, 3, 2000, Attempt::Failed("ERROR: no such channel".to_string()))),
        (1, "ERROR: no such channel".to_string(), 0)
    );
    assert_eq!(
        step(after_attempt(0, 3, 2000, Attempt::NotRun("No such file or directory".to_string()))),
        (1, "Process error: No such file or directory".to_string(), 0)
    );
}

#[test]
fn a_run_that_takes_too_long_is_tried_again_while_attempts_are_left() {
    assert_eq!(step(after_attempt(0, 3, 2000, Attempt::TimedOut)), (2, String::new(), 2000));
    assert_eq!(step(after_attempt(1, 3, 2000, Attempt::TimedOut)), (2, String::new(), 4000));
    assert_eq!(step(after_attempt(2, 3, 2000, Attempt::TimedOut)), (1, "Timed out".to_string(), 0));
}

#[test]
fn progress_never_goes_beyond_the_total() {
    assert_eq!(progress_after(0, 5, 12), 5);
    assert_eq!(progress_after(5, 5, 12), 10);
    assert_eq!(progress_after(10, 2, 12), 12);
    assert_eq!(progress_after(10, 5, 12), 12);
    assert_eq!(progress_after(12, 5, 12), 12);
    assert_eq!(progress_after(usize::MAX, usize::MAX, 7), 7);
    assert_eq!(progress_after(0, 0, 0), 0);
}

#[test]
fn a_batch_that_fails_costs_its_own_videos_only() {
    let fetched = vec![
        vec![video("a", Some(1)), video("b", Some(1))],
        vec![],
        vec![video("c", Some(1))],
        vec![video("d", Some(1)), video("e", Some(1))],
    ];
    let result = summarize_prime(20, 3, &fetched);
    assert_eq!(result.added, 5);
    assert_eq!(result.failed, 5);
    assert_eq!(result.total, 20);
    assert_eq!(result.skipped, 3);
    let got: Vec<&str> = result.videos.iter().map(|v| v.id.as_str()).collect();
    assert_eq!(got, vec!["a", "b", "c", "d", "e"]);
}

#[test]
fn every_empty_batch_counts_in_full() {
    let result = summarize_prime(3, 0, &vec![vec![], vec![]]);
    assert_eq!((result.added, result.failed), (0, 10));
    assert!(result.videos.is_empty());
}
