use feeding_tube::actions::{
    feed_targets, LoadRequest, PrimeAllTally, PrimeOutcome,
};
use feeding_tube::app::{App, Mode, Screen};
use feeding_tube::player::{play_result, Launch};
use feeding_tube::store::Database;
use feeding_tube::sync::PrimeResult;
use feeding_tube::video::{Subscription, Video};
use feeding_tube::ytdlp::{ChannelInfo, VideoDescription};

fn test_app() -> App {
    App::new(Database::open_in_memory().unwrap())
}

fn make_sub(id: &str, name: &str) -> Subscription {
    Subscription {
        id: id.to_string(),
        name: name.to_string(),
        url: format!("https://youtube.com/channel/{}", id),
        added_at: None,
    }
}

fn make_video(id: &str, channel_id: &str, published: Option<i64>) -> Video {
    Video {
        id: id.to_string(),
        title: format!("Video {}", id),
        url: format!("https://youtube.com/watch?v={}", id),
        is_short: false,
        channel_name: Some("TestChannel".to_string()),
        channel_id: Some(channel_id.to_string()),
        published_date: published,
        stored_at: None,
        relative_date: String::new(),
        duration: None,
        duration_string: None,
        view_count: None,
    }
}

fn info(id: &str, name: &str) -> ChannelInfo {
    ChannelInfo {
        id: id.to_string(),
        name: name.to_string(),
        url: format!("https://youtube.com/channel/{}", id),
    }
}

fn message(app: &App) -> (String, bool) {
    let m = app.status_message.as_ref().expect("a message");
    (m.text.clone(), m.is_error)
}

#[test]
fn a_channel_that_was_found_is_added_and_offered_for_priming() {
    let mut app = test_app();
    app.begin_loading("Fetching channel info...");
    assert!(app.loading);
    assert_eq!(app.loading_message, "Fetching channel info...");
    app.input_text = "https://youtube.com/@one".to_string();
    app.input_cursor = 5;
    app.finish_add_channel(Ok(info("ch1", "One")));
    assert_eq!(app.subscriptions.len(), 1);
    assert_eq!(app.db.get_subscriptions()[0].id, "ch1");
    assert_eq!(message(&app), ("Added: One".to_string(), false));
    assert_eq!(app.mode, Mode::ConfirmPrime);
    assert_eq!(app.pending_channel.as_ref().unwrap().id, "ch1");
    assert!(!app.loading);
    assert_eq!(app.loading_message, "");
    assert_eq!((app.input_text.as_str(), app.input_cursor), ("", 0));
}

#[test]
fn a_channel_that_is_there_already_or_was_not_found_is_not_added() {
    let mut app = test_app();
    app.db.add_subscription(&make_sub("ch1", "One")).unwrap();
    app.finish_add_channel(Ok(info("ch1", "One again")));
    assert_eq!(message(&app), ("Subscription already exists".to_string(), true));
    assert_eq!(app.mode, Mode::List);
    assert!(app.pending_channel.is_none());
    app.finish_add_channel(Err("yt-dlp failed: gone".to_string()));
    assert_eq!(message(&app), ("yt-dlp failed: gone".to_string(), true));
    assert_eq!(app.db.get_subscriptions().len(), 1);
}

#[test]
fn the_selected_channel_is_deleted() {
    let mut app = test_app();
    app.db.add_subscription(&make_sub("ch1", "Alpha")).unwrap();
    app.db.add_subscription(&make_sub("ch2", "Beta")).unwrap();
    app.load_subscriptions();
    app.mode = Mode::ConfirmDelete;
    app.channel_selected = 1;
    app.delete_selected_channel();
    assert_eq!(message(&app), ("Removed: Beta".to_string(), false));
    assert_eq!(app.subscriptions.len(), 1);
    assert_eq!(app.channel_selected, 0);
    assert_eq!(app.mode, Mode::List);

    app.status_message = None;
    app.channel_selected = 3;
    app.mode = Mode::ConfirmDelete;
    app.delete_selected_channel();
    assert!(app.status_message.is_none());
    assert_eq!(app.mode, Mode::List);
    assert_eq!(app.subscriptions.len(), 1);

    // The list on the screen may be behind the store.
    app.channel_selected = 0;
    app.db.remove_subscription("ch1").unwrap();
    app.delete_selected_channel();
    assert_eq!(message(&app), ("Subscription not found".to_string(), true));
}

#[test]
fn a_refresh_stores_what_it_has_brought() {
    let mut app = test_app();
    app.hide_shorts = false;
    app.begin_loading("Checking for new videos...");
    app.finish_refresh(&vec![make_video("v1", "ch1", Some(10)), make_video("v2", "ch1", Some(20))]);
    assert!(!app.loading);
    assert_eq!(message(&app), ("Refreshed".to_string(), false));
    assert_eq!(app.new_counts.get("ch1").copied(), Some(2));
    assert_eq!(app.db.get_stored_videos("ch1").len(), 2);

    app.loading_message = "Checking for new videos...".to_string();
    app.finish_first_check(&vec![make_video("v3", "ch1", Some(30))]);
    assert!(app.has_checked_for_new);
    assert_eq!(app.loading_message, "");
    assert_eq!(app.new_counts.get("ch1").copied(), Some(3));
}

#[test]
fn a_search_shows_its_results_or_its_failure() {
    let mut app = test_app();
    app.filter_text = "x".to_string();
    app.begin_search("rust");
    assert_eq!(app.screen, Screen::Search);
    assert_eq!(app.search_query, "rust");
    assert!(app.loading);
    assert_eq!(app.loading_message, "Searching...");
    assert_eq!(app.filter_text, "");
    app.db.mark_as_watched("s1");
    app.finish_search(Ok(vec![make_video("s1", "ch1", None)]));
    assert_eq!(app.search_results.len(), 1);
    assert!(app.watched_ids.contains("s1"));
    assert!(!app.loading);
    app.finish_search(Err("Search timed out".to_string()));
    assert_eq!(message(&app), ("Search timed out".to_string(), true));
    assert_eq!(app.search_results.len(), 1);
}

#[test]
fn a_video_is_marked_as_watched_before_it_plays() {
    let mut app = test_app();
    app.screen = Screen::Videos;
    app.videos = vec![make_video("v1", "ch1", None), make_video("v2", "ch1", None)];
    app.video_selected = 1;
    let request = app.begin_play().expect("a request");
    assert_eq!(request.id, "v2");
    assert_eq!(request.url, "https://youtube.com/watch?v=v2");
    assert!(app.playing);
    assert!(app.watched_ids.contains("v2"));
    assert!(app.db.get_watched_ids().contains("v2"));
    assert_eq!(message(&app), ("Opening: Video v2".to_string(), false));
    app.finish_play(&play_result("mpv", Launch::Started));
    assert!(!app.playing);
    assert_eq!(message(&app), ("Playing in mpv".to_string(), false));
    app.finish_play(&play_result("mpv", Launch::Failed("no such file".to_string())));
    assert_eq!(message(&app), ("Failed to play: no such file".to_string(), true));

    app.video_selected = 2;
    app.status_message = None;
    assert!(app.begin_play().is_none());
    assert!(!app.playing);
    assert!(app.status_message.is_none());
}

#[test]
fn a_description_is_shown_or_the_reason_why_not() {
    let mut app = test_app();
    app.screen = Screen::Search;
    let mut v = make_video("s1", "ch1", None);
    v.channel_name = None;
    app.search_results = vec![v];
    let request = app.begin_description().expect("a request");
    assert_eq!(request.video_id, "s1");
    assert_eq!(request.channel_name, "");
    assert!(app.show_description && app.loading_description);
    app.finish_description(request, Err("Request timed out".to_string()));
    let d = app.description.as_ref().unwrap();
    assert_eq!(d.title, "Video s1");
    assert_eq!(d.description, "Error: Request timed out");
    assert_eq!(d.channel_name, "");
    assert!(!app.loading_description);

    let request = app.begin_description().unwrap();
    assert!(app.description.is_none());
    app.finish_description(
        request,
        Ok(VideoDescription {
            title: "T".to_string(),
            description: "D".to_string(),
            channel_name: "C".to_string(),
        }),
    );
    assert_eq!(app.description.as_ref().unwrap().description, "D");

    app.search_results.clear();
    assert!(app.begin_description().is_none());
}

#[test]
fn the_channel_of_a_search_result_is_subscribed_to() {
    let mut app = test_app();
    app.screen = Screen::Search;
    app.mode = Mode::ConfirmAddChannel;
    let mut named = make_video("s1", "UC1", None);
    named.channel_name = Some("Named".to_string());
    let mut nameless = make_video("s2", "UC2", None);
    nameless.channel_name = None;
    let mut homeless = make_video("s3", "UC3", None);
    homeless.channel_id = None;
    app.search_results = vec![named, nameless, homeless];

    app.subscribe_from_search();
    assert_eq!(message(&app), ("Added: Named".to_string(), false));
    assert_eq!(app.mode, Mode::List);
    assert_eq!(app.subscriptions[0].url, "https://www.youtube.com/channel/UC1");
    app.subscribe_from_search();
    assert_eq!(message(&app), ("Already subscribed to Named".to_string(), false));

    app.search_selected = 1;
    app.subscribe_from_search();
    assert_eq!(message(&app), ("Added: Unknown".to_string(), false));
    app.subscribe_from_search();
    assert_eq!(message(&app), ("Already subscribed to ?".to_string(), false));

    app.status_message = None;
    app.search_selected = 2;
    app.mode = Mode::ConfirmAddChannel;
    app.subscribe_from_search();
    assert!(app.status_message.is_none());
    assert_eq!(app.mode, Mode::List);
    assert_eq!(app.db.get_subscriptions().len(), 2);
}

#[test]
fn priming_a_channel_begins_with_what_is_known_and_ends_with_a_message() {
    let mut app = test_app();
    assert!(app.begin_prime_channel().is_none());
    let mut known = make_video("v1", "ch1", None);
    known.duration = Some(60);
    let mut elsewhere = make_video("v3", "ch2", None);
    elsewhere.duration = Some(60);
    app.db.store_videos(&vec![known, make_video("v2", "ch1", None), elsewhere]);
    app.pending_channel = Some(info("ch1", "One"));
    app.mode = Mode::ConfirmPrime;
    let request = app.begin_prime_channel().expect("a request");
    assert_eq!(request.channel_id, "ch1");
    assert_eq!(request.channel_url, "https://youtube.com/channel/ch1");
    assert_eq!(request.existing_ids.len(), 1);
    assert!(request.existing_ids.contains("v1"));
    assert!(app.loading);
    assert_eq!(app.loading_message, "Priming One...");

    let mut fetched = make_video("v2", "ch1", Some(5));
    fetched.duration = Some(90);
    let result = PrimeResult { added: 1, total: 2, skipped: 1, failed: 0, videos: vec![fetched] };
    app.finish_prime_channel("One", PrimeOutcome::Done(result));
    assert_eq!(message(&app), ("Primed One: 1 new videos added (1 already cached)".to_string(), false));
    assert!(!app.loading);
    assert!(app.pending_channel.is_none());
    assert_eq!(app.mode, Mode::List);
    assert_eq!(app.db.enriched_video_ids("ch1").len(), 2);

    let nothing = PrimeResult { added: 0, total: 0, skipped: 0, failed: 0, videos: vec![] };
    app.finish_prime_channel("One", PrimeOutcome::Done(nothing));
    assert_eq!(message(&app).0, "Primed One: 0 new videos added");
    app.finish_prime_channel("One", PrimeOutcome::Failed("Failed to list videos: x".to_string()));
    assert_eq!(message(&app), ("Prime failed: Failed to list videos: x".to_string(), true));
    app.finish_prime_channel("One", PrimeOutcome::Broken("panicked".to_string()));
    assert_eq!(message(&app), ("Prime task failed: panicked".to_string(), true));
}

#[test]
fn priming_all_channels_is_tallied() {
    let mut app = test_app();
    assert!(app.begin_prime_all().is_empty());
    assert!(!app.loading);
    app.db.add_subscription(&make_sub("ch1", "One")).unwrap();
    app.db.add_subscription(&make_sub("ch2", "Two")).unwrap();
    app.load_subscriptions();
    app.mode = Mode::ConfirmPrimeAll;
    let requests = app.begin_prime_all();
    assert_eq!(requests.len(), 2);
    assert_eq!(requests[1].channel_name, "Two");
    assert!(app.loading);
    assert_eq!(app.mode, Mode::List);
    assert_eq!(app.loading_message, "Priming 0/2");

    let mut tally = PrimeAllTally::new();
    let result = PrimeResult {
        added: 2,
        total: 9,
        skipped: 7,
        failed: 0,
        videos: vec![make_video("v1", "ch1", None), make_video("v2", "ch1", None)],
    };
    app.record_prime_all(&mut tally, 2, Ok(result));
    assert_eq!(app.loading_message, "Priming 1/2");
    app.record_prime_all(&mut tally, 2, Err("Failed to list videos".to_string()));
    assert_eq!(app.loading_message, "Priming 2/2");
    assert_eq!(tally, PrimeAllTally { completed: 2, added: 2, skipped: 7, failures: 1 });
    app.finish_prime_all(&tally);
    assert_eq!(message(&app).0, "Primed all: 2 videos added (7 cached, 1 failed)");
    assert!(!app.loading);
    assert_eq!(app.channel_stats.get("ch1").unwrap().video_count, 2);

    app.finish_prime_all(&PrimeAllTally { completed: 1, added: 0, skipped: 3, failures: 0 });
    assert_eq!(message(&app).0, "Primed all: 0 videos added (3 cached)");

    let mut full = PrimeAllTally { completed: usize::MAX, added: usize::MAX, skipped: 0, failures: 0 };
    let more = PrimeResult { added: 1, total: 1, skipped: 1, failed: 0, videos: vec![] };
    app.record_prime_all(&mut full, 1, Ok(more));
    assert_eq!(full, PrimeAllTally { completed: usize::MAX, added: usize::MAX, skipped: 1, failures: 0 });
}

#[test]
fn the_videos_of_one_channel_are_loaded_with_what_the_feed_has_brought() {
    let mut app = test_app();
    app.current_channel = Some(make_sub("ch1", "One"));
    app.screen = Screen::Videos;
    app.db.store_videos(&vec![make_video("old", "ch1", Some(100)), make_video("undated", "ch1", None)]);
    app.video_selected = 4;
    match app.begin_load_videos() {
        LoadRequest::Channel(id, name) => assert_eq!((id.as_str(), name.as_str()), ("ch1", "One")),
        LoadRequest::All(_) => panic!("one channel was asked for"),
    }
    assert!(app.loading);
    assert_eq!(app.loading_message, "Refreshing...");
    let fresh = vec![
        make_video("new", "ch1", Some(200)),
        make_video("old", "ch1", Some(100)),
        make_video("stray", "ch2", Some(-5)),
        make_video("stray", "ch2", Some(-5)),
    ];
    app.finish_load_videos(&fresh);
    let ids: Vec<&str> = app.videos.iter().map(|v| v.id.as_str()).collect();
    // Without a date a video counts as one from the start of 1970.
    assert_eq!(ids, vec!["new", "old", "undated", "stray"]);
    assert_eq!(app.total_videos, 4);
    assert_eq!(app.video_selected, 0);
    assert!(!app.loading);
    assert_eq!(app.db.get_stored_videos_paginated(None, 0, 10).total, 4);
}

#[test]
fn the_videos_of_all_channels_are_loaded_by_pages() {
    let mut app = test_app();
    app.screen = Screen::Videos;
    match app.begin_load_videos() {
        LoadRequest::All(pairs) => assert!(pairs.is_empty()),
        LoadRequest::Channel(..) => panic!("all channels were asked for"),
    }
    app.videos = vec![make_video("stale", "ch1", None)];
    app.total_videos = 1;
    app.finish_load_videos(&vec![make_video("v1", "ch1", Some(1))]);
    assert!(app.videos.is_empty());
    assert_eq!(app.total_videos, 0);
    assert_eq!(app.db.get_stored_videos_paginated(None, 0, 10).total, 0);

    app.db.add_subscription(&make_sub("ch2", "beta")).unwrap();
    app.db.add_subscription(&make_sub("ch1", "Alpha")).unwrap();
    match app.begin_load_videos() {
        LoadRequest::All(pairs) => assert_eq!(
            pairs,
            vec![("ch1".to_string(), "Alpha".to_string()), ("ch2".to_string(), "beta".to_string())]
        ),
        LoadRequest::Channel(..) => panic!("all channels were asked for"),
    }
    let mut fresh = Vec::new();
    for i in 0..120 {
        fresh.push(make_video(&format!("v{}", i), if i % 2 == 0 { "ch1" } else { "ch2" }, Some(i)));
    }
    fresh.push(make_video("other", "ch3", Some(1000)));
    app.current_page = 3;
    app.finish_load_videos(&fresh);
    assert_eq!(app.all_channel_ids, vec!["ch1", "ch2"]);
    assert_eq!(app.videos.len(), 100);
    assert_eq!(app.videos[0].id, "v119");
    assert_eq!(app.total_videos, 120);
    assert_eq!(app.page_size, 100);
    assert_eq!(app.current_page, 0);
}

#[test]
fn the_steps_that_begin_outside_work_say_what_is_waited_for() {
    let mut app = test_app();
    app.db.add_subscription(&make_sub("ch1", "One")).unwrap();
    app.load_subscriptions();
    app.mode = Mode::Add;
    app.begin_add_channel();
    assert_eq!((app.mode, app.loading, app.loading_message.as_str()), (Mode::List, true, "Fetching channel info..."));
    app.end_loading();
    assert_eq!(app.begin_refresh(), vec![("ch1".to_string(), "One".to_string())]);
    assert_eq!((app.loading, app.loading_message.as_str()), (true, "Checking for new videos..."));
    app.show_prime_progress("One", 5, 12);
    assert_eq!(app.loading_message, "Priming One: scanned 5 | 12 new");
}

#[test]
fn feed_targets_are_ids_and_names() {
    let subs = vec![make_sub("ch1", "One"), make_sub("ch2", "Two")];
    assert_eq!(
        feed_targets(&subs),
        vec![("ch1".to_string(), "One".to_string()), ("ch2".to_string(), "Two".to_string())]
    );
}
