use feeding_tube::app::{build_subtitle, App, Mode, Screen};
use feeding_tube::store::Database;
use feeding_tube::video::{Subscription, Video};

fn now() -> i64 {
    chrono::Utc::now().timestamp()
}

fn test_app() -> App {
    let db = Database::open_in_memory().unwrap();
    App::new(db)
}

fn make_sub(id: &str, name: &str) -> Subscription {
    Subscription {
        id: id.to_string(),
        name: name.to_string(),
        url: format!("https://youtube.com/channel/{}", id),
        added_at: None,
    }
}

fn make_video(id: &str, channel_id: &str, is_short: bool) -> Video {
    Video {
        id: id.to_string(),
        title: format!("Video {}", id),
        url: format!("https://youtube.com/watch?v={}", id),
        is_short,
        channel_name: Some("TestChannel".to_string()),
        channel_id: Some(channel_id.to_string()),
        published_date: Some(now()),
        stored_at: None,
        relative_date: "1h ago".to_string(),
        duration: None,
        duration_string: None,
        view_count: None,
    }
}

// Initial state

#[test]
fn test_new_app_initial_state() {
    let app = test_app();
    assert_eq!(app.screen, Screen::Channels);
    assert_eq!(app.mode, Mode::List);
    assert_eq!(app.channel_selected, 0);
    assert_eq!(app.video_selected, 0);
    assert!(!app.loading);
    assert!(app.filter_text.is_empty());
    assert!(app.input_text.is_empty());
    assert!(!app.show_description);
    assert!(!app.playing);
    assert_eq!(app.page_size, 100);
    assert!(app.hide_shorts);
    assert_eq!(app.settings.player, "mpv");
}

#[test]
fn a_new_app_takes_settings_and_watched_ids_from_the_store() {
    let mut db = Database::open_in_memory().unwrap();
    db.update_setting("hideShorts", "false");
    db.update_setting("player", "\"vlc\"");
    db.mark_as_watched("v9");
    let app = App::new(db);
    assert!(!app.hide_shorts);
    assert_eq!(app.settings.player, "vlc");
    assert!(app.watched_ids.contains("v9"));
}

#[test]
fn test_with_initial_channel() {
    let db = Database::open_in_memory().unwrap();
    let ch = make_sub("ch1", "Test");
    let app = App::with_initial_channel(db, ch);
    assert_eq!(app.screen, Screen::Videos);
    assert!(app.current_channel.is_some());
    assert_eq!(app.current_channel.as_ref().unwrap().id, "ch1");
}

// Scrolling

#[test]
fn test_move_down_basic() {
    let mut app = test_app();
    app.screen = Screen::Channels;
    app.move_down(10, 5);
    assert_eq!(app.channel_selected, 1);
    assert_eq!(app.channel_scroll, 0);
}

#[test]
fn test_move_down_scrolls() {
    let mut app = test_app();
    app.screen = Screen::Channels;
    for _ in 0..7 {
        app.move_down(10, 5);
    }
    assert_eq!(app.channel_selected, 7);
    assert_eq!(app.channel_scroll, 3); // 7 - 5 + 1
}

#[test]
fn test_move_down_stops_at_end() {
    let mut app = test_app();
    app.screen = Screen::Channels;
    for _ in 0..20 {
        app.move_down(5, 10);
    }
    assert_eq!(app.channel_selected, 4); // 5 - 1
}

#[test]
fn test_move_up_basic() {
    let mut app = test_app();
    app.screen = Screen::Channels;
    app.channel_selected = 3;
    app.move_up();
    assert_eq!(app.channel_selected, 2);
}

#[test]
fn test_move_up_stops_at_zero() {
    let mut app = test_app();
    app.screen = Screen::Channels;
    app.move_up();
    assert_eq!(app.channel_selected, 0);
}

#[test]
fn test_move_up_adjusts_scroll() {
    let mut app = test_app();
    app.screen = Screen::Channels;
    app.channel_selected = 3;
    app.channel_scroll = 3;
    app.move_up();
    assert_eq!(app.channel_selected, 2);
    assert_eq!(app.channel_scroll, 2);
}

#[test]
fn test_reset_scroll() {
    let mut app = test_app();
    app.screen = Screen::Videos;
    app.video_selected = 5;
    app.video_scroll = 3;
    app.reset_scroll();
    assert_eq!(app.video_selected, 0);
    assert_eq!(app.video_scroll, 0);
}

#[test]
fn test_move_down_empty_list() {
    let mut app = test_app();
    app.screen = Screen::Channels;
    app.move_down(0, 5);
    assert_eq!(app.channel_selected, 0);
}

#[test]
fn moving_goes_by_the_list_that_is_shown() {
    let mut app = test_app();
    app.screen = Screen::Search;
    app.move_down(3, 0);
    assert_eq!((app.search_selected, app.search_scroll), (1, 2));
    assert_eq!((app.channel_selected, app.video_selected), (0, 0));
    app.screen = Screen::Videos;
    app.video_selected = usize::MAX - 1;
    app.video_scroll = usize::MAX;
    app.move_down(usize::MAX, usize::MAX);
    assert_eq!((app.video_selected, app.video_scroll), (usize::MAX - 1, usize::MAX));
    app.video_selected = 4;
    app.video_scroll = usize::MAX;
    app.move_down(10, 5);
    assert_eq!((app.video_selected, app.video_scroll), (5, usize::MAX));
}

#[test]
fn test_current_selected_per_screen() {
    let mut app = test_app();
    app.channel_selected = 1;
    app.video_selected = 2;
    app.search_selected = 3;
    app.channel_scroll = 4;
    app.video_scroll = 5;
    app.search_scroll = 6;

    app.screen = Screen::Channels;
    assert_eq!(app.current_selected(), 1);
    assert_eq!(app.current_scroll(), 4);
    app.screen = Screen::Videos;
    assert_eq!(app.current_selected(), 2);
    assert_eq!(app.current_scroll(), 5);
    app.screen = Screen::Search;
    assert_eq!(app.current_selected(), 3);
    assert_eq!(app.current_scroll(), 6);
}

// Input

#[test]
fn test_input_insert() {
    let mut app = test_app();
    app.input_insert('h');
    app.input_insert('i');
    assert_eq!(app.input_text, "hi");
    assert_eq!(app.input_cursor, 2);
}

#[test]
fn test_input_backspace() {
    let mut app = test_app();
    app.input_insert('a');
    app.input_insert('b');
    app.input_insert('c');
    app.input_backspace();
    assert_eq!(app.input_text, "ab");
    assert_eq!(app.input_cursor, 2);
}

#[test]
fn test_input_backspace_empty() {
    let mut app = test_app();
    app.input_backspace();
    assert_eq!(app.input_text, "");
    assert_eq!(app.input_cursor, 0);
}

#[test]
fn test_input_clear() {
    let mut app = test_app();
    app.input_insert('a');
    app.input_insert('b');
    app.input_clear();
    assert_eq!(app.input_text, "");
    assert_eq!(app.input_cursor, 0);
}

#[test]
fn the_input_is_edited_at_the_cursor_by_characters() {
    let mut app = test_app();
    app.input_text = "日本".to_string();
    app.input_cursor = 1;
    app.input_insert('é');
    assert_eq!(app.input_text, "日é本");
    assert_eq!(app.input_cursor, 2);
    app.input_cursor = 1;
    app.input_backspace();
    assert_eq!(app.input_text, "é本");
    assert_eq!(app.input_cursor, 0);
    app.input_cursor = 9;
    app.input_insert('x');
    assert_eq!(app.input_text, "é本x");
    assert_eq!(app.input_cursor, 10);
    app.input_backspace();
    assert_eq!(app.input_text, "é本x");
    assert_eq!(app.input_cursor, 9);
}

// Filters

#[test]
fn test_filtered_subscriptions_no_filter() {
    let mut app = test_app();
    app.db.add_subscription(&make_sub("ch1", "Foo")).unwrap();
    app.load_subscriptions();

    let filtered = app.filtered_subscriptions();
    assert_eq!(filtered.len(), 1);
}

#[test]
fn test_filtered_subscriptions_with_filter() {
    let mut app = test_app();
    app.db.add_subscription(&make_sub("ch1", "Foo Bar")).unwrap();
    app.db.add_subscription(&make_sub("ch2", "Baz Qux")).unwrap();
    app.load_subscriptions();
    app.filter_text = "foo".to_string();

    let filtered = app.filtered_subscriptions();
    assert_eq!(filtered.len(), 1);
    assert_eq!(filtered[0].name, "Foo Bar");
    app.filter_text = "ÄR".to_string();
    assert!(app.filtered_subscriptions().is_empty());
    app.filter_text = "A".to_string();
    assert_eq!(app.filtered_subscriptions().len(), 2);
}

#[test]
fn test_filtered_videos_hides_shorts() {
    let mut app = test_app();
    app.screen = Screen::Videos;
    app.videos = vec![
        make_video("v1", "ch1", false),
        make_video("v2", "ch1", true),
        make_video("v3", "ch1", false),
    ];
    app.hide_shorts = true;

    let filtered = app.filtered_videos();
    assert_eq!(filtered.len(), 2);
    assert!(filtered.iter().all(|v| !v.is_short));
}

#[test]
fn test_filtered_videos_shows_shorts() {
    let mut app = test_app();
    app.screen = Screen::Videos;
    app.videos = vec![make_video("v1", "ch1", false), make_video("v2", "ch1", true)];
    app.hide_shorts = false;

    let filtered = app.filtered_videos();
    assert_eq!(filtered.len(), 2);
}

#[test]
fn test_filtered_videos_text_filter() {
    let mut app = test_app();
    app.screen = Screen::Videos;
    let mut v1 = make_video("v1", "ch1", false);
    v1.title = "Rust tutorial".to_string();
    let mut v2 = make_video("v2", "ch1", false);
    v2.title = "Python basics".to_string();
    app.videos = vec![v1, v2];
    app.filter_text = "rust".to_string();

    let filtered = app.filtered_videos();
    assert_eq!(filtered.len(), 1);
    assert_eq!(filtered[0].title, "Rust tutorial");
}

#[test]
fn videos_are_found_by_the_name_of_their_channel_too() {
    let mut app = test_app();
    app.screen = Screen::Videos;
    let mut v1 = make_video("v1", "ch1", false);
    v1.channel_name = Some("Ferris Weekly".to_string());
    let mut v2 = make_video("v2", "ch1", false);
    v2.channel_name = None;
    let mut v3 = make_video("v3", "ch1", true);
    v3.channel_name = Some("FERRIS shorts".to_string());
    app.videos = vec![v1, v2, v3];
    app.filter_text = "ferris".to_string();
    let ids: Vec<&str> = app.filtered_videos().iter().map(|v| v.id.as_str()).collect();
    assert_eq!(ids, vec!["v1"]);
    app.hide_shorts = false;
    let ids: Vec<&str> = app.filtered_videos().iter().map(|v| v.id.as_str()).collect();
    assert_eq!(ids, vec!["v1", "v3"]);
}

#[test]
fn test_filtered_videos_search_screen() {
    let mut app = test_app();
    app.screen = Screen::Search;
    app.search_results = vec![make_video("s1", "ch1", false), make_video("s2", "ch1", false)];
    app.videos = vec![make_video("v1", "ch1", false)]; // should be ignored

    let filtered = app.filtered_videos();
    assert_eq!(filtered.len(), 2);
}

// Navigation

#[test]
fn test_navigate_to_videos() {
    let mut app = test_app();
    let ch = make_sub("ch1", "Test");
    app.filter_text = "x".to_string();
    app.show_description = true;
    app.navigate_to_videos(Some(ch), 2);
    assert_eq!(app.screen, Screen::Videos);
    assert_eq!(app.mode, Mode::List);
    assert_eq!(app.saved_channel_index, 2);
    assert_eq!(app.video_selected, 0);
    assert!(app.filter_text.is_empty());
    assert!(!app.show_description);
    assert_eq!(app.current_channel.as_ref().unwrap().name, "Test");
}

#[test]
fn test_navigate_back() {
    let mut app = test_app();
    app.screen = Screen::Videos;
    app.saved_channel_index = 3;
    app.filter_text = "something".to_string();
    app.navigate_back();

    assert_eq!(app.screen, Screen::Channels);
    assert_eq!(app.channel_selected, 3);
    assert!(app.filter_text.is_empty());
    assert!(app.current_channel.is_none());
}

#[test]
fn test_navigate_back_clamps_index() {
    let mut app = test_app();
    app.db.add_subscription(&make_sub("ch1", "Test")).unwrap();
    app.load_subscriptions();
    app.saved_channel_index = 10; // larger than subscription count
    app.navigate_back();

    assert_eq!(app.channel_selected, 0); // clamped to len-1 = 0
}

#[test]
fn going_back_reads_what_has_changed_in_the_store() {
    let mut app = test_app();
    app.hide_shorts = false;
    app.db.store_videos(&vec![make_video("v1", "ch1", false)]);
    app.db.mark_as_watched("v1");
    app.navigate_back();
    assert!(app.watched_ids.contains("v1"));
    assert!(app.fully_watched.contains("ch1"));
    assert_eq!(app.new_counts.get("ch1").copied(), Some(1));
    assert_eq!(app.channel_stats.get("ch1").unwrap().video_count, 1);
}

#[test]
fn test_navigate_to_search() {
    let mut app = test_app();
    app.navigate_to_search("rust tutorials".to_string());
    assert_eq!(app.screen, Screen::Search);
    assert_eq!(app.search_query, "rust tutorials");
    assert_eq!(app.search_selected, 0);
}

// Messages

#[test]
fn test_set_message() {
    let mut app = test_app();
    app.set_message("hello");
    assert!(app.status_message.is_some());
    let msg = app.status_message.as_ref().unwrap();
    assert_eq!(msg.text, "hello");
    assert!(!msg.is_error);
}

#[test]
fn test_set_error() {
    let mut app = test_app();
    app.set_error("bad thing");
    assert!(app.status_message.is_some());
    assert!(app.status_message.as_ref().unwrap().is_error);
    assert_eq!(app.status_message.as_ref().unwrap().text, "bad thing");
}

#[test]
fn test_clear_expired_messages() {
    let mut app = test_app();
    app.set_message("test");
    // Message just created, should not expire
    app.clear_expired_messages();
    assert!(app.status_message.is_some());
}

#[test]
fn a_message_goes_after_three_seconds() {
    let mut app = test_app();
    app.set_message("test");
    app.expire_message(2);
    assert!(app.status_message.is_some());
    app.expire_message(3);
    assert!(app.status_message.is_none());
    app.expire_message(u64::MAX);
    assert!(app.status_message.is_none());
}

// Toggles

#[test]
fn test_toggle_shorts() {
    let mut app = test_app();
    assert!(app.hide_shorts); // default true
    app.toggle_shorts();
    assert!(!app.hide_shorts);
    assert_eq!(app.status_message.as_ref().unwrap().text, "Showing all videos");
    assert!(!app.db.get_settings().hide_shorts);
    app.toggle_shorts();
    assert!(app.hide_shorts);
    assert_eq!(app.status_message.as_ref().unwrap().text, "Hiding Shorts");
    assert!(app.db.get_settings().hide_shorts);
}

#[test]
fn test_toggle_watched_current() {
    let mut app = test_app();
    app.screen = Screen::Videos;
    app.videos = vec![make_video("v1", "ch1", false)];
    app.video_selected = 0;

    app.toggle_watched_current();
    assert!(app.watched_ids.contains("v1"));
    assert_eq!(app.status_message.as_ref().unwrap().text, "Marked as watched");

    app.toggle_watched_current();
    assert!(!app.watched_ids.contains("v1"));
    assert_eq!(app.status_message.as_ref().unwrap().text, "Marked as unwatched");

    app.video_selected = 1;
    app.status_message = None;
    app.toggle_watched_current();
    assert!(app.status_message.is_none());
    assert!(app.watched_ids.is_empty());
}

#[test]
fn marking_a_channel_marks_what_is_shown_of_it() {
    let mut app = test_app();
    app.db.add_subscription(&make_sub("ch1", "One")).unwrap();
    app.db.add_subscription(&make_sub("ch2", "Two")).unwrap();
    app.db.store_videos(&vec![
        make_video("v1", "ch1", false),
        make_video("v2", "ch1", true),
        make_video("v3", "ch1", false),
        make_video("v4", "ch2", false),
    ]);
    app.db.mark_as_watched("v3");
    app.load_subscriptions();
    assert_eq!(app.new_counts.get("ch1").copied(), Some(2));
    app.channel_selected = 0;
    app.mark_channel_watched();
    assert_eq!(app.status_message.as_ref().unwrap().text, "Marked 1 videos as watched in One");
    assert!(app.watched_ids.contains("v1"));
    assert!(!app.watched_ids.contains("v2"));
    assert!(!app.watched_ids.contains("v4"));
    assert!(app.fully_watched.contains("ch1"));
    assert!(app.new_counts.get("ch1").is_none());
    assert_eq!(app.new_counts.get("ch2").copied(), Some(1));

    app.channel_selected = 5;
    app.status_message = None;
    app.mark_channel_watched();
    assert!(app.status_message.is_none());
}

// Pages

#[test]
fn test_total_pages() {
    let mut app = test_app();
    app.page_size = 100;
    app.total_videos = 250;
    assert_eq!(app.total_pages(), 3);
}

#[test]
fn test_total_pages_exact() {
    let mut app = test_app();
    app.page_size = 100;
    app.total_videos = 200;
    assert_eq!(app.total_pages(), 2);
}

#[test]
fn test_total_pages_zero_page_size() {
    let mut app = test_app();
    app.page_size = 0;
    app.total_videos = 100;
    assert_eq!(app.total_pages(), 1);
}

#[test]
fn test_total_pages_zero_videos() {
    let mut app = test_app();
    app.page_size = 100;
    app.total_videos = 0;
    assert_eq!(app.total_pages(), 0);
}

#[test]
fn total_pages_of_the_largest_listing() {
    let mut app = test_app();
    app.page_size = usize::MAX;
    app.total_videos = usize::MAX;
    assert_eq!(app.total_pages(), 1);
    app.page_size = 1;
    assert_eq!(app.total_pages(), usize::MAX);
    app.page_size = 2;
    assert_eq!(app.total_pages(), usize::MAX / 2 + 1);
}

#[test]
fn a_page_of_all_channels_is_loaded_from_the_store() {
    let mut app = test_app();
    let mut videos = Vec::new();
    for i in 0..150 {
        let mut v = make_video(&format!("v{}", i), if i % 2 == 0 { "ch1" } else { "ch2" }, false);
        v.published_date = Some(1_700_000_000 - i as i64);
        videos.push(v);
    }
    videos.push(make_video("other", "ch3", false));
    app.db.store_videos(&videos);

    app.load_video_page();
    assert!(app.videos.is_empty());

    app.all_channel_ids = vec!["ch1".to_string(), "ch2".to_string()];
    app.video_selected = 7;
    app.video_scroll = 3;
    app.current_page = 1;
    app.load_video_page();
    assert_eq!(app.videos.len(), 50);
    assert_eq!(app.videos[0].id, "v100");
    assert_eq!(app.total_videos, 150);
    assert_eq!(app.page_size, 100);
    assert_eq!((app.video_selected, app.video_scroll), (0, 0));
    assert_eq!(app.total_pages(), 2);

    app.current_channel = Some(make_sub("ch1", "One"));
    app.current_page = 0;
    app.load_video_page();
    assert_eq!(app.videos.len(), 50);
}

// Subtitle

#[test]
fn the_subtitle_tells_what_is_listed() {
    let mut app = test_app();
    assert_eq!(build_subtitle(&app), "0 subscriptions");
    app.db.add_subscription(&make_sub("ch1", "One")).unwrap();
    app.load_subscriptions();
    assert_eq!(build_subtitle(&app), "1 subscription");
    app.filter_text = "zzz".to_string();
    assert_eq!(build_subtitle(&app), "1 subscription filter: \"zzz\"");

    app.screen = Screen::Videos;
    app.filter_text.clear();
    app.videos = vec![make_video("v1", "ch1", false), make_video("v2", "ch1", true)];
    assert_eq!(build_subtitle(&app), "1 video");
    app.hide_shorts = false;
    assert_eq!(build_subtitle(&app), "2 videos");
    app.total_videos = 250;
    app.current_page = 1;
    assert_eq!(build_subtitle(&app), "2 videos [2/3]");
    app.filter_text = "v1".to_string();
    assert_eq!(build_subtitle(&app), "1 video filter: \"v1\" [2/3]");
    app.current_channel = Some(make_sub("ch1", "One"));
    assert_eq!(build_subtitle(&app), "1 video filter: \"v1\"");

    app.screen = Screen::Search;
    app.search_query = "rust".to_string();
    app.search_results = vec![make_video("s1", "ch1", false)];
    assert_eq!(build_subtitle(&app), "1 result for \"rust\"");
    app.search_results.clear();
    assert_eq!(build_subtitle(&app), "0 results for \"rust\"");
    app.loading = true;
    assert_eq!(build_subtitle(&app), "");
}
