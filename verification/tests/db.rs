use feeding_tube::store::Database;
use feeding_tube::video::{hydrate_video, Subscription, Video, VideoColumns};

fn now() -> i64 {
    chrono::Utc::now().timestamp()
}

fn test_db() -> Database {
    Database::open_in_memory().expect("Failed to open in-memory db")
}

fn make_sub(id: &str, name: &str) -> Subscription {
    Subscription {
        id: id.to_string(),
        name: name.to_string(),
        url: format!("https://youtube.com/channel/{}", id),
        added_at: None,
    }
}

fn make_video(id: &str, channel_id: &str) -> Video {
    Video {
        id: id.to_string(),
        title: format!("Video {}", id),
        url: format!("https://youtube.com/watch?v={}", id),
        is_short: false,
        channel_name: Some("TestChannel".to_string()),
        channel_id: Some(channel_id.to_string()),
        published_date: Some(now()),
        stored_at: None,
        relative_date: "1h ago".to_string(),
        duration: None,
        duration_string: None,
        view_count: None,
    }
}

#[test]
fn test_add_and_get_subscriptions() {
    let mut db = test_db();
    let sub = make_sub("ch1", "Channel One");
    db.add_subscription(&sub).unwrap();

    let subs = db.get_subscriptions();
    assert_eq!(subs.len(), 1);
    assert_eq!(subs[0].name, "Channel One");
    assert_eq!(subs[0].id, "ch1");
}

#[test]
fn test_add_duplicate_subscription() {
    let mut db = test_db();
    let sub = make_sub("ch1", "Channel One");
    db.add_subscription(&sub).unwrap();
    let result = db.add_subscription(&sub);
    assert!(result.is_err());
    assert!(result.unwrap_err().contains("already exists"));
}

#[test]
fn add_subscription_rejects_the_same_url_under_another_id() {
    let mut db = test_db();
    db.add_subscription(&make_sub("ch1", "Channel One")).unwrap();
    let mut other = make_sub("ch2", "Channel Two");
    other.url = "https://youtube.com/channel/ch1".to_string();
    assert_eq!(db.add_subscription(&other), Err("Subscription already exists".to_string()));
    assert_eq!(db.get_subscriptions().len(), 1);
}

#[test]
fn test_remove_subscription() {
    let mut db = test_db();
    let sub = make_sub("ch1", "Channel One");
    db.add_subscription(&sub).unwrap();
    db.remove_subscription("ch1").unwrap();

    let subs = db.get_subscriptions();
    assert_eq!(subs.len(), 0);
}

#[test]
fn test_remove_nonexistent_subscription() {
    let mut db = test_db();
    let result = db.remove_subscription("nonexistent");
    assert!(result.is_err());
    assert_eq!(result, Err("Subscription not found".to_string()));
}

#[test]
fn test_subscriptions_ordered_case_insensitive() {
    let mut db = test_db();
    db.add_subscription(&make_sub("c1", "Zeta")).unwrap();
    db.add_subscription(&make_sub("c2", "alpha")).unwrap();
    db.add_subscription(&make_sub("c3", "Beta")).unwrap();

    let subs = db.get_subscriptions();
    assert_eq!(subs[0].name, "alpha");
    assert_eq!(subs[1].name, "Beta");
    assert_eq!(subs[2].name, "Zeta");
}

#[test]
fn subscriptions_with_names_that_sort_together_keep_their_order() {
    let mut db = test_db();
    db.add_subscription(&make_sub("c1", "same")).unwrap();
    db.add_subscription(&make_sub("c2", "SAME")).unwrap();
    db.add_subscription(&make_sub("c3", "Same")).unwrap();
    db.add_subscription(&make_sub("c4", "sam")).unwrap();
    let ids: Vec<String> = db.get_subscriptions().iter().map(|s| s.id.clone()).collect();
    assert_eq!(ids, vec!["c4", "c1", "c2", "c3"]);
}

#[test]
fn test_store_and_get_videos() {
    let mut db = test_db();
    let videos = vec![make_video("v1", "ch1"), make_video("v2", "ch1"), make_video("v3", "ch2")];
    let stored = db.store_videos(&videos);
    assert_eq!(stored, 3);

    let ch1_videos = db.get_stored_videos("ch1");
    assert_eq!(ch1_videos.len(), 2);

    let ch2_videos = db.get_stored_videos("ch2");
    assert_eq!(ch2_videos.len(), 1);
}

#[test]
fn test_store_videos_deduplication() {
    let mut db = test_db();
    let videos = vec![make_video("v1", "ch1")];
    db.store_videos(&videos);
    let stored = db.store_videos(&videos); // same video again
    assert_eq!(stored, 1); // upsert touches the row
    assert_eq!(db.get_stored_videos("ch1").len(), 1);
}

#[test]
fn test_store_empty_videos() {
    let mut db = test_db();
    db.store_videos(&vec![make_video("v1", "ch1")]);
    let stored = db.store_videos(&vec![]);
    assert_eq!(stored, 0);
    let all = db.get_stored_videos_paginated(None, 0, 10);
    assert_eq!(all.total, 1);
    assert_eq!(all.videos[0].id, "v1");
}

#[test]
fn test_watched_operations() {
    let mut db = test_db();
    let ids = db.get_watched_ids();
    assert!(ids.is_empty());

    db.mark_as_watched("v1");
    let ids = db.get_watched_ids();
    assert!(ids.contains("v1"));
    assert_eq!(ids.len(), 1);

    db.mark_as_watched("v1");
    assert_eq!(db.get_watched_ids().len(), 1);
}

#[test]
fn test_toggle_watched() {
    let mut db = test_db();

    let now_watched = db.toggle_watched("v1");
    assert!(now_watched);
    assert!(db.get_watched_ids().contains("v1"));

    let now_watched = db.toggle_watched("v1");
    assert!(!now_watched);
    assert!(!db.get_watched_ids().contains("v1"));
}

#[test]
fn test_mark_channel_all_watched() {
    let mut db = test_db();
    let ids = vec!["v1".to_string(), "v2".to_string(), "v3".to_string()];
    let count = db.mark_channel_all_watched(&ids);
    assert_eq!(count, 3);

    let watched = db.get_watched_ids();
    assert_eq!(watched.len(), 3);

    // Marking again should add 0
    let count = db.mark_channel_all_watched(&ids);
    assert_eq!(count, 0);
}

#[test]
fn mark_channel_all_watched_counts_each_new_id_once() {
    let mut db = test_db();
    db.mark_as_watched("v2");
    let ids = vec!["v1".to_string(), "v2".to_string(), "v1".to_string(), "v3".to_string()];
    assert_eq!(db.mark_channel_all_watched(&ids), 2);
    assert_eq!(db.get_watched_ids().len(), 3);
}

#[test]
fn test_mark_channel_all_watched_empty() {
    let mut db = test_db();
    let count = db.mark_channel_all_watched(&vec![]);
    assert_eq!(count, 0);
}

#[test]
fn test_settings_defaults() {
    let db = test_db();
    let settings = db.get_settings();
    assert_eq!(settings.player, "mpv");
    assert_eq!(settings.videos_per_channel, 15);
    assert!(settings.hide_shorts);
}

#[test]
fn test_update_and_get_settings() {
    let mut db = test_db();
    db.update_setting("player", "\"vlc\"");
    db.update_setting("hideShorts", "false");

    let settings = db.get_settings();
    assert_eq!(settings.player, "vlc");
    assert!(!settings.hide_shorts);
    assert_eq!(settings.videos_per_channel, 15);
}

#[test]
fn settings_of_the_wrong_kind_leave_the_defaults() {
    let mut db = test_db();
    db.update_setting("player", "vlc");
    db.update_setting("videosPerChannel", "\"30\"");
    db.update_setting("hideShorts", "0");
    db.update_setting("somethingElse", "1");
    let settings = db.get_settings();
    assert_eq!(settings.player, "mpv");
    assert_eq!(settings.videos_per_channel, 15);
    assert!(settings.hide_shorts);

    db.update_setting("videosPerChannel", "30");
    db.update_setting("videosPerChannel", " 25 ");
    assert_eq!(db.get_settings().videos_per_channel, 25);
    db.update_setting("videosPerChannel", "2.5");
    assert_eq!(db.get_settings().videos_per_channel, 15);
}

#[test]
fn test_paginated_videos() {
    let mut db = test_db();
    let mut videos = Vec::new();
    for i in 0..25 {
        let mut v = make_video(&format!("v{}", i), "ch1");
        v.published_date = Some(now() - 3600 * (i as i64));
        videos.push(v);
    }
    db.store_videos(&videos);

    let ids = vec!["ch1".to_string()];
    let page0 = db.get_stored_videos_paginated(Some(&ids), 0, 10);
    assert_eq!(page0.total, 25);
    assert_eq!(page0.videos.len(), 10);
    assert_eq!(page0.page, 0);
    assert_eq!(page0.page_size, 10);

    let page1 = db.get_stored_videos_paginated(Some(&ids), 1, 10);
    assert_eq!(page1.videos.len(), 10);

    let page2 = db.get_stored_videos_paginated(Some(&ids), 2, 10);
    assert_eq!(page2.videos.len(), 5);

    assert_eq!(page0.videos[0].id, "v0");
    assert_eq!(page1.videos[0].id, "v10");
    assert_eq!(page2.videos[4].id, "v24");
}

#[test]
fn test_paginated_videos_no_channels() {
    let mut db = test_db();
    db.store_videos(&vec![make_video("v1", "ch1")]);
    let result = db.get_stored_videos_paginated(Some(&vec![]), 0, 10);
    assert_eq!(result.total, 0);
    assert!(result.videos.is_empty());
}

#[test]
fn test_paginated_videos_all() {
    let mut db = test_db();
    let videos = vec![make_video("v1", "ch1"), make_video("v2", "ch2")];
    db.store_videos(&videos);

    let result = db.get_stored_videos_paginated(None, 0, 10);
    assert_eq!(result.total, 2);
    assert_eq!(result.videos.len(), 2);
}

#[test]
fn pages_add_up_to_the_total_whatever_their_size() {
    let mut db = test_db();
    let mut videos = Vec::new();
    for i in 0..23 {
        let mut v = make_video(&format!("v{}", i), if i % 3 == 0 { "ch2" } else { "ch1" });
        v.published_date = Some(1_700_000_000 + i as i64);
        videos.push(v);
    }
    db.store_videos(&videos);
    for size in [1usize, 2, 5, 7, 23, 24, 1000] {
        let mut seen = 0;
        let mut page = 0;
        loop {
            let result = db.get_stored_videos_paginated(None, page, size);
            assert_eq!(result.total, 23);
            assert_eq!(result.page_size, size);
            if result.videos.is_empty() {
                break;
            }
            seen += result.videos.len();
            page += 1;
        }
        assert_eq!(seen, 23);
        assert_eq!(page, (23 + size - 1) / size);
    }
}

#[test]
fn the_page_size_is_brought_into_its_range() {
    let mut db = test_db();
    let mut videos = Vec::new();
    for i in 0..1005 {
        videos.push(make_video(&format!("v{}", i), "ch1"));
    }
    db.store_videos(&videos);
    let tiny = db.get_stored_videos_paginated(None, 0, 0);
    assert_eq!(tiny.page_size, 1);
    assert_eq!(tiny.videos.len(), 1);
    assert_eq!(tiny.total, 1005);
    let huge = db.get_stored_videos_paginated(None, 0, 5000);
    assert_eq!(huge.page_size, 1000);
    assert_eq!(huge.videos.len(), 1000);
    let last = db.get_stored_videos_paginated(None, 1, 5000);
    assert_eq!(last.videos.len(), 5);
    let beyond = db.get_stored_videos_paginated(None, usize::MAX, 1000);
    assert_eq!(beyond.videos.len(), 0);
    assert_eq!(beyond.total, 1005);
    assert_eq!(beyond.page, usize::MAX);
}

#[test]
fn videos_are_listed_newest_first_and_undated_last() {
    let mut db = test_db();
    let mut a = make_video("a", "ch1");
    a.published_date = Some(100);
    let mut b = make_video("b", "ch1");
    b.published_date = None;
    let mut c = make_video("c", "ch1");
    c.published_date = Some(300);
    let mut d = make_video("d", "ch1");
    d.published_date = Some(100);
    let mut e = make_video("e", "ch1");
    e.published_date = None;
    db.store_videos(&vec![a, b, c, d, e]);
    let ids: Vec<String> = db.get_stored_videos("ch1").iter().map(|v| v.id.clone()).collect();
    assert_eq!(ids, vec!["c", "a", "d", "b", "e"]);
}

#[test]
fn test_channel_views() {
    let mut db = test_db();
    db.add_subscription(&make_sub("ch1", "Channel")).unwrap();

    // Store a video with a recent date
    let mut video = make_video("v1", "ch1");
    video.published_date = Some(now());
    db.store_videos(&vec![video]);

    // Before viewing, should have new count
    let counts = db.get_new_video_counts(false);
    assert!(counts.get("ch1").copied().unwrap_or(0) > 0);

    // After viewing, the count should be 0 (video published before last_viewed)
    db.update_channel_last_viewed("ch1");
    let counts = db.get_new_video_counts(false);
    assert_eq!(counts.get("ch1").copied().unwrap_or(0), 0);
}

#[test]
fn two_videos_are_new_until_the_channel_is_viewed() {
    let mut db = test_db();
    db.add_subscription(&make_sub("ch1", "Channel")).unwrap();
    let mut v1 = make_video("v1", "ch1");
    v1.published_date = Some(now() - 2 * 86400);
    let mut v2 = make_video("v2", "ch1");
    v2.published_date = Some(now() - 86400);
    db.store_videos(&vec![v1, v2]);

    let counts = db.get_new_video_counts(false);
    assert_eq!(counts.get("ch1").copied(), Some(2));

    db.update_channel_last_viewed("ch1");
    let counts = db.get_new_video_counts(false);
    assert_eq!(counts.get("ch1").copied().unwrap_or(0), 0);
    assert!(counts.get("ch1").is_none());
}

#[test]
fn new_counts_go_by_date_channel_and_the_short_filter() {
    let mut db = test_db();
    let mut old = make_video("old", "ch1");
    old.published_date = Some(1000);
    let mut fresh = make_video("fresh", "ch1");
    fresh.published_date = Some(3000);
    let mut short = make_video("short", "ch1");
    short.published_date = Some(3000);
    short.is_short = true;
    let mut undated = make_video("undated", "ch1");
    undated.published_date = None;
    let mut orphan = make_video("orphan", "ch1");
    orphan.channel_id = None;
    let mut at_view = make_video("at_view", "ch1");
    at_view.published_date = Some(2000);
    let other = make_video("other", "ch2");
    db.store_videos(&vec![old, fresh, short, undated, orphan, at_view, other]);
    db.update_channel_last_viewed_at("ch1", 2000);

    let shown = db.get_new_video_counts(false);
    assert_eq!(shown.get("ch1").copied(), Some(2));
    assert_eq!(shown.get("ch2").copied(), Some(1));
    assert_eq!(shown.len(), 2);
    let hidden = db.get_new_video_counts(true);
    assert_eq!(hidden.get("ch1").copied(), Some(1));

    db.set_channel_last_viewed("ch1", None);
    assert_eq!(db.get_new_video_counts(false).get("ch1").copied(), Some(4));
}

#[test]
fn test_mark_all_channels_viewed() {
    let mut db = test_db();
    let ids = vec!["ch1".to_string(), "ch2".to_string()];
    db.mark_all_channels_viewed(&ids);

    // Should not have new counts (no videos exist yet)
    let counts = db.get_new_video_counts(false);
    assert!(counts.is_empty());

    let mut v = make_video("v1", "ch2");
    v.published_date = Some(now() - 10);
    db.store_videos(&vec![v]);
    assert!(db.get_new_video_counts(false).is_empty());
}

#[test]
fn test_fully_watched_channels() {
    let mut db = test_db();
    let videos = vec![make_video("v1", "ch1"), make_video("v2", "ch1")];
    db.store_videos(&videos);

    // Not watched yet
    let fully = db.get_fully_watched_channels(false);
    assert!(!fully.contains("ch1"));

    // Watch all
    db.mark_as_watched("v1");
    db.mark_as_watched("v2");
    let fully = db.get_fully_watched_channels(false);
    assert!(fully.contains("ch1"));

    // Taking one mark off takes the channel out again
    assert!(!db.toggle_watched("v2"));
    let fully = db.get_fully_watched_channels(false);
    assert!(!fully.contains("ch1"));
    assert!(fully.is_empty());
}

#[test]
fn test_fully_watched_channels_with_shorts_hidden() {
    let mut db = test_db();
    let v1 = make_video("v1", "ch1");
    let mut v2 = make_video("v2", "ch1");
    v2.is_short = true;
    db.store_videos(&vec![v1, v2]);

    // Watch only the non-short
    db.mark_as_watched("v1");
    let fully = db.get_fully_watched_channels(true);
    assert!(fully.contains("ch1"));

    // With shorts shown, not fully watched
    let fully = db.get_fully_watched_channels(false);
    assert!(!fully.contains("ch1"));
}

#[test]
fn a_channel_whose_videos_are_all_hidden_is_not_fully_watched() {
    let mut db = test_db();
    let mut v = make_video("v1", "ch1");
    v.is_short = true;
    db.store_videos(&vec![v]);
    db.mark_as_watched("v1");
    assert!(!db.get_fully_watched_channels(true).contains("ch1"));
    assert!(db.get_fully_watched_channels(false).contains("ch1"));
}

#[test]
fn test_hydrate_video_various_date_formats() {
    let mut db = test_db();
    let columns = VideoColumns {
        id: "v1".to_string(),
        title: "Test".to_string(),
        url: "https://youtube.com/watch?v=v1".to_string(),
        is_short: 0,
        channel_name: Some("Ch".to_string()),
        channel_id: Some("ch1".to_string()),
        published_date: Some("2024-01-15T10:30:00+00:00".to_string()),
        stored_at: None,
        duration: None,
        view_count: None,
    };
    assert!(db.insert_video(&hydrate_video(&columns)));

    let videos = db.get_stored_videos("ch1");
    assert_eq!(videos.len(), 1);
    assert!(videos[0].published_date.is_some());
    assert_eq!(videos[0].published_date, Some(1705314600));
}

#[test]
fn hydrate_video_reads_three_notations_and_gives_up_on_others() {
    let mut columns = VideoColumns {
        id: "v1".to_string(),
        title: "Test".to_string(),
        url: "u".to_string(),
        is_short: 7,
        channel_name: None,
        channel_id: None,
        published_date: Some("2024-01-15T10:30:00.000Z".to_string()),
        stored_at: Some("2024-01-16 00:00:00".to_string()),
        duration: Some(61),
        view_count: Some(-1),
    };
    let v = hydrate_video(&columns);
    assert_eq!(v.published_date, Some(1705314600));
    assert!(v.is_short);
    assert_eq!(v.duration_string.as_deref(), Some("1:01"));
    assert_eq!(v.view_count, Some(u64::MAX));
    assert_eq!(v.stored_at.as_deref(), Some("2024-01-16 00:00:00"));
    assert!(v.relative_date.ends_with(" ago"));

    columns.published_date = Some("2024-01-15 10:30:00".to_string());
    assert_eq!(hydrate_video(&columns).published_date, Some(1705314600));
    columns.published_date = Some("2024-01-15T12:30:00+02:00".to_string());
    assert_eq!(hydrate_video(&columns).published_date, Some(1705314600));
    columns.published_date = Some("15 January 2024".to_string());
    let v = hydrate_video(&columns);
    assert_eq!(v.published_date, None);
    assert_eq!(v.relative_date, "");
    columns.published_date = Some(String::new());
    assert_eq!(hydrate_video(&columns).published_date, None);
    columns.published_date = None;
    assert_eq!(hydrate_video(&columns).published_date, None);
}

#[test]
fn test_upsert_metadata() {
    let mut db = test_db();
    let mut v = make_video("v1", "ch1");
    v.duration = Some(120);
    v.view_count = Some(5000);
    db.store_videos(&vec![v]);

    let videos = db.get_stored_videos("ch1");
    assert_eq!(videos[0].duration, Some(120));
    assert_eq!(videos[0].view_count, Some(5000));
    assert_eq!(videos[0].duration_string.as_deref(), Some("2:00"));
}

#[test]
fn test_null_doesnt_clobber_metadata() {
    let mut db = test_db();
    // First store with metadata
    let mut v = make_video("v1", "ch1");
    v.duration = Some(300);
    v.view_count = Some(10000);
    db.store_videos(&vec![v]);

    // Re-store same video without metadata (like RSS would)
    let v2 = make_video("v1", "ch1");
    assert!(v2.duration.is_none());
    assert!(v2.view_count.is_none());
    db.store_videos(&vec![v2]);

    // The metadata stored first should be preserved
    let videos = db.get_stored_videos("ch1");
    assert_eq!(videos[0].duration, Some(300));
    assert_eq!(videos[0].view_count, Some(10000));
}

#[test]
fn storing_a_video_again_takes_title_url_and_channel_and_new_metadata() {
    let mut db = test_db();
    let mut v = make_video("v1", "ch1");
    v.duration = Some(300);
    v.published_date = Some(1000);
    db.store_videos(&vec![v]);

    let mut again = make_video("v1", "ch2");
    again.title = "Renamed".to_string();
    again.url = "https://youtube.com/shorts/v1".to_string();
    again.channel_name = Some("Other".to_string());
    again.is_short = true;
    again.published_date = Some(2000);
    again.duration = Some(301);
    again.view_count = Some(7);
    assert_eq!(db.store_videos(&vec![again]), 1);

    assert!(db.get_stored_videos("ch1").is_empty());
    let videos = db.get_stored_videos("ch2");
    assert_eq!(videos.len(), 1);
    assert_eq!(videos[0].title, "Renamed");
    assert_eq!(videos[0].url, "https://youtube.com/shorts/v1");
    assert_eq!(videos[0].channel_name.as_deref(), Some("Other"));
    assert_eq!(videos[0].duration, Some(301));
    assert_eq!(videos[0].view_count, Some(7));
    // What was stored first stays for the rest.
    assert!(!videos[0].is_short);
    assert_eq!(videos[0].published_date, Some(1000));
}

#[test]
fn test_get_channel_stats() {
    let mut db = test_db();
    let mut v1 = make_video("v1", "ch1");
    v1.published_date = Some(now() - 2 * 86400);
    let mut v2 = make_video("v2", "ch1");
    let newest = now() - 86400;
    v2.published_date = Some(newest);
    let mut v3 = make_video("v3", "ch2");
    v3.published_date = Some(now());
    db.store_videos(&vec![v1, v2, v3]);

    let stats = db.get_channel_stats(false);
    assert_eq!(stats.get("ch1").unwrap().video_count, 2);
    assert!(stats.get("ch1").unwrap().latest_date.is_some());
    assert_eq!(stats.get("ch1").unwrap().latest_date, Some(newest));
    assert_eq!(stats.get("ch2").unwrap().video_count, 1);
}

#[test]
fn test_get_channel_stats_hides_shorts() {
    let mut db = test_db();
    let v1 = make_video("v1", "ch1");
    let mut v2 = make_video("v2", "ch1");
    v2.is_short = true;
    db.store_videos(&vec![v1, v2]);

    let stats = db.get_channel_stats(true);
    assert_eq!(stats.get("ch1").unwrap().video_count, 1);

    let stats = db.get_channel_stats(false);
    assert_eq!(stats.get("ch1").unwrap().video_count, 2);
}

#[test]
fn channel_stats_of_undated_videos_have_no_latest_date() {
    let mut db = test_db();
    let mut v1 = make_video("v1", "ch1");
    v1.published_date = None;
    let mut v2 = make_video("v2", "ch1");
    v2.channel_id = None;
    db.store_videos(&vec![v1, v2]);
    let stats = db.get_channel_stats(false);
    assert_eq!(stats.len(), 1);
    assert_eq!(stats.get("ch1").unwrap().video_count, 1);
    assert_eq!(stats.get("ch1").unwrap().latest_date, None);
}

#[test]
fn queries_tolerate_videos_of_a_removed_channel() {
    let mut db = test_db();
    db.add_subscription(&make_sub("ch1", "Channel")).unwrap();
    db.store_videos(&vec![make_video("v1", "ch1")]);
    db.remove_subscription("ch1").unwrap();
    assert_eq!(db.get_stored_videos("ch1").len(), 1);
    assert_eq!(db.get_channel_stats(false).get("ch1").unwrap().video_count, 1);
    assert_eq!(db.get_stored_videos_paginated(None, 0, 10).total, 1);
}

#[test]
fn the_migration_ledger_remembers() {
    let mut db = test_db();
    assert!(!db.has_migration("add_video_metadata"));
    db.mark_migration("add_video_metadata");
    db.mark_migration("add_video_metadata");
    assert!(db.has_migration("add_video_metadata"));
    assert!(!db.has_migration("json_import"));
}
