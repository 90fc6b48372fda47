use feeding_tube::store::Database;

fn config() -> &'static str {
    r#"{
        "subscriptions": [
            {"id": "ch1", "name": "One", "url": "https://youtube.com/channel/ch1"},
            {"id": "ch2", "name": "Two", "url": "https://youtube.com/channel/ch2"},
            {"id": "ch1", "name": "Again", "url": "https://youtube.com/channel/other"},
            {"name": "No id"},
            "not an object"
        ],
        "settings": {"player": "vlc", "videosPerChannel": 30, "hideShorts": false, "extra": [1, "a"]},
        "channelLastViewed": {"ch1": "2024-01-15T10:30:00.000Z", "ch2": 7}
    }"#
}

fn watched() -> &'static str {
    r#"{"videos": {"v1": {"watchedAt": "2024-01-01T00:00:00.000Z"}, "v2": {}, "v3": null}}"#
}

fn videos() -> &'static str {
    r#"{"videos": {
        "v1": {"id": "v1", "title": "First", "url": "https://youtu.be/v1", "isShort": true,
               "channelName": "One", "channelId": "ch1",
               "publishedDate": "2024-01-15T10:30:01.000Z", "storedAt": "2024-01-16T00:00:00.000Z"},
        "v2": {"id": "v2", "channelId": "ch1", "publishedDate": "yesterday"},
        "v3": {"id": "v1", "title": "Same id"}
    }}"#
}

#[test]
fn the_earlier_records_are_taken_over() {
    let mut db = Database::open_in_memory().unwrap();
    assert!(db.migrate_from_json(Some(config()), Some(watched()), Some(videos())));
    assert!(db.has_migration("json_import"));

    let subs = db.get_subscriptions();
    let names: Vec<&str> = subs.iter().map(|s| s.name.as_str()).collect();
    assert_eq!(names, vec!["No id", "One", "Two"]);
    assert_eq!(subs[0].id, "");
    assert_eq!(subs[0].url, "");

    let settings = db.get_settings();
    assert_eq!(settings.player, "vlc");
    assert_eq!(settings.videos_per_channel, 30);
    assert!(!settings.hide_shorts);

    let watched = db.get_watched_ids();
    assert_eq!(watched.len(), 3);
    assert!(watched.contains("v1") && watched.contains("v2") && watched.contains("v3"));

    let stored = db.get_stored_videos("ch1");
    assert_eq!(stored.len(), 2);
    assert_eq!(stored[0].id, "v1");
    assert_eq!(stored[0].title, "First");
    assert!(stored[0].is_short);
    assert_eq!(stored[0].channel_name.as_deref(), Some("One"));
    assert_eq!(stored[0].published_date, Some(1705314601));
    assert_eq!(stored[0].stored_at.as_deref(), Some("2024-01-16T00:00:00.000Z"));
    assert_eq!(stored[1].id, "v2");
    assert_eq!(stored[1].title, "");
    assert_eq!(stored[1].channel_name.as_deref(), Some(""));
    assert_eq!(stored[1].published_date, None);
    assert_eq!(stored[1].stored_at.as_deref(), Some(""));
    assert!(!stored[1].is_short);

    // v1 was published one second after ch1 was last viewed and is a short.
    assert_eq!(db.get_new_video_counts(false).get("ch1").copied(), Some(1));
    assert!(db.get_new_video_counts(true).get("ch1").is_none());
}

#[test]
fn a_setting_is_stored_as_it_is_written_in_json() {
    let mut db = Database::open_in_memory().unwrap();
    let config = r#"{"settings": {"player": "a \"b\"\n", "videosPerChannel": 1.50, "hideShorts": null}}"#;
    assert!(db.migrate_from_json(Some(config), None, None));
    let settings = db.get_settings();
    assert_eq!(settings.player, "a \"b\"\n");
    assert_eq!(settings.videos_per_channel, 15);
    assert!(settings.hide_shorts);
}

#[test]
fn the_import_runs_once() {
    let mut db = Database::open_in_memory().unwrap();
    assert!(db.migrate_from_json(None, Some(watched()), None));
    assert!(!db.migrate_from_json(Some(config()), Some(watched()), Some(videos())));
    assert!(db.get_subscriptions().is_empty());
    assert_eq!(db.get_watched_ids().len(), 3);
    assert_eq!(db.get_stored_videos_paginated(None, 0, 10).total, 0);
}

#[test]
fn what_cannot_be_read_is_passed_over() {
    let mut db = Database::open_in_memory().unwrap();
    assert!(!db.migrate_from_json(Some("{"), Some(""), None));
    assert!(db.has_migration("json_import"));
    assert!(db.get_subscriptions().is_empty());

    let mut db = Database::open_in_memory().unwrap();
    assert!(!db.migrate_from_json(None, None, None));
    assert!(db.has_migration("json_import"));

    let mut db = Database::open_in_memory().unwrap();
    assert!(db.migrate_from_json(
        Some(r#"{"subscriptions": {"id": "ch1"}, "settings": [], "channelLastViewed": "x"}"#),
        Some(r#"{"videos": ["v1"]}"#),
        Some("[]"),
    ));
    assert!(db.get_subscriptions().is_empty());
    assert!(db.get_watched_ids().is_empty());
    assert_eq!(db.get_settings().player, "mpv");
}

#[test]
fn the_import_overwrites_nothing_but_settings_and_view_times() {
    let mut db = Database::open_in_memory().unwrap();
    db.update_setting("player", "\"mpv\"");
    db.set_channel_last_viewed("ch1", Some(5));
    db.mark_as_watched("v1");
    let taken = db.migrate_from_json(Some(config()), Some(watched()), Some(videos()));
    assert!(taken);
    assert_eq!(db.get_settings().player, "vlc");
    assert_eq!(db.get_watched_ids().len(), 3);
    // The view time of ch1 is now that of the document.
    assert!(db.get_new_video_counts(false).get("ch1").is_some());
}
