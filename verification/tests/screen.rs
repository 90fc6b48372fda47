use feeding_tube::app::{App, Mode, Screen};
use feeding_tube::screen::{
    channel_columns, channel_row_at, confirm_overlay, description_bounds, description_panel,
    header, input_overlay, modal_bounds, status_label, status_pieces, video_columns, video_row,
    visible_rows, Bounds, Ground, Piece, Shade,
};
use feeding_tube::store::Database;
use feeding_tube::video::{Subscription, Video};
use feeding_tube::ytdlp::{ChannelInfo, VideoDescription};

fn test_app() -> App {
    App::new(Database::open_in_memory().unwrap())
}

fn make_sub(id: &str, name: &str) -> Subscription {
    Subscription {
        id: id.to_string(),
        name: name.to_string(),
        url: format!("https://youtube.com/channel/{}", id),
        added_at: None,
    }
}

fn make_video(id: &str, channel_id: &str) -> Video {
    Video {
        id: id.to_string(),
        title: format!("Video {}", id),
        url: format!("https://youtube.com/watch?v={}", id),
        is_short: false,
        channel_name: Some("TestChannel".to_string()),
        channel_id: Some(channel_id.to_string()),
        published_date: Some(1_700_000_000),
        stored_at: None,
        relative_date: "2d ago".to_string(),
        duration: Some(125),
        duration_string: Some("2:05".to_string()),
        view_count: Some(1_500),
    }
}

fn texts(pieces: &[Piece]) -> String {
    pieces.iter().map(|p| p.text.as_str()).collect()
}

fn shown(piece: &Piece) -> (&str, Shade, bool) {
    (piece.text.as_str(), piece.shade, piece.bold)
}

#[test]
fn the_rows_of_a_list_are_what_the_frame_leaves() {
    assert_eq!(visible_rows(24), 17);
    assert_eq!(visible_rows(7), 0);
    assert_eq!(visible_rows(3), 0);
    assert_eq!(visible_rows(u16::MAX), 65528);
}

#[test]
fn the_head_line_tells_what_is_shown() {
    let mut app = test_app();
    assert_eq!(texts(&header(&app)), "youtube-cli - Channels (0 subscriptions) │ shorts hidden");
    assert_eq!(shown(&header(&app)[0]), ("youtube-cli", Shade::Cyan, true));
    assert_eq!(shown(&header(&app)[2]), ("Channels", Shade::LightGray, true));

    app.screen = Screen::Videos;
    app.hide_shorts = false;
    app.current_channel = Some(make_sub("ch1", "One"));
    app.videos = vec![make_video("v1", "ch1"), make_video("v2", "ch1")];
    app.db.mark_as_watched("v1");
    app.refresh_watched();
    app.begin_loading("Refreshing...");
    let line = header(&app);
    assert_eq!(
        texts(&line),
        "youtube-cli - One (2 videos) │ 1/2 watched │ shorts shown │ ⟳ Refreshing..."
    );
    assert_eq!(shown(&line[5]), ("1/2", Shade::Gray, false));
    app.db.mark_as_watched("v2");
    app.refresh_watched();
    app.loading_message.clear();
    let line = header(&app);
    assert_eq!(shown(&line[5]), ("2/2", Shade::Green, false));
    assert_eq!(texts(&line), "youtube-cli - One (2 videos) │ 2/2 watched │ shorts shown │ ⟳ ");

    app.screen = Screen::Search;
    assert_eq!(texts(&header(&app)), "youtube-cli - Search YouTube │ shorts shown │ ⟳ ");
    app.screen = Screen::Videos;
    app.current_channel = None;
    app.videos.clear();
    app.loading = false;
    assert!(texts(&header(&app)).starts_with("youtube-cli - All Videos (0 videos) │ 0/0 watched"));
    assert_eq!(shown(&header(&app)[5]).1, Shade::Gray);
}

#[test]
fn the_columns_of_the_channels_share_the_width() {
    let c = channel_columns(80);
    assert_eq!((c.pointer, c.name, c.videos, c.latest), (2, 63, 7, 8));
    assert_eq!(channel_columns(17).name, 0);
    assert_eq!(channel_columns(5).name, 0);
}

#[test]
fn a_row_of_the_channels_shows_name_count_and_age() {
    let mut app = test_app();
    app.hide_shorts = false;
    app.db.add_subscription(&make_sub("ch1", "Alpha")).unwrap();
    app.db.add_subscription(&make_sub("ch2", "A channel with quite a long name")).unwrap();
    let mut videos = Vec::new();
    for i in 0..3 {
        let mut v = make_video(&format!("v{}", i), "ch1");
        v.published_date = Some(1_000_000 + i);
        videos.push(v);
    }
    app.db.store_videos(&videos);
    app.load_subscriptions();
    let columns = channel_columns(40);
    let now = 1_000_002 + 3 * 3600;

    assert_eq!(app.subscriptions[1].name, "Alpha");
    let row = channel_row_at(&app, &app.subscriptions[1], 0, &columns, now);
    assert_eq!(shown(&row.pointer), ("▶", Shade::Accent, false));
    assert_eq!(row.name.len(), 2);
    assert_eq!(shown(&row.name[0]), ("Alpha", Shade::Cyan, true));
    assert_eq!(shown(&row.name[1]), (" (+3)             ", Shade::Green, false));
    assert_eq!(shown(&row.videos), ("3      ", Shade::Cyan, false));
    assert_eq!(shown(&row.latest), ("3h ago  ", Shade::Cyan, false));
    assert_eq!(row.ground, Ground::Highlight);

    let row = channel_row_at(&app, &app.subscriptions[1], 2, &columns, now);
    assert_eq!(shown(&row.pointer), (" ", Shade::Body, false));
    assert_eq!(shown(&row.name[0]), ("Alpha", Shade::Green, false));
    assert_eq!(row.ground, Ground::Body);

    let row = channel_row_at(&app, &app.subscriptions[0], 1, &columns, now);
    assert_eq!(row.name.len(), 1);
    assert_eq!(shown(&row.name[0]), ("A channel with quite … ", Shade::LightGray, false));
    assert_eq!(shown(&row.videos), ("       ", Shade::Gray, false));
    assert_eq!(shown(&row.latest), ("        ", Shade::Gray, false));
    assert_eq!(row.ground, Ground::Zebra);

    app.db.mark_channel_all_watched(&vec!["v0".to_string(), "v1".to_string(), "v2".to_string()]);
    app.db.update_channel_last_viewed_at("ch1", now);
    app.refresh_counts();
    let row = channel_row_at(&app, &app.subscriptions[1], 2, &columns, now);
    assert_eq!(shown(&row.name[0]), ("Alpha                  ", Shade::Dim, false));
}

#[test]
fn more_than_999_new_videos_are_not_counted_out() {
    let mut app = test_app();
    app.hide_shorts = false;
    app.db.add_subscription(&make_sub("ch1", "Alpha")).unwrap();
    let videos: Vec<Video> = (0..1000).map(|i| make_video(&format!("v{}", i), "ch1")).collect();
    app.db.store_videos(&videos);
    app.load_subscriptions();
    app.channel_selected = 9;
    let columns = channel_columns(30);
    let row = channel_row_at(&app, &app.subscriptions[0], 0, &columns, 1_700_000_000);
    assert_eq!(shown(&row.name[0]), ("Alpha", Shade::Green, false));
    assert_eq!(row.name[1].text, " (+999) ");
    assert_eq!(row.videos.text, "1000   ");
}

#[test]
fn the_columns_of_the_videos_share_the_width() {
    let c = video_columns(120, true);
    assert_eq!((c.pointer, c.channel, c.title, c.duration, c.views, c.date), (3, 32, 59, 8, 8, 8));
    let c = video_columns(60, true);
    assert_eq!((c.channel, c.title), (20, 11));
    let c = video_columns(60, false);
    assert_eq!((c.channel, c.title), (0, 31));
    assert_eq!(video_columns(20, true).title, 0);
    assert_eq!(video_columns(u16::MAX, true).title, 65535 - 61);
}

#[test]
fn a_row_of_the_videos_shows_what_is_known_of_a_video() {
    let mut app = test_app();
    app.db.mark_as_watched("v2");
    app.refresh_watched();
    let columns = video_columns(70, true);
    let v1 = make_video("v1", "ch1");
    let row = video_row(&app, &v1, 0, 0, true, &columns);
    assert_eq!(shown(&row.pointer), ("▶ ", Shade::Accent, false));
    assert_eq!(shown(row.channel.as_ref().unwrap()), ("TestChannel            ", Shade::Cyan, false));
    assert_eq!(shown(&row.title), ("Video v1          ", Shade::Cyan, true));
    assert_eq!(shown(&row.duration), ("2:05    ", Shade::Cyan, false));
    assert_eq!(shown(&row.views), ("1K      ", Shade::Cyan, false));
    assert_eq!(shown(&row.date), ("2d ago  ", Shade::Cyan, false));
    assert_eq!(row.ground, Ground::Highlight);

    let mut v2 = make_video("v2", "ch1");
    v2.is_short = true;
    v2.duration_string = Some("0:45  ".to_string());
    v2.title = "A title that is much too long for its column".to_string();
    v2.view_count = None;
    let row = video_row(&app, &v2, 1, 0, true, &columns);
    assert_eq!(shown(&row.pointer), ("  ", Shade::Body, false));
    assert_eq!(row.channel.as_ref().unwrap().shade, Shade::Dim);
    assert_eq!(shown(&row.title), ("A title that is … ", Shade::Dim, false));
    assert_eq!(shown(&row.duration), ("0:45S   ", Shade::Dim, false));
    assert_eq!(shown(&row.views), ("        ", Shade::Magenta, false));
    assert_eq!(row.ground, Ground::Zebra);

    let mut v3 = make_video("v3", "ch1");
    v3.duration_string = None;
    v3.channel_name = None;
    let row = video_row(&app, &v3, 2, 0, false, &video_columns(70, false));
    assert!(row.channel.is_none());
    assert_eq!(shown(&row.title).1, Shade::LightGray);
    assert_eq!(shown(&row.duration), ("--:--   ", Shade::Gray, false));
    assert_eq!(row.date.shade, Shade::Gray);
    assert_eq!(row.ground, Ground::Body);
    let row = video_row(&app, &v3, 2, 0, true, &columns);
    assert_eq!(shown(row.channel.as_ref().unwrap()).1, Shade::Yellow);
}

#[test]
fn the_status_line_tells_mode_keys_and_message() {
    let mut app = test_app();
    assert_eq!(status_label(&app), ("CHANNELS", Ground::Night));
    assert_eq!(
        texts(&status_pieces(&app)),
        " (a)dd (v)iew all (g)lobal (/)filter (s)+shorts (r)efresh (m)ark all (q)uit "
    );
    app.db.add_subscription(&make_sub("ch1", "One")).unwrap();
    app.load_subscriptions();
    app.hide_shorts = false;
    app.set_error("bad");
    let line = status_pieces(&app);
    assert_eq!(
        texts(&line),
        " (a)dd (d)elete (w)atched (p)rime all (v)iew all (g)lobal (/)filter (s)-shorts \
         (r)efresh (m)ark all (q)uit  │ bad"
    );
    assert_eq!(shown(line.last().unwrap()), ("bad", Shade::Red, false));
    assert_eq!(shown(&line[0]), (" ", Shade::Plain, false));
    app.set_message("good");
    assert_eq!(status_pieces(&app).last().unwrap().shade, Shade::Green);
    app.status_message = None;

    app.screen = Screen::Videos;
    assert_eq!(status_label(&app), ("VIDEOS", Ground::Night));
    assert_eq!(
        texts(&status_pieces(&app)),
        " (Enter)play (i)nfo (w)atched (/)filter (s)-shorts (r)efresh (b)ack (q)uit "
    );
    app.total_videos = 250;
    assert_eq!(
        texts(&status_pieces(&app)),
        " (Enter)play (i)nfo (w)atched (/)filter (s)-shorts (n)ext (p)rev (r)efresh (b)ack (q)uit "
    );
    app.current_channel = Some(make_sub("ch1", "One"));
    assert_eq!(
        texts(&status_pieces(&app)),
        " (Enter)play (i)nfo (w)atched (m)ark all (/)filter (s)-shorts (r)efresh (b)ack (q)uit "
    );

    app.screen = Screen::Search;
    assert_eq!(status_label(&app), ("SEARCH", Ground::Sky));
    assert_eq!(
        texts(&status_pieces(&app)),
        " (Enter)play (i)nfo (a)dd channel (g)new search (b)ack (q)uit "
    );
    app.show_description = true;
    assert_eq!(texts(&status_pieces(&app)), " (i)close info ");
    app.mode = Mode::Description;
    assert_eq!(status_label(&app), ("INFO", Ground::Sky));
    assert_eq!(texts(&status_pieces(&app)), " (i)close info ");
    app.show_description = false;
    assert_eq!(texts(&status_pieces(&app)), " ");

    app.mode = Mode::Filter;
    app.filter_text = "abc".to_string();
    assert_eq!(status_label(&app), ("FILTER", Ground::Amber));
    assert_eq!(texts(&status_pieces(&app)), " Filter: abc│  Enter:confirm  Esc:cancel");
    app.mode = Mode::Add;
    assert_eq!(status_label(&app), ("ADD", Ground::Leaf));
    app.mode = Mode::NewSearch;
    assert_eq!(status_label(&app), ("SEARCH", Ground::Leaf));
    app.mode = Mode::ConfirmDelete;
    assert_eq!(status_label(&app), ("SEARCH", Ground::Sky));
    assert_eq!(texts(&status_pieces(&app)), " ");
}

#[test]
fn the_input_box_shows_what_is_entered() {
    let mut app = test_app();
    app.mode = Mode::Add;
    let o = input_overlay(&app);
    assert_eq!(o.title, "Add Channel");
    assert_eq!(shown(&o.lines[0]), ("https://youtube.com/@channel", Shade::Dim, false));
    assert_eq!(shown(&o.lines[1]), ("Esc:cancel  Enter:submit", Shade::Gray, false));
    app.input_text = "abc".to_string();
    assert_eq!(shown(&input_overlay(&app).lines[0]), ("abc", Shade::LightGray, false));
    app.input_text.clear();
    app.mode = Mode::GlobalSearch;
    assert_eq!(input_overlay(&app).title, "Search YouTube");
    assert_eq!(input_overlay(&app).lines[0].text, "enter search query");
    app.mode = Mode::NewSearch;
    assert_eq!(input_overlay(&app).title, "New Search");
    app.mode = Mode::List;
    assert_eq!(input_overlay(&app).title, "Input");
    assert_eq!(input_overlay(&app).lines[0].text, "");
}

#[test]
fn the_question_names_what_it_is_about() {
    let mut app = test_app();
    app.db.add_subscription(&make_sub("ch1", "One")).unwrap();
    app.load_subscriptions();
    let ask = |app: &App| {
        let o = confirm_overlay(app);
        assert_eq!(o.lines.len(), 3);
        assert_eq!(o.lines[1].text, "");
        (o.title.clone(), o.lines[0].text.clone(), o.lines[2].text.clone())
    };
    let own = |t: (&str, &str, &str)| (t.0.to_string(), t.1.to_string(), t.2.to_string());
    app.mode = Mode::ConfirmDelete;
    assert_eq!(ask(&app), own(("Delete Channel", "Delete \"One\"?", "y:Yes  n:No")));
    app.channel_selected = 4;
    assert_eq!(ask(&app).1, "Delete \"?\"?");
    app.mode = Mode::ConfirmChannelWatched;
    assert_eq!(ask(&app).1, "Mark all videos in \"?\" as watched?");
    app.channel_selected = 0;
    assert_eq!(ask(&app), own(("Mark Watched", "Mark all videos in \"One\" as watched?", "y:Yes  n:No")));
    app.mode = Mode::ConfirmPrime;
    assert_eq!(ask(&app).1, "Fetch historical videos for \"?\"?");
    app.pending_channel = Some(ChannelInfo {
        id: "ch1".to_string(),
        name: "One".to_string(),
        url: "u".to_string(),
    });
    assert_eq!(ask(&app), own(("Prime Channel", "Fetch historical videos for \"One\"?", "Y:Yes  n:No")));
    app.mode = Mode::ConfirmPrimeAll;
    assert_eq!(ask(&app), own(("Prime All", "Prime historical videos for all 1 channels?", "Y:Yes  n:No")));
    app.mode = Mode::ConfirmMarkAll;
    assert_eq!(ask(&app), own(("Mark All Read", "Mark all channels as read?", "y:Yes  n:No")));
    app.videos = vec![make_video("v1", "ch1"), make_video("v2", "ch1")];
    app.mode = Mode::ConfirmMarkAllVideos;
    assert_eq!(ask(&app), own(("Mark All Watched", "Mark all 2 videos as watched?", "y:Yes  n:No")));
    app.screen = Screen::Search;
    app.mode = Mode::ConfirmAddChannel;
    assert_eq!(ask(&app), own(("Subscribe", "Subscribe to \"?\"?", "Y:Yes  n:No")));
    app.search_results = vec![make_video("s1", "UC1")];
    assert_eq!(ask(&app).1, "Subscribe to \"TestChannel\"?");
    app.search_results[0].channel_name = None;
    assert_eq!(ask(&app).1, "Subscribe to \"?\"?");
    app.mode = Mode::List;
    assert_eq!(ask(&app), own(("Confirm", "", "")));
}

#[test]
fn the_description_is_wrapped_into_its_panel() {
    let mut app = test_app();
    let lines = description_panel(&app, 20);
    assert_eq!(lines.len(), 1);
    assert_eq!(shown(&lines[0]), ("", Shade::Plain, false));
    app.loading_description = true;
    assert_eq!(shown(&description_panel(&app, 20)[0]), ("Loading description...", Shade::Gray, false));
    app.loading_description = false;
    app.description = Some(VideoDescription {
        title: "The title".to_string(),
        description: "one two three four five\n\nsix\r\nseven ".to_string(),
        channel_name: "The channel".to_string(),
    });
    let lines = description_panel(&app, 10);
    let all: Vec<&str> = lines.iter().map(|p| p.text.as_str()).collect();
    assert_eq!(
        all,
        vec![
            "The title",
            "The channel",
            "",
            "one two",
            "three four",
            "five",
            "",
            "six",
            "seven",
            "",
            "Press (i) to close"
        ]
    );
    assert_eq!(shown(&lines[0]), ("The title", Shade::Cyan, true));
    assert_eq!(lines[1].shade, Shade::Yellow);
    assert_eq!(lines[3].shade, Shade::LightGray);
    assert_eq!(lines[6].shade, Shade::Plain);
    assert_eq!(lines[10].shade, Shade::Gray);

    app.description.as_mut().unwrap().description = "ab ".repeat(200);
    let lines = description_panel(&app, 1000);
    assert_eq!(lines.len(), 6);
    assert_eq!(lines[3].text, format!("{}ab...", "ab ".repeat(166)));
    app.description.as_mut().unwrap().description = "é".repeat(251);
    let lines = description_panel(&app, 0);
    assert_eq!(lines[3].text, format!("{}...", "é".repeat(250)));
    app.description.as_mut().unwrap().description = String::new();
    assert_eq!(description_panel(&app, 10).len(), 5);
}

#[test]
fn a_box_stands_in_the_middle() {
    assert_eq!(modal_bounds(100, 30, 60, 6), Bounds { x: 20, y: 10, width: 60, height: 6 });
    assert_eq!(modal_bounds(50, 30, 60, 6), Bounds { x: 2, y: 10, width: 46, height: 6 });
    assert_eq!(modal_bounds(3, 2, 56, 7), Bounds { x: 1, y: 0, width: 0, height: 7 });
    assert_eq!(description_bounds(120, 40), Bounds { x: 20, y: 7, width: 80, height: 26 });
    assert_eq!(description_bounds(60, 12), Bounds { x: 3, y: 1, width: 54, height: 10 });
    assert_eq!(description_bounds(4, 5), Bounds { x: 2, y: 0, width: 0, height: 10 });
    assert_eq!(
        description_bounds(u16::MAX, u16::MAX),
        Bounds { x: 32727, y: 10922, width: 80, height: 43690 }
    );
}
