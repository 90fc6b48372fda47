use feeding_tube::ytdlp::{
    channel_info_args, check_channel_url, description_args, failure_message, feed_url,
    is_valid_video_id, is_valid_youtube_url, parse_channel_info, parse_date_yyyymmdd,
    parse_search_results, parse_search_results_at, parse_stream_urls, parse_video_batch,
    parse_video_batch_at, parse_video_description, read_documents, sanitize_search_query,
    search_args, stream_url_args, validate_url,
};

// is_valid_youtube_url

#[test]
fn test_valid_youtube_channel_url() {
    assert!(is_valid_youtube_url("https://www.youtube.com/@channel"));
    assert!(is_valid_youtube_url("https://youtube.com/@channel"));
    assert!(is_valid_youtube_url("http://www.youtube.com/@channel"));
}

#[test]
fn test_valid_youtube_video_url() {
    assert!(is_valid_youtube_url("https://www.youtube.com/watch?v=dQw4w9WgXcQ"));
    assert!(is_valid_youtube_url("https://youtu.be/dQw4w9WgXcQ"));
}

#[test]
fn test_valid_youtube_channel_path() {
    assert!(is_valid_youtube_url("https://www.youtube.com/channel/UC1234"));
}

#[test]
fn test_invalid_youtube_url() {
    assert!(!is_valid_youtube_url("https://example.com"));
    assert!(!is_valid_youtube_url("not-a-url"));
    assert!(!is_valid_youtube_url(""));
    assert!(!is_valid_youtube_url("ftp://youtube.com/@channel"));
}

// is_valid_video_id

#[test]
fn test_valid_video_id() {
    assert!(is_valid_video_id("dQw4w9WgXcQ"));
    assert!(is_valid_video_id("abcdefghijk"));
    assert!(is_valid_video_id("_-_________"));
}

#[test]
fn test_invalid_video_id() {
    assert!(!is_valid_video_id(""));
    assert!(!is_valid_video_id("short"));
    assert!(!is_valid_video_id("way_too_long_id_here"));
    assert!(!is_valid_video_id("has spaces!"));
}

// sanitize_search_query

#[test]
fn test_sanitize_search_query_normal() {
    assert_eq!(sanitize_search_query("hello world"), "hello world");
}

#[test]
fn test_sanitize_search_query_trims() {
    assert_eq!(sanitize_search_query("  hello  "), "hello");
}

#[test]
fn test_sanitize_search_query_truncates() {
    let long = "a".repeat(600);
    let result = sanitize_search_query(&long);
    assert_eq!(result.len(), 500);
}

#[test]
fn test_sanitize_search_query_empty() {
    assert_eq!(sanitize_search_query(""), "");
}

#[test]
fn sanitize_search_query_cuts_between_characters() {
    assert_eq!(sanitize_search_query(" \t\n "), "");
    assert_eq!(sanitize_search_query("\u{3000}a b\u{a0}"), "a b");
    let exact = "b".repeat(500);
    assert_eq!(sanitize_search_query(&exact), exact);
    // 167 characters of three bytes each are 501 bytes: one has to go.
    let wide = "日".repeat(167);
    assert_eq!(sanitize_search_query(&wide), "日".repeat(166));
    let mixed = format!("{}é", "a".repeat(499));
    assert_eq!(sanitize_search_query(&mixed), "a".repeat(499));
}

#[test]
fn validate_url_goes_by_the_scheme() {
    assert!(validate_url("http://x"));
    assert!(validate_url("https://"));
    assert!(!validate_url("ftp://x"));
    assert!(!validate_url(" https://x"));
    assert!(!validate_url(""));
}

#[test]
fn check_channel_url_trims_and_names_what_is_wrong() {
    assert_eq!(
        check_channel_url("  https://www.youtube.com/@channel \n"),
        Ok("https://www.youtube.com/@channel".to_string())
    );
    assert_eq!(check_channel_url("youtube.com/@channel"), Err("Invalid URL format".to_string()));
    assert_eq!(check_channel_url(""), Err("Invalid URL format".to_string()));
    assert_eq!(
        check_channel_url("https://example.com/@channel"),
        Err("Not a valid YouTube URL".to_string())
    );
}

#[test]
fn the_arguments_are_as_the_provider_wants_them() {
    assert_eq!(
        channel_info_args("https://youtu.be/x"),
        vec!["--dump-json", "--playlist-items", "1", "--no-warnings", "https://youtu.be/x"]
    );
    assert_eq!(
        description_args("dQw4w9WgXcQ"),
        Ok(vec![
            "--dump-json".to_string(),
            "--no-warnings".to_string(),
            "--extractor-args".to_string(),
            "youtube:skip=dash,hls".to_string(),
            "https://www.youtube.com/watch?v=dQw4w9WgXcQ".to_string(),
        ])
    );
    assert_eq!(description_args("nope"), Err("Invalid video ID format".to_string()));
    assert_eq!(
        stream_url_args("https://youtu.be/x"),
        vec![
            "-f",
            "bestvideo[height<=1080]+bestaudio/best[height<=1080]/best",
            "-g",
            "--no-warnings",
            "https://youtu.be/x"
        ]
    );
    assert_eq!(
        search_args("  rust verification ", 10),
        Ok(vec![
            "ytsearch10:rust verification".to_string(),
            "--flat-playlist".to_string(),
            "--dump-json".to_string(),
            "--no-warnings".to_string(),
        ])
    );
    assert_eq!(search_args("x", 0).unwrap()[0], "ytsearch1:x");
    assert_eq!(search_args("x", 51).unwrap()[0], "ytsearch50:x");
    assert_eq!(search_args("   ", 10), Err("Search query cannot be empty".to_string()));
    assert_eq!(
        feed_url("UC123"),
        "https://www.youtube.com/feeds/videos.xml?channel_id=UC123"
    );
}

#[test]
fn failure_message_trims_what_the_provider_wrote() {
    assert_eq!(failure_message("yt-dlp failed: ", "  ERROR: gone\n"), "yt-dlp failed: ERROR: gone");
    assert_eq!(failure_message("Failed: ", ""), "Failed: ");
}

// channel info

#[test]
fn channel_info_is_read_from_the_answer() {
    let answer = r#"{"channel_id":"UC1","channel":"Name","channel_url":"https://www.youtube.com/channel/UC1","uploader":"Other"}"#;
    let info = parse_channel_info(answer, "https://www.youtube.com/@name").unwrap();
    assert_eq!(info.id, "UC1");
    assert_eq!(info.name, "Name");
    assert_eq!(info.url, "https://www.youtube.com/channel/UC1");
}

#[test]
fn channel_info_falls_back_on_uploader_and_on_the_address_asked() {
    let answer = r#"{"channel_id":"UC1","uploader":"Up"}"#;
    let info = parse_channel_info(answer, "https://www.youtube.com/@name").unwrap();
    assert_eq!(info.name, "Up");
    assert_eq!(info.url, "https://www.youtube.com/@name");
    let info = parse_channel_info(answer, "https://www.youtube.com/watch?v=abc").unwrap();
    assert_eq!(info.url, "https://www.youtube.com/channel/UC1");
    let info = parse_channel_info(answer, "https://youtu.be/abc").unwrap();
    assert_eq!(info.url, "https://www.youtube.com/channel/UC1");
}

#[test]
fn channel_info_names_what_is_missing() {
    let err = parse_channel_info("{", "u").unwrap_err();
    assert!(err.starts_with("Failed to parse JSON: "), "{}", err);
    assert!(err.len() > "Failed to parse JSON: ".len());
    assert_eq!(parse_channel_info(r#"{"channel":"N"}"#, "u").unwrap_err(), "No channel_id found");
    assert_eq!(parse_channel_info(r#"{"channel_id":7,"channel":"N"}"#, "u").unwrap_err(), "No channel_id found");
    assert_eq!(parse_channel_info(r#"{"channel_id":"UC1"}"#, "u").unwrap_err(), "No channel name found");
    assert_eq!(parse_channel_info(r#"["channel_id"]"#, "u").unwrap_err(), "No channel_id found");
}

// description

#[test]
fn a_description_is_read_with_its_defaults() {
    let d = parse_video_description(r#"{"title":"T","description":"D","channel":"C"}"#).unwrap();
    assert_eq!((d.title.as_str(), d.description.as_str(), d.channel_name.as_str()), ("T", "D", "C"));
    let d = parse_video_description(r#"{"uploader":"U"}"#).unwrap();
    assert_eq!(d.title, "");
    assert_eq!(d.description, "No description available.");
    assert_eq!(d.channel_name, "U");
    let d = parse_video_description("null").unwrap();
    assert_eq!(d.channel_name, "Unknown");
    let err = parse_video_description("not json").err().unwrap();
    assert!(err.starts_with("Parse error: "), "{}", err);
}

#[test]
fn stream_addresses_are_the_lines_of_the_answer() {
    assert_eq!(parse_stream_urls("\nhttps://a\r\nhttps://b\n\n"), vec!["https://a", "https://b"]);
    assert_eq!(parse_stream_urls("https://a\n\nhttps://b"), vec!["https://a", "", "https://b"]);
    assert!(parse_stream_urls("  \n ").is_empty());
}

// documents

#[test]
fn lines_that_are_no_json_are_passed_over() {
    let docs = read_documents("{\"id\":\"a\"}\n\nnot json\r\n[1,2]\n\"x\"");
    assert_eq!(docs.len(), 3);
    assert_eq!(docs[0].get_str("id").map(|s| s.as_str()), Some("a"));
    assert!(docs[1].as_array().is_some());
    assert_eq!(docs[2].as_str().map(|s| s.as_str()), Some("x"));
    assert!(read_documents("").is_empty());
}

// search results

#[test]
fn search_results_are_read_line_by_line() {
    let answer = [
        r#"{"id":"a","title":"A","webpage_url":"https://w/a","url":"https://u/a","channel":"C","channel_id":"UC1","release_timestamp":1000,"timestamp":5,"duration":75,"duration_string":"1:15","view_count":12}"#,
        r#"{"id":"b","uploader":"U","timestamp":2000,"duration":3661.5}"#,
        "",
        "garbage",
        r#"{"url":"https://u/c"}"#,
    ]
    .join("\n");
    let answer = answer.as_str();
    let videos = parse_search_results_at(answer, 2000 + 3600);
    assert_eq!(videos.len(), 3);
    let a = &videos[0];
    assert_eq!(a.id, "a");
    assert_eq!(a.title, "A");
    assert_eq!(a.url, "https://w/a");
    assert_eq!(a.channel_name.as_deref(), Some("C"));
    assert_eq!(a.channel_id.as_deref(), Some("UC1"));
    assert_eq!(a.published_date, Some(1000));
    assert_eq!(a.relative_date, "1h ago");
    assert_eq!(a.duration, Some(75));
    assert_eq!(a.duration_string.as_deref(), Some("1:15"));
    assert_eq!(a.view_count, Some(12));
    assert!(!a.is_short);
    let b = &videos[1];
    assert_eq!(b.url, "https://www.youtube.com/watch?v=b");
    assert_eq!(b.channel_name.as_deref(), Some("U"));
    assert_eq!(b.channel_id, None);
    assert_eq!(b.published_date, Some(2000));
    assert_eq!(b.duration, None);
    assert_eq!(b.duration_string.as_deref(), Some("--:--"));
    let c = &videos[2];
    assert_eq!(c.id, "");
    assert_eq!(c.url, "https://u/c");
    assert_eq!(c.channel_name.as_deref(), Some("Unknown"));
    assert_eq!(c.published_date, None);
    assert_eq!(c.relative_date, "");
    assert_eq!(parse_search_results(answer).len(), 3);
}

#[test]
fn an_instant_beyond_the_calendar_is_no_date() {
    let answer = r#"{"id":"a","timestamp":9223372036854775807}"#;
    assert_eq!(parse_search_results_at(answer, 0)[0].published_date, None);
    let answer = r#"{"id":"a","timestamp":-1}"#;
    assert_eq!(parse_search_results_at(answer, 0)[0].published_date, Some(-1));
    assert_eq!(parse_search_results_at(answer, 0)[0].relative_date, "1m ago");
}

// batches

#[test]
fn a_batch_is_read_for_its_channel() {
    let answer = [
        r#"{"id":"a","title":"A","webpage_url":"https://www.youtube.com/watch?v=a","upload_date":"20240115","duration":600,"view_count":18446744073709551615}"#,
        r#"{"id":"b","title":"B","duration":60,"channel":"ignored","channel_id":"ignored"}"#,
        r#"{"id":"c","webpage_url":"https://www.youtube.com/shorts/c","duration":61,"upload_date":"20241301"}"#,
        "",
    ]
    .join("\n");
    let answer = answer.as_str();
    let videos = parse_video_batch_at(answer, "UC1", "Name", 1705276800 + 86400 * 3);
    assert_eq!(videos.len(), 3);
    let a = &videos[0];
    assert_eq!(a.published_date, Some(1705276800));
    assert_eq!(a.relative_date, "3d ago");
    assert!(!a.is_short);
    assert_eq!(a.duration_string.as_deref(), Some("10:00"));
    assert_eq!(a.view_count, Some(u64::MAX));
    assert_eq!(a.channel_id.as_deref(), Some("UC1"));
    assert_eq!(a.channel_name.as_deref(), Some("Name"));
    let b = &videos[1];
    assert!(b.is_short);
    assert_eq!(b.url, "https://www.youtube.com/watch?v=b");
    assert_eq!(b.channel_id.as_deref(), Some("UC1"));
    assert_eq!(b.published_date, None);
    let c = &videos[2];
    assert!(c.is_short);
    assert_eq!(c.title, "");
    assert_eq!(c.published_date, None);
    assert_eq!(parse_video_batch(answer, "UC1", "Name").len(), 3);
    assert!(parse_video_batch("", "UC1", "Name").is_empty());
}

// parse_date_yyyymmdd

fn day_of(instant: i64) -> String {
    chrono::DateTime::from_timestamp(instant, 0).unwrap().format("%Y-%m-%d").to_string()
}

#[test]
fn test_parse_date_valid() {
    let date = parse_date_yyyymmdd("20240115");
    assert!(date.is_some());
    let d = date.unwrap();
    assert_eq!(day_of(d), "2024-01-15");
    assert_eq!(d, 1705276800);
}

#[test]
fn test_parse_date_invalid_length() {
    assert!(parse_date_yyyymmdd("2024").is_none());
    assert!(parse_date_yyyymmdd("").is_none());
    assert!(parse_date_yyyymmdd("202401151").is_none());
}

#[test]
fn test_parse_date_invalid_date() {
    assert!(parse_date_yyyymmdd("20241301").is_none()); // month 13
    assert!(parse_date_yyyymmdd("20240132").is_none()); // day 32
}

#[test]
fn test_parse_date_not_numbers() {
    assert!(parse_date_yyyymmdd("abcdefgh").is_none());
}

#[test]
fn a_compact_date_is_eight_ascii_characters_in_three_numbers() {
    assert_eq!(parse_date_yyyymmdd("19700101"), Some(0));
    assert_eq!(parse_date_yyyymmdd("20240229").map(day_of), Some("2024-02-29".to_string()));
    assert!(parse_date_yyyymmdd("20230229").is_none());
    assert!(parse_date_yyyymmdd("２０２４０１１５").is_none());
    assert!(parse_date_yyyymmdd("2024011é").is_none());
    assert!(parse_date_yyyymmdd("2024 115").is_none());
    // Each part is read as a number of its own, sign and all.
    assert_eq!(parse_date_yyyymmdd("+0240115").map(day_of), Some("0024-01-15".to_string()));
    assert_eq!(parse_date_yyyymmdd("2024+1+5").map(day_of), Some("2024-01-05".to_string()));
    assert!(parse_date_yyyymmdd("2024-1-5").is_none());
}
