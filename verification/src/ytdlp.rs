//! What is asked of the metadata provider and what is made of its answers.
//!
//! The provider is a program that is run with arguments and answers with
//! text.  Running it is not done here: the functions below build the
//! arguments and read the answers.

use crate::json::{json_document, json_reading, parse_json, read_json, Json};
use crate::pattern::{matches_pattern, pattern_matches};
use crate::store::{string_views, video_views};
use crate::text::{
    all_ascii, append_chars, append_decimal, append_str, byte_len, contains_sub, decimal,
    from_chars, has_prefix, i32_of, is_all_ascii, lines, lines_of, parse_i32, parse_u32, slice,
    str_contains, str_starts_with, str_trim, to_chars, trim, trimmed, truncate, truncated, u32_of,
};
use crate::time::{
    checked_instant, instant_in_range, midnight, midnight_instant, now, relative_date_at,
    relative_date_between,
};
use crate::video::{duration_text, format_duration, Video, VideoView};
use vstd::prelude::*;

verus! {

/// A channel as the provider describes it.
#[derive(Debug)]
pub struct ChannelInfo {
    pub id: String,
    pub name: String,
    pub url: String,
}

/// What a [`ChannelInfo`] holds, as plain values.
pub struct ChannelInfoView {
    pub id: Seq<char>,
    pub name: Seq<char>,
    pub url: Seq<char>,
}

impl View for ChannelInfo {
    type V = ChannelInfoView;

    open spec fn view(&self) -> ChannelInfoView {
        ChannelInfoView { id: self.id@, name: self.name@, url: self.url@ }
    }
}

impl Clone for ChannelInfo {
    fn clone(&self) -> (r: Self)
        ensures
            r == *self,
    {
        ChannelInfo { id: self.id.clone(), name: self.name.clone(), url: self.url.clone() }
    }
}

/// The description of a video.
pub struct VideoDescription {
    pub title: String,
    pub description: String,
    pub channel_name: String,
}

/// What a [`VideoDescription`] holds, as plain values.
pub struct VideoDescriptionView {
    pub title: Seq<char>,
    pub description: Seq<char>,
    pub channel_name: Seq<char>,
}

impl View for VideoDescription {
    type V = VideoDescriptionView;

    open spec fn view(&self) -> VideoDescriptionView {
        VideoDescriptionView {
            title: self.title@,
            description: self.description@,
            channel_name: self.channel_name@,
        }
    }
}

/// The pattern of an address at the video site.
pub open spec fn site_pattern() -> Seq<char> {
    r"^https?://(www\.)?(youtube\.com|youtu\.be)/"@
}

/// The pattern of the address of a channel by its handle.
pub open spec fn handle_pattern() -> Seq<char> {
    r"^https?://(www\.)?youtube\.com/@[\w.\-]+"@
}

/// The pattern of a video id: eleven letters, digits, `_` or `-`.
pub open spec fn video_id_pattern() -> Seq<char> {
    r"^[a-zA-Z0-9_\-]{11}$"@
}

/// Whether `url` is an address at the video site.
pub fn is_valid_youtube_url(url: &str) -> (r: bool)
    ensures
        r == (pattern_matches(site_pattern(), url@) || pattern_matches(handle_pattern(), url@)),
{
    matches_pattern(r"^https?://(www\.)?(youtube\.com|youtu\.be)/", url) || matches_pattern(
        r"^https?://(www\.)?youtube\.com/@[\w.\-]+",
        url,
    )
}

/// Whether `id` has the form of a video id.
pub fn is_valid_video_id(id: &str) -> (r: bool)
    ensures
        r == pattern_matches(video_id_pattern(), id@),
{
    matches_pattern(r"^[a-zA-Z0-9_\-]{11}$", id)
}

/// The most bytes that a search query may take.
pub const MAX_QUERY_BYTES: usize = 500;

/// A search query made fit: without white space around it, and cut to the
/// longest beginning that takes no more than 500 bytes in UTF-8.
pub open spec fn sanitized(query: Seq<char>) -> Seq<char> {
    truncated(trimmed(query), 500)
}

/// Makes a search query fit.
pub fn sanitize_search_query(query: &str) -> (r: String)
    ensures
        r@ == sanitized(query@),
        byte_len(trimmed(query@)) <= 500 ==> r@ == trimmed(query@),
{
    let chars = to_chars(query);
    let t = trim(&chars);
    let cut = truncate(&t, MAX_QUERY_BYTES);
    proof {
        if byte_len(t@) <= 500 {
            lemma_truncated_whole(t@, 500);
        }
    }
    from_chars(&cut)
}

/// A text that fits is not cut.
pub proof fn lemma_truncated_whole(s: Seq<char>, max: nat)
    requires
        byte_len(s) <= max,
    ensures
        truncated(s, max) == s,
{
    assert(s.take(s.len() as int) =~= s);
}

/// Whether `url` begins like a web address.
pub fn validate_url(url: &str) -> (r: bool)
    ensures
        r == (has_prefix(url@, "http://"@) || has_prefix(url@, "https://"@)),
{
    str_starts_with(url, "http://") || str_starts_with(url, "https://")
}

/// The strings to which the given literals are copied.
fn args_of(parts: &Vec<&str>) -> (r: Vec<String>)
    ensures
        r.len() == parts.len(),
        forall|i: int| 0 <= i < r.len() ==> (#[trigger] r@[i])@ == parts@[i]@,
{
    let mut out: Vec<String> = Vec::new();
    let mut i: usize = 0;
    while i < parts.len()
        invariant
            i <= parts.len(),
            out.len() == i,
            forall|k: int| 0 <= k < i ==> (#[trigger] out@[k])@ == parts@[k]@,
        decreases parts.len() - i,
    {
        out.push(parts[i].to_owned());
        i += 1;
    }
    out
}

/// The address as it is checked and sent: `url` without white space around it.
///
/// An address that does not begin like a web address, or that is no address
/// at the video site, is rejected.
pub fn check_channel_url(url: &str) -> (r: Result<String, String>)
    ensures
        match r {
            Ok(u) => u@ == trimmed(url@) && (has_prefix(u@, "http://"@) || has_prefix(
                u@,
                "https://"@,
            )) && (pattern_matches(site_pattern(), u@) || pattern_matches(handle_pattern(), u@)),
            Err(e) => if !(has_prefix(trimmed(url@), "http://"@) || has_prefix(
                trimmed(url@),
                "https://"@,
            )) {
                e@ == "Invalid URL format"@
            } else {
                !(pattern_matches(site_pattern(), trimmed(url@)) || pattern_matches(
                    handle_pattern(),
                    trimmed(url@),
                )) && e@ == "Not a valid YouTube URL"@
            },
        },
{
    let channel_url = str_trim(url);
    if !validate_url(channel_url.as_str()) {
        return Err("Invalid URL format".to_owned());
    }
    if !is_valid_youtube_url(channel_url.as_str()) {
        return Err("Not a valid YouTube URL".to_owned());
    }
    Ok(channel_url)
}

/// The arguments that ask for the description of the channel at `channel_url`.
pub fn channel_info_args(channel_url: &str) -> (r: Vec<String>)
    ensures
        r.len() == 5,
        r@[0]@ == "--dump-json"@,
        r@[1]@ == "--playlist-items"@,
        r@[2]@ == "1"@,
        r@[3]@ == "--no-warnings"@,
        r@[4]@ == channel_url@,
{
    let mut parts: Vec<&str> = Vec::new();
    parts.push("--dump-json");
    parts.push("--playlist-items");
    parts.push("1");
    parts.push("--no-warnings");
    parts.push(channel_url);
    args_of(&parts)
}

/// Whether an address is that of a video rather than of a channel.
pub open spec fn is_video_address(url: Seq<char>) -> bool {
    contains_sub(url, "/watch?"@) || contains_sub(url, "youtu.be/"@)
}

/// A prefix, and a text without the white space around it.
pub open spec fn complaint(prefix: Seq<char>, detail: Seq<char>) -> Seq<char> {
    prefix + trimmed(detail)
}

/// The message for a failed run: `prefix`, then what the program wrote to
/// its error stream, without the white space around it.
pub fn failure_message(prefix: &str, stderr: &str) -> (r: String)
    ensures
        r@ == complaint(prefix@, stderr@),
{
    let mut out: Vec<char> = Vec::new();
    append_str(&mut out, prefix);
    let detail = trim(&to_chars(stderr));
    append_chars(&mut out, &detail);
    from_chars(&out)
}

fn prefixed(prefix: &str, detail: &str) -> (r: String)
    ensures
        r@ == prefix@ + detail@,
{
    let mut out: Vec<char> = Vec::new();
    append_str(&mut out, prefix);
    append_str(&mut out, detail);
    from_chars(&out)
}

/// The name of the channel in a provider document: `channel`, or else `uploader`.
pub open spec fn channel_name_of(doc: Json) -> Option<Seq<char>> {
    match doc.text_member("channel"@) {
        Some(name) => Some(name),
        None => doc.text_member("uploader"@),
    }
}

fn channel_name_in(doc: &Json) -> (r: Option<&String>)
    ensures
        match r {
            Some(s) => channel_name_of(*doc) == Some(s@),
            None => channel_name_of(*doc) is None,
        },
{
    match doc.get_str("channel") {
        Some(name) => Some(name),
        None => doc.get_str("uploader"),
    }
}

/// The channel that the provider's answer describes.
///
/// `asked` is the address that was asked about.  The channel's address is
/// `channel_url` of the answer; where that is absent, it is made from the
/// channel id if `asked` is the address of a video, and is `asked` itself
/// otherwise.
pub open spec fn channel_info_of(answer: Seq<char>, asked: Seq<char>) -> Result<
    ChannelInfoView,
    Seq<char>,
> {
    match json_reading(answer) {
        Err(e) => Err("Failed to parse JSON: "@ + e),
        Ok(doc) => match doc.text_member("channel_id"@) {
            None => Err("No channel_id found"@),
            Some(id) => match channel_name_of(doc) {
                None => Err("No channel name found"@),
                Some(name) => Ok(
                    ChannelInfoView {
                        id,
                        name,
                        url: match doc.text_member("channel_url"@) {
                            Some(u) => u,
                            None => if is_video_address(asked) {
                                "https://www.youtube.com/channel/"@ + id
                            } else {
                                asked
                            },
                        },
                    },
                ),
            },
        },
    }
}

/// Reads the provider's answer to [`channel_info_args`].
pub fn parse_channel_info(answer: &str, asked: &str) -> (r: Result<ChannelInfo, String>)
    ensures
        match r {
            Ok(info) => channel_info_of(answer@, asked@) == Ok::<ChannelInfoView, Seq<char>>(info@),
            Err(e) => channel_info_of(answer@, asked@) == Err::<ChannelInfoView, Seq<char>>(e@),
        },
{
    let doc = match read_json(answer) {
        Ok(doc) => doc,
        Err(e) => {
            return Err(prefixed("Failed to parse JSON: ", e.as_str()));
        },
    };
    let id = match doc.get_str("channel_id") {
        Some(id) => id.clone(),
        None => {
            return Err("No channel_id found".to_owned());
        },
    };
    let name = match channel_name_in(&doc) {
        Some(name) => name.clone(),
        None => {
            return Err("No channel name found".to_owned());
        },
    };
    let url = match doc.get_str("channel_url") {
        Some(u) => u.clone(),
        None => {
            if str_contains(asked, "/watch?") || str_contains(asked, "youtu.be/") {
                prefixed("https://www.youtube.com/channel/", id.as_str())
            } else {
                asked.to_owned()
            }
        },
    };
    Ok(ChannelInfo { id, name, url })
}

/// The arguments that ask for the description of the video `video_id`;
/// an id that has not the form of one is rejected.
pub fn description_args(video_id: &str) -> (r: Result<Vec<String>, String>)
    ensures
        match r {
            Ok(args) => pattern_matches(video_id_pattern(), video_id@) && args.len() == 5 && args@[0]@
                == "--dump-json"@ && args@[1]@ == "--no-warnings"@ && args@[2]@
                == "--extractor-args"@ && args@[3]@ == "youtube:skip=dash,hls"@ && args@[4]@
                == "https://www.youtube.com/watch?v="@ + video_id@,
            Err(e) => !pattern_matches(video_id_pattern(), video_id@) && e@ == "Invalid video ID format"@,
        },
{
    if !is_valid_video_id(video_id) {
        return Err("Invalid video ID format".to_owned());
    }
    let url = prefixed("https://www.youtube.com/watch?v=", video_id);
    let mut parts: Vec<&str> = Vec::new();
    parts.push("--dump-json");
    parts.push("--no-warnings");
    parts.push("--extractor-args");
    parts.push("youtube:skip=dash,hls");
    parts.push(url.as_str());
    Ok(args_of(&parts))
}

/// The description that the provider's answer holds.
pub open spec fn description_of(answer: Seq<char>) -> Result<VideoDescriptionView, Seq<char>> {
    match json_reading(answer) {
        Err(e) => Err("Parse error: "@ + e),
        Ok(doc) => Ok(
            VideoDescriptionView {
                title: doc.text_or("title"@, ""@),
                description: doc.text_or("description"@, "No description available."@),
                channel_name: match channel_name_of(doc) {
                    Some(name) => name,
                    None => "Unknown"@,
                },
            },
        ),
    }
}

/// Reads the provider's answer to [`description_args`].
pub fn parse_video_description(answer: &str) -> (r: Result<VideoDescription, String>)
    ensures
        match r {
            Ok(d) => description_of(answer@) == Ok::<VideoDescriptionView, Seq<char>>(d@),
            Err(e) => description_of(answer@) == Err::<VideoDescriptionView, Seq<char>>(e@),
        },
{
    let doc = match read_json(answer) {
        Ok(doc) => doc,
        Err(e) => {
            return Err(prefixed("Parse error: ", e.as_str()));
        },
    };
    Ok(
        VideoDescription {
            title: doc.get_str_or("title", ""),
            description: doc.get_str_or("description", "No description available."),
            channel_name: match channel_name_in(&doc) {
                Some(name) => name.clone(),
                None => "Unknown".to_owned(),
            },
        },
    )
}

/// The arguments that ask for the stream addresses of a video.
pub fn stream_url_args(video_url: &str) -> (r: Vec<String>)
    ensures
        r.len() == 5,
        r@[0]@ == "-f"@,
        r@[1]@ == "bestvideo[height<=1080]+bestaudio/best[height<=1080]/best"@,
        r@[2]@ == "-g"@,
        r@[3]@ == "--no-warnings"@,
        r@[4]@ == video_url@,
{
    let mut parts: Vec<&str> = Vec::new();
    parts.push("-f");
    parts.push("bestvideo[height<=1080]+bestaudio/best[height<=1080]/best");
    parts.push("-g");
    parts.push("--no-warnings");
    parts.push(video_url);
    args_of(&parts)
}

/// The strings that hold the given lines.
fn strings_of(lines: &Vec<Vec<char>>) -> (r: Vec<String>)
    ensures
        string_views(r@) == lines@.map_values(|l: Vec<char>| l@),
{
    let mut out: Vec<String> = Vec::new();
    let mut i: usize = 0;
    while i < lines.len()
        invariant
            i <= lines.len(),
            string_views(out@) == lines@.map_values(|l: Vec<char>| l@).take(i as int),
        decreases lines.len() - i,
    {
        let ghost before = string_views(out@);
        out.push(from_chars(&lines[i]));
        assert(string_views(out@) =~= before.push(lines@[i as int]@));
        assert(string_views(out@) =~= lines@.map_values(|l: Vec<char>| l@).take(i + 1));
        i += 1;
    }
    assert(lines@.map_values(|l: Vec<char>| l@).take(lines.len() as int) =~= lines@.map_values(
        |l: Vec<char>| l@,
    ));
    out
}

/// Reads the provider's answer to [`stream_url_args`]: one address on each line.
pub fn parse_stream_urls(answer: &str) -> (r: Vec<String>)
    ensures
        string_views(r@) == lines_of(trimmed(answer@)),
{
    let t = trim(&to_chars(answer));
    strings_of(&lines(&t))
}

/// The number of search results that is asked for: `limit` brought into `1..=50`.
pub open spec fn search_limit(limit: int) -> int {
    if limit < 1 {
        1
    } else if limit > 50 {
        50
    } else {
        limit
    }
}

/// The arguments that ask for a search; a query that is empty once it is
/// made fit (see [`sanitized`]) is rejected.
pub fn search_args(query: &str, limit: usize) -> (r: Result<Vec<String>, String>)
    ensures
        match r {
            Ok(args) => sanitized(query@).len() > 0 && args.len() == 4 && args@[0]@ == "ytsearch"@
                + decimal(search_limit(limit as int) as nat) + ":"@ + sanitized(query@)
                && args@[1]@ == "--flat-playlist"@ && args@[2]@ == "--dump-json"@ && args@[3]@
                == "--no-warnings"@,
            Err(e) => sanitized(query@).len() == 0 && e@ == "Search query cannot be empty"@,
        },
{
    let fit = sanitize_search_query(query);
    if fit.as_str().unicode_len() == 0 {
        return Err("Search query cannot be empty".to_owned());
    }
    let safe_limit: usize = if limit < 1 {
        1
    } else if limit > 50 {
        50
    } else {
        limit
    };
    let mut first: Vec<char> = Vec::new();
    append_str(&mut first, "ytsearch");
    append_decimal(&mut first, safe_limit as u128);
    append_str(&mut first, ":");
    append_str(&mut first, fit.as_str());
    let first = from_chars(&first);
    let mut parts: Vec<&str> = Vec::new();
    parts.push(first.as_str());
    parts.push("--flat-playlist");
    parts.push("--dump-json");
    parts.push("--no-warnings");
    Ok(args_of(&parts))
}

/// The JSON documents among the given lines, in order; empty lines and
/// lines that are no JSON are passed over.
pub open spec fn documents(lines: Seq<Seq<char>>) -> Seq<Json>
    decreases lines.len(),
{
    if lines.len() == 0 {
        Seq::empty()
    } else {
        let rest = documents(lines.drop_last());
        if lines.last().len() == 0 {
            rest
        } else {
            match json_document(lines.last()) {
                Some(doc) => rest.push(doc),
                None => rest,
            }
        }
    }
}

/// The JSON documents among the lines of an answer.
pub fn read_documents(answer: &str) -> (r: Vec<Json>)
    ensures
        r@ == documents(lines_of(answer@)),
{
    let all = lines(&to_chars(answer));
    let ghost texts = all@.map_values(|l: Vec<char>| l@);
    let mut docs: Vec<Json> = Vec::new();
    let mut i: usize = 0;
    assert(texts.take(0) =~= Seq::empty());
    while i < all.len()
        invariant
            i <= all.len(),
            texts == all@.map_values(|l: Vec<char>| l@),
            docs@ == documents(texts.take(i as int)),
        decreases all.len() - i,
    {
        assert(texts.take(i + 1).drop_last() =~= texts.take(i as int));
        assert(texts.take(i + 1).last() == all@[i as int]@);
        if all[i].len() > 0 {
            let line = from_chars(&all[i]);
            match parse_json(line.as_str()) {
                Some(doc) => {
                    docs.push(doc);
                },
                None => {},
            }
        }
        i += 1;
    }
    assert(texts.take(all.len() as int) =~= texts);
    docs
}

/// The address of the video with the given id.
pub open spec fn watch_url(id: Seq<char>) -> Seq<char> {
    "https://www.youtube.com/watch?v="@ + id
}

/// The age of an optional instant, in words; empty for none.
pub open spec fn age_text(published: Option<i64>, now: i64) -> Seq<char> {
    match published {
        Some(d) => relative_date_at(d, now),
        None => Seq::empty(),
    }
}

fn age_of(published: Option<i64>, now: i64) -> (r: String)
    ensures
        r@ == age_text(published, now),
{
    match published {
        Some(d) => relative_date_between(d, now),
        None => String::new(),
    }
}

/// The instant of a search result: its `release_timestamp`, or else its
/// `timestamp`, where that is an instant the calendar can represent.
pub open spec fn result_instant(doc: Json) -> Option<i64> {
    let stamp = match doc.signed_member("release_timestamp"@) {
        Some(t) => Some(t),
        None => doc.signed_member("timestamp"@),
    };
    match stamp {
        Some(t) => if instant_in_range(t) {
            Some(t)
        } else {
            None
        },
        None => None,
    }
}

/// The duration as the document words it, or else as text of its seconds.
pub open spec fn duration_words(doc: Json) -> Seq<char> {
    match doc.text_member("duration_string"@) {
        Some(t) => t,
        None => duration_text(doc.signed_member("duration"@)),
    }
}

fn duration_words_of(doc: &Json) -> (r: String)
    ensures
        r@ == duration_words(*doc),
{
    match doc.get_str("duration_string") {
        Some(t) => t.clone(),
        None => format_duration(doc.get_i64("duration")),
    }
}

/// The video that one search result describes, as seen at the instant `now`.
pub open spec fn search_video(doc: Json, now: i64) -> VideoView {
    let id = doc.text_or("id"@, ""@);
    VideoView {
        id,
        title: doc.text_or("title"@, ""@),
        url: match doc.text_member("webpage_url"@) {
            Some(u) => u,
            None => match doc.text_member("url"@) {
                Some(u) => u,
                None => watch_url(id),
            },
        },
        is_short: false,
        channel_name: Some(
            match channel_name_of(doc) {
                Some(name) => name,
                None => "Unknown"@,
            },
        ),
        channel_id: doc.text_member("channel_id"@),
        published_date: result_instant(doc),
        stored_at: None,
        relative_date: age_text(result_instant(doc), now),
        duration: doc.signed_member("duration"@),
        duration_string: Some(duration_words(doc)),
        view_count: doc.unsigned_member("view_count"@),
    }
}

fn search_video_of(doc: &Json, now: i64) -> (r: Video)
    ensures
        r@ == search_video(*doc, now),
{
    let id = doc.get_str_or("id", "");
    let stamp = match doc.get_i64("release_timestamp") {
        Some(t) => Some(t),
        None => doc.get_i64("timestamp"),
    };
    let published = match stamp {
        Some(t) => checked_instant(t),
        None => None,
    };
    let url = match doc.get_str("webpage_url") {
        Some(u) => u.clone(),
        None => match doc.get_str("url") {
            Some(u) => u.clone(),
            None => prefixed("https://www.youtube.com/watch?v=", id.as_str()),
        },
    };
    Video {
        id,
        title: doc.get_str_or("title", ""),
        url,
        is_short: false,
        channel_name: Some(
            match channel_name_in(doc) {
                Some(name) => name.clone(),
                None => "Unknown".to_owned(),
            },
        ),
        channel_id: match doc.get_str("channel_id") {
            Some(c) => Some(c.clone()),
            None => None,
        },
        published_date: published,
        stored_at: None,
        relative_date: age_of(published, now),
        duration: doc.get_i64("duration"),
        duration_string: Some(duration_words_of(doc)),
        view_count: doc.get_u64("view_count"),
    }
}

/// The videos that the answer to a search describes, as seen at the instant `now`.
pub open spec fn search_videos(answer: Seq<char>, now: i64) -> Seq<VideoView> {
    documents(lines_of(answer)).map_values(|doc: Json| search_video(doc, now))
}

/// Reads the provider's answer to [`search_args`], as seen at the instant `now`.
pub fn parse_search_results_at(answer: &str, now: i64) -> (r: Vec<Video>)
    ensures
        video_views(r@) == search_videos(answer@, now),
{
    let docs = read_documents(answer);
    let mut out: Vec<Video> = Vec::new();
    let mut i: usize = 0;
    while i < docs.len()
        invariant
            i <= docs.len(),
            video_views(out@) == docs@.take(i as int).map_values(|doc: Json| search_video(doc, now)),
        decreases docs.len() - i,
    {
        let ghost before = video_views(out@);
        out.push(search_video_of(&docs[i], now));
        assert(video_views(out@) =~= before.push(search_video(docs@[i as int], now)));
        assert(video_views(out@) =~= docs@.take(i + 1).map_values(
            |doc: Json| search_video(doc, now),
        ));
        i += 1;
    }
    assert(docs@.take(docs.len() as int) =~= docs@);
    out
}

/// Reads the provider's answer to [`search_args`], as seen now.
pub fn parse_search_results(answer: &str) -> (r: Vec<Video>)
    ensures
        exists|now: i64| video_views(r@) == #[trigger] search_videos(answer@, now),
{
    let now = now();
    parse_search_results_at(answer, now)
}

/// The instant that a date of eight digits, `yyyymmdd`, denotes: midnight
/// UTC at the start of that day.  `None` for a text that is not eight ASCII
/// characters, whose parts are no numbers, or whose day does not exist.
pub open spec fn compact_date(s: Seq<char>) -> Option<i64> {
    if s.len() == 8 && all_ascii(s) {
        match (i32_of(s.subrange(0, 4)), u32_of(s.subrange(4, 6)), u32_of(s.subrange(6, 8))) {
            (Some(y), Some(m), Some(d)) => midnight_instant(y, m, d),
            _ => None,
        }
    } else {
        None
    }
}

/// Reads a date of eight digits, `yyyymmdd`.
pub fn parse_date_yyyymmdd(s: &str) -> (r: Option<i64>)
    ensures
        r == compact_date(s@),
{
    let chars = to_chars(s);
    if chars.len() != 8 || !is_all_ascii(&chars) {
        return None;
    }
    let year = match parse_i32(from_chars(&slice(&chars, 0, 4)).as_str()) {
        Some(y) => y,
        None => {
            return None;
        },
    };
    let month = match parse_u32(from_chars(&slice(&chars, 4, 6)).as_str()) {
        Some(m) => m,
        None => {
            return None;
        },
    };
    let day = match parse_u32(from_chars(&slice(&chars, 6, 8)).as_str()) {
        Some(d) => d,
        None => {
            return None;
        },
    };
    midnight(year, month, day)
}

/// The day on which a video was uploaded, as an instant.
pub open spec fn upload_instant(doc: Json) -> Option<i64> {
    match doc.text_member("upload_date"@) {
        Some(text) => compact_date(text),
        None => None,
    }
}

/// Whether a fetched video is short-form: it lasts a minute at most, or its
/// address holds `/shorts/`.
pub open spec fn is_short_form(doc: Json) -> bool {
    (doc.signed_member("duration"@) matches Some(d) && d <= 60) || (doc.text_member(
        "webpage_url"@,
    ) matches Some(u) && contains_sub(u, "/shorts/"@))
}

/// The video that one document of a batch describes, for the channel it was
/// fetched for, as seen at the instant `now`.
pub open spec fn batch_video(doc: Json, channel_id: Seq<char>, channel_name: Seq<char>, now: i64) -> VideoView {
    let id = doc.text_or("id"@, ""@);
    VideoView {
        id,
        title: doc.text_or("title"@, ""@),
        url: match doc.text_member("webpage_url"@) {
            Some(u) => u,
            None => watch_url(id),
        },
        is_short: is_short_form(doc),
        channel_name: Some(channel_name),
        channel_id: Some(channel_id),
        published_date: upload_instant(doc),
        stored_at: None,
        relative_date: age_text(upload_instant(doc), now),
        duration: doc.signed_member("duration"@),
        duration_string: Some(duration_words(doc)),
        view_count: doc.unsigned_member("view_count"@),
    }
}

fn batch_video_of(doc: &Json, channel_id: &str, channel_name: &str, now: i64) -> (r: Video)
    ensures
        r@ == batch_video(*doc, channel_id@, channel_name@, now),
{
    let id = doc.get_str_or("id", "");
    let published = match doc.get_str("upload_date") {
        Some(text) => parse_date_yyyymmdd(text.as_str()),
        None => None,
    };
    let duration = doc.get_i64("duration");
    let brief = match duration {
        Some(d) => d <= 60,
        None => false,
    };
    let by_address = match doc.get_str("webpage_url") {
        Some(u) => str_contains(u.as_str(), "/shorts/"),
        None => false,
    };
    let url = match doc.get_str("webpage_url") {
        Some(u) => u.clone(),
        None => prefixed("https://www.youtube.com/watch?v=", id.as_str()),
    };
    Video {
        id,
        title: doc.get_str_or("title", ""),
        url,
        is_short: brief || by_address,
        channel_name: Some(channel_name.to_owned()),
        channel_id: Some(channel_id.to_owned()),
        published_date: published,
        stored_at: None,
        relative_date: age_of(published, now),
        duration,
        duration_string: Some(duration_words_of(doc)),
        view_count: doc.get_u64("view_count"),
    }
}

/// The videos that the answer to a batch describes, as seen at the instant `now`.
pub open spec fn batch_videos(
    answer: Seq<char>,
    channel_id: Seq<char>,
    channel_name: Seq<char>,
    now: i64,
) -> Seq<VideoView> {
    documents(lines_of(answer)).map_values(
        |doc: Json| batch_video(doc, channel_id, channel_name, now),
    )
}

/// Reads the provider's answer to [`batch_args`], as seen at the instant `now`.
pub fn parse_video_batch_at(answer: &str, channel_id: &str, channel_name: &str, now: i64) -> (r: Vec<
    Video,
>)
    ensures
        video_views(r@) == batch_videos(answer@, channel_id@, channel_name@, now),
{
    let docs = read_documents(answer);
    let mut out: Vec<Video> = Vec::new();
    let mut i: usize = 0;
    while i < docs.len()
        invariant
            i <= docs.len(),
            video_views(out@) == docs@.take(i as int).map_values(
                |doc: Json| batch_video(doc, channel_id@, channel_name@, now),
            ),
        decreases docs.len() - i,
    {
        let ghost before = video_views(out@);
        out.push(batch_video_of(&docs[i], channel_id, channel_name, now));
        assert(video_views(out@) =~= before.push(
            batch_video(docs@[i as int], channel_id@, channel_name@, now),
        ));
        assert(video_views(out@) =~= docs@.take(i + 1).map_values(
            |doc: Json| batch_video(doc, channel_id@, channel_name@, now),
        ));
        i += 1;
    }
    assert(docs@.take(docs.len() as int) =~= docs@);
    out
}

/// Reads the provider's answer to [`batch_args`], as seen now.
pub fn parse_video_batch(answer: &str, channel_id: &str, channel_name: &str) -> (r: Vec<Video>)
    ensures
        exists|now: i64|
            video_views(r@) == #[trigger] batch_videos(answer@, channel_id@, channel_name@, now),
{
    let now = now();
    parse_video_batch_at(answer, channel_id, channel_name, now)
}

/// The address of the feed of a channel.
pub fn feed_url(channel_id: &str) -> (r: String)
    ensures
        r@ == "https://www.youtube.com/feeds/videos.xml?channel_id="@ + channel_id@,
{
    prefixed("https://www.youtube.com/feeds/videos.xml?channel_id=", channel_id)
}

} // verus!
