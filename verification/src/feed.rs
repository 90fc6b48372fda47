//! Reading a channel's feed document.
//!
//! The feed is read by searching for its delimiters; nothing else of XML is
//! understood.  An entry without an id or a title is left out.

use crate::store::video_views;
use crate::text::{
    append_chars, append_str, contains, contains_sub, find, find_from, from_chars, replace,
    replaced, slice, to_chars,
};
use crate::time::{now, parse_rfc3339, relative_date_at, relative_date_between, rfc3339_instant};
use crate::video::{Video, VideoView};
use vstd::prelude::*;

verus! {

/// A text with the five XML entities for `&`, `<`, `>`, `"` and `'` (the
/// last as `&#39;` and as `&apos;`) written out, in this order.
pub open spec fn decoded(s: Seq<char>) -> Seq<char> {
    replaced(
        replaced(
            replaced(
                replaced(replaced(replaced(s, "&amp;"@, "&"@), "&lt;"@, "<"@), "&gt;"@, ">"@),
                "&quot;"@,
                "\""@,
            ),
            "&#39;"@,
            "'"@,
        ),
        "&apos;"@,
        "'"@,
    )
}

fn replace_entity(s: Vec<char>, entity: &str, with: &str) -> (r: Vec<char>)
    ensures
        r@ == replaced(s@, entity@, with@),
{
    let from = to_chars(entity);
    let to = to_chars(with);
    replace(&s, &from, &to)
}

/// Writes out the XML entities of a text.
pub fn decode_xml_entities(s: &str) -> (r: String)
    ensures
        r@ == decoded(s@),
{
    let t = to_chars(s);
    let t = replace_entity(t, "&amp;", "&");
    let t = replace_entity(t, "&lt;", "<");
    let t = replace_entity(t, "&gt;", ">");
    let t = replace_entity(t, "&quot;", "\"");
    let t = replace_entity(t, "&#39;", "'");
    let t = replace_entity(t, "&apos;", "'");
    from_chars(&t)
}

/// What stands between the first `<tag>` and the first `</tag>` after it.
pub open spec fn tag_content(xml: Seq<char>, tag: Seq<char>) -> Option<Seq<char>> {
    let open = "<"@ + tag + ">"@;
    let close = "</"@ + tag + ">"@;
    match find_from(xml, open, 0) {
        None => None,
        Some(i) => match find_from(xml, close, i + open.len()) {
            None => None,
            Some(e) => Some(xml.subrange(i + open.len(), e)),
        },
    }
}

/// The value of the attribute `attr` in the first element `<tag ... />`:
/// what stands between `attr="` and the next `"` before the `/>`.
pub open spec fn attr_value(xml: Seq<char>, tag: Seq<char>, attr: Seq<char>) -> Option<Seq<char>> {
    let open = "<"@ + tag;
    let mark = attr + "=\""@;
    match find_from(xml, open, 0) {
        None => None,
        Some(start) => match find_from(xml, "/>"@, start) {
            None => None,
            Some(end) => {
                let element = xml.subrange(start, end);
                match find_from(element, mark, 0) {
                    None => None,
                    Some(a) => match find_from(element, "\""@, a + mark.len()) {
                        None => None,
                        Some(e) => Some(element.subrange(a + mark.len(), e)),
                    },
                }
            },
        },
    }
}

fn tag_chars(xml: &Vec<char>, tag: &str) -> (r: Option<Vec<char>>)
    ensures
        match r {
            Some(c) => tag_content(xml@, tag@) == Some(c@),
            None => tag_content(xml@, tag@) is None,
        },
{
    let mut open: Vec<char> = Vec::new();
    append_str(&mut open, "<");
    append_str(&mut open, tag);
    append_str(&mut open, ">");
    let mut close: Vec<char> = Vec::new();
    append_str(&mut close, "</");
    append_str(&mut close, tag);
    append_str(&mut close, ">");
    match find(xml, &open, 0) {
        None => None,
        Some(i) => {
            let start = i + open.len();
            match find(xml, &close, start) {
                None => None,
                Some(e) => Some(slice(xml, start, e)),
            }
        },
    }
}

fn attr_chars(xml: &Vec<char>, tag: &str, attr: &str) -> (r: Option<Vec<char>>)
    ensures
        match r {
            Some(c) => attr_value(xml@, tag@, attr@) == Some(c@),
            None => attr_value(xml@, tag@, attr@) is None,
        },
{
    let mut open: Vec<char> = Vec::new();
    append_str(&mut open, "<");
    append_str(&mut open, tag);
    let mut mark: Vec<char> = Vec::new();
    append_str(&mut mark, attr);
    append_str(&mut mark, "=\"");
    let slash = to_chars("/>");
    let quote = to_chars("\"");
    match find(xml, &open, 0) {
        None => None,
        Some(start) => match find(xml, &slash, start) {
            None => None,
            Some(end) => {
                let element = slice(xml, start, end);
                match find(&element, &mark, 0) {
                    None => None,
                    Some(a) => {
                        let from = a + mark.len();
                        match find(&element, &quote, from) {
                            None => None,
                            Some(e) => Some(slice(&element, from, e)),
                        }
                    },
                }
            },
        },
    }
}

/// What stands between the first `<tag>` and the first `</tag>` after it.
pub fn extract_xml_tag(xml: &str, tag: &str) -> (r: Option<String>)
    ensures
        match r {
            Some(s) => tag_content(xml@, tag@) == Some(s@),
            None => tag_content(xml@, tag@) is None,
        },
{
    let chars = to_chars(xml);
    match tag_chars(&chars, tag) {
        Some(c) => Some(from_chars(&c)),
        None => None,
    }
}

/// The value of the attribute `attr` in the first element `<tag ... />`.
pub fn extract_xml_attr(xml: &str, tag: &str, attr: &str) -> (r: Option<String>)
    ensures
        match r {
            Some(s) => attr_value(xml@, tag@, attr@) == Some(s@),
            None => attr_value(xml@, tag@, attr@) is None,
        },
{
    let chars = to_chars(xml);
    match attr_chars(&chars, tag, attr) {
        Some(c) => Some(from_chars(&c)),
        None => None,
    }
}

/// The video that a feed entry describes, as seen at the instant `now`;
/// `None` for an entry without an id or without a title.
pub open spec fn entry_video(
    entry: Seq<char>,
    channel_id: Seq<char>,
    channel_name: Seq<char>,
    now: i64,
) -> Option<VideoView> {
    match (tag_content(entry, "yt:videoId"@), tag_content(entry, "title"@)) {
        (Some(id), Some(title)) => {
            let published = match tag_content(entry, "published"@) {
                Some(text) => rfc3339_instant(text),
                None => None,
            };
            let url = match attr_value(entry, "link"@, "href"@) {
                Some(link) => link,
                None => "https://www.youtube.com/watch?v="@ + id,
            };
            Some(
                VideoView {
                    id,
                    title: decoded(title),
                    url,
                    is_short: contains_sub(url, "/shorts/"@),
                    channel_name: Some(channel_name),
                    channel_id: Some(channel_id),
                    published_date: published,
                    stored_at: None,
                    relative_date: match published {
                        Some(d) => relative_date_at(d, now),
                        None => Seq::empty(),
                    },
                    duration: None,
                    duration_string: Some("--:--"@),
                    view_count: None,
                },
            )
        },
        _ => None,
    }
}

fn entry_from_chars(entry: &Vec<char>, channel_id: &str, channel_name: &str, now: i64) -> (r: Option<
    Video,
>)
    ensures
        match r {
            Some(v) => entry_video(entry@, channel_id@, channel_name@, now) == Some(v@),
            None => entry_video(entry@, channel_id@, channel_name@, now) is None,
        },
{
    let id = match tag_chars(entry, "yt:videoId") {
        Some(c) => c,
        None => {
            return None;
        },
    };
    let title = match tag_chars(entry, "title") {
        Some(c) => c,
        None => {
            return None;
        },
    };
    let published: Option<i64> = match tag_chars(entry, "published") {
        Some(text) => parse_rfc3339(from_chars(&text).as_str()),
        None => None,
    };
    let url: Vec<char> = match attr_chars(entry, "link", "href") {
        Some(link) => link,
        None => {
            let mut u: Vec<char> = Vec::new();
            append_str(&mut u, "https://www.youtube.com/watch?v=");
            append_chars(&mut u, &id);
            u
        },
    };
    let shorts = to_chars("/shorts/");
    let is_short = contains(&url, &shorts);
    let title_text = from_chars(&title);
    Some(
        Video {
            id: from_chars(&id),
            title: decode_xml_entities(title_text.as_str()),
            url: from_chars(&url),
            is_short,
            channel_name: Some(channel_name.to_owned()),
            channel_id: Some(channel_id.to_owned()),
            published_date: published,
            stored_at: None,
            relative_date: match published {
                Some(d) => relative_date_between(d, now),
                None => String::new(),
            },
            duration: None,
            duration_string: Some("--:--".to_owned()),
            view_count: None,
        },
    )
}

/// The video that a feed entry describes, as seen at the instant `now`.
pub fn parse_rss_entry_at(entry: &str, channel_id: &str, channel_name: &str, now: i64) -> (r: Option<
    Video,
>)
    ensures
        match r {
            Some(v) => entry_video(entry@, channel_id@, channel_name@, now) == Some(v@),
            None => entry_video(entry@, channel_id@, channel_name@, now) is None,
        },
{
    let chars = to_chars(entry);
    entry_from_chars(&chars, channel_id, channel_name, now)
}

/// The video that a feed entry describes, as seen now.
pub fn parse_rss_entry(entry: &str, channel_id: &str, channel_name: &str) -> (r: Option<Video>)
    ensures
        exists|now: i64|
            match r {
                Some(v) => #[trigger] entry_video(entry@, channel_id@, channel_name@, now) == Some(
                    v@,
                ),
                None => entry_video(entry@, channel_id@, channel_name@, now) is None,
            },
{
    let now = now();
    parse_rss_entry_at(entry, channel_id, channel_name, now)
}

/// The texts of the entries of a feed from position `from` on: each is what
/// stands between an `<entry>` and the next `</entry>`; the search for the
/// next entry goes on behind that `</entry>`.  An `<entry>` that is not
/// closed ends the feed.
pub open spec fn feed_entries(xml: Seq<char>, from: int) -> Seq<Seq<char>>
    decreases xml.len() - from,
{
    match find_from(xml, "<entry>"@, from) {
        None => Seq::empty(),
        Some(s) => match find_from(xml, "</entry>"@, s + "<entry>"@.len()) {
            None => Seq::empty(),
            Some(e) => if from < e + "</entry>"@.len() <= xml.len() {
                seq![xml.subrange(s + "<entry>"@.len(), e)] + feed_entries(
                    xml,
                    e + "</entry>"@.len(),
                )
            } else {
                Seq::empty()
            },
        },
    }
}

/// The videos that the given entries describe, in order.
pub open spec fn entry_videos(
    entries: Seq<Seq<char>>,
    channel_id: Seq<char>,
    channel_name: Seq<char>,
    now: i64,
) -> Seq<VideoView>
    decreases entries.len(),
{
    if entries.len() == 0 {
        Seq::empty()
    } else {
        let rest = entry_videos(entries.drop_last(), channel_id, channel_name, now);
        match entry_video(entries.last(), channel_id, channel_name, now) {
            Some(v) => rest.push(v),
            None => rest,
        }
    }
}

/// The videos of a feed, as seen at the instant `now`.
pub open spec fn feed_videos(xml: Seq<char>, channel_id: Seq<char>, channel_name: Seq<char>, now: i64) -> Seq<
    VideoView,
> {
    entry_videos(feed_entries(xml, 0), channel_id, channel_name, now)
}

/// The videos of a feed, as seen at the instant `now`.
pub fn parse_rss_feed_at(xml: &str, channel_id: &str, channel_name: &str, now: i64) -> (r: Vec<Video>)
    ensures
        video_views(r@) == feed_videos(xml@, channel_id@, channel_name@, now),
{
    let chars = to_chars(xml);
    let open = to_chars("<entry>");
    let close = to_chars("</entry>");
    let mut videos: Vec<Video> = Vec::new();
    let ghost mut done: Seq<Seq<char>> = Seq::empty();
    let mut pos: usize = 0;
    assert(video_views(videos@) =~= entry_videos(done, channel_id@, channel_name@, now));
    loop
        invariant
            chars@ == xml@,
            open@ == "<entry>"@,
            close@ == "</entry>"@,
            pos <= chars.len(),
            feed_entries(xml@, 0) == done + feed_entries(xml@, pos as int),
            video_views(videos@) == entry_videos(done, channel_id@, channel_name@, now),
        decreases chars.len() - pos,
    {
        let start = match find(&chars, &open, pos) {
            Some(s) => s,
            None => {
                assert(done + Seq::<Seq<char>>::empty() =~= done);
                return videos;
            },
        };
        let body = start + open.len();
        let end = match find(&chars, &close, body) {
            Some(e) => e,
            None => {
                assert(done + Seq::<Seq<char>>::empty() =~= done);
                return videos;
            },
        };
        let entry = slice(&chars, body, end);
        let ghost before = video_views(videos@);
        let ghost rest = feed_entries(xml@, end + close.len());
        proof {
            reveal_strlit("</entry>");
            assert(feed_entries(xml@, pos as int) == seq![entry@] + rest);
            assert(done + (seq![entry@] + rest) =~= done.push(entry@) + rest);
            assert(done.push(entry@).drop_last() =~= done);
        }
        match entry_from_chars(&entry, channel_id, channel_name, now) {
            Some(v) => {
                videos.push(v);
                assert(video_views(videos@) =~= before.push(v@));
            },
            None => {},
        }
        proof {
            done = done.push(entry@);
        }
        pos = end + close.len();
    }
}

/// The videos of a feed, as seen now.
pub fn parse_rss_feed(xml: &str, channel_id: &str, channel_name: &str) -> (r: Vec<Video>)
    ensures
        exists|now: i64|
            video_views(r@) == #[trigger] feed_videos(xml@, channel_id@, channel_name@, now),
{
    let now = now();
    parse_rss_feed_at(xml, channel_id, channel_name, now)
}

} // verus!
