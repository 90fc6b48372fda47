//! The records that the store keeps and the forms in which they are shown.

use crate::num::{millions_in_tenths, tenths_of_millions};
use crate::text::{
    append_decimal, append_pad2, append_signed, decimal, decimal_pad2, digit_char, from_chars,
    signed_decimal,
};
use crate::time::{
    naive_instant, now, parse_naive, parse_rfc3339, relative_date_at, relative_date_between,
    rfc3339_instant,
};
use vstd::prelude::*;

verus! {

/// The characters of an optional string.
pub open spec fn opt_view(o: Option<String>) -> Option<Seq<char>> {
    match o {
        Some(s) => Some(s@),
        None => None,
    }
}

/// A copy of an optional string.
pub fn clone_opt(o: &Option<String>) -> (r: Option<String>)
    ensures
        r == *o,
{
    match o {
        Some(s) => Some(s.clone()),
        None => None,
    }
}

/// A channel the user follows.
#[derive(Debug)]
pub struct Subscription {
    pub id: String,
    pub name: String,
    pub url: String,
    pub added_at: Option<String>,
}

/// What a [`Subscription`] holds, as plain values.
pub struct SubscriptionView {
    pub id: Seq<char>,
    pub name: Seq<char>,
    pub url: Seq<char>,
    pub added_at: Option<Seq<char>>,
}

impl View for Subscription {
    type V = SubscriptionView;

    open spec fn view(&self) -> SubscriptionView {
        SubscriptionView {
            id: self.id@,
            name: self.name@,
            url: self.url@,
            added_at: opt_view(self.added_at),
        }
    }
}

impl Clone for Subscription {
    fn clone(&self) -> (r: Self)
        ensures
            r == *self,
    {
        Subscription {
            id: self.id.clone(),
            name: self.name.clone(),
            url: self.url.clone(),
            added_at: clone_opt(&self.added_at),
        }
    }
}

/// One item of a channel, as the store hands it out.
///
/// `published_date` is an instant in seconds since the Unix epoch.
/// `relative_date` and `duration_string` are for display: the store fills
/// them in when it hands a video out and ignores them when it takes one in.
#[derive(Debug)]
pub struct Video {
    pub id: String,
    pub title: String,
    pub url: String,
    pub is_short: bool,
    pub channel_name: Option<String>,
    pub channel_id: Option<String>,
    pub published_date: Option<i64>,
    pub stored_at: Option<String>,
    pub relative_date: String,
    pub duration: Option<i64>,
    pub duration_string: Option<String>,
    pub view_count: Option<u64>,
}

/// What a [`Video`] holds, as plain values.
pub struct VideoView {
    pub id: Seq<char>,
    pub title: Seq<char>,
    pub url: Seq<char>,
    pub is_short: bool,
    pub channel_name: Option<Seq<char>>,
    pub channel_id: Option<Seq<char>>,
    pub published_date: Option<i64>,
    pub stored_at: Option<Seq<char>>,
    pub relative_date: Seq<char>,
    pub duration: Option<i64>,
    pub duration_string: Option<Seq<char>>,
    pub view_count: Option<u64>,
}

impl View for Video {
    type V = VideoView;

    open spec fn view(&self) -> VideoView {
        VideoView {
            id: self.id@,
            title: self.title@,
            url: self.url@,
            is_short: self.is_short,
            channel_name: opt_view(self.channel_name),
            channel_id: opt_view(self.channel_id),
            published_date: self.published_date,
            stored_at: opt_view(self.stored_at),
            relative_date: self.relative_date@,
            duration: self.duration,
            duration_string: opt_view(self.duration_string),
            view_count: self.view_count,
        }
    }
}

impl Clone for Video {
    fn clone(&self) -> (r: Self)
        ensures
            r == *self,
    {
        Video {
            id: self.id.clone(),
            title: self.title.clone(),
            url: self.url.clone(),
            is_short: self.is_short,
            channel_name: clone_opt(&self.channel_name),
            channel_id: clone_opt(&self.channel_id),
            published_date: self.published_date,
            stored_at: clone_opt(&self.stored_at),
            relative_date: self.relative_date.clone(),
            duration: self.duration,
            duration_string: clone_opt(&self.duration_string),
            view_count: self.view_count,
        }
    }
}

/// The user's preferences.
#[derive(Debug)]
pub struct Settings {
    pub player: String,
    pub videos_per_channel: i64,
    pub hide_shorts: bool,
}

/// What [`Settings`] hold, as plain values.
pub struct SettingsView {
    pub player: Seq<char>,
    pub videos_per_channel: i64,
    pub hide_shorts: bool,
}

impl View for Settings {
    type V = SettingsView;

    open spec fn view(&self) -> SettingsView {
        SettingsView {
            player: self.player@,
            videos_per_channel: self.videos_per_channel,
            hide_shorts: self.hide_shorts,
        }
    }
}

/// The preferences of a store in which none was ever set.
pub open spec fn default_settings() -> SettingsView {
    SettingsView { player: "mpv"@, videos_per_channel: 15, hide_shorts: true }
}

impl Clone for Settings {
    fn clone(&self) -> (r: Self)
        ensures
            r == *self,
    {
        Settings {
            player: self.player.clone(),
            videos_per_channel: self.videos_per_channel,
            hide_shorts: self.hide_shorts,
        }
    }
}

impl Default for Settings {
    fn default() -> (r: Self)
        ensures
            r@ == default_settings(),
    {
        Settings { player: "mpv".to_owned(), videos_per_channel: 15, hide_shorts: true }
    }
}

/// One page of videos, with the size of the whole listing.
pub struct PaginatedResult {
    pub total: usize,
    pub page: usize,
    pub page_size: usize,
    pub videos: Vec<Video>,
}

/// How many videos a channel has, and when the newest was published.
#[derive(Debug, Clone, Copy, PartialEq, Eq, Structural)]
pub struct ChannelStats {
    pub video_count: usize,
    pub latest_date: Option<i64>,
}

/// The quotient of `a` by a positive `b`, rounded toward zero.
pub open spec fn quot(a: int, b: int) -> int {
    if a >= 0 {
        a / b
    } else {
        -((-a) / b)
    }
}

/// The remainder that goes with [`quot`]; it has the sign of `a`.
pub open spec fn rem(a: int, b: int) -> int {
    a - b * quot(a, b)
}

/// A length of time in seconds as `h:mm:ss`, or `m:ss` below one hour;
/// `--:--` when the length is unknown or zero.
pub open spec fn duration_text(seconds: Option<i64>) -> Seq<char> {
    match seconds {
        None => "--:--"@,
        Some(s) => if s == 0 {
            "--:--"@
        } else {
            let hours = quot(s as int, 3600);
            let minutes = quot(rem(s as int, 3600), 60);
            let secs = rem(s as int, 60);
            if hours > 0 {
                signed_decimal(hours) + seq![':'] + decimal_pad2(minutes) + seq![':']
                    + decimal_pad2(secs)
            } else {
                signed_decimal(minutes) + seq![':'] + decimal_pad2(secs)
            }
        },
    }
}

/// A length of time in seconds as `h:mm:ss`, or `m:ss` below one hour.
pub fn format_duration(seconds: Option<i64>) -> (r: String)
    ensures
        r@ == duration_text(seconds),
{
    match seconds {
        None => "--:--".to_owned(),
        Some(s) => {
            if s == 0 {
                return "--:--".to_owned();
            }
            let negative = s < 0;
            let m: u128 = if negative {
                (-(s as i128)) as u128
            } else {
                s as u128
            };
            let h: i64 = (m / 3600) as i64;
            let mi: i64 = ((m % 3600) / 60) as i64;
            let se: i64 = (m % 60) as i64;
            let hours: i64 = if negative { -h } else { h };
            let minutes: i64 = if negative { -mi } else { mi };
            let secs: i64 = if negative { -se } else { se };
            proof {
                let si = s as int;
                assert(hours == quot(si, 3600));
                assert(rem(si, 3600) == if negative { -((m % 3600) as int) } else { (m % 3600) as int });
                assert(minutes == quot(rem(si, 3600), 60));
                assert(secs == rem(si, 60));
            }
            let mut out: Vec<char> = Vec::new();
            if hours > 0 {
                append_signed(&mut out, hours);
                out.push(':');
                append_pad2(&mut out, minutes);
                out.push(':');
                append_pad2(&mut out, secs);
                assert(out@ =~= duration_text(seconds));
            } else {
                append_signed(&mut out, minutes);
                out.push(':');
                append_pad2(&mut out, secs);
                assert(out@ =~= duration_text(seconds));
            }
            from_chars(&out)
        },
    }
}

/// A view count in short form: `2.5M` from a million on, in tenths as
/// [`tenths_of_millions`] gives them; `12K` from a thousand on, the rest
/// dropped; the plain number below, and nothing when it is unknown.
pub open spec fn views_text(count: Option<u64>) -> Seq<char> {
    match count {
        None => Seq::<char>::empty(),
        Some(c) => if c >= 1_000_000 {
            let t = tenths_of_millions(c as nat);
            decimal(t / 10) + seq!['.'] + seq![digit_char((t % 10) as int)] + seq!['M']
        } else if c >= 1_000 {
            decimal((c / 1000) as nat) + seq!['K']
        } else {
            decimal(c as nat)
        },
    }
}

/// A view count in short form.
pub fn format_views(count: Option<u64>) -> (r: String)
    ensures
        r@ == views_text(count),
{
    let mut out: Vec<char> = Vec::new();
    match count {
        None => {},
        Some(c) => {
            if c >= 1_000_000 {
                let tenths: u128 = millions_in_tenths(c);
                append_decimal(&mut out, tenths / 10);
                out.push('.');
                append_decimal(&mut out, tenths % 10);
                out.push('M');
                assert(out@ =~= views_text(count));
            } else if c >= 1_000 {
                append_decimal(&mut out, (c / 1000) as u128);
                out.push('K');
                assert(out@ =~= views_text(count));
            } else {
                append_decimal(&mut out, c as u128);
                assert(out@ =~= views_text(count));
            }
        },
    }
    from_chars(&out)
}

/// A video as persistent storage holds it: each column as it is read.
pub struct VideoColumns {
    pub id: String,
    pub title: String,
    pub url: String,
    /// Zero for a video that is not short-form.
    pub is_short: i64,
    pub channel_name: Option<String>,
    pub channel_id: Option<String>,
    /// The date of publication in one of the notations of [`published_instant`].
    pub published_date: Option<String>,
    pub stored_at: Option<String>,
    pub duration: Option<i64>,
    /// The view count; a count above `i64::MAX` is held as the negative
    /// number with the same 64 bits.
    pub view_count: Option<i64>,
}

/// The first date-time notation tried after RFC 3339.
pub open spec fn zulu_format() -> Seq<char> {
    "%Y-%m-%dT%H:%M:%S%.fZ"@
}

/// The second date-time notation tried after RFC 3339.
pub open spec fn plain_format() -> Seq<char> {
    "%Y-%m-%d %H:%M:%S"@
}

/// The instant that a stored date text denotes: read as RFC 3339, or else
/// as `2024-01-15T10:30:00.000Z`, or else as `2024-01-15 10:30:00`; `None`
/// where it is none of the three.
pub open spec fn published_instant(text: Seq<char>) -> Option<i64> {
    match rfc3339_instant(text) {
        Some(t) => Some(t),
        None => match naive_instant(text, zulu_format()) {
            Some(t) => Some(t),
            None => naive_instant(text, plain_format()),
        },
    }
}

/// Reads a stored date text (see [`published_instant`]).
pub fn parse_published(text: &str) -> (r: Option<i64>)
    ensures
        r == published_instant(text@),
{
    match parse_rfc3339(text) {
        Some(t) => Some(t),
        None => match parse_naive(text, "%Y-%m-%dT%H:%M:%S%.fZ") {
            Some(t) => Some(t),
            None => parse_naive(text, "%Y-%m-%d %H:%M:%S"),
        },
    }
}

/// The unsigned number with the same 64 bits as `n`.
pub open spec fn unsigned_bits(n: i64) -> u64 {
    if n >= 0 {
        n as u64
    } else {
        (n + 0x1_0000_0000_0000_0000) as u64
    }
}

/// The video that stored columns describe, as seen at the instant `now`.
pub open spec fn hydrated(columns: VideoColumns, now: i64) -> VideoView {
    let published = match columns.published_date {
        Some(text) => published_instant(text@),
        None => None,
    };
    VideoView {
        id: columns.id@,
        title: columns.title@,
        url: columns.url@,
        is_short: columns.is_short != 0,
        channel_name: opt_view(columns.channel_name),
        channel_id: opt_view(columns.channel_id),
        published_date: published,
        stored_at: opt_view(columns.stored_at),
        relative_date: match published {
            Some(d) => relative_date_at(d, now),
            None => Seq::empty(),
        },
        duration: columns.duration,
        duration_string: Some(duration_text(columns.duration)),
        view_count: match columns.view_count {
            Some(c) => Some(unsigned_bits(c)),
            None => None,
        },
    }
}

/// The video that stored columns describe, as seen at the instant `now`.
pub fn hydrate_video_at(columns: &VideoColumns, now: i64) -> (r: Video)
    ensures
        r@ == hydrated(*columns, now),
{
    let published = match &columns.published_date {
        Some(text) => parse_published(text.as_str()),
        None => None,
    };
    Video {
        id: columns.id.clone(),
        title: columns.title.clone(),
        url: columns.url.clone(),
        is_short: columns.is_short != 0,
        channel_name: clone_opt(&columns.channel_name),
        channel_id: clone_opt(&columns.channel_id),
        published_date: published,
        stored_at: clone_opt(&columns.stored_at),
        relative_date: match published {
            Some(d) => relative_date_between(d, now),
            None => String::new(),
        },
        duration: columns.duration,
        duration_string: Some(format_duration(columns.duration)),
        view_count: match columns.view_count {
            Some(c) => Some(
                if c >= 0 {
                    c as u64
                } else {
                    (c as i128 + 0x1_0000_0000_0000_0000) as u64
                },
            ),
            None => None,
        },
    }
}

/// The video that stored columns describe, as seen now.
pub fn hydrate_video(columns: &VideoColumns) -> (r: Video)
    ensures
        exists|now: i64| r@ == #[trigger] hydrated(*columns, now),
{
    let now = now();
    hydrate_video_at(columns, now)
}

} // verus!
