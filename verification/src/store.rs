//! The store: subscriptions, videos, watched marks, per-channel view times
//! and settings, held in memory, with the queries over them.
//!
//! The store is described by its view, a [`DatabaseView`]; every operation
//! states the view after it in terms of the view before it.

use crate::order::{
    landing, lemma_insert_sorted, lemma_nocase_total, lemma_nocase_transitive, lemma_sorted_by_len,
    lemma_sorted_by_ordered, lemma_sorted_by_permutes, nocase_at_or_before, nocase_le, sorted_by,
};
use crate::text::{str_eq, to_chars};
use crate::time::{now, relative_date_at, relative_date_between};
use crate::json::{json_document, parse_json, Json};
use crate::video::{
    clone_opt, duration_text, format_duration, opt_view, ChannelStats, PaginatedResult, Settings,
    SettingsView, Subscription, SubscriptionView, Video, VideoView,
};
use vstd::hash_map::StringHashMap;
use vstd::hash_set::StringHashSet;
use vstd::prelude::*;

verus! {

/// When a channel's listing was last looked at.
pub struct ChannelSeen {
    pub channel_id: String,
    /// `None` where the time is not known; every dated video then counts as new.
    pub last_viewed_at: Option<i64>,
}

/// One setting as it is stored: a key and a value in JSON notation.
pub struct Setting {
    pub key: String,
    pub value: String,
}

/// What the store holds, as plain values.  Each sequence is in the order in
/// which its rows were first added.
pub struct DatabaseView {
    /// No two subscriptions share an id or a url.
    pub subscriptions: Seq<SubscriptionView>,
    /// No two videos share an id.
    pub videos: Seq<VideoView>,
    /// The ids of the watched videos, each once.
    pub watched: Seq<Seq<char>>,
    /// Channel id and last view time, each channel once.
    pub seen: Seq<(Seq<char>, Option<i64>)>,
    /// Key and value, each key once.
    pub settings: Seq<(Seq<char>, Seq<char>)>,
    /// The names of the migrations that have run, each once.
    pub migrations: Seq<Seq<char>>,
}

/// The views of a sequence of subscriptions.
pub open spec fn subscription_views(s: Seq<Subscription>) -> Seq<SubscriptionView> {
    s.map_values(|x: Subscription| x@)
}

/// The views of a sequence of videos.
pub open spec fn video_views(s: Seq<Video>) -> Seq<VideoView> {
    s.map_values(|x: Video| x@)
}

/// The views of a sequence of strings.
pub open spec fn string_views(s: Seq<String>) -> Seq<Seq<char>> {
    s.map_values(|x: String| x@)
}

/// The views of a sequence of view times.
pub open spec fn seen_views(s: Seq<ChannelSeen>) -> Seq<(Seq<char>, Option<i64>)> {
    s.map_values(|x: ChannelSeen| (x.channel_id@, x.last_viewed_at))
}

/// The views of a sequence of settings.
pub open spec fn setting_views(s: Seq<Setting>) -> Seq<(Seq<char>, Seq<char>)> {
    s.map_values(|x: Setting| (x.key@, x.value@))
}

/// Two subscriptions have the same id or the same url.
pub open spec fn conflicts(a: SubscriptionView, b: SubscriptionView) -> bool {
    a.id == b.id || a.url == b.url
}

/// Some subscription among `subs` has the id or the url of `sub`.
pub open spec fn has_conflict(subs: Seq<SubscriptionView>, sub: SubscriptionView) -> bool {
    exists|i: int| 0 <= i < subs.len() && conflicts(#[trigger] subs[i], sub)
}

/// The order of the subscription listing: by name, ignoring case.
pub open spec fn by_name() -> spec_fn(SubscriptionView, SubscriptionView) -> bool {
    |a: SubscriptionView, b: SubscriptionView| nocase_le(a.name, b.name)
}

/// The first position at or after `from` of the subscription with the given id.
pub open spec fn subscription_position(subs: Seq<SubscriptionView>, id: Seq<char>, from: int) -> Option<
    int,
>
    decreases subs.len() - from,
{
    if from < 0 || from >= subs.len() {
        None
    } else if subs[from].id == id {
        Some(from)
    } else {
        subscription_position(subs, id, from + 1)
    }
}

/// [`subscription_position`] finds a subscription with the id, and finds
/// none only where there is none.
pub proof fn lemma_subscription_position(subs: Seq<SubscriptionView>, id: Seq<char>, from: int)
    requires
        0 <= from,
    ensures
        match subscription_position(subs, id, from) {
            Some(i) => from <= i < subs.len() && subs[i].id == id,
            None => forall|k: int| from <= k < subs.len() ==> (#[trigger] subs[k]).id != id,
        },
    decreases subs.len() - from,
{
    if from < subs.len() && subs[from].id != id {
        lemma_subscription_position(subs, id, from + 1);
    }
}

/// No two subscriptions share an id or a url.
pub open spec fn distinct_subscriptions(subs: Seq<SubscriptionView>) -> bool {
    forall|i: int, j: int|
        0 <= i < j < subs.len() ==> !conflicts(#[trigger] subs[i], #[trigger] subs[j])
}

/// No two videos share an id.
pub open spec fn distinct_videos(videos: Seq<VideoView>) -> bool {
    forall|i: int, j: int|
        0 <= i < j < videos.len() ==> (#[trigger] videos[i]).id != (#[trigger] videos[j]).id
}

/// No two rows share a key.
pub open spec fn distinct_keys<T>(rows: Seq<(Seq<char>, T)>) -> bool {
    forall|i: int, j: int| 0 <= i < j < rows.len() ==> (#[trigger] rows[i]).0 != (#[trigger] rows[j]).0
}

impl DatabaseView {
    /// The store that holds nothing.
    pub open spec fn empty() -> DatabaseView {
        DatabaseView {
            subscriptions: Seq::empty(),
            videos: Seq::empty(),
            watched: Seq::empty(),
            seen: Seq::empty(),
            settings: Seq::empty(),
            migrations: Seq::empty(),
        }
    }

    /// No key occurs twice in any table.
    pub open spec fn wf(self) -> bool {
        &&& distinct_subscriptions(self.subscriptions)
        &&& distinct_videos(self.videos)
        &&& self.watched.no_duplicates()
        &&& distinct_keys(self.seen)
        &&& distinct_keys(self.settings)
        &&& self.migrations.no_duplicates()
    }
}

/// The first position at or after `from` of the video with the given id.
pub open spec fn video_position(rows: Seq<VideoView>, id: Seq<char>, from: int) -> Option<int>
    decreases rows.len() - from,
{
    if from < 0 || from >= rows.len() {
        None
    } else if rows[from].id == id {
        Some(from)
    } else {
        video_position(rows, id, from + 1)
    }
}

/// A video as the store keeps it: without what is only for display.
pub open spec fn as_row(incoming: VideoView) -> VideoView {
    VideoView { relative_date: Seq::empty(), duration_string: None, ..incoming }
}

/// The row that results when `incoming` arrives for a video that is stored
/// already: title, url and channel are taken from `incoming`; duration and
/// view count too where `incoming` knows them, and are kept where it does
/// not; everything else stays.
pub open spec fn merged(existing: VideoView, incoming: VideoView) -> VideoView {
    VideoView {
        title: incoming.title,
        url: incoming.url,
        channel_name: incoming.channel_name,
        channel_id: incoming.channel_id,
        duration: if incoming.duration is Some {
            incoming.duration
        } else {
            existing.duration
        },
        view_count: if incoming.view_count is Some {
            incoming.view_count
        } else {
            existing.view_count
        },
        ..existing
    }
}

/// The rows after one video has been stored: merged into the row with its
/// id, or added at the end where there is none.
pub open spec fn upsert_one(rows: Seq<VideoView>, incoming: VideoView) -> Seq<VideoView> {
    match video_position(rows, incoming.id, 0) {
        Some(i) => rows.update(i, merged(rows[i], incoming)),
        None => rows.push(as_row(incoming)),
    }
}

/// The rows after the videos of `items` have been stored one after the other.
pub open spec fn upsert_all(rows: Seq<VideoView>, items: Seq<VideoView>) -> Seq<VideoView>
    decreases items.len(),
{
    if items.len() == 0 {
        rows
    } else {
        upsert_one(upsert_all(rows, items.drop_last()), items.last())
    }
}

/// [`video_position`] finds a row with the id, and finds none only where
/// there is none.
pub proof fn lemma_video_position(rows: Seq<VideoView>, id: Seq<char>, from: int)
    requires
        0 <= from,
    ensures
        match video_position(rows, id, from) {
            Some(i) => from <= i < rows.len() && rows[i].id == id,
            None => forall|k: int| from <= k < rows.len() ==> (#[trigger] rows[k]).id != id,
        },
    decreases rows.len() - from,
{
    if from < rows.len() && rows[from].id != id {
        lemma_video_position(rows, id, from + 1);
    }
}

/// Storing a video keeps the ids of the rows distinct.
pub proof fn lemma_upsert_one_distinct(rows: Seq<VideoView>, incoming: VideoView)
    requires
        distinct_videos(rows),
    ensures
        distinct_videos(upsert_one(rows, incoming)),
{
    lemma_video_position(rows, incoming.id, 0);
}

/// `a` is to be listed at or before `b`: a later date first, and a video
/// without a date after all that have one.
pub open spec fn newer_or_same(a: Option<i64>, b: Option<i64>) -> bool {
    match (a, b) {
        (Some(x), Some(y)) => x >= y,
        (Some(_), None) => true,
        (None, Some(_)) => false,
        (None, None) => true,
    }
}

/// The order of a video listing: newest first.
pub open spec fn by_date() -> spec_fn(VideoView, VideoView) -> bool {
    |a: VideoView, b: VideoView| newer_or_same(a.published_date, b.published_date)
}

/// A date, or the start of 1970 for none.
pub open spec fn date_or_epoch(date: Option<i64>) -> i64 {
    match date {
        Some(d) => d,
        None => 0,
    }
}

/// The order of the videos of one channel on the screen: newest first, a
/// video without a date counting as one from the start of 1970.
pub open spec fn by_date_or_epoch() -> spec_fn(VideoView, VideoView) -> bool {
    |a: VideoView, b: VideoView| date_or_epoch(a.published_date) >= date_or_epoch(b.published_date)
}

/// The videos of `base`, and behind them those of `fresh` whose id has
/// not come before.
pub open spec fn merged_unseen(base: Seq<VideoView>, fresh: Seq<VideoView>) -> Seq<VideoView>
    decreases fresh.len(),
{
    if fresh.len() == 0 {
        base
    } else {
        let before = merged_unseen(base, fresh.drop_last());
        if video_position(before, fresh.last().id, 0) is None {
            before.push(fresh.last())
        } else {
            before
        }
    }
}

/// The videos of one channel.
pub open spec fn in_channel(channel: Seq<char>) -> spec_fn(VideoView) -> bool {
    |v: VideoView| v.channel_id == Some(channel)
}

/// The videos of the given channels; all videos where no channels are given.
pub open spec fn in_scope(scope: Option<Seq<Seq<char>>>) -> spec_fn(VideoView) -> bool {
    |v: VideoView|
        match scope {
            None => true,
            Some(ids) => v.channel_id matches Some(c) && ids.contains(c),
        }
}

/// A stored video as it is handed out at the instant `now`: with its age in
/// words and its duration as text.
pub open spec fn present(row: VideoView, now: i64) -> VideoView {
    VideoView {
        relative_date: match row.published_date {
            Some(d) => relative_date_at(d, now),
            None => Seq::empty(),
        },
        duration_string: Some(duration_text(row.duration)),
        ..row
    }
}

/// Each row as it is handed out at the instant `now`.
pub open spec fn presented(rows: Seq<VideoView>, now: i64) -> Seq<VideoView> {
    rows.map_values(|v: VideoView| present(v, now))
}

/// The ids of the given videos that are shown, in order.
pub open spec fn shown_ids(rows: Seq<VideoView>, hide_shorts: bool) -> Seq<Seq<char>>
    decreases rows.len(),
{
    if rows.len() == 0 {
        Seq::empty()
    } else {
        let rest = shown_ids(rows.drop_last(), hide_shorts);
        if shown(rows.last(), hide_shorts) {
            rest.push(rows.last().id)
        } else {
            rest
        }
    }
}

/// The page size that is used for a requested one: at least 1, at most 1000.
pub open spec fn clamp_page_size(page_size: int) -> int {
    if page_size < 1 {
        1
    } else if page_size > 1000 {
        1000
    } else {
        page_size
    }
}

/// Where page `page` begins in a listing of `total` rows.
pub open spec fn page_start(total: int, size: int, page: int) -> int {
    if page * size < total {
        page * size
    } else {
        total
    }
}

/// Where page `page` ends in a listing of `total` rows.
pub open spec fn page_end(total: int, size: int, page: int) -> int {
    if page * size + size < total {
        page * size + size
    } else {
        total
    }
}

/// The number of pages that a listing of `total` rows fills.
pub open spec fn page_count(total: int, size: int) -> int {
    (total + size - 1) / size
}

/// The number of rows on page `page`.
pub open spec fn page_len(total: int, size: int, page: int) -> int {
    page_end(total, size, page) - page_start(total, size, page)
}

/// The first position at or after `from` at which `id` stands in `ids`.
pub open spec fn id_position(ids: Seq<Seq<char>>, id: Seq<char>, from: int) -> Option<int>
    decreases ids.len() - from,
{
    if from < 0 || from >= ids.len() {
        None
    } else if ids[from] == id {
        Some(from)
    } else {
        id_position(ids, id, from + 1)
    }
}

/// [`id_position`] finds `id`, and finds nothing only where `id` is absent.
pub proof fn lemma_id_position(ids: Seq<Seq<char>>, id: Seq<char>, from: int)
    requires
        0 <= from,
    ensures
        match id_position(ids, id, from) {
            Some(i) => from <= i < ids.len() && ids[i] == id,
            None => forall|k: int| from <= k < ids.len() ==> #[trigger] ids[k] != id,
        },
        from == 0 ==> (id_position(ids, id, from) is Some <==> ids.contains(id)),
    decreases ids.len() - from,
{
    if from < ids.len() && ids[from] != id {
        lemma_id_position(ids, id, from + 1);
    }
}

/// The watched ids after `id` has been marked: `id` is added at the end
/// unless it is there already.
pub open spec fn marked(watched: Seq<Seq<char>>, id: Seq<char>) -> Seq<Seq<char>> {
    if watched.contains(id) {
        watched
    } else {
        watched.push(id)
    }
}

/// The watched ids after each of `ids` has been marked in turn.
pub open spec fn marked_all(watched: Seq<Seq<char>>, ids: Seq<Seq<char>>) -> Seq<Seq<char>>
    decreases ids.len(),
{
    if ids.len() == 0 {
        watched
    } else {
        marked(marked_all(watched, ids.drop_last()), ids.last())
    }
}

/// The watched ids after the mark of `id` has been turned over.
pub open spec fn toggled(watched: Seq<Seq<char>>, id: Seq<char>) -> Seq<Seq<char>> {
    match id_position(watched, id, 0) {
        Some(i) => watched.remove(i),
        None => watched.push(id),
    }
}

/// Marking keeps each id once, and only ever adds.
pub proof fn lemma_marked_all(watched: Seq<Seq<char>>, ids: Seq<Seq<char>>)
    requires
        watched.no_duplicates(),
    ensures
        marked_all(watched, ids).no_duplicates(),
        marked_all(watched, ids).len() >= watched.len(),
        marked_all(watched, ids).len() <= watched.len() + ids.len(),
        forall|x: Seq<char>|
            marked_all(watched, ids).contains(x) <==> watched.contains(x) || ids.contains(x),
    decreases ids.len(),
{
    if ids.len() > 0 {
        let rest = ids.drop_last();
        lemma_marked_all(watched, rest);
        let before = marked_all(watched, rest);
        let after = marked_all(watched, ids);
        assert(ids =~= rest.push(ids.last()));
        assert forall|x: Seq<char>| after.contains(x) <==> watched.contains(x) || ids.contains(
            x,
        ) by {
            if after.contains(x) {
                let k = choose|k: int| 0 <= k < after.len() && after[k] == x;
                if k < before.len() {
                    assert(before[k] == x);
                } else {
                    assert(x == ids.last());
                    assert(ids[ids.len() - 1] == x);
                }
            }
            if before.contains(x) {
                let k = choose|k: int| 0 <= k < before.len() && before[k] == x;
                assert(after[k] == x);
            }
            if rest.contains(x) {
                let k = choose|k: int| 0 <= k < rest.len() && rest[k] == x;
                assert(ids[k] == x);
            }
            if ids.contains(x) {
                let k = choose|k: int| 0 <= k < ids.len() && ids[k] == x;
                if k < rest.len() {
                    assert(rest[k] == x);
                } else {
                    if !before.contains(x) {
                        assert(after[before.len() as int] == x);
                    }
                }
            }
        }
    }
}

/// The first position at or after `from` of the row with the given key.
pub open spec fn key_position<T>(rows: Seq<(Seq<char>, T)>, key: Seq<char>, from: int) -> Option<
    int,
>
    decreases rows.len() - from,
{
    if from < 0 || from >= rows.len() {
        None
    } else if rows[from].0 == key {
        Some(from)
    } else {
        key_position(rows, key, from + 1)
    }
}

/// The value stored under `key`.
pub open spec fn value_of<T>(rows: Seq<(Seq<char>, T)>, key: Seq<char>) -> Option<T> {
    match key_position(rows, key, 0) {
        Some(i) => Some(rows[i].1),
        None => None,
    }
}

/// The rows after `value` has been stored under `key`: in place of the
/// value that was there, or in a new row at the end.
pub open spec fn put<T>(rows: Seq<(Seq<char>, T)>, key: Seq<char>, value: T) -> Seq<
    (Seq<char>, T),
> {
    match key_position(rows, key, 0) {
        Some(i) => rows.update(i, (key, value)),
        None => rows.push((key, value)),
    }
}

/// The rows after `value` has been stored under each of `keys` in turn.
pub open spec fn put_all<T>(rows: Seq<(Seq<char>, T)>, keys: Seq<Seq<char>>, value: T) -> Seq<
    (Seq<char>, T),
>
    decreases keys.len(),
{
    if keys.len() == 0 {
        rows
    } else {
        put(put_all(rows, keys.drop_last(), value), keys.last(), value)
    }
}

/// [`key_position`] finds a row with the key, and finds none only where
/// there is none.
pub proof fn lemma_key_position<T>(rows: Seq<(Seq<char>, T)>, key: Seq<char>, from: int)
    requires
        0 <= from,
    ensures
        match key_position(rows, key, from) {
            Some(i) => from <= i < rows.len() && rows[i].0 == key,
            None => forall|k: int| from <= k < rows.len() ==> (#[trigger] rows[k]).0 != key,
        },
    decreases rows.len() - from,
{
    if from < rows.len() && rows[from].0 != key {
        lemma_key_position(rows, key, from + 1);
    }
}

/// Storing a value keeps the keys distinct, and the value can be read back.
pub proof fn lemma_put<T>(rows: Seq<(Seq<char>, T)>, key: Seq<char>, value: T)
    requires
        distinct_keys(rows),
    ensures
        distinct_keys(put(rows, key, value)),
        value_of(put(rows, key, value), key) == Some(value),
        forall|other: Seq<char>|
            other != key ==> value_of(put(rows, key, value), other) == value_of(rows, other),
{
    lemma_key_position(rows, key, 0);
    let after = put(rows, key, value);
    lemma_key_position(after, key, 0);
    assert(value_of(after, key) == Some(value)) by {
        match key_position(rows, key, 0) {
            Some(i) => {
                assert(after[i].0 == key);
            },
            None => {
                assert(after[rows.len() as int].0 == key);
            },
        }
        let j = key_position(after, key, 0)->0;
        match key_position(rows, key, 0) {
            Some(i) => {
                if j != i {
                    assert(after[j] == rows[j]);
                }
            },
            None => {
                if j < rows.len() {
                    assert(after[j] == rows[j]);
                }
            },
        }
    }
    assert forall|other: Seq<char>| other != key implies value_of(after, other) == value_of(
        rows,
        other,
    ) by {
        lemma_key_position(rows, other, 0);
        lemma_key_position(after, other, 0);
        match key_position(rows, other, 0) {
            Some(i) => {
                assert(after[i] == rows[i]);
                let j = key_position(after, other, 0)->0;
                if j < rows.len() {
                    assert(after[j].0 == other);
                    if j != i {
                        assert(after[j] == rows[j]);
                    }
                }
            },
            None => {
                if key_position(after, other, 0) is Some {
                    let j = key_position(after, other, 0)->0;
                    if j < rows.len() {
                        assert(after[j] == rows[j] || after[j].0 == key);
                    }
                }
            },
        }
    }
}

/// The user's preferences as the stored settings give them: each of the
/// keys `player`, `videosPerChannel` and `hideShorts` counts where its value
/// is JSON of the expected kind (text, whole number, truth value), and the
/// default stands in where the key is absent or its value is anything else.
pub open spec fn settings_of(rows: Seq<(Seq<char>, Seq<char>)>) -> SettingsView {
    SettingsView {
        player: match value_of(rows, "player"@) {
            Some(text) => match json_document(text) {
                Some(Json::Text(s)) => s@,
                _ => "mpv"@,
            },
            None => "mpv"@,
        },
        videos_per_channel: match value_of(rows, "videosPerChannel"@) {
            Some(text) => match json_document(text) {
                Some(Json::Number { signed: Some(n), unsigned }) => n,
                _ => 15,
            },
            None => 15,
        },
        hide_shorts: match value_of(rows, "hideShorts"@) {
            Some(text) => match json_document(text) {
                Some(Json::Bool(b)) => b,
                _ => true,
            },
            None => true,
        },
    }
}

/// The keys that are `channel`.
pub open spec fn is_key(channel: Seq<char>) -> spec_fn(Option<Seq<char>>) -> bool {
    |k: Option<Seq<char>>| k == Some(channel)
}

/// How often `channel` occurs among `keys`.
pub open spec fn occurrences(keys: Seq<Option<Seq<char>>>, channel: Seq<char>) -> nat {
    keys.filter(is_key(channel)).len()
}

/// Whether a video is shown: all are, unless short-form videos are hidden
/// and it is one.
pub open spec fn shown(v: VideoView, hide_shorts: bool) -> bool {
    !hide_shorts || !v.is_short
}

/// Whether a video counts as new: it is shown, has a channel and a date, and
/// was published after its channel was last looked at, or that channel was
/// never looked at.
pub open spec fn is_new(v: VideoView, seen: Seq<(Seq<char>, Option<i64>)>, hide_shorts: bool) -> bool {
    &&& shown(v, hide_shorts)
    &&& v.channel_id is Some
    &&& v.published_date is Some
    &&& match value_of(seen, v.channel_id->0) {
        Some(Some(at)) => v.published_date->0 > at,
        _ => true,
    }
}

/// The channel for which a video counts as new, if it does.
pub open spec fn new_key(seen: Seq<(Seq<char>, Option<i64>)>, hide_shorts: bool) -> spec_fn(
    VideoView,
) -> Option<Seq<char>> {
    |v: VideoView|
        if is_new(v, seen, hide_shorts) {
            v.channel_id
        } else {
            None
        }
}

/// The channel among whose videos a video is shown, if it is.
pub open spec fn shown_key(hide_shorts: bool) -> spec_fn(VideoView) -> Option<Seq<char>> {
    |v: VideoView|
        if shown(v, hide_shorts) {
            v.channel_id
        } else {
            None
        }
}

/// The channel among whose videos a video is shown, if it is and is watched.
pub open spec fn watched_key(watched: Seq<Seq<char>>, hide_shorts: bool) -> spec_fn(
    VideoView,
) -> Option<Seq<char>> {
    |v: VideoView|
        if shown(v, hide_shorts) && watched.contains(v.id) {
            v.channel_id
        } else {
            None
        }
}

/// The videos of one channel that are shown.
pub open spec fn shown_in(channel: Seq<char>, hide_shorts: bool) -> spec_fn(VideoView) -> bool {
    |v: VideoView| v.channel_id == Some(channel) && shown(v, hide_shorts)
}

/// `v` is the video `id` of `channel`, and its duration is known.
pub open spec fn is_enriched(v: VideoView, channel: Seq<char>, id: Seq<char>) -> bool {
    v.id == id && v.channel_id == Some(channel) && v.duration is Some
}

/// The later of two dates, where `None` is no date.
pub open spec fn later(a: Option<i64>, b: Option<i64>) -> Option<i64> {
    match (a, b) {
        (Some(x), Some(y)) => if x >= y {
            a
        } else {
            b
        },
        (Some(_), None) => a,
        (None, _) => b,
    }
}

/// The latest date among the given videos; `None` where none has a date.
pub open spec fn latest(rows: Seq<VideoView>) -> Option<i64>
    decreases rows.len(),
{
    if rows.len() == 0 {
        None
    } else {
        later(latest(rows.drop_last()), rows.last().published_date)
    }
}

impl DatabaseView {
    /// The number of new videos of a channel (see [`is_new`]).
    pub open spec fn new_count(self, channel: Seq<char>, hide_shorts: bool) -> nat {
        occurrences(self.videos.map_values(new_key(self.seen, hide_shorts)), channel)
    }

    /// The number of videos of a channel that are shown.
    pub open spec fn total(self, channel: Seq<char>, hide_shorts: bool) -> nat {
        occurrences(self.videos.map_values(shown_key(hide_shorts)), channel)
    }

    /// The number of videos of a channel that are shown and watched.
    pub open spec fn watched_count(self, channel: Seq<char>, hide_shorts: bool) -> nat {
        occurrences(self.videos.map_values(watched_key(self.watched, hide_shorts)), channel)
    }

    /// A channel is fully watched when it has videos that are shown and all
    /// of them are watched.
    pub open spec fn fully_watched(self, channel: Seq<char>, hide_shorts: bool) -> bool {
        self.total(channel, hide_shorts) > 0 && self.total(channel, hide_shorts)
            == self.watched_count(channel, hide_shorts)
    }

    /// The latest date among the videos of a channel that are shown.
    pub open spec fn latest_date(self, channel: Seq<char>, hide_shorts: bool) -> Option<i64> {
        latest(self.videos.filter(shown_in(channel, hide_shorts)))
    }

    /// The ids of the videos of a channel whose metadata is known: those
    /// with a duration.
    pub open spec fn enriched_ids(self, channel: Seq<char>) -> Set<Seq<char>> {
        Set::new(
            |id: Seq<char>|
                exists|k: int|
                    0 <= k < self.videos.len() && #[trigger] is_enriched(self.videos[k], channel, id),
        )
    }

    /// For each channel that has new videos, how many.
    pub open spec fn new_counts(self, hide_shorts: bool) -> Map<Seq<char>, usize> {
        Map::new(
            |ch: Seq<char>| self.new_count(ch, hide_shorts) > 0,
            |ch: Seq<char>| self.new_count(ch, hide_shorts) as usize,
        )
    }

    /// For each channel that has videos that are shown: how many, and the
    /// date of the newest.
    pub open spec fn channel_stats(self, hide_shorts: bool) -> Map<Seq<char>, ChannelStats> {
        Map::new(
            |ch: Seq<char>| self.total(ch, hide_shorts) > 0,
            |ch: Seq<char>|
                ChannelStats {
                    video_count: self.total(ch, hide_shorts) as usize,
                    latest_date: self.latest_date(ch, hide_shorts),
                },
        )
    }

    /// The channels that are fully watched.
    pub open spec fn fully_watched_channels(self, hide_shorts: bool) -> Set<Seq<char>> {
        Set::new(|ch: Seq<char>| self.fully_watched(ch, hide_shorts))
    }
}

/// The store.
pub struct Database {
    subscriptions: Vec<Subscription>,
    videos: Vec<Video>,
    watched: Vec<String>,
    seen: Vec<ChannelSeen>,
    settings: Vec<Setting>,
    migrations: Vec<String>,
}

impl View for Database {
    type V = DatabaseView;

    closed spec fn view(&self) -> DatabaseView {
        DatabaseView {
            subscriptions: subscription_views(self.subscriptions@),
            videos: video_views(self.videos@),
            watched: string_views(self.watched@),
            seen: seen_views(self.seen@),
            settings: setting_views(self.settings@),
            migrations: string_views(self.migrations@),
        }
    }
}

impl Database {
    /// The store keeps its tables free of repeated keys.
    pub open spec fn wf(&self) -> bool {
        self@.wf()
    }

    /// A store that holds nothing.
    pub fn open_in_memory() -> (r: Result<Database, String>)
        ensures
            r matches Ok(db) && db.wf() && db@ == DatabaseView::empty(),
    {
        let db = Database {
            subscriptions: Vec::new(),
            videos: Vec::new(),
            watched: Vec::new(),
            seen: Vec::new(),
            settings: Vec::new(),
            migrations: Vec::new(),
        };
        assert(db@.subscriptions =~= Seq::empty());
        assert(db@.videos =~= Seq::empty());
        assert(db@.watched =~= Seq::empty());
        assert(db@.seen =~= Seq::empty());
        assert(db@.settings =~= Seq::empty());
        assert(db@.migrations =~= Seq::empty());
        Ok(db)
    }

    /// Adds a subscription, unless one with the same id or the same url is
    /// there already.
    pub fn add_subscription(&mut self, sub: &Subscription) -> (r: Result<(), String>)
        requires
            old(self).wf(),
        ensures
            final(self).wf(),
            match r {
                Ok(_) => !has_conflict(old(self)@.subscriptions, sub@) && final(self)@ == (
                DatabaseView {
                    subscriptions: old(self)@.subscriptions.push(sub@),
                    ..old(self)@
                }),
                Err(e) => has_conflict(old(self)@.subscriptions, sub@) && final(self)@ == old(
                    self,
                )@ && e@ == "Subscription already exists"@,
            },
    {
        let mut i: usize = 0;
        while i < self.subscriptions.len()
            invariant
                i <= self.subscriptions.len(),
                *self == *old(self),
                self.wf(),
                forall|k: int| 0 <= k < i ==> !conflicts(#[trigger] self@.subscriptions[k], sub@),
            decreases self.subscriptions.len() - i,
        {
            if str_eq(self.subscriptions[i].id.as_str(), sub.id.as_str()) || str_eq(
                self.subscriptions[i].url.as_str(),
                sub.url.as_str(),
            ) {
                assert(conflicts(self@.subscriptions[i as int], sub@));
                return Err("Subscription already exists".to_owned());
            }
            i += 1;
        }
        self.subscriptions.push(sub.clone());
        assert(self@.subscriptions =~= old(self)@.subscriptions.push(sub@));
        Ok(())
    }

    /// Whether a channel is subscribed to.
    pub fn has_subscription(&self, id: &str) -> (r: bool)
        ensures
            r == (subscription_position(self@.subscriptions, id@, 0) is Some),
    {
        let mut i: usize = 0;
        while i < self.subscriptions.len()
            invariant
                i <= self.subscriptions.len(),
                subscription_position(self@.subscriptions, id@, 0) == subscription_position(
                    self@.subscriptions,
                    id@,
                    i as int,
                ),
            decreases self.subscriptions.len() - i,
        {
            if str_eq(self.subscriptions[i].id.as_str(), id) {
                assert(self@.subscriptions[i as int].id == id@);
                return true;
            }
            assert(self@.subscriptions[i as int].id != id@);
            i += 1;
        }
        false
    }

    /// Removes the subscription with the given id.
    pub fn remove_subscription(&mut self, id: &str) -> (r: Result<(), String>)
        requires
            old(self).wf(),
        ensures
            final(self).wf(),
            match r {
                Ok(_) => subscription_position(old(self)@.subscriptions, id@, 0) matches Some(i)
                    && final(self)@ == (DatabaseView {
                    subscriptions: old(self)@.subscriptions.remove(i),
                    ..old(self)@
                }),
                Err(e) => subscription_position(old(self)@.subscriptions, id@, 0) is None
                    && final(self)@ == old(self)@ && e@ == "Subscription not found"@,
            },
    {
        let mut i: usize = 0;
        while i < self.subscriptions.len()
            invariant
                i <= self.subscriptions.len(),
                *self == *old(self),
                self.wf(),
                subscription_position(self@.subscriptions, id@, 0) == subscription_position(
                    self@.subscriptions,
                    id@,
                    i as int,
                ),
            decreases self.subscriptions.len() - i,
        {
            if str_eq(self.subscriptions[i].id.as_str(), id) {
                assert(self@.subscriptions[i as int].id == id@);
                self.subscriptions.remove(i);
                assert(self@.subscriptions =~= old(self)@.subscriptions.remove(i as int));
                assert forall|a: int, b: int| 0 <= a < b < self@.subscriptions.len() implies !conflicts(
                    #[trigger] self@.subscriptions[a],
                    #[trigger] self@.subscriptions[b],
                ) by {
                    let a0 = if a < i { a } else { a + 1 };
                    let b0 = if b < i { b } else { b + 1 };
                    assert(self@.subscriptions[a] == old(self)@.subscriptions[a0]);
                    assert(self@.subscriptions[b] == old(self)@.subscriptions[b0]);
                }
                return Ok(());
            }
            assert(self@.subscriptions[i as int].id != id@);
            i += 1;
        }
        Err("Subscription not found".to_owned())
    }

    /// All subscriptions, ordered by name without regard to case;
    /// subscriptions whose names sort together stay in the order in which
    /// they were added.
    pub fn get_subscriptions(&self) -> (r: Vec<Subscription>)
        ensures
            subscription_views(r@) == sorted_by(self@.subscriptions, by_name()),
            r.len() == self@.subscriptions.len(),
            subscription_views(r@).to_multiset() == self@.subscriptions.to_multiset(),
            forall|i: int, j: int|
                0 <= i < j < r.len() ==> nocase_le((#[trigger] r@[i]).name@, (#[trigger] r@[j]).name@),
    {
        let ghost le = by_name();
        let mut out: Vec<Subscription> = Vec::new();
        let mut keys: Vec<Vec<char>> = Vec::new();
        let mut i: usize = 0;
        assert(self@.subscriptions.take(0) =~= Seq::empty());
        assert(subscription_views(out@) =~= Seq::empty());
        while i < self.subscriptions.len()
            invariant
                i <= self.subscriptions.len(),
                le == by_name(),
                out.len() == keys.len() == i,
                forall|k: int| 0 <= k < out.len() ==> (#[trigger] keys@[k])@ == out@[k].name@,
                subscription_views(out@) == sorted_by(self@.subscriptions.take(i as int), le),
            decreases self.subscriptions.len() - i,
        {
            let sub = self.subscriptions[i].clone();
            let key = to_chars(sub.name.as_str());
            let ghost sorted = subscription_views(out@);
            let mut p: usize = out.len();
            assert(sorted.take(out.len() as int) =~= sorted);
            while p > 0 && !nocase_at_or_before(&keys[p - 1], &key)
                invariant
                    p <= out.len() == keys.len(),
                    le == by_name(),
                    key@ == sub@.name,
                    sorted == subscription_views(out@),
                    forall|k: int| 0 <= k < out.len() ==> (#[trigger] keys@[k])@ == out@[k].name@,
                    landing(sorted, sub@, le) == landing(sorted.take(p as int), sub@, le),
                decreases p,
            {
                assert(sorted.take(p as int).drop_last() =~= sorted.take(p - 1));
                assert(sorted.take(p as int).last() == out@[p - 1]@);
                p -= 1;
            }
            proof {
                lemma_insert_sorted(sorted, sub@, le);
                if p > 0 {
                    assert(sorted.take(p as int).last() == out@[p - 1]@);
                }
                assert(landing(sorted, sub@, le) == p);
                assert(self@.subscriptions.take(i + 1).drop_last() =~= self@.subscriptions.take(
                    i as int,
                ));
                assert(self@.subscriptions.take(i + 1).last() == sub@);
            }
            out.insert(p, sub);
            keys.insert(p, key);
            assert(subscription_views(out@) =~= sorted.insert(p as int, sub@));
            i += 1;
        }
        proof {
            let subs = self@.subscriptions;
            assert(subs.take(self.subscriptions.len() as int) =~= subs);
            lemma_sorted_by_len(subs, le);
            lemma_sorted_by_permutes(subs, le);
            assert forall|a: SubscriptionView, b: SubscriptionView| #[trigger] le(a, b) || le(b, a) by {
                lemma_nocase_total(a.name, b.name, 0);
            }
            assert forall|a: SubscriptionView, b: SubscriptionView, c: SubscriptionView| #[trigger]
                le(a, b) && #[trigger] le(b, c) implies le(a, c) by {
                lemma_nocase_transitive(a.name, b.name, c.name, 0);
            }
            lemma_sorted_by_ordered(subs, le);
            assert forall|i: int, j: int| 0 <= i < j < out.len() implies nocase_le(
                (#[trigger] out@[i]).name@,
                (#[trigger] out@[j]).name@,
            ) by {
                assert(le(sorted_by(subs, le)[i], sorted_by(subs, le)[j]));
                assert(subscription_views(out@)[i] == out@[i]@);
                assert(subscription_views(out@)[j] == out@[j]@);
            }
        }
        out
    }

    fn find_video(&self, id: &str) -> (r: Option<usize>)
        ensures
            match r {
                Some(i) => video_position(self@.videos, id@, 0) == Some(i as int) && i
                    < self.videos.len() && self.videos@[i as int].id@ == id@,
                None => video_position(self@.videos, id@, 0) is None,
            },
    {
        let mut i: usize = 0;
        while i < self.videos.len()
            invariant
                i <= self.videos.len(),
                video_position(self@.videos, id@, 0) == video_position(self@.videos, id@, i as int),
            decreases self.videos.len() - i,
        {
            if str_eq(self.videos[i].id.as_str(), id) {
                assert(self@.videos[i as int].id == id@);
                return Some(i);
            }
            assert(self@.videos[i as int].id != id@);
            i += 1;
        }
        None
    }

    fn store_video(&mut self, v: &Video)
        requires
            old(self).wf(),
        ensures
            final(self).wf(),
            final(self)@ == (DatabaseView { videos: upsert_one(old(self)@.videos, v@), ..old(self)@ }),
    {
        proof {
            lemma_upsert_one_distinct(self@.videos, v@);
        }
        match self.find_video(v.id.as_str()) {
            Some(i) => {
                let existing = &self.videos[i];
                let row = Video {
                    id: existing.id.clone(),
                    title: v.title.clone(),
                    url: v.url.clone(),
                    is_short: existing.is_short,
                    channel_name: clone_opt(&v.channel_name),
                    channel_id: clone_opt(&v.channel_id),
                    published_date: existing.published_date,
                    stored_at: clone_opt(&existing.stored_at),
                    relative_date: existing.relative_date.clone(),
                    duration: if v.duration.is_some() {
                        v.duration
                    } else {
                        existing.duration
                    },
                    duration_string: clone_opt(&existing.duration_string),
                    view_count: if v.view_count.is_some() {
                        v.view_count
                    } else {
                        existing.view_count
                    },
                };
                assert(row@ == merged(self@.videos[i as int], v@));
                self.videos.set(i, row);
                assert(self@.videos =~= upsert_one(old(self)@.videos, v@));
            },
            None => {
                let row = Video {
                    id: v.id.clone(),
                    title: v.title.clone(),
                    url: v.url.clone(),
                    is_short: v.is_short,
                    channel_name: clone_opt(&v.channel_name),
                    channel_id: clone_opt(&v.channel_id),
                    published_date: v.published_date,
                    stored_at: clone_opt(&v.stored_at),
                    relative_date: String::new(),
                    duration: v.duration,
                    duration_string: None,
                    view_count: v.view_count,
                };
                assert(row@ == as_row(v@));
                self.videos.push(row);
                assert(self@.videos =~= upsert_one(old(self)@.videos, v@));
            },
        }
    }

    /// Adds a video as a new row, unless a video with its id is stored
    /// already; then nothing changes.  Says whether the video was added.
    pub fn insert_video(&mut self, v: &Video) -> (added: bool)
        requires
            old(self).wf(),
        ensures
            final(self).wf(),
            added == (video_position(old(self)@.videos, v@.id, 0) is None),
            final(self)@ == (DatabaseView {
                videos: if added {
                    old(self)@.videos.push(as_row(v@))
                } else {
                    old(self)@.videos
                },
                ..old(self)@
            }),
    {
        proof {
            lemma_upsert_one_distinct(self@.videos, v@);
        }
        match self.find_video(v.id.as_str()) {
            Some(_) => false,
            None => {
                self.store_video(v);
                true
            },
        }
    }

    /// Stores videos, one after the other: a video whose id is new becomes a
    /// new row; one whose id is stored already is merged into its row (see
    /// [`merged`]).  Returns the number of rows written, one for each video
    /// given.
    pub fn store_videos(&mut self, videos: &Vec<Video>) -> (count: usize)
        requires
            old(self).wf(),
        ensures
            final(self).wf(),
            final(self)@ == (DatabaseView {
                videos: upsert_all(old(self)@.videos, video_views(videos@)),
                ..old(self)@
            }),
            count == videos.len(),
    {
        let ghost items = video_views(videos@);
        let mut i: usize = 0;
        assert(items.take(0) =~= Seq::empty());
        while i < videos.len()
            invariant
                i <= videos.len(),
                items == video_views(videos@),
                self.wf(),
                self@ == (DatabaseView {
                    videos: upsert_all(old(self)@.videos, items.take(i as int)),
                    ..old(self)@
                }),
            decreases videos.len() - i,
        {
            assert(items.take(i + 1).drop_last() =~= items.take(i as int));
            assert(items.take(i + 1).last() == videos@[i as int]@);
            self.store_video(&videos[i]);
            i += 1;
        }
        assert(items.take(videos.len() as int) =~= items);
        i
    }

    /// The videos of one channel, newest first, as seen at the instant `now`.
    pub fn get_stored_videos_at(&self, channel_id: &str, now: i64) -> (r: Vec<Video>)
        ensures
            video_views(r@) == presented(
                sorted_by(self@.videos.filter(in_channel(channel_id@)), by_date()),
                now,
            ),
    {
        let ghost pred = in_channel(channel_id@);
        let ghost rows = self@.videos;
        let mut selected: Vec<Video> = Vec::new();
        let mut i: usize = 0;
        proof {
            assert(rows.take(0) =~= Seq::empty());
            reveal(Seq::filter);
            assert(video_views(selected@) =~= rows.take(0).filter(pred));
        }
        while i < self.videos.len()
            invariant
                i <= self.videos.len(),
                rows == self@.videos,
                pred == in_channel(channel_id@),
                video_views(selected@) == rows.take(i as int).filter(pred),
            decreases self.videos.len() - i,
        {
            broadcast use Seq::lemma_filter_push;

            let v = &self.videos[i];
            assert(rows.take(i + 1) =~= rows.take(i as int).push(v@));
            let hit = match &v.channel_id {
                Some(c) => str_eq(c.as_str(), channel_id),
                None => false,
            };
            assert(hit == pred(v@));
            if hit {
                let ghost before = video_views(selected@);
                selected.push(v.clone());
                assert(video_views(selected@) =~= before.push(v@));
            }
            i += 1;
        }
        assert(rows.take(self.videos.len() as int) =~= rows);
        let sorted = sort_newest_first(selected);
        present_all(&sorted, 0, sorted.len(), now)
    }

    /// The ids of the videos of one channel that are shown, newest first.
    pub fn channel_video_ids(&self, channel_id: &str, hide_shorts: bool) -> (r: Vec<String>)
        ensures
            string_views(r@) == shown_ids(
                sorted_by(self@.videos.filter(in_channel(channel_id@)), by_date()),
                hide_shorts,
            ),
    {
        let listed = self.get_stored_videos_at(channel_id, 0);
        let ghost rows = sorted_by(self@.videos.filter(in_channel(channel_id@)), by_date());
        let mut ids: Vec<String> = Vec::new();
        let mut i: usize = 0;
        assert(rows.take(0) =~= Seq::empty());
        assert(string_views(ids@) =~= shown_ids(rows.take(0), hide_shorts));
        assert(rows.len() == listed.len()) by {
            assert(video_views(listed@).len() == listed@.len());
        }
        while i < listed.len()
            invariant
                i <= listed.len() == rows.len(),
                video_views(listed@) == presented(rows, 0),
                string_views(ids@) == shown_ids(rows.take(i as int), hide_shorts),
            decreases listed.len() - i,
        {
            assert(rows.take(i + 1).drop_last() =~= rows.take(i as int));
            assert(video_views(listed@)[i as int] == present(rows[i as int], 0));
            if !(hide_shorts && listed[i].is_short) {
                let ghost before = string_views(ids@);
                ids.push(listed[i].id.clone());
                assert(string_views(ids@) =~= before.push(rows[i as int].id));
            }
            i += 1;
        }
        assert(rows.take(listed.len() as int) =~= rows);
        ids
    }

    /// The ids of the videos of one channel whose metadata is known: those
    /// with a duration.
    pub fn enriched_video_ids(&self, channel_id: &str) -> (r: StringHashSet)
        ensures
            r@ == self@.enriched_ids(channel_id@),
    {
        let ghost rows = self@.videos;
        let mut r = StringHashSet::new();
        let mut i: usize = 0;
        while i < self.videos.len()
            invariant
                i <= self.videos.len(),
                rows == self@.videos,
                forall|id: Seq<char>|
                    r@.contains(id) <==> exists|k: int|
                        0 <= k < i && #[trigger] is_enriched(rows[k], channel_id@, id),
            decreases self.videos.len() - i,
        {
            let v = &self.videos[i];
            let ghost before = r@;
            let in_channel = match &v.channel_id {
                Some(c) => str_eq(c.as_str(), channel_id),
                None => false,
            };
            if in_channel && v.duration.is_some() {
                r.insert(v.id.clone());
                assert(is_enriched(rows[i as int], channel_id@, v@.id));
            }
            assert forall|id: Seq<char>| r@.contains(id) <==> exists|k: int|
                0 <= k < i + 1 && #[trigger] is_enriched(rows[k], channel_id@, id) by {
                if r@.contains(id) && !before.contains(id) {
                    assert(is_enriched(rows[i as int], channel_id@, id));
                }
                if before.contains(id) {
                    let k = choose|k: int| 0 <= k < i && #[trigger] is_enriched(rows[k], channel_id@, id);
                    assert(is_enriched(rows[k], channel_id@, id));
                }
                if exists|k: int| 0 <= k < i + 1 && #[trigger] is_enriched(rows[k], channel_id@, id) {
                    let k = choose|k: int| 0 <= k < i + 1 && #[trigger] is_enriched(rows[k], channel_id@, id);
                    if k < i {
                        assert(before.contains(id));
                    }
                }
            }
            i += 1;
        }
        assert(r@ =~= self@.enriched_ids(channel_id@));
        r
    }

    /// The videos of one channel, newest first, as seen now.
    pub fn get_stored_videos(&self, channel_id: &str) -> (r: Vec<Video>)
        ensures
            exists|now: i64|
                video_views(r@) == #[trigger] presented(
                    sorted_by(self@.videos.filter(in_channel(channel_id@)), by_date()),
                    now,
                ),
    {
        let now = now();
        self.get_stored_videos_at(channel_id, now)
    }

    /// One page of the listing of the given channels (of all videos where
    /// `channel_ids` is `None`), newest first, as seen at the instant `now`.
    ///
    /// The page size used is `page_size` brought into `1..=1000`.  `total` is
    /// the length of the whole listing, whatever the page and its size; a
    /// page past the end is empty.
    pub fn get_stored_videos_paginated_at(
        &self,
        channel_ids: Option<&Vec<String>>,
        page: usize,
        page_size: usize,
        now: i64,
    ) -> (r: PaginatedResult)
        ensures
            r.page == page,
            r.page_size == clamp_page_size(page_size as int),
            r.total == self@.videos.filter(in_scope(scope_view(channel_ids))).len(),
            video_views(r.videos@) == presented(
                sorted_by(
                    self@.videos.filter(in_scope(scope_view(channel_ids))),
                    by_date(),
                ).subrange(
                    page_start(r.total as int, r.page_size as int, page as int),
                    page_end(r.total as int, r.page_size as int, page as int),
                ),
                now,
            ),
            r.videos.len() == page_len(r.total as int, r.page_size as int, page as int),
            channel_ids matches Some(ids) && ids.len() == 0 ==> r.total == 0 && r.videos.len() == 0,
    {
        let size: usize = if page_size < 1 {
            1
        } else if page_size > 1000 {
            1000
        } else {
            page_size
        };
        if let Some(ids) = channel_ids {
            if ids.len() == 0 {
                let ghost rows = self@.videos;
                let ghost pred = in_scope(scope_view(channel_ids));
                let videos: Vec<Video> = Vec::new();
                proof {
                    assert(string_views(ids@).len() == 0);
                    assert forall|k: int| 0 <= k < rows.len() implies !pred(#[trigger] rows[k]) by {}
                    rows.lemma_all_neg_filter_empty(pred);
                    assert(sorted_by(rows.filter(pred), by_date()) =~= Seq::<VideoView>::empty());
                    assert(page_start(0, size as int, page as int) == 0);
                    assert(page_end(0, size as int, page as int) == 0);
                    assert(video_views(videos@) =~= presented(
                        Seq::<VideoView>::empty().subrange(0, 0),
                        now,
                    ));
                }
                return PaginatedResult { total: 0, page, page_size: size, videos };
            }
        }
        let ghost scope = scope_view(channel_ids);
        let ghost pred = in_scope(scope);
        let ghost rows = self@.videos;
        let mut selected: Vec<Video> = Vec::new();
        let mut i: usize = 0;
        proof {
            assert(rows.take(0) =~= Seq::empty());
            reveal(Seq::filter);
            assert(video_views(selected@) =~= rows.take(0).filter(pred));
        }
        while i < self.videos.len()
            invariant
                i <= self.videos.len(),
                rows == self@.videos,
                scope == scope_view(channel_ids),
                pred == in_scope(scope),
                video_views(selected@) == rows.take(i as int).filter(pred),
                selected.len() <= i,
            decreases self.videos.len() - i,
        {
            broadcast use Seq::lemma_filter_push;

            let v = &self.videos[i];
            assert(rows.take(i + 1) =~= rows.take(i as int).push(v@));
            let hit = match channel_ids {
                None => true,
                Some(ids) => match &v.channel_id {
                    Some(c) => contains_string(ids, c.as_str()),
                    None => false,
                },
            };
            assert(hit == pred(v@));
            if hit {
                let ghost before = video_views(selected@);
                selected.push(v.clone());
                assert(video_views(selected@) =~= before.push(v@));
            }
            i += 1;
        }
        assert(rows.take(self.videos.len() as int) =~= rows);
        let total = selected.len();
        assert(total == rows.filter(pred).len()) by {
            assert(video_views(selected@).len() == selected@.len());
        }
        let sorted = sort_newest_first(selected);
        let start: usize = if page > total / size {
            assert(page * size >= total) by (nonlinear_arith)
                requires
                    page >= total / size + 1,
                    size > 0,
                    total >= 0,
            ;
            total
        } else {
            assert(page * size <= total) by (nonlinear_arith)
                requires
                    0 <= page <= total / size,
                    size > 0,
                    total >= 0,
            ;
            page * size
        };
        let end: usize = if total - start > size {
            start + size
        } else {
            total
        };
        assert(start == page_start(total as int, size as int, page as int));
        assert(end == page_end(total as int, size as int, page as int));
        let videos = present_all(&sorted, start, end, now);
        assert(videos.len() == end - start) by {
            assert(video_views(videos@).len() == videos@.len());
        }
        PaginatedResult { total, page, page_size: size, videos }
    }

    /// One page of the listing of the given channels, newest first, as seen now.
    pub fn get_stored_videos_paginated(
        &self,
        channel_ids: Option<&Vec<String>>,
        page: usize,
        page_size: usize,
    ) -> (r: PaginatedResult)
        ensures
            r.page == page,
            r.page_size == clamp_page_size(page_size as int),
            r.total == self@.videos.filter(in_scope(scope_view(channel_ids))).len(),
            r.videos.len() == page_len(r.total as int, r.page_size as int, page as int),
            channel_ids matches Some(ids) && ids.len() == 0 ==> r.total == 0 && r.videos.len() == 0,
            exists|now: i64|
                video_views(r.videos@) == #[trigger] presented(
                    sorted_by(
                        self@.videos.filter(in_scope(scope_view(channel_ids))),
                        by_date(),
                    ).subrange(
                        page_start(r.total as int, r.page_size as int, page as int),
                        page_end(r.total as int, r.page_size as int, page as int),
                    ),
                    now,
                ),
    {
        let now = now();
        self.get_stored_videos_paginated_at(channel_ids, page, page_size, now)
    }

    fn find_watched(&self, id: &str) -> (r: Option<usize>)
        ensures
            match r {
                Some(i) => id_position(self@.watched, id@, 0) == Some(i as int) && i
                    < self.watched.len(),
                None => id_position(self@.watched, id@, 0) is None,
            },
    {
        let mut i: usize = 0;
        while i < self.watched.len()
            invariant
                i <= self.watched.len(),
                id_position(self@.watched, id@, 0) == id_position(self@.watched, id@, i as int),
            decreases self.watched.len() - i,
        {
            if str_eq(self.watched[i].as_str(), id) {
                assert(self@.watched[i as int] == id@);
                return Some(i);
            }
            assert(self@.watched[i as int] != id@);
            i += 1;
        }
        None
    }

    /// Marks a video as watched.  Marking a watched video changes nothing.
    pub fn mark_as_watched(&mut self, video_id: &str)
        requires
            old(self).wf(),
        ensures
            final(self).wf(),
            final(self)@ == (DatabaseView {
                watched: marked(old(self)@.watched, video_id@),
                ..old(self)@
            }),
    {
        proof {
            lemma_id_position(self@.watched, video_id@, 0);
        }
        if self.find_watched(video_id).is_none() {
            self.watched.push(video_id.to_owned());
            assert(self@.watched =~= old(self)@.watched.push(video_id@));
        }
    }

    /// The ids of all watched videos.
    pub fn get_watched_ids(&self) -> (r: StringHashSet)
        ensures
            r@ == self@.watched.to_set(),
    {
        let ghost ids = self@.watched;
        let mut r = StringHashSet::new();
        let mut i: usize = 0;
        assert(ids.take(0).to_set() =~= Set::<Seq<char>>::empty());
        while i < self.watched.len()
            invariant
                i <= self.watched.len(),
                ids == self@.watched,
                r@ == ids.take(i as int).to_set(),
            decreases self.watched.len() - i,
        {
            broadcast use Seq::lemma_push_to_set_commute;

            assert(ids.take(i + 1) =~= ids.take(i as int).push(self.watched@[i as int]@));
            r.insert(self.watched[i].clone());
            i += 1;
        }
        assert(ids.take(self.watched.len() as int) =~= ids);
        r
    }

    /// Turns the watched mark of a video over and says whether the video is
    /// watched afterwards.
    pub fn toggle_watched(&mut self, video_id: &str) -> (now_watched: bool)
        requires
            old(self).wf(),
        ensures
            final(self).wf(),
            final(self)@ == (DatabaseView {
                watched: toggled(old(self)@.watched, video_id@),
                ..old(self)@
            }),
            now_watched == !old(self)@.watched.contains(video_id@),
            now_watched == final(self)@.watched.contains(video_id@),
    {
        proof {
            lemma_id_position(self@.watched, video_id@, 0);
        }
        match self.find_watched(video_id) {
            Some(i) => {
                self.watched.remove(i);
                let ghost before = old(self)@.watched;
                assert(self@.watched =~= before.remove(i as int));
                assert forall|a: int, b: int|
                    0 <= a < self@.watched.len() && 0 <= b < self@.watched.len() && a
                        != b implies self@.watched[a] != self@.watched[b] by {
                    let a0 = if a < i { a } else { a + 1 };
                    let b0 = if b < i { b } else { b + 1 };
                    assert(self@.watched[a] == before[a0]);
                    assert(self@.watched[b] == before[b0]);
                }
                assert(!self@.watched.contains(video_id@)) by {
                    if self@.watched.contains(video_id@) {
                        let k = choose|k: int| 0 <= k < self@.watched.len() && self@.watched[k] == video_id@;
                        let k0 = if k < i { k } else { k + 1 };
                        assert(before[k0] == video_id@);
                        assert(before[i as int] == video_id@);
                    }
                }
                false
            },
            None => {
                self.watched.push(video_id.to_owned());
                assert(self@.watched =~= old(self)@.watched.push(video_id@));
                assert(self@.watched[self@.watched.len() - 1] == video_id@);
                true
            },
        }
    }

    /// Marks each of the given videos as watched and returns how many of
    /// them were not marked before.
    pub fn mark_channel_all_watched(&mut self, video_ids: &Vec<String>) -> (count: usize)
        requires
            old(self).wf(),
        ensures
            final(self).wf(),
            final(self)@ == (DatabaseView {
                watched: marked_all(old(self)@.watched, string_views(video_ids@)),
                ..old(self)@
            }),
            count == final(self)@.watched.len() - old(self)@.watched.len(),
    {
        let ghost ids = string_views(video_ids@);
        let mut count: usize = 0;
        let mut i: usize = 0;
        assert(ids.take(0) =~= Seq::empty());
        while i < video_ids.len()
            invariant
                i <= video_ids.len(),
                ids == string_views(video_ids@),
                self.wf(),
                old(self).wf(),
                self@ == (DatabaseView {
                    watched: marked_all(old(self)@.watched, ids.take(i as int)),
                    ..old(self)@
                }),
                count == self@.watched.len() - old(self)@.watched.len(),
                count <= i,
            decreases video_ids.len() - i,
        {
            proof {
                assert(ids.take(i + 1).drop_last() =~= ids.take(i as int));
                assert(ids.take(i + 1).last() == video_ids@[i as int]@);
                lemma_id_position(self@.watched, video_ids@[i as int]@, 0);
            }
            if self.find_watched(video_ids[i].as_str()).is_none() {
                let ghost before = self@.watched;
                self.watched.push(video_ids[i].clone());
                assert(self@.watched =~= before.push(video_ids@[i as int]@));
                count += 1;
            }
            i += 1;
        }
        assert(ids.take(video_ids.len() as int) =~= ids);
        count
    }

    fn find_seen(&self, channel_id: &str) -> (r: Option<usize>)
        ensures
            match r {
                Some(i) => key_position(self@.seen, channel_id@, 0) == Some(i as int) && i
                    < self.seen.len() && value_of(self@.seen, channel_id@) == Some(
                    self.seen@[i as int].last_viewed_at,
                ),
                None => key_position(self@.seen, channel_id@, 0) is None && value_of(
                    self@.seen,
                    channel_id@,
                ) is None,
            },
    {
        let mut i: usize = 0;
        while i < self.seen.len()
            invariant
                i <= self.seen.len(),
                key_position(self@.seen, channel_id@, 0) == key_position(
                    self@.seen,
                    channel_id@,
                    i as int,
                ),
            decreases self.seen.len() - i,
        {
            if str_eq(self.seen[i].channel_id.as_str(), channel_id) {
                assert(self@.seen[i as int].0 == channel_id@);
                assert(self@.seen[i as int].1 == self.seen@[i as int].last_viewed_at);
                return Some(i);
            }
            assert(self@.seen[i as int].0 != channel_id@);
            i += 1;
        }
        None
    }

    /// Records when a channel's listing was last looked at, in place of what
    /// was recorded for that channel before.
    pub fn set_channel_last_viewed(&mut self, channel_id: &str, at: Option<i64>)
        requires
            old(self).wf(),
        ensures
            final(self).wf(),
            final(self)@ == (DatabaseView { seen: put(old(self)@.seen, channel_id@, at), ..old(self)@ }),
    {
        proof {
            lemma_put(self@.seen, channel_id@, at);
        }
        let row = ChannelSeen { channel_id: channel_id.to_owned(), last_viewed_at: at };
        match self.find_seen(channel_id) {
            Some(i) => {
                self.seen.set(i, row);
                assert(self@.seen =~= put(old(self)@.seen, channel_id@, at));
            },
            None => {
                self.seen.push(row);
                assert(self@.seen =~= put(old(self)@.seen, channel_id@, at));
            },
        }
    }

    /// Records that a channel's listing was looked at at the instant `now`.
    pub fn update_channel_last_viewed_at(&mut self, channel_id: &str, now: i64)
        requires
            old(self).wf(),
        ensures
            final(self).wf(),
            final(self)@ == (DatabaseView {
                seen: put(old(self)@.seen, channel_id@, Some(now)),
                ..old(self)@
            }),
    {
        self.set_channel_last_viewed(channel_id, Some(now));
    }

    /// Records that a channel's listing was looked at now.
    pub fn update_channel_last_viewed(&mut self, channel_id: &str)
        requires
            old(self).wf(),
        ensures
            final(self).wf(),
            exists|now: i64|
                final(self)@ == (DatabaseView {
                    seen: #[trigger] put(old(self)@.seen, channel_id@, Some(now)),
                    ..old(self)@
                }),
    {
        let now = now();
        self.update_channel_last_viewed_at(channel_id, now);
    }

    /// Records that the listings of all the given channels were looked at at
    /// the instant `now`.
    pub fn mark_all_channels_viewed_at(&mut self, channel_ids: &Vec<String>, now: i64)
        requires
            old(self).wf(),
        ensures
            final(self).wf(),
            final(self)@ == (DatabaseView {
                seen: put_all(old(self)@.seen, string_views(channel_ids@), Some(now)),
                ..old(self)@
            }),
    {
        let ghost ids = string_views(channel_ids@);
        let mut i: usize = 0;
        assert(ids.take(0) =~= Seq::empty());
        while i < channel_ids.len()
            invariant
                i <= channel_ids.len(),
                ids == string_views(channel_ids@),
                self.wf(),
                self@ == (DatabaseView {
                    seen: put_all(old(self)@.seen, ids.take(i as int), Some(now)),
                    ..old(self)@
                }),
            decreases channel_ids.len() - i,
        {
            assert(ids.take(i + 1).drop_last() =~= ids.take(i as int));
            assert(ids.take(i + 1).last() == channel_ids@[i as int]@);
            self.set_channel_last_viewed(channel_ids[i].as_str(), Some(now));
            i += 1;
        }
        assert(ids.take(channel_ids.len() as int) =~= ids);
    }

    /// Records that the listings of all the given channels were looked at now.
    pub fn mark_all_channels_viewed(&mut self, channel_ids: &Vec<String>)
        requires
            old(self).wf(),
        ensures
            final(self).wf(),
            exists|now: i64|
                final(self)@ == (DatabaseView {
                    seen: #[trigger] put_all(
                        old(self)@.seen,
                        string_views(channel_ids@),
                        Some(now),
                    ),
                    ..old(self)@
                }),
    {
        let now = now();
        self.mark_all_channels_viewed_at(channel_ids, now);
    }

    fn find_setting(&self, key: &str) -> (r: Option<usize>)
        ensures
            match r {
                Some(i) => key_position(self@.settings, key@, 0) == Some(i as int) && i
                    < self.settings.len() && value_of(self@.settings, key@) == Some(
                    self.settings@[i as int].value@,
                ),
                None => key_position(self@.settings, key@, 0) is None && value_of(
                    self@.settings,
                    key@,
                ) is None,
            },
    {
        let mut i: usize = 0;
        while i < self.settings.len()
            invariant
                i <= self.settings.len(),
                key_position(self@.settings, key@, 0) == key_position(self@.settings, key@, i as int),
            decreases self.settings.len() - i,
        {
            if str_eq(self.settings[i].key.as_str(), key) {
                assert(self@.settings[i as int].0 == key@);
                assert(self@.settings[i as int].1 == self.settings@[i as int].value@);
                return Some(i);
            }
            assert(self@.settings[i as int].0 != key@);
            i += 1;
        }
        None
    }

    /// Stores a setting, in place of the value that the key had before.
    pub fn update_setting(&mut self, key: &str, value: &str)
        requires
            old(self).wf(),
        ensures
            final(self).wf(),
            final(self)@ == (DatabaseView {
                settings: put(old(self)@.settings, key@, value@),
                ..old(self)@
            }),
    {
        proof {
            lemma_put(self@.settings, key@, value@);
        }
        let row = Setting { key: key.to_owned(), value: value.to_owned() };
        match self.find_setting(key) {
            Some(i) => {
                self.settings.set(i, row);
                assert(self@.settings =~= put(old(self)@.settings, key@, value@));
            },
            None => {
                self.settings.push(row);
                assert(self@.settings =~= put(old(self)@.settings, key@, value@));
            },
        }
    }

    /// The user's preferences: what the stored settings say, and the
    /// defaults for the rest.
    pub fn get_settings(&self) -> (r: Settings)
        ensures
            r@ == settings_of(self@.settings),
    {
        let mut settings = Settings::default();
        if let Some(i) = self.find_setting("player") {
            if let Some(Json::Text(s)) = parse_json(self.settings[i].value.as_str()) {
                settings.player = s;
            }
        }
        if let Some(i) = self.find_setting("videosPerChannel") {
            if let Some(Json::Number { signed: Some(n), unsigned }) = parse_json(
                self.settings[i].value.as_str(),
            ) {
                settings.videos_per_channel = n;
            }
        }
        if let Some(i) = self.find_setting("hideShorts") {
            if let Some(Json::Bool(b)) = parse_json(self.settings[i].value.as_str()) {
                settings.hide_shorts = b;
            }
        }
        settings
    }

    /// All subscriptions, in the order in which they were added.
    pub fn subscription_rows(&self) -> (r: Vec<Subscription>)
        ensures
            subscription_views(r@) == self@.subscriptions,
    {
        let mut out: Vec<Subscription> = Vec::new();
        let mut i: usize = 0;
        while i < self.subscriptions.len()
            invariant
                i <= self.subscriptions.len(),
                subscription_views(out@) == self@.subscriptions.take(i as int),
            decreases self.subscriptions.len() - i,
        {
            let ghost before = subscription_views(out@);
            out.push(self.subscriptions[i].clone());
            assert(subscription_views(out@) =~= before.push(self.subscriptions@[i as int]@));
            assert(subscription_views(out@) =~= self@.subscriptions.take(i + 1));
            i += 1;
        }
        assert(self@.subscriptions.take(self.subscriptions.len() as int) =~= self@.subscriptions);
        out
    }

    /// All videos as they are stored, in the order in which they were added.
    pub fn video_rows(&self) -> (r: Vec<Video>)
        ensures
            video_views(r@) == self@.videos,
    {
        let mut out: Vec<Video> = Vec::new();
        let mut i: usize = 0;
        while i < self.videos.len()
            invariant
                i <= self.videos.len(),
                video_views(out@) == self@.videos.take(i as int),
            decreases self.videos.len() - i,
        {
            let ghost before = video_views(out@);
            out.push(self.videos[i].clone());
            assert(video_views(out@) =~= before.push(self.videos@[i as int]@));
            assert(video_views(out@) =~= self@.videos.take(i + 1));
            i += 1;
        }
        assert(self@.videos.take(self.videos.len() as int) =~= self@.videos);
        out
    }

    /// The ids of all watched videos, in the order in which they were marked.
    pub fn watched_rows(&self) -> (r: Vec<String>)
        ensures
            string_views(r@) == self@.watched,
    {
        clone_strings(&self.watched)
    }

    /// The names of all migrations that have run, in the order in which
    /// they ran.
    pub fn migration_rows(&self) -> (r: Vec<String>)
        ensures
            string_views(r@) == self@.migrations,
    {
        clone_strings(&self.migrations)
    }

    /// Each channel that was looked at, with the time, in the order in
    /// which they were first looked at.
    pub fn seen_rows(&self) -> (r: Vec<ChannelSeen>)
        ensures
            seen_views(r@) == self@.seen,
    {
        let mut out: Vec<ChannelSeen> = Vec::new();
        let mut i: usize = 0;
        while i < self.seen.len()
            invariant
                i <= self.seen.len(),
                seen_views(out@) == self@.seen.take(i as int),
            decreases self.seen.len() - i,
        {
            let ghost before = seen_views(out@);
            let row = ChannelSeen {
                channel_id: self.seen[i].channel_id.clone(),
                last_viewed_at: self.seen[i].last_viewed_at,
            };
            out.push(row);
            assert(seen_views(out@) =~= before.push(
                (self.seen@[i as int].channel_id@, self.seen@[i as int].last_viewed_at),
            ));
            assert(seen_views(out@) =~= self@.seen.take(i + 1));
            i += 1;
        }
        assert(self@.seen.take(self.seen.len() as int) =~= self@.seen);
        out
    }

    /// All settings as they are stored, in the order in which their keys
    /// were first set.
    pub fn setting_rows(&self) -> (r: Vec<Setting>)
        ensures
            setting_views(r@) == self@.settings,
    {
        let mut out: Vec<Setting> = Vec::new();
        let mut i: usize = 0;
        while i < self.settings.len()
            invariant
                i <= self.settings.len(),
                setting_views(out@) == self@.settings.take(i as int),
            decreases self.settings.len() - i,
        {
            let ghost before = setting_views(out@);
            let row = Setting {
                key: self.settings[i].key.clone(),
                value: self.settings[i].value.clone(),
            };
            out.push(row);
            assert(setting_views(out@) =~= before.push(
                (self.settings@[i as int].key@, self.settings@[i as int].value@),
            ));
            assert(setting_views(out@) =~= self@.settings.take(i + 1));
            i += 1;
        }
        assert(self@.settings.take(self.settings.len() as int) =~= self@.settings);
        out
    }

    /// Whether the migration of the given name has run.
    pub fn has_migration(&self, name: &str) -> (r: bool)
        ensures
            r == self@.migrations.contains(name@),
    {
        contains_string(&self.migrations, name)
    }

    /// Records that the migration of the given name has run.
    pub fn mark_migration(&mut self, name: &str)
        requires
            old(self).wf(),
        ensures
            final(self).wf(),
            final(self)@ == (DatabaseView {
                migrations: marked(old(self)@.migrations, name@),
                ..old(self)@
            }),
    {
        if !contains_string(&self.migrations, name) {
            self.migrations.push(name.to_owned());
            assert(self@.migrations =~= old(self)@.migrations.push(name@));
        }
    }

    /// For each channel that has new videos, how many (see [`is_new`]).
    /// A channel without new videos has no entry.
    pub fn get_new_video_counts(&self, hide_shorts: bool) -> (r: StringHashMap<usize>)
        ensures
            r@ == self@.new_counts(hide_shorts),
    {
        let ghost f = new_key(self@.seen, hide_shorts);
        let ghost rows = self@.videos;
        let mut keys: Vec<Option<String>> = Vec::new();
        let mut i: usize = 0;
        assert(key_views(keys@) =~= rows.take(0).map_values(f));
        while i < self.videos.len()
            invariant
                i <= self.videos.len(),
                rows == self@.videos,
                f == new_key(self@.seen, hide_shorts),
                key_views(keys@) == rows.take(i as int).map_values(f),
            decreases self.videos.len() - i,
        {
            let v = &self.videos[i];
            let key: Option<String> = if hide_shorts && v.is_short {
                None
            } else {
                match (&v.channel_id, v.published_date) {
                    (Some(ch), Some(published)) => {
                        let fresh = match self.find_seen(ch.as_str()) {
                            Some(k) => match self.seen[k].last_viewed_at {
                                Some(at) => published > at,
                                None => true,
                            },
                            None => true,
                        };
                        if fresh {
                            Some(ch.clone())
                        } else {
                            None
                        }
                    },
                    _ => None,
                }
            };
            assert(opt_view(key) == f(v@));
            let ghost before = key_views(keys@);
            keys.push(key);
            assert(key_views(keys@) =~= before.push(f(v@)));
            assert(rows.take(i + 1).map_values(f) =~= rows.take(i as int).map_values(f).push(f(v@)));
            i += 1;
        }
        assert(rows.take(self.videos.len() as int) =~= rows);
        let r = tally(&keys);
        assert(r@ =~= self@.new_counts(hide_shorts)) by {
            assert forall|ch: Seq<char>| #[trigger] r@.contains_key(ch) implies r@[ch]
                == self@.new_count(ch, hide_shorts) by {
                assert(r@[ch] == occurrences(key_views(keys@), ch));
            }
            assert forall|ch: Seq<char>| self@.new_count(ch, hide_shorts) > 0 implies #[trigger]
                r@.contains_key(ch) by {
                assert(occurrences(key_views(keys@), ch) > 0);
            }
        }
        r
    }

    /// The channels that are fully watched: those that have videos that are
    /// shown, all of which are watched.
    pub fn get_fully_watched_channels(&self, hide_shorts: bool) -> (r: StringHashSet)
        ensures
            r@ == self@.fully_watched_channels(hide_shorts),
    {
        let ghost f = shown_key(hide_shorts);
        let ghost g = watched_key(self@.watched, hide_shorts);
        let ghost rows = self@.videos;
        let index = self.get_watched_ids();
        let mut shown_keys: Vec<Option<String>> = Vec::new();
        let mut watched_keys: Vec<Option<String>> = Vec::new();
        let mut i: usize = 0;
        assert(key_views(shown_keys@) =~= rows.take(0).map_values(f));
        assert(key_views(watched_keys@) =~= rows.take(0).map_values(g));
        while i < self.videos.len()
            invariant
                i <= self.videos.len(),
                rows == self@.videos,
                f == shown_key(hide_shorts),
                g == watched_key(self@.watched, hide_shorts),
                index@ == self@.watched.to_set(),
                shown_keys.len() == i,
                key_views(shown_keys@) == rows.take(i as int).map_values(f),
                key_views(watched_keys@) == rows.take(i as int).map_values(g),
            decreases self.videos.len() - i,
        {
            let v = &self.videos[i];
            let visible = !(hide_shorts && v.is_short);
            let seen_it = visible && index.contains(v.id.as_str());
            let ghost before_f = key_views(shown_keys@);
            let ghost before_g = key_views(watched_keys@);
            shown_keys.push(if visible { clone_opt(&v.channel_id) } else { None });
            watched_keys.push(if seen_it { clone_opt(&v.channel_id) } else { None });
            assert(key_views(shown_keys@) =~= before_f.push(f(v@)));
            assert(key_views(watched_keys@) =~= before_g.push(g(v@)));
            assert(rows.take(i + 1).map_values(f) =~= rows.take(i as int).map_values(f).push(f(v@)));
            assert(rows.take(i + 1).map_values(g) =~= rows.take(i as int).map_values(g).push(g(v@)));
            i += 1;
        }
        assert(rows.take(self.videos.len() as int) =~= rows);
        let totals = tally(&shown_keys);
        let watched = tally(&watched_keys);
        let ghost all = key_views(shown_keys@);
        let mut r = StringHashSet::new();
        let mut j: usize = 0;
        while j < shown_keys.len()
            invariant
                j <= shown_keys.len(),
                all == key_views(shown_keys@),
                all == rows.map_values(f),
                self@.videos == rows,
                f == shown_key(hide_shorts),
                g == watched_key(self@.watched, hide_shorts),
                forall|ch: Seq<char>|
                    (totals@.contains_key(ch) <==> occurrences(all, ch) > 0) && (totals@.contains_key(
                        ch,
                    ) ==> totals@[ch] == #[trigger] occurrences(all, ch)),
                forall|ch: Seq<char>|
                    (watched@.contains_key(ch) <==> occurrences(rows.map_values(g), ch) > 0) && (
                    watched@.contains_key(ch) ==> watched@[ch] == #[trigger] occurrences(
                        rows.map_values(g),
                        ch,
                    )),
                forall|ch: Seq<char>|
                    r@.contains(ch) <==> self@.fully_watched(ch, hide_shorts) && exists|k: int|
                        0 <= k < j && #[trigger] all[k] == Some(ch),
            decreases shown_keys.len() - j,
        {
            match &shown_keys[j] {
                Some(ch) => {
                    assert(all[j as int] == Some(ch@));
                    proof {
                        lemma_occurs(all, ch@, j as int);
                    }
                    let total: usize = match totals.get(ch.as_str()) {
                        Some(n) => *n,
                        None => 0,
                    };
                    let seen: usize = match watched.get(ch.as_str()) {
                        Some(n) => *n,
                        None => 0,
                    };
                    assert(total == self@.total(ch@, hide_shorts));
                    assert(seen == self@.watched_count(ch@, hide_shorts));
                    if total == seen {
                        r.insert(ch.clone());
                    }
                },
                None => {},
            }
            j += 1;
        }
        proof {
            assert forall|ch: Seq<char>| self@.fully_watched(ch, hide_shorts) implies r@.contains(
                ch,
            ) by {
                lemma_occurrence_witness(all, ch);
            }
            assert(r@ =~= self@.fully_watched_channels(hide_shorts));
        }
        r
    }

    /// For each channel that has videos that are shown: how many, and the
    /// date of the newest.  A channel without such videos has no entry.
    pub fn get_channel_stats(&self, hide_shorts: bool) -> (r: StringHashMap<ChannelStats>)
        ensures
            r@ == self@.channel_stats(hide_shorts),
    {
        let ghost f = shown_key(hide_shorts);
        let ghost rows = self@.videos;
        let mut r: StringHashMap<ChannelStats> = StringHashMap::new();
        let mut i: usize = 0;
        proof {
            assert(rows.take(0) =~= Seq::empty());
            assert(rows.take(0).map_values(f) =~= Seq::empty());
            reveal(Seq::filter);
        }
        while i < self.videos.len()
            invariant
                i <= self.videos.len(),
                rows == self@.videos,
                f == shown_key(hide_shorts),
                forall|ch: Seq<char>|
                    (r@.contains_key(ch) <==> occurrences(rows.take(i as int).map_values(f), ch) > 0)
                        && (r@.contains_key(ch) ==> r@[ch].video_count == #[trigger] occurrences(
                        rows.take(i as int).map_values(f),
                        ch,
                    ) && r@[ch].latest_date == latest(
                        rows.take(i as int).filter(shown_in(ch, hide_shorts)),
                    )),
            decreases self.videos.len() - i,
        {
            let v = &self.videos[i];
            let ghost before = rows.take(i as int);
            proof {
                assert(rows.take(i + 1) =~= before.push(v@));
                assert(rows.take(i + 1).map_values(f) =~= before.map_values(f).push(f(v@)));
                assert forall|ch: Seq<char>| #[trigger]
                    occurrences(rows.take(i + 1).map_values(f), ch) == occurrences(
                        before.map_values(f),
                        ch,
                    ) + (if f(v@) == Some(ch) {
                        1nat
                    } else {
                        0nat
                    }) && latest(rows.take(i + 1).filter(shown_in(ch, hide_shorts))) == (if f(v@)
                        == Some(ch) {
                        later(latest(before.filter(shown_in(ch, hide_shorts))), v@.published_date)
                    } else {
                        latest(before.filter(shown_in(ch, hide_shorts)))
                    }) by {
                    before.map_values(f).lemma_filter_len_push(is_key(ch), f(v@));
                    before.lemma_filter_push(v@, shown_in(ch, hide_shorts));
                    let kept = before.filter(shown_in(ch, hide_shorts));
                    if f(v@) == Some(ch) {
                        assert(kept.push(v@).drop_last() =~= kept);
                    }
                }
            }
            if !(hide_shorts && v.is_short) {
                if let Some(ch) = &v.channel_id {
                    assert(f(v@) == Some(ch@));
                    proof {
                        before.map_values(f).lemma_filter_len(is_key(ch@));
                    }
                    let ghost known = occurrences(before.map_values(f), ch@);
                    assert(known <= i);
                    let stats = match r.get(ch.as_str()) {
                        Some(old) => {
                            assert(old.video_count == known);
                            ChannelStats {
                                video_count: old.video_count + 1,
                                latest_date: later_of(old.latest_date, v.published_date),
                            }
                        },
                        None => {
                            assert(known == 0);
                            assert(before.filter(shown_in(ch@, hide_shorts)).len() == 0) by {
                                lemma_no_occurrence(before, ch@, hide_shorts);
                            }
                            ChannelStats {
                                video_count: 1,
                                latest_date: later_of(None, v.published_date),
                            }
                        },
                    };
                    r.insert(ch.clone(), stats);
                }
            }
            proof {
                let next = rows.take(i + 1);
                assert forall|ch: Seq<char>| r@.contains_key(ch) implies r@[ch].latest_date == latest(
                    next.filter(shown_in(ch, hide_shorts)),
                ) by {
                    assert(occurrences(next.map_values(f), ch) >= 0);
                }
            }
            i += 1;
        }
        assert(rows.take(self.videos.len() as int) =~= rows);
        assert(r@ =~= self@.channel_stats(hide_shorts)) by {
            assert forall|ch: Seq<char>| #[trigger] r@.contains_key(ch) implies r@[ch]
                == self@.channel_stats(hide_shorts)[ch] by {
                assert(r@[ch].video_count == occurrences(rows.map_values(f), ch));
            }
            assert forall|ch: Seq<char>| self@.total(ch, hide_shorts) > 0 implies #[trigger]
                r@.contains_key(ch) by {
                assert(occurrences(rows.map_values(f), ch) > 0);
            }
        }
        r
    }
}

/// The characters of each key.
pub open spec fn key_views(keys: Seq<Option<String>>) -> Seq<Option<Seq<char>>> {
    keys.map_values(|k: Option<String>| opt_view(k))
}

/// Counts how often each key occurs; a key that never occurs has no entry.
pub fn tally(keys: &Vec<Option<String>>) -> (m: StringHashMap<usize>)
    ensures
        forall|ch: Seq<char>|
            (m@.contains_key(ch) <==> occurrences(key_views(keys@), ch) > 0) && (m@.contains_key(ch)
                ==> m@[ch] == #[trigger] occurrences(key_views(keys@), ch)),
{
    let ghost all = key_views(keys@);
    let mut m: StringHashMap<usize> = StringHashMap::new();
    let mut i: usize = 0;
    proof {
        assert(all.take(0) =~= Seq::empty());
        reveal(Seq::filter);
    }
    while i < keys.len()
        invariant
            i <= keys.len(),
            all == key_views(keys@),
            forall|ch: Seq<char>|
                (m@.contains_key(ch) <==> occurrences(all.take(i as int), ch) > 0) && (
                m@.contains_key(ch) ==> m@[ch] == #[trigger] occurrences(all.take(i as int), ch)),
        decreases keys.len() - i,
    {
        let ghost before = all.take(i as int);
        let ghost k = all[i as int];
        proof {
            assert(all.take(i + 1) =~= before.push(k));
            assert forall|ch: Seq<char>| #[trigger]
                occurrences(all.take(i + 1), ch) == occurrences(before, ch) + (if k == Some(ch) {
                    1nat
                } else {
                    0nat
                }) by {
                before.lemma_filter_len_push(is_key(ch), k);
            }
        }
        match &keys[i] {
            Some(ch) => {
                assert(k == Some(ch@));
                proof {
                    before.lemma_filter_len(is_key(ch@));
                }
                let n: usize = match m.get(ch.as_str()) {
                    Some(n) => *n,
                    None => 0,
                };
                assert(n == occurrences(before, ch@));
                m.insert(ch.clone(), n + 1);
            },
            None => {},
        }
        i += 1;
    }
    assert(all.take(keys.len() as int) =~= all);
    m
}

/// Where a channel does not occur among the keys of the shown videos, none
/// of the videos is a shown video of that channel.
pub proof fn lemma_no_occurrence(rows: Seq<VideoView>, channel: Seq<char>, hide_shorts: bool)
    requires
        occurrences(rows.map_values(shown_key(hide_shorts)), channel) == 0,
    ensures
        rows.filter(shown_in(channel, hide_shorts)).len() == 0,
{
    let pred = shown_in(channel, hide_shorts);
    let hits = rows.filter(pred);
    if hits.len() > 0 {
        assert(hits.contains(hits[0]));
        rows.lemma_filter_contains_rev(pred, hits[0]);
        rows.lemma_filter_pred(pred, 0);
        let k = choose|k: int| 0 <= k < rows.len() && rows[k] == hits[0];
        let keys = rows.map_values(shown_key(hide_shorts));
        assert(keys[k] == Some(channel));
        lemma_occurs(keys, channel, k);
    }
}

/// The later of two dates, where `None` is no date.
fn later_of(a: Option<i64>, b: Option<i64>) -> (r: Option<i64>)
    ensures
        r == later(a, b),
{
    match a {
        Some(x) => match b {
            Some(y) => if x >= y {
                a
            } else {
                b
            },
            None => a,
        },
        None => b,
    }
}

/// A key that stands at some position occurs at least once.
pub proof fn lemma_occurs(keys: Seq<Option<Seq<char>>>, channel: Seq<char>, at: int)
    requires
        0 <= at < keys.len(),
        keys[at] == Some(channel),
    ensures
        occurrences(keys, channel) > 0,
{
    let pred = is_key(channel);
    assert(pred(keys[at]));
    keys.lemma_filter_contains(pred, at);
    let hits = keys.filter(pred);
    let k = choose|k: int| 0 <= k < hits.len() && hits[k] == keys[at];
}

/// A key that occurs stands at some position.
pub proof fn lemma_occurrence_witness(keys: Seq<Option<Seq<char>>>, channel: Seq<char>)
    requires
        occurrences(keys, channel) > 0,
    ensures
        exists|k: int| 0 <= k < keys.len() && #[trigger] keys[k] == Some(channel),
{
    let pred = is_key(channel);
    let hits = keys.filter(pred);
    assert(hits.contains(hits[0]));
    keys.lemma_filter_contains_rev(pred, hits[0]);
    keys.lemma_filter_pred(pred, 0);
    let k = choose|k: int| 0 <= k < keys.len() && keys[k] == hits[0];
    assert(keys[k] == Some(channel));
}

/// The channel ids that a listing is asked for.
pub open spec fn scope_view(channel_ids: Option<&Vec<String>>) -> Option<Seq<Seq<char>>> {
    match channel_ids {
        Some(ids) => Some(string_views(ids@)),
        None => None,
    }
}

fn clone_strings(rows: &Vec<String>) -> (r: Vec<String>)
    ensures
        string_views(r@) == string_views(rows@),
{
    let mut out: Vec<String> = Vec::new();
    let mut i: usize = 0;
    while i < rows.len()
        invariant
            i <= rows.len(),
            string_views(out@) == string_views(rows@).take(i as int),
        decreases rows.len() - i,
    {
        let ghost before = string_views(out@);
        out.push(rows[i].clone());
        assert(string_views(out@) =~= before.push(rows@[i as int]@));
        assert(string_views(out@) =~= string_views(rows@).take(i + 1));
        i += 1;
    }
    assert(string_views(rows@).take(rows.len() as int) =~= string_views(rows@));
    out
}

/// Whether `id` is among `ids`.
pub fn contains_string(ids: &Vec<String>, id: &str) -> (r: bool)
    ensures
        r == string_views(ids@).contains(id@),
{
    let mut i: usize = 0;
    while i < ids.len()
        invariant
            i <= ids.len(),
            forall|k: int| 0 <= k < i ==> string_views(ids@)[k] != id@,
        decreases ids.len() - i,
    {
        if str_eq(ids[i].as_str(), id) {
            assert(string_views(ids@)[i as int] == id@);
            return true;
        }
        i += 1;
    }
    false
}

/// Whether a video with date `a` is listed at or before one with date `b`.
fn date_at_or_before(a: Option<i64>, b: Option<i64>, undated_as_epoch: bool) -> (r: bool)
    ensures
        r == if undated_as_epoch {
            date_or_epoch(a) >= date_or_epoch(b)
        } else {
            newer_or_same(a, b)
        },
{
    if undated_as_epoch {
        let x = match a {
            Some(x) => x,
            None => 0,
        };
        let y = match b {
            Some(y) => y,
            None => 0,
        };
        x >= y
    } else {
        match a {
            Some(x) => match b {
                Some(y) => x >= y,
                None => true,
            },
            None => b.is_none(),
        }
    }
}

/// The videos of `base`, and behind them those of `fresh` whose id has
/// not come before, in the order of the screen (see [`by_date_or_epoch`]).
pub fn merge_for_screen(base: Vec<Video>, fresh: &Vec<Video>) -> (out: Vec<Video>)
    ensures
        video_views(out@) == sorted_by(
            merged_unseen(video_views(base@), video_views(fresh@)),
            by_date_or_epoch(),
        ),
{
    let ghost start = video_views(base@);
    let ghost items = video_views(fresh@);
    let mut merged = base;
    let mut i: usize = 0;
    assert(items.take(0) =~= Seq::empty());
    while i < fresh.len()
        invariant
            i <= fresh.len(),
            items == video_views(fresh@),
            video_views(merged@) == merged_unseen(start, items.take(i as int)),
        decreases fresh.len() - i,
    {
        assert(items.take(i + 1).drop_last() =~= items.take(i as int));
        assert(items.take(i + 1).last() == fresh@[i as int]@);
        let ghost rows = video_views(merged@);
        let mut k: usize = 0;
        let mut seen = false;
        while k < merged.len() && !seen
            invariant
                k <= merged.len(),
                i < fresh.len(),
                rows == video_views(merged@),
                !seen ==> video_position(rows, fresh@[i as int]@.id, 0) == video_position(
                    rows,
                    fresh@[i as int]@.id,
                    k as int,
                ),
                seen ==> video_position(rows, fresh@[i as int]@.id, 0) is Some,
            decreases merged.len() - k + if seen { 0int } else { 1int },
        {
            if str_eq(merged[k].id.as_str(), fresh[i].id.as_str()) {
                assert(rows[k as int].id == fresh@[i as int]@.id);
                seen = true;
            } else {
                assert(rows[k as int].id != fresh@[i as int]@.id);
                k += 1;
            }
        }
        if !seen {
            merged.push(fresh[i].clone());
            assert(video_views(merged@) =~= rows.push(fresh@[i as int]@));
        }
        i += 1;
    }
    assert(items.take(fresh.len() as int) =~= items);
    sort_videos(merged, true)
}

/// The given videos, newest first.
fn sort_newest_first(rows: Vec<Video>) -> (out: Vec<Video>)
    ensures
        video_views(out@) == sorted_by(video_views(rows@), by_date()),
        out.len() == rows.len(),
{
    sort_videos(rows, false)
}

/// The order of videos by date, with or without 1970 standing in for no date.
pub open spec fn date_order(undated_as_epoch: bool) -> spec_fn(VideoView, VideoView) -> bool {
    if undated_as_epoch {
        by_date_or_epoch()
    } else {
        by_date()
    }
}

/// The given videos, newest first.
fn sort_videos(rows: Vec<Video>, undated_as_epoch: bool) -> (out: Vec<Video>)
    ensures
        video_views(out@) == sorted_by(video_views(rows@), date_order(undated_as_epoch)),
        out.len() == rows.len(),
{
    let ghost le = date_order(undated_as_epoch);
    let ghost input = video_views(rows@);
    let mut out: Vec<Video> = Vec::new();
    let mut i: usize = 0;
    assert(input.take(0) =~= Seq::empty());
    assert(video_views(out@) =~= Seq::empty());
    while i < rows.len()
        invariant
            i <= rows.len(),
            le == date_order(undated_as_epoch),
            input == video_views(rows@),
            out.len() == i,
            video_views(out@) == sorted_by(input.take(i as int), le),
        decreases rows.len() - i,
    {
        let v = rows[i].clone();
        let ghost sorted = video_views(out@);
        let mut p: usize = out.len();
        assert(sorted.take(out.len() as int) =~= sorted);
        while p > 0 && !date_at_or_before(
            out[p - 1].published_date,
            v.published_date,
            undated_as_epoch,
        )
            invariant
                p <= out.len(),
                le == date_order(undated_as_epoch),
                sorted == video_views(out@),
                landing(sorted, v@, le) == landing(sorted.take(p as int), v@, le),
            decreases p,
        {
            assert(sorted.take(p as int).drop_last() =~= sorted.take(p - 1));
            assert(sorted.take(p as int).last() == out@[p - 1]@);
            p -= 1;
        }
        proof {
            lemma_insert_sorted(sorted, v@, le);
            if p > 0 {
                assert(sorted.take(p as int).last() == out@[p - 1]@);
            }
            assert(landing(sorted, v@, le) == p);
            assert(input.take(i + 1).drop_last() =~= input.take(i as int));
            assert(input.take(i + 1).last() == v@);
        }
        out.insert(p, v);
        assert(video_views(out@) =~= sorted.insert(p as int, v@));
        i += 1;
    }
    assert(input.take(rows.len() as int) =~= input);
    out
}

/// A stored video as it is handed out at the instant `now`.
fn present_one(row: &Video, now: i64) -> (r: Video)
    ensures
        r@ == present(row@, now),
{
    Video {
        id: row.id.clone(),
        title: row.title.clone(),
        url: row.url.clone(),
        is_short: row.is_short,
        channel_name: clone_opt(&row.channel_name),
        channel_id: clone_opt(&row.channel_id),
        published_date: row.published_date,
        stored_at: clone_opt(&row.stored_at),
        relative_date: match row.published_date {
            Some(d) => relative_date_between(d, now),
            None => String::new(),
        },
        duration: row.duration,
        duration_string: Some(format_duration(row.duration)),
        view_count: row.view_count,
    }
}

/// The rows `from..to` as they are handed out at the instant `now`.
fn present_all(rows: &Vec<Video>, from: usize, to: usize, now: i64) -> (r: Vec<Video>)
    requires
        from <= to <= rows.len(),
    ensures
        video_views(r@) == presented(video_views(rows@).subrange(from as int, to as int), now),
{
    let mut out: Vec<Video> = Vec::new();
    let mut i: usize = from;
    while i < to
        invariant
            from <= i <= to <= rows.len(),
            video_views(out@) == presented(video_views(rows@).subrange(from as int, i as int), now),
        decreases to - i,
    {
        let ghost before = video_views(out@);
        out.push(present_one(&rows[i], now));
        assert(video_views(out@) =~= before.push(present(rows@[i as int]@, now)));
        assert(video_views(out@) =~= presented(
            video_views(rows@).subrange(from as int, i + 1),
            now,
        ));
        i += 1;
    }
    proof {
        assert(video_views(rows@).subrange(0, rows.len() as int) =~= video_views(rows@));
    }
    out
}

} // verus!
