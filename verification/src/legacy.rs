//! Taking over the records of the earlier file format: three JSON
//! documents, for subscriptions and settings, for watched marks, and for
//! videos.  The import is done once and takes what it can read.

use crate::json::{json_document, parse_json, Json, Member};
use crate::store::{
    as_row, has_conflict, marked, put, video_position, Database, DatabaseView,
};
use crate::text::text_view;
use crate::video::{
    parse_published, published_instant, Subscription, SubscriptionView, Video, VideoView,
};
use vstd::prelude::*;

verus! {

/// The name under which the import is recorded once it has run.
pub open spec fn import_name() -> Seq<char> {
    "json_import"@
}

/// The subscription that an entry of the earlier format describes; a text
/// that is missing is empty.
pub open spec fn legacy_subscription(entry: Json) -> SubscriptionView {
    SubscriptionView {
        id: entry.text_or("id"@, ""@),
        name: entry.text_or("name"@, ""@),
        url: entry.text_or("url"@, ""@),
        added_at: None,
    }
}

/// The subscriptions after those of `entries` have been added in turn,
/// each unless its id or its url is taken already.
pub open spec fn with_subscriptions(subs: Seq<SubscriptionView>, entries: Seq<Json>) -> Seq<
    SubscriptionView,
>
    decreases entries.len(),
{
    if entries.len() == 0 {
        subs
    } else {
        let before = with_subscriptions(subs, entries.drop_last());
        let sub = legacy_subscription(entries.last());
        if has_conflict(before, sub) {
            before
        } else {
            before.push(sub)
        }
    }
}

/// The settings after each member has been stored: under its key, its
/// value as JSON text.
pub open spec fn with_settings(settings: Seq<(Seq<char>, Seq<char>)>, members: Seq<Member>) -> Seq<
    (Seq<char>, Seq<char>),
>
    decreases members.len(),
{
    if members.len() == 0 {
        settings
    } else {
        put(with_settings(settings, members.drop_last()), members.last().key@, members.last().text@)
    }
}

/// The instant that a member of the earlier format's view times denotes.
pub open spec fn legacy_instant(value: Json) -> Option<i64> {
    match value.text() {
        Some(text) => published_instant(text),
        None => None,
    }
}

/// The view times after each member has been stored: under its key, the
/// instant that its value denotes.
pub open spec fn with_seen(seen: Seq<(Seq<char>, Option<i64>)>, members: Seq<Member>) -> Seq<
    (Seq<char>, Option<i64>),
>
    decreases members.len(),
{
    if members.len() == 0 {
        seen
    } else {
        put(
            with_seen(seen, members.drop_last()),
            members.last().key@,
            legacy_instant(members.last().value),
        )
    }
}

/// The watched ids after the key of each member has been marked.
pub open spec fn with_watched(watched: Seq<Seq<char>>, members: Seq<Member>) -> Seq<Seq<char>>
    decreases members.len(),
{
    if members.len() == 0 {
        watched
    } else {
        marked(with_watched(watched, members.drop_last()), members.last().key@)
    }
}

/// The video that an entry of the earlier format describes; a text that is
/// missing is empty, and a video is short-form only where the entry says so.
pub open spec fn legacy_video(entry: Json) -> VideoView {
    VideoView {
        id: entry.text_or("id"@, ""@),
        title: entry.text_or("title"@, ""@),
        url: entry.text_or("url"@, ""@),
        is_short: entry.truth_member("isShort"@) == Some(true),
        channel_name: Some(entry.text_or("channelName"@, ""@)),
        channel_id: Some(entry.text_or("channelId"@, ""@)),
        published_date: published_instant(entry.text_or("publishedDate"@, ""@)),
        stored_at: Some(entry.text_or("storedAt"@, ""@)),
        relative_date: Seq::empty(),
        duration: None,
        duration_string: None,
        view_count: None,
    }
}

/// The videos after those of `members` have been added in turn, each
/// unless a video with its id is there already.
pub open spec fn with_videos(videos: Seq<VideoView>, members: Seq<Member>) -> Seq<VideoView>
    decreases members.len(),
{
    if members.len() == 0 {
        videos
    } else {
        let before = with_videos(videos, members.drop_last());
        let v = legacy_video(members.last().value);
        if video_position(before, v.id, 0) is None {
            before.push(as_row(v))
        } else {
            before
        }
    }
}

/// The store after the document of subscriptions and settings has been
/// taken over: the entries of its array `subscriptions`, the members of its
/// object `settings`, and those of its object `channelLastViewed`.
pub open spec fn with_config(db: DatabaseView, doc: Json) -> DatabaseView {
    DatabaseView {
        subscriptions: match doc.array_member("subscriptions"@) {
            Some(entries) => with_subscriptions(db.subscriptions, entries),
            None => db.subscriptions,
        },
        settings: match doc.object_member("settings"@) {
            Some(members) => with_settings(db.settings, members),
            None => db.settings,
        },
        seen: match doc.object_member("channelLastViewed"@) {
            Some(members) => with_seen(db.seen, members),
            None => db.seen,
        },
        ..db
    }
}

/// The store after the document of watched marks has been taken over: the
/// keys of its object `videos`.
pub open spec fn with_marks(db: DatabaseView, doc: Json) -> DatabaseView {
    DatabaseView {
        watched: match doc.object_member("videos"@) {
            Some(members) => with_watched(db.watched, members),
            None => db.watched,
        },
        ..db
    }
}

/// The store after the document of videos has been taken over: the values
/// of its object `videos`.
pub open spec fn with_stored(db: DatabaseView, doc: Json) -> DatabaseView {
    DatabaseView {
        videos: match doc.object_member("videos"@) {
            Some(members) => with_videos(db.videos, members),
            None => db.videos,
        },
        ..db
    }
}

/// The store after `text`, where it is there and is JSON, has been taken
/// over by `take`.
pub open spec fn taken_over(
    db: DatabaseView,
    text: Option<Seq<char>>,
    take: spec_fn(DatabaseView, Json) -> DatabaseView,
) -> DatabaseView {
    match text {
        Some(t) => match json_document(t) {
            Some(doc) => take(db, doc),
            None => db,
        },
        None => db,
    }
}

/// Whether `text` is there and is JSON.
pub open spec fn is_document(text: Option<Seq<char>>) -> bool {
    text matches Some(t) && json_document(t) is Some
}

/// The store after the import from the three documents.
pub open spec fn imported(
    db: DatabaseView,
    config: Option<Seq<char>>,
    watched: Option<Seq<char>>,
    videos: Option<Seq<char>>,
) -> DatabaseView {
    let a = taken_over(db, config, |d: DatabaseView, doc: Json| with_config(d, doc));
    let b = taken_over(a, watched, |d: DatabaseView, doc: Json| with_marks(d, doc));
    let c = taken_over(b, videos, |d: DatabaseView, doc: Json| with_stored(d, doc));
    DatabaseView { migrations: marked(c.migrations, import_name()), ..c }
}

fn import_subscriptions(db: &mut Database, entries: &Vec<Json>)
    requires
        old(db).wf(),
    ensures
        final(db).wf(),
        final(db)@ == (DatabaseView {
            subscriptions: with_subscriptions(old(db)@.subscriptions, entries@),
            ..old(db)@
        }),
{
    let mut i: usize = 0;
    assert(entries@.take(0) =~= Seq::empty());
    while i < entries.len()
        invariant
            i <= entries.len(),
            db.wf(),
            db@ == (DatabaseView {
                subscriptions: with_subscriptions(old(db)@.subscriptions, entries@.take(i as int)),
                ..old(db)@
            }),
        decreases entries.len() - i,
    {
        let entry = &entries[i];
        let sub = Subscription {
            id: entry.get_str_or("id", ""),
            name: entry.get_str_or("name", ""),
            url: entry.get_str_or("url", ""),
            added_at: None,
        };
        assert(sub@ == legacy_subscription(*entry));
        assert(entries@.take(i + 1).drop_last() =~= entries@.take(i as int));
        let _ = db.add_subscription(&sub);
        i += 1;
    }
    assert(entries@.take(entries.len() as int) =~= entries@);
}

fn import_settings(db: &mut Database, members: &Vec<Member>)
    requires
        old(db).wf(),
    ensures
        final(db).wf(),
        final(db)@ == (DatabaseView {
            settings: with_settings(old(db)@.settings, members@),
            ..old(db)@
        }),
{
    let mut i: usize = 0;
    assert(members@.take(0) =~= Seq::empty());
    while i < members.len()
        invariant
            i <= members.len(),
            db.wf(),
            db@ == (DatabaseView {
                settings: with_settings(old(db)@.settings, members@.take(i as int)),
                ..old(db)@
            }),
        decreases members.len() - i,
    {
        assert(members@.take(i + 1).drop_last() =~= members@.take(i as int));
        db.update_setting(members[i].key.as_str(), members[i].text.as_str());
        i += 1;
    }
    assert(members@.take(members.len() as int) =~= members@);
}

fn import_seen(db: &mut Database, members: &Vec<Member>)
    requires
        old(db).wf(),
    ensures
        final(db).wf(),
        final(db)@ == (DatabaseView { seen: with_seen(old(db)@.seen, members@), ..old(db)@ }),
{
    let mut i: usize = 0;
    assert(members@.take(0) =~= Seq::empty());
    while i < members.len()
        invariant
            i <= members.len(),
            db.wf(),
            db@ == (DatabaseView {
                seen: with_seen(old(db)@.seen, members@.take(i as int)),
                ..old(db)@
            }),
        decreases members.len() - i,
    {
        assert(members@.take(i + 1).drop_last() =~= members@.take(i as int));
        let at = match members[i].value.as_str() {
            Some(text) => parse_published(text.as_str()),
            None => None,
        };
        db.set_channel_last_viewed(members[i].key.as_str(), at);
        i += 1;
    }
    assert(members@.take(members.len() as int) =~= members@);
}

fn import_watched(db: &mut Database, members: &Vec<Member>)
    requires
        old(db).wf(),
    ensures
        final(db).wf(),
        final(db)@ == (DatabaseView {
            watched: with_watched(old(db)@.watched, members@),
            ..old(db)@
        }),
{
    let mut i: usize = 0;
    assert(members@.take(0) =~= Seq::empty());
    while i < members.len()
        invariant
            i <= members.len(),
            db.wf(),
            db@ == (DatabaseView {
                watched: with_watched(old(db)@.watched, members@.take(i as int)),
                ..old(db)@
            }),
        decreases members.len() - i,
    {
        assert(members@.take(i + 1).drop_last() =~= members@.take(i as int));
        db.mark_as_watched(members[i].key.as_str());
        i += 1;
    }
    assert(members@.take(members.len() as int) =~= members@);
}

fn import_videos(db: &mut Database, members: &Vec<Member>)
    requires
        old(db).wf(),
    ensures
        final(db).wf(),
        final(db)@ == (DatabaseView { videos: with_videos(old(db)@.videos, members@), ..old(db)@ }),
{
    let mut i: usize = 0;
    assert(members@.take(0) =~= Seq::empty());
    while i < members.len()
        invariant
            i <= members.len(),
            db.wf(),
            db@ == (DatabaseView {
                videos: with_videos(old(db)@.videos, members@.take(i as int)),
                ..old(db)@
            }),
        decreases members.len() - i,
    {
        assert(members@.take(i + 1).drop_last() =~= members@.take(i as int));
        let entry = &members[i].value;
        let published = entry.get_str_or("publishedDate", "");
        let v = Video {
            id: entry.get_str_or("id", ""),
            title: entry.get_str_or("title", ""),
            url: entry.get_str_or("url", ""),
            is_short: match entry.get_bool("isShort") {
                Some(b) => b,
                None => false,
            },
            channel_name: Some(entry.get_str_or("channelName", "")),
            channel_id: Some(entry.get_str_or("channelId", "")),
            published_date: parse_published(published.as_str()),
            stored_at: Some(entry.get_str_or("storedAt", "")),
            relative_date: String::new(),
            duration: None,
            duration_string: None,
            view_count: None,
        };
        assert(v@ == legacy_video(*entry));
        db.insert_video(&v);
        i += 1;
    }
    assert(members@.take(members.len() as int) =~= members@);
}

impl Database {
    /// Takes over the records of the earlier file format, unless that has
    /// been done before.
    ///
    /// Each argument is the text of one of the three documents, where the
    /// document could be read: subscriptions and settings, watched marks,
    /// videos.  A text that is no JSON is passed over, and so is every part
    /// that has not the expected form.  Nothing that the store holds is
    /// overwritten, but for settings and view times.  Returns whether any of
    /// the documents was taken over; afterwards the import is recorded as
    /// done, and a second call changes nothing.
    pub fn migrate_from_json(
        &mut self,
        config: Option<&str>,
        watched: Option<&str>,
        videos: Option<&str>,
    ) -> (taken: bool)
        requires
            old(self).wf(),
        ensures
            final(self).wf(),
            old(self)@.migrations.contains(import_name()) ==> !taken && final(self)@ == old(self)@,
            !old(self)@.migrations.contains(import_name()) ==> final(self)@ == imported(
                old(self)@,
                text_view(config),
                text_view(watched),
                text_view(videos),
            ) && taken == (is_document(text_view(config)) || is_document(text_view(watched))
                || is_document(text_view(videos))),
    {
        if self.has_migration("json_import") {
            return false;
        }
        let mut taken = false;
        if let Some(text) = config {
            if let Some(doc) = parse_json(text) {
                if let Some(entries) = doc.get_array("subscriptions") {
                    import_subscriptions(self, entries);
                }
                if let Some(members) = doc.get_object("settings") {
                    import_settings(self, members);
                }
                if let Some(members) = doc.get_object("channelLastViewed") {
                    import_seen(self, members);
                }
                taken = true;
            }
        }
        if let Some(text) = watched {
            if let Some(doc) = parse_json(text) {
                if let Some(members) = doc.get_object("videos") {
                    import_watched(self, members);
                }
                taken = true;
            }
        }
        if let Some(text) = videos {
            if let Some(doc) = parse_json(text) {
                if let Some(members) = doc.get_object("videos") {
                    import_videos(self, members);
                }
                taken = true;
            }
        }
        self.mark_migration("json_import");
        taken
    }
}

} // verus!
