//! What holds of the store across several operations.

use crate::order::{
    lemma_sorted_by_len, lemma_sorted_by_ordered, lemma_sorted_by_permutes, sorted_by,
};
use crate::store::{
    by_date, distinct_videos, id_position, is_key, is_new, lemma_id_position, lemma_marked_all,
    lemma_put, lemma_video_position, marked, marked_all, new_key, newer_or_same, page_count,
    page_end, page_len, page_start, put, shown, shown_key, toggled, upsert_all, watched_key,
    DatabaseView,
};
use crate::video::VideoView;
use vstd::prelude::*;

verus! {

/// Once the duration or the view count of a video is known, storing videos
/// never erases it: the video keeps its place, and each of the two fields
/// stays known.  Where none of the videos stored with that id brings a
/// value for a field, the field keeps the value it had.
pub proof fn law_metadata_is_never_erased(rows: Seq<VideoView>, items: Seq<VideoView>, i: int)
    requires
        distinct_videos(rows),
        0 <= i < rows.len(),
    ensures
        distinct_videos(upsert_all(rows, items)),
        upsert_all(rows, items).len() >= rows.len(),
        upsert_all(rows, items)[i].id == rows[i].id,
        rows[i].duration is Some ==> upsert_all(rows, items)[i].duration is Some,
        rows[i].view_count is Some ==> upsert_all(rows, items)[i].view_count is Some,
        (forall|k: int|
            0 <= k < items.len() && items[k].id == rows[i].id ==> (#[trigger] items[k]).duration
                is None) ==> upsert_all(rows, items)[i].duration == rows[i].duration,
        (forall|k: int|
            0 <= k < items.len() && items[k].id == rows[i].id ==> (#[trigger] items[k]).view_count
                is None) ==> upsert_all(rows, items)[i].view_count == rows[i].view_count,
    decreases items.len(),
{
    if items.len() > 0 {
        let rest = items.drop_last();
        let last = items.last();
        law_metadata_is_never_erased(rows, rest, i);
        let before = upsert_all(rows, rest);
        lemma_video_position(before, last.id, 0);
        assert forall|k: int| 0 <= k < rest.len() implies rest[k] == items[k] by {}
        assert(items[items.len() - 1] == last);
    }
}

/// Storing a video again without a duration leaves the stored duration as
/// it was; likewise the view count.
pub proof fn law_upsert_without_metadata(rows: Seq<VideoView>, incoming: VideoView, i: int)
    requires
        distinct_videos(rows),
        0 <= i < rows.len(),
        rows[i].id == incoming.id,
    ensures
        upsert_all(rows, seq![incoming]).len() == rows.len(),
        incoming.duration is None ==> upsert_all(rows, seq![incoming])[i].duration
            == rows[i].duration,
        incoming.view_count is None ==> upsert_all(rows, seq![incoming])[i].view_count
            == rows[i].view_count,
{
    let items = seq![incoming];
    assert(items.drop_last() =~= Seq::<VideoView>::empty());
    assert(items.last() == incoming);
    assert(upsert_all(rows, items.drop_last()) == rows);
    lemma_video_position(rows, incoming.id, 0);
}

/// Marking ids that are all marked already changes nothing.
proof fn lemma_marked_all_present(watched: Seq<Seq<char>>, ids: Seq<Seq<char>>)
    requires
        forall|k: int| 0 <= k < ids.len() ==> watched.contains(#[trigger] ids[k]),
    ensures
        marked_all(watched, ids) == watched,
    decreases ids.len(),
{
    if ids.len() > 0 {
        let rest = ids.drop_last();
        assert forall|k: int| 0 <= k < rest.len() implies watched.contains(#[trigger] rest[k]) by {
            assert(rest[k] == ids[k]);
        }
        lemma_marked_all_present(watched, rest);
        assert(watched.contains(ids[ids.len() - 1]));
    }
}

/// Marking only ever adds at the end.
proof fn lemma_marked_all_extends(watched: Seq<Seq<char>>, ids: Seq<Seq<char>>)
    ensures
        marked_all(watched, ids).len() >= watched.len(),
        marked_all(watched, ids).take(watched.len() as int) == watched,
    decreases ids.len(),
{
    if ids.len() > 0 {
        lemma_marked_all_extends(watched, ids.drop_last());
        let before = marked_all(watched, ids.drop_last());
        assert(marked(before, ids.last()).take(watched.len() as int) =~= before.take(
            watched.len() as int,
        ));
    } else {
        assert(watched.take(watched.len() as int) =~= watched);
    }
}

/// Marking the same videos a second time adds nothing: the watched ids
/// stay as they are, and the count that is returned is 0.
pub proof fn law_marking_again_adds_nothing(watched: Seq<Seq<char>>, ids: Seq<Seq<char>>)
    requires
        watched.no_duplicates(),
    ensures
        marked_all(marked_all(watched, ids), ids) == marked_all(watched, ids),
        marked_all(marked_all(watched, ids), ids).len() - marked_all(watched, ids).len() == 0,
{
    let once = marked_all(watched, ids);
    lemma_marked_all(watched, ids);
    assert forall|k: int| 0 <= k < ids.len() implies once.contains(#[trigger] ids[k]) by {
        assert(ids.contains(ids[k]));
    }
    lemma_marked_all_present(once, ids);
}

/// Marking videos of which one at least is not yet marked adds something:
/// the count that is returned is above 0.
pub proof fn law_marking_adds_what_is_new(watched: Seq<Seq<char>>, ids: Seq<Seq<char>>, k: int)
    requires
        watched.no_duplicates(),
        0 <= k < ids.len(),
        !watched.contains(ids[k]),
    ensures
        marked_all(watched, ids).len() - watched.len() > 0,
{
    let once = marked_all(watched, ids);
    lemma_marked_all(watched, ids);
    lemma_marked_all_extends(watched, ids);
    assert(ids.contains(ids[k]));
    assert(once.contains(ids[k]));
    if once.len() == watched.len() {
        assert(once.take(watched.len() as int) =~= once);
    }
}

/// The number of rows on the first `pages` pages together.
pub open spec fn pages_len(total: int, size: int, pages: int) -> int
    decreases pages,
{
    if pages <= 0 {
        0
    } else {
        pages_len(total, size, pages - 1) + page_len(total, size, pages - 1)
    }
}

/// The first `pages` pages hold the first `pages * size` rows of the
/// listing, or all of it where it is shorter.
pub proof fn lemma_pages_len(total: int, size: int, pages: int)
    requires
        total >= 0,
        size >= 1,
        pages >= 0,
    ensures
        pages_len(total, size, pages) == page_start(total, size, pages),
    decreases pages,
{
    if pages > 0 {
        lemma_pages_len(total, size, pages - 1);
        assert((pages - 1) * size + size == pages * size) by (nonlinear_arith);
    } else {
        assert(0 * size == 0) by (nonlinear_arith);
    }
}

/// Whatever the page size, the pages of a listing hold as many rows
/// together as the listing has; pages past the last are empty.  The first
/// page begins where the listing begins, and each page begins where the
/// page before it ends.
pub proof fn law_pages_cover_the_listing(total: int, size: int)
    requires
        total >= 0,
        size >= 1,
    ensures
        pages_len(total, size, page_count(total, size)) == total,
        forall|page: int| page >= page_count(total, size) ==> #[trigger] page_len(total, size, page) == 0,
        page_start(total, size, 0) == 0,
        forall|page: int|
            page >= 0 ==> #[trigger] page_end(total, size, page) == page_start(total, size, page + 1),
{
    assert(0 * size == 0) by (nonlinear_arith);
    assert forall|page: int| page >= 0 implies #[trigger] page_end(total, size, page) == page_start(
        total,
        size,
        page + 1,
    ) by {
        assert((page + 1) * size == page * size + size) by (nonlinear_arith);
    }
    let n = page_count(total, size);
    assert(n >= 0 && n * size >= total) by (nonlinear_arith)
        requires
            n == (total + size - 1) / size,
            total >= 0,
            size >= 1,
    ;
    lemma_pages_len(total, size, n);
    assert forall|page: int| page >= n implies #[trigger] page_len(total, size, page) == 0 by {
        assert(page * size >= total) by (nonlinear_arith)
            requires
                page >= n,
                n * size >= total,
                size >= 1,
        ;
    }
}

/// Where one condition holds wherever another does, it holds of no more
/// elements; and of fewer, where the other holds somewhere alone.
proof fn lemma_count_le<A, B>(a: Seq<A>, p: spec_fn(A) -> bool, b: Seq<B>, q: spec_fn(B) -> bool)
    requires
        a.len() == b.len(),
        forall|i: int| 0 <= i < a.len() ==> (p(#[trigger] a[i]) ==> q(b[i])),
    ensures
        a.filter(p).len() <= b.filter(q).len(),
        (exists|k: int| 0 <= k < a.len() && !p(#[trigger] a[k]) && q(b[k])) ==> a.filter(p).len()
            < b.filter(q).len(),
    decreases a.len(),
{
    reveal(Seq::filter);
    if a.len() > 0 {
        let a0 = a.drop_last();
        let b0 = b.drop_last();
        assert forall|i: int| 0 <= i < a0.len() && p(#[trigger] a0[i]) implies q(b0[i]) by {
            assert(a0[i] == a[i] && b0[i] == b[i]);
        }
        lemma_count_le(a0, p, b0, q);
        assert(p(a[a.len() - 1]) ==> q(b[a.len() - 1]));
        if exists|k: int| 0 <= k < a.len() && !p(#[trigger] a[k]) && q(b[k]) {
            let k = choose|k: int| 0 <= k < a.len() && !p(#[trigger] a[k]) && q(b[k]);
            if k < a0.len() {
                assert(a0[k] == a[k] && b0[k] == b[k]);
            }
        }
    }
}

/// A channel that has videos that are shown, all of them watched, is fully
/// watched.
pub proof fn law_all_watched_is_fully_watched(db: DatabaseView, channel: Seq<char>, hide_shorts: bool)
    requires
        db.total(channel, hide_shorts) > 0,
        forall|i: int|
            0 <= i < db.videos.len() && (#[trigger] db.videos[i]).channel_id == Some(channel)
                && shown(db.videos[i], hide_shorts) ==> db.watched.contains(db.videos[i].id),
    ensures
        db.fully_watched(channel, hide_shorts),
{
    let s = db.videos.map_values(shown_key(hide_shorts));
    let w = db.videos.map_values(watched_key(db.watched, hide_shorts));
    let p = is_key(channel);
    assert forall|i: int| 0 <= i < s.len() && p(#[trigger] s[i]) implies p(w[i]) by {
        let v = db.videos[i];
    }
    lemma_count_le(s, p, w, p);
    assert forall|i: int| 0 <= i < w.len() && p(#[trigger] w[i]) implies p(s[i]) by {}
    lemma_count_le(w, p, s, p);
}

/// A channel with a shown video that is not watched is not fully watched.
pub proof fn law_unwatched_is_not_fully_watched(
    db: DatabaseView,
    channel: Seq<char>,
    hide_shorts: bool,
    i: int,
)
    requires
        0 <= i < db.videos.len(),
        db.videos[i].channel_id == Some(channel),
        shown(db.videos[i], hide_shorts),
        !db.watched.contains(db.videos[i].id),
    ensures
        !db.fully_watched(channel, hide_shorts),
{
    let s = db.videos.map_values(shown_key(hide_shorts));
    let w = db.videos.map_values(watched_key(db.watched, hide_shorts));
    let p = is_key(channel);
    assert forall|k: int| 0 <= k < w.len() && p(#[trigger] w[k]) implies p(s[k]) by {}
    assert(!p(w[i]) && p(s[i]));
    lemma_count_le(w, p, s, p);
}

/// Taking the watched mark off one shown video of a channel takes the
/// channel out of the fully watched ones.
pub proof fn law_unmarking_ends_fully_watched(
    db: DatabaseView,
    channel: Seq<char>,
    hide_shorts: bool,
    i: int,
)
    requires
        db.wf(),
        0 <= i < db.videos.len(),
        db.videos[i].channel_id == Some(channel),
        shown(db.videos[i], hide_shorts),
        db.watched.contains(db.videos[i].id),
    ensures
        !(DatabaseView { watched: toggled(db.watched, db.videos[i].id), ..db }).fully_watched(
            channel,
            hide_shorts,
        ),
{
    let id = db.videos[i].id;
    let after = DatabaseView { watched: toggled(db.watched, id), ..db };
    lemma_id_position(db.watched, id, 0);
    let at = id_position(db.watched, id, 0)->0;
    assert(!after.watched.contains(id)) by {
        if after.watched.contains(id) {
            let k = choose|k: int| 0 <= k < after.watched.len() && after.watched[k] == id;
            let k0 = if k < at { k } else { k + 1 };
            assert(db.watched[k0] == id);
        }
    }
    law_unwatched_is_not_fully_watched(after, channel, hide_shorts, i);
}

/// A listing of videos holds the videos it was made of, each as often as
/// there, and holds them newest first: each is at least as new as every
/// later one, and those without a date come after all that have one.
pub proof fn law_listing_is_newest_first(rows: Seq<VideoView>)
    ensures
        sorted_by(rows, by_date()).len() == rows.len(),
        sorted_by(rows, by_date()).to_multiset() == rows.to_multiset(),
        forall|i: int, j: int|
            0 <= i < j < rows.len() ==> newer_or_same(
                (#[trigger] sorted_by(rows, by_date())[i]).published_date,
                (#[trigger] sorted_by(rows, by_date())[j]).published_date,
            ),
{
    let le = by_date();
    lemma_sorted_by_len(rows, le);
    lemma_sorted_by_permutes(rows, le);
    assert forall|a: VideoView, b: VideoView| #[trigger] le(a, b) || le(b, a) by {}
    assert forall|a: VideoView, b: VideoView, c: VideoView| #[trigger] le(a, b) && #[trigger] le(
        b,
        c,
    ) implies le(a, c) by {}
    lemma_sorted_by_ordered(rows, le);
    let listing = sorted_by(rows, le);
    assert forall|i: int, j: int| 0 <= i < j < rows.len() implies newer_or_same(
        (#[trigger] listing[i]).published_date,
        (#[trigger] listing[j]).published_date,
    ) by {
        assert(le(listing[i], listing[j]));
    }
}

/// Once a channel has been looked at, none of its videos that were
/// published by then is new.
pub proof fn law_viewing_clears_new(db: DatabaseView, channel: Seq<char>, hide_shorts: bool, now: i64)
    requires
        db.wf(),
        forall|i: int|
            0 <= i < db.videos.len() && (#[trigger] db.videos[i]).channel_id == Some(channel)
                ==> db.videos[i].published_date is None || db.videos[i].published_date->0 <= now,
    ensures
        (DatabaseView { seen: put(db.seen, channel, Some(now)), ..db }).new_count(channel, hide_shorts)
            == 0,
{
    let seen = put(db.seen, channel, Some(now));
    lemma_put(db.seen, channel, Some(now));
    let keys = db.videos.map_values(new_key(seen, hide_shorts));
    assert forall|i: int| 0 <= i < keys.len() implies !is_key(channel)(#[trigger] keys[i]) by {
        let v = db.videos[i];
        if v.channel_id == Some(channel) {
            assert(!is_new(v, seen, hide_shorts));
        }
    }
    keys.lemma_all_neg_filter_empty(is_key(channel));
}

} // verus!
