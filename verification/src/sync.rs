//! Priming: bringing a channel's whole history into the store.
//!
//! The list of the channel's video ids is asked for once; the ids whose
//! videos are stored with their metadata already are left out; the rest is
//! fetched in batches.  A batch that fails costs its own videos only.
//! Running the provider, waiting and running batches side by side are not
//! done here: this module says what to ask, whether to ask again, and what
//! the answers add up to.

use crate::store::{page_count, page_end, page_start, string_views, video_views};
use crate::text::{
    append_chars, append_str, contains, contains_sub, from_chars, lines, lines_of, str_contains,
    to_chars, trim, trim_end_of, trimmed, trimmed_end_of,
};
use crate::video::{Video, VideoView};
use vstd::hash_set::StringHashSet;
use vstd::prelude::*;

verus! {

/// The number of videos that are fetched with one call.
pub const BATCH_SIZE: usize = 5;

/// The number of batches that may be under way at one time.
pub const BATCH_CONCURRENCY: usize = 50;

/// How often the list of a channel's videos is asked for at most.
pub const LIST_ATTEMPTS: usize = 3;

/// The delay before the list is asked for a second time, in milliseconds.
pub const LIST_BASE_DELAY_MS: u64 = 2000;

/// How often a batch is asked for at most.
pub const BATCH_ATTEMPTS: usize = 2;

/// The delay before a batch is asked for a second time, in milliseconds.
pub const BATCH_BASE_DELAY_MS: u64 = 1000;

/// The number of seconds after which a call is given up.
pub const CALL_TIMEOUT_SECS: u64 = 60;

/// The number of channels whose feeds are fetched side by side.
pub const REFRESH_WAVE: usize = 20;

/// What a priming run has brought.
#[derive(Debug)]
pub struct PrimeResult {
    /// The number of videos fetched.
    pub added: usize,
    /// The number of videos that the channel lists.
    pub total: usize,
    /// The number of videos that were known with their metadata before.
    pub skipped: usize,
    /// The number of videos in batches that failed, each batch counted in full.
    pub failed: usize,
    pub videos: Vec<Video>,
}

/// The address of the list of a channel's videos: `channel_url` itself
/// where it holds `/videos`, and else `channel_url` without the slashes at
/// its end, followed by `/videos`.
pub open spec fn videos_address(channel_url: Seq<char>) -> Seq<char> {
    if contains_sub(channel_url, "/videos"@) {
        channel_url
    } else {
        trimmed_end_of(channel_url, '/') + "/videos"@
    }
}

/// The address of the list of a channel's videos.
pub fn videos_url(channel_url: &str) -> (r: String)
    ensures
        r@ == videos_address(channel_url@),
{
    let chars = to_chars(channel_url);
    let mark = to_chars("/videos");
    if contains(&chars, &mark) {
        channel_url.to_owned()
    } else {
        let mut out = trim_end_of(&chars, '/');
        append_chars(&mut out, &mark);
        from_chars(&out)
    }
}

/// The arguments that ask for the ids of all videos of a channel, 5000 at most.
pub fn list_args(channel_url: &str) -> (r: Vec<String>)
    ensures
        r.len() == 9,
        r@[0]@ == "--flat-playlist"@,
        r@[1]@ == "--print"@,
        r@[2]@ == "%(id)s"@,
        r@[3]@ == "--no-warnings"@,
        r@[4]@ == "--extractor-args"@,
        r@[5]@ == "youtube:skip=dash,hls"@,
        r@[6]@ == "--playlist-end"@,
        r@[7]@ == "5000"@,
        r@[8]@ == videos_address(channel_url@),
{
    let mut r: Vec<String> = Vec::new();
    r.push("--flat-playlist".to_owned());
    r.push("--print".to_owned());
    r.push("%(id)s".to_owned());
    r.push("--no-warnings".to_owned());
    r.push("--extractor-args".to_owned());
    r.push("youtube:skip=dash,hls".to_owned());
    r.push("--playlist-end".to_owned());
    r.push("5000".to_owned());
    r.push(videos_url(channel_url));
    r
}

/// The texts that are not empty.
pub open spec fn nonempty() -> spec_fn(Seq<char>) -> bool {
    |line: Seq<char>| line.len() > 0
}

/// The ids that the answer to [`list_args`] lists: its lines, without the
/// white space around the whole and without empty lines.
pub open spec fn listed_ids(answer: Seq<char>) -> Seq<Seq<char>> {
    lines_of(trimmed(answer)).filter(nonempty())
}

/// Reads the provider's answer to [`list_args`].
pub fn parse_id_list(answer: &str) -> (r: Vec<String>)
    ensures
        string_views(r@) == listed_ids(answer@),
{
    let all = lines(&trim(&to_chars(answer)));
    let ghost texts = all@.map_values(|l: Vec<char>| l@);
    let mut ids: Vec<String> = Vec::new();
    let mut i: usize = 0;
    proof {
        assert(texts.take(0) =~= Seq::empty());
        reveal(Seq::filter);
        assert(string_views(ids@) =~= texts.take(0).filter(nonempty()));
    }
    while i < all.len()
        invariant
            i <= all.len(),
            texts == all@.map_values(|l: Vec<char>| l@),
            string_views(ids@) == texts.take(i as int).filter(nonempty()),
        decreases all.len() - i,
    {
        broadcast use Seq::lemma_filter_push;

        assert(texts.take(i + 1) =~= texts.take(i as int).push(all@[i as int]@));
        if all[i].len() > 0 {
            let ghost before = string_views(ids@);
            ids.push(from_chars(&all[i]));
            assert(string_views(ids@) =~= before.push(all@[i as int]@));
        }
        i += 1;
    }
    assert(texts.take(all.len() as int) =~= texts);
    ids
}

/// The videos whose duration is known.
pub open spec fn has_duration() -> spec_fn(VideoView) -> bool {
    |v: VideoView| v.duration is Some
}

/// The ids of the videos whose metadata is known: those with a duration.
pub fn enriched_ids(videos: &Vec<Video>) -> (r: StringHashSet)
    ensures
        r@ == video_views(videos@).filter(has_duration()).map_values(|v: VideoView| v.id).to_set(),
{
    let ghost rows = video_views(videos@);
    let ghost id_of = |v: VideoView| v.id;
    let mut r = StringHashSet::new();
    let mut i: usize = 0;
    proof {
        assert(rows.take(0) =~= Seq::empty());
        reveal(Seq::filter);
        assert(rows.take(0).filter(has_duration()).map_values(id_of).to_set() =~= Set::<
            Seq<char>,
        >::empty());
    }
    while i < videos.len()
        invariant
            i <= videos.len(),
            rows == video_views(videos@),
            id_of == |v: VideoView| v.id,
            r@ == rows.take(i as int).filter(has_duration()).map_values(id_of).to_set(),
        decreases videos.len() - i,
    {
        broadcast use Seq::lemma_filter_push;
        broadcast use Seq::lemma_push_to_set_commute;

        let ghost kept = rows.take(i as int).filter(has_duration());
        assert(rows.take(i + 1) =~= rows.take(i as int).push(videos@[i as int]@));
        if videos[i].duration.is_some() {
            r.insert(videos[i].id.clone());
            assert(kept.push(videos@[i as int]@).map_values(id_of) =~= kept.map_values(id_of).push(
                videos@[i as int]@.id,
            ));
        }
        i += 1;
    }
    assert(rows.take(videos.len() as int) =~= rows);
    r
}

/// The ids that are not among `known`.
pub open spec fn unknown_to(known: Set<Seq<char>>) -> spec_fn(Seq<char>) -> bool {
    |id: Seq<char>| !known.contains(id)
}

/// The ids to fetch: those of `listed`, in order, that are not among `existing`.
pub fn ids_to_fetch(listed: &Vec<String>, existing: &StringHashSet) -> (r: Vec<String>)
    ensures
        string_views(r@) == string_views(listed@).filter(unknown_to(existing@)),
        forall|i: int| 0 <= i < r.len() ==> !existing@.contains(#[trigger] r@[i]@),
{
    let ghost ids = string_views(listed@);
    let ghost pred = unknown_to(existing@);
    let mut out: Vec<String> = Vec::new();
    let mut i: usize = 0;
    proof {
        assert(ids.take(0) =~= Seq::empty());
        reveal(Seq::filter);
        assert(string_views(out@) =~= ids.take(0).filter(pred));
    }
    while i < listed.len()
        invariant
            i <= listed.len(),
            ids == string_views(listed@),
            pred == unknown_to(existing@),
            string_views(out@) == ids.take(i as int).filter(pred),
            forall|k: int| 0 <= k < out.len() ==> !existing@.contains(#[trigger] out@[k]@),
        decreases listed.len() - i,
    {
        broadcast use Seq::lemma_filter_push;

        assert(ids.take(i + 1) =~= ids.take(i as int).push(listed@[i as int]@));
        if !existing.contains(listed[i].as_str()) {
            let ghost before = string_views(out@);
            out.push(listed[i].clone());
            assert(string_views(out@) =~= before.push(listed@[i as int]@));
        }
        i += 1;
    }
    assert(ids.take(listed.len() as int) =~= ids);
    out
}

/// An empty listing has no page; any other has one page more than the part
/// before its last row has full pages.
pub proof fn lemma_page_count(total: int, size: int)
    requires
        total >= 0,
        size > 0,
    ensures
        page_count(total, size) == if total == 0 {
            0
        } else {
            (total - 1) / size + 1
        },
{
    if total == 0 {
        assert((size - 1) / size == 0) by (nonlinear_arith)
            requires
                size > 0,
        ;
    } else {
        let x = total - 1;
        assert((x + size) / size == x / size + 1) by (nonlinear_arith)
            requires
                size > 0,
                x >= 0,
        ;
    }
}

/// Every page begins inside the listing.
pub proof fn lemma_page_begins(total: int, size: int, page: int)
    requires
        total >= 0,
        size > 0,
        0 <= page < page_count(total, size),
    ensures
        0 <= page * size < total,
{
    lemma_page_count(total, size);
    let x = total - 1;
    let q = x / size;
    assert(q * size <= x) by (nonlinear_arith)
        requires
            q == x / size,
            size > 0,
            x >= 0,
    ;
    assert(0 <= page * size <= q * size) by (nonlinear_arith)
        requires
            0 <= page <= q,
            size > 0,
    ;
}

/// The bounds of the runs of `size` into which `len` positions fall, in
/// order; the last run may be shorter.
pub fn chunk_ranges(len: usize, size: usize) -> (r: Vec<(usize, usize)>)
    requires
        size > 0,
    ensures
        r.len() == page_count(len as int, size as int),
        forall|b: int|
            0 <= b < r.len() ==> (#[trigger] r@[b]).0 == page_start(len as int, size as int, b)
                && r@[b].1 == page_end(len as int, size as int, b) && r@[b].0 < r@[b].1 <= len
                && r@[b].1 - r@[b].0 <= size,
{
    let count: usize = if len == 0 {
        0
    } else {
        (len - 1) / size + 1
    };
    proof {
        lemma_page_count(len as int, size as int);
    }
    let mut out: Vec<(usize, usize)> = Vec::new();
    let mut b: usize = 0;
    while b < count
        invariant
            size > 0,
            b <= count,
            out.len() == b,
            count == page_count(len as int, size as int),
            forall|k: int|
                0 <= k < out.len() ==> (#[trigger] out@[k]).0 == page_start(
                    len as int,
                    size as int,
                    k,
                ) && out@[k].1 == page_end(len as int, size as int, k) && out@[k].0 < out@[k].1
                    <= len && out@[k].1 - out@[k].0 <= size,
        decreases count - b,
    {
        proof {
            lemma_page_begins(len as int, size as int, b as int);
        }
        let start: usize = b * size;
        let end: usize = if len - start > size {
            start + size
        } else {
            len
        };
        out.push((start, end));
        b += 1;
    }
    out
}

/// The batches into which ids fall: runs of `size`, in order, the last
/// one maybe shorter.
pub fn make_batches(ids: &Vec<String>, size: usize) -> (r: Vec<Vec<String>>)
    requires
        size > 0,
    ensures
        r.len() == page_count(ids.len() as int, size as int),
        forall|b: int|
            0 <= b < r.len() ==> string_views((#[trigger] r@[b])@) == string_views(ids@).subrange(
                page_start(ids.len() as int, size as int, b),
                page_end(ids.len() as int, size as int, b),
            ) && 0 < r@[b].len() <= size,
        forall|b: int, k: int|
            0 <= b < r.len() && 0 <= k < r@[b].len() ==> string_views(ids@).contains(
                #[trigger] r@[b]@[k]@,
            ),
{
    let ranges = chunk_ranges(ids.len(), size);
    let mut out: Vec<Vec<String>> = Vec::new();
    let mut b: usize = 0;
    while b < ranges.len()
        invariant
            b <= ranges.len(),
            out.len() == b,
            size > 0,
            ranges.len() == page_count(ids.len() as int, size as int),
            forall|k: int|
                0 <= k < ranges.len() ==> (#[trigger] ranges@[k]).0 == page_start(
                    ids.len() as int,
                    size as int,
                    k,
                ) && ranges@[k].1 == page_end(ids.len() as int, size as int, k) && ranges@[k].0
                    < ranges@[k].1 <= ids.len() && ranges@[k].1 - ranges@[k].0 <= size,
            forall|k: int|
                0 <= k < b ==> string_views((#[trigger] out@[k])@) == string_views(ids@).subrange(
                    page_start(ids.len() as int, size as int, k),
                    page_end(ids.len() as int, size as int, k),
                ) && 0 < out@[k].len() <= size,
            forall|k: int, j: int|
                0 <= k < b && 0 <= j < out@[k].len() ==> string_views(ids@).contains(
                    #[trigger] out@[k]@[j]@,
                ),
        decreases ranges.len() - b,
    {
        let (from, to) = ranges[b];
        let mut batch: Vec<String> = Vec::new();
        let mut i: usize = from;
        while i < to
            invariant
                from <= i <= to <= ids.len(),
                batch.len() == i - from,
                string_views(batch@) == string_views(ids@).subrange(from as int, i as int),
                forall|j: int| 0 <= j < batch.len() ==> string_views(ids@).contains(#[trigger] batch@[j]@),
            decreases to - i,
        {
            let ghost before = string_views(batch@);
            batch.push(ids[i].clone());
            assert(string_views(batch@) =~= before.push(ids@[i as int]@));
            assert(string_views(batch@) =~= string_views(ids@).subrange(from as int, i + 1));
            assert(string_views(ids@)[i as int] == ids@[i as int]@);
            i += 1;
        }
        out.push(batch);
        b += 1;
    }
    out
}

/// The addresses of the videos with the given ids.
pub open spec fn watch_urls(ids: Seq<Seq<char>>) -> Seq<Seq<char>> {
    ids.map_values(|id: Seq<char>| "https://www.youtube.com/watch?v="@ + id)
}

/// The words before the addresses in the arguments of a batch.
pub open spec fn batch_options() -> Seq<Seq<char>> {
    seq![
        "--dump-json"@,
        "--no-warnings"@,
        "--extractor-args"@,
        "youtube:skip=dash,hls"@,
        "--socket-timeout"@,
        "30"@,
    ]
}

/// The arguments that ask for the metadata of the videos with the given ids.
pub fn batch_args(ids: &Vec<String>) -> (r: Vec<String>)
    ensures
        string_views(r@) == batch_options() + watch_urls(string_views(ids@)),
{
    let mut r: Vec<String> = Vec::new();
    r.push("--dump-json".to_owned());
    r.push("--no-warnings".to_owned());
    r.push("--extractor-args".to_owned());
    r.push("youtube:skip=dash,hls".to_owned());
    r.push("--socket-timeout".to_owned());
    r.push("30".to_owned());
    assert(string_views(r@) =~= batch_options());
    let mut i: usize = 0;
    while i < ids.len()
        invariant
            i <= ids.len(),
            string_views(r@) == batch_options() + watch_urls(string_views(ids@)).take(i as int),
        decreases ids.len() - i,
    {
        let mut url: Vec<char> = Vec::new();
        append_str(&mut url, "https://www.youtube.com/watch?v=");
        append_str(&mut url, ids[i].as_str());
        let ghost before = string_views(r@);
        r.push(from_chars(&url));
        proof {
            let urls = watch_urls(string_views(ids@));
            assert(string_views(r@) =~= before.push(urls[i as int]));
            assert(string_views(r@) =~= batch_options() + urls.take(i + 1));
        }
        i += 1;
    }
    proof {
        let urls = watch_urls(string_views(ids@));
        assert(urls.take(ids.len() as int) =~= urls);
    }
    r
}

/// Whether what the provider wrote to its error stream tells that it was
/// throttled: the text holds `429`, `Too Many Requests` or `rate limit`.
pub open spec fn throttled(stderr: Seq<char>) -> bool {
    contains_sub(stderr, "429"@) || contains_sub(stderr, "Too Many Requests"@) || contains_sub(
        stderr,
        "rate limit"@,
    )
}

/// Whether the provider was throttled, by what it wrote to its error stream.
pub fn is_throttled(stderr: &str) -> (r: bool)
    ensures
        r == throttled(stderr@),
{
    str_contains(stderr, "429") || str_contains(stderr, "Too Many Requests") || str_contains(
        stderr,
        "rate limit",
    )
}

/// `base`, doubled `times` times.
pub open spec fn doubled(base: nat, times: nat) -> nat
    decreases times,
{
    if times == 0 {
        base
    } else {
        2 * doubled(base, (times - 1) as nat)
    }
}

/// The delay before the attempt after attempt `attempt` (counted from 0), in
/// milliseconds: the base delay doubled with each attempt, and `u64::MAX`
/// where that is beyond it.
pub open spec fn backoff(base_delay_ms: u64, attempt: usize) -> u64 {
    if doubled(base_delay_ms as nat, attempt as nat) > u64::MAX {
        u64::MAX
    } else {
        doubled(base_delay_ms as nat, attempt as nat) as u64
    }
}

proof fn lemma_doubled_grows(base: nat, a: nat, b: nat)
    requires
        a <= b,
    ensures
        doubled(base, a) <= doubled(base, b),
    decreases b,
{
    if a < b {
        lemma_doubled_grows(base, a, (b - 1) as nat);
    }
}

/// The delay before the attempt after attempt `attempt`, in milliseconds.
pub fn backoff_delay(base_delay_ms: u64, attempt: usize) -> (r: u64)
    ensures
        r == backoff(base_delay_ms, attempt),
{
    let mut d: u64 = base_delay_ms;
    let mut k: usize = 0;
    while k < attempt
        invariant
            k <= attempt,
            d == doubled(base_delay_ms as nat, k as nat),
        decreases attempt - k,
    {
        if d > u64::MAX / 2 {
            proof {
                lemma_doubled_grows(base_delay_ms as nat, (k + 1) as nat, attempt as nat);
            }
            return u64::MAX;
        }
        d = d * 2;
        k += 1;
    }
    d
}

/// How one run of the provider ended.
pub enum Attempt {
    /// It ran and succeeded; what it wrote to its output.
    Succeeded(String),
    /// It ran and failed; what it wrote to its error stream.
    Failed(String),
    /// It could not be run; the reason in words.
    NotRun(String),
    /// It did not end in time.
    TimedOut,
}

/// What to do after a run of the provider.
pub enum Step {
    /// Take the answer.
    Done(String),
    /// Give up, with the reason in words.
    GiveUp(String),
    /// Wait for `delay_ms` milliseconds and run the provider again.
    RetryAfter { delay_ms: u64 },
}

/// What a [`Step`] holds, as plain values.
pub enum StepView {
    Done(Seq<char>),
    GiveUp(Seq<char>),
    RetryAfter { delay_ms: u64 },
}

impl View for Step {
    type V = StepView;

    open spec fn view(&self) -> StepView {
        match self {
            Step::Done(s) => StepView::Done(s@),
            Step::GiveUp(s) => StepView::GiveUp(s@),
            Step::RetryAfter { delay_ms } => StepView::RetryAfter { delay_ms: *delay_ms },
        }
    }
}

/// What a run of the provider comes to, as plain values.
pub enum AttemptView {
    Succeeded(Seq<char>),
    Failed(Seq<char>),
    NotRun(Seq<char>),
    TimedOut,
}

impl View for Attempt {
    type V = AttemptView;

    open spec fn view(&self) -> AttemptView {
        match self {
            Attempt::Succeeded(s) => AttemptView::Succeeded(s@),
            Attempt::Failed(s) => AttemptView::Failed(s@),
            Attempt::NotRun(s) => AttemptView::NotRun(s@),
            Attempt::TimedOut => AttemptView::TimedOut,
        }
    }
}

/// What is to be done after attempt `attempt` (counted from 0) of at most
/// `attempts` has ended as `outcome` says.
///
/// An answer is taken.  A failure is tried again, after the backoff delay,
/// where another attempt is left and the provider was throttled or did not
/// end in time; every other failure is final.
pub open spec fn next_step(attempt: usize, attempts: usize, base_delay_ms: u64, outcome: AttemptView) -> StepView {
    let more = attempt + 1 < attempts;
    match outcome {
        AttemptView::Succeeded(answer) => StepView::Done(answer),
        AttemptView::Failed(stderr) => if more && throttled(stderr) {
            StepView::RetryAfter { delay_ms: backoff(base_delay_ms, attempt) }
        } else {
            StepView::GiveUp(stderr)
        },
        AttemptView::NotRun(reason) => StepView::GiveUp("Process error: "@ + reason),
        AttemptView::TimedOut => if more {
            StepView::RetryAfter { delay_ms: backoff(base_delay_ms, attempt) }
        } else {
            StepView::GiveUp("Timed out"@)
        },
    }
}

/// Decides what to do after a run of the provider (see [`next_step`]).
pub fn after_attempt(attempt: usize, attempts: usize, base_delay_ms: u64, outcome: Attempt) -> (r: Step)
    ensures
        r@ == next_step(attempt, attempts, base_delay_ms, outcome@),
{
    let more = attempt < attempts && attempt + 1 < attempts;
    match outcome {
        Attempt::Succeeded(answer) => Step::Done(answer),
        Attempt::Failed(stderr) => {
            if more && is_throttled(stderr.as_str()) {
                Step::RetryAfter { delay_ms: backoff_delay(base_delay_ms, attempt) }
            } else {
                Step::GiveUp(stderr)
            }
        },
        Attempt::NotRun(reason) => {
            let mut out: Vec<char> = Vec::new();
            append_str(&mut out, "Process error: ");
            append_str(&mut out, reason.as_str());
            Step::GiveUp(from_chars(&out))
        },
        Attempt::TimedOut => {
            if more {
                Step::RetryAfter { delay_ms: backoff_delay(base_delay_ms, attempt) }
            } else {
                Step::GiveUp("Timed out".to_owned())
            }
        },
    }
}

/// What is to be fetched for a channel.
pub struct PrimePlan {
    /// The number of videos that the channel lists.
    pub total: usize,
    /// The number of videos that are known with their metadata already.
    pub skipped: usize,
    /// The ids of the videos to fetch.
    pub to_fetch: Vec<String>,
    /// The same ids in batches.
    pub batches: Vec<Vec<String>>,
}

/// Plans the priming of a channel: of the ids that the channel lists, those
/// that are not among `existing` are to be fetched, five to a batch.
///
/// No id that is among `existing` is in any batch.  Where all ids are among
/// `existing`, there is no batch and nothing is to be done.
pub fn plan_prime(listed: &Vec<String>, existing: &StringHashSet) -> (plan: PrimePlan)
    ensures
        plan.total == listed.len(),
        plan.skipped == existing@.len(),
        string_views(plan.to_fetch@) == string_views(listed@).filter(unknown_to(existing@)),
        plan.batches.len() == page_count(plan.to_fetch.len() as int, 5),
        forall|b: int|
            0 <= b < plan.batches.len() ==> string_views((#[trigger] plan.batches@[b])@)
                == string_views(plan.to_fetch@).subrange(
                page_start(plan.to_fetch.len() as int, 5, b),
                page_end(plan.to_fetch.len() as int, 5, b),
            ) && 0 < plan.batches@[b].len() <= 5,
        forall|b: int, k: int|
            0 <= b < plan.batches.len() && 0 <= k < plan.batches@[b].len() ==> !existing@.contains(
                #[trigger] plan.batches@[b]@[k]@,
            ),
{
    let to_fetch = ids_to_fetch(listed, existing);
    let batches = make_batches(&to_fetch, BATCH_SIZE);
    proof {
        let ids = string_views(to_fetch@);
        assert forall|b: int, k: int|
            0 <= b < batches.len() && 0 <= k < batches@[b].len() implies !existing@.contains(
            #[trigger] batches@[b]@[k]@,
        ) by {
            let id = batches@[b]@[k]@;
            assert(ids.contains(id));
            let j = choose|j: int| 0 <= j < ids.len() && ids[j] == id;
            assert(ids[j] == to_fetch@[j]@);
        }
    }
    PrimePlan { total: listed.len(), skipped: existing.len(), to_fetch, batches }
}

/// How many videos have been dealt with once a batch of `batch_len` is
/// done after `done` others: never more than `total`.
pub fn progress_after(done: usize, batch_len: usize, total: usize) -> (r: usize)
    ensures
        r == if done + batch_len < total {
            done + batch_len
        } else {
            total as int
        },
{
    if done < total && batch_len < total - done {
        done + batch_len
    } else {
        total
    }
}

/// The videos of all the batches, in order.
pub open spec fn all_videos(fetched: Seq<Vec<Video>>) -> Seq<VideoView>
    decreases fetched.len(),
{
    if fetched.len() == 0 {
        Seq::empty()
    } else {
        all_videos(fetched.drop_last()) + video_views(fetched.last()@)
    }
}

/// The number of batches that brought nothing.
pub open spec fn empty_batches(fetched: Seq<Vec<Video>>) -> nat
    decreases fetched.len(),
{
    if fetched.len() == 0 {
        0
    } else {
        empty_batches(fetched.drop_last()) + if fetched.last().len() == 0 {
            1nat
        } else {
            0nat
        }
    }
}

/// Adds up what the batches of a priming run have brought.
///
/// `fetched` holds the videos of each batch that was run; a batch that
/// failed has none.  Each batch without videos counts as five failed
/// videos, whatever its size; the videos of the others are added up.
pub fn summarize_prime(total: usize, skipped: usize, fetched: &Vec<Vec<Video>>) -> (r: PrimeResult)
    requires
        5 * fetched.len() <= usize::MAX,
    ensures
        r.total == total,
        r.skipped == skipped,
        r.failed == 5 * empty_batches(fetched@),
        r.added == r.videos.len(),
        video_views(r.videos@) == all_videos(fetched@),
{
    let mut failed: usize = 0;
    let mut videos: Vec<Video> = Vec::new();
    let mut b: usize = 0;
    assert(fetched@.take(0) =~= Seq::empty());
    assert(video_views(videos@) =~= all_videos(fetched@.take(0)));
    while b < fetched.len()
        invariant
            b <= fetched.len(),
            5 * fetched.len() <= usize::MAX,
            failed == 5 * empty_batches(fetched@.take(b as int)),
            empty_batches(fetched@.take(b as int)) <= b,
            video_views(videos@) == all_videos(fetched@.take(b as int)),
        decreases fetched.len() - b,
    {
        let batch = &fetched[b];
        assert(fetched@.take(b + 1).drop_last() =~= fetched@.take(b as int));
        assert(fetched@.take(b + 1).last() == fetched@[b as int]);
        if batch.len() == 0 {
            failed += BATCH_SIZE;
            assert(video_views(batch@) =~= Seq::empty());
            assert(video_views(videos@) + video_views(batch@) =~= video_views(videos@));
        } else {
            let mut i: usize = 0;
            let ghost before = video_views(videos@);
            assert(before + video_views(batch@).take(0) =~= before);
            while i < batch.len()
                invariant
                    i <= batch.len(),
                    video_views(videos@) == before + video_views(batch@).take(i as int),
                decreases batch.len() - i,
            {
                let ghost so_far = video_views(videos@);
                videos.push(batch[i].clone());
                assert(video_views(videos@) =~= so_far.push(batch@[i as int]@));
                assert(video_views(videos@) =~= before + video_views(batch@).take(i + 1));
                i += 1;
            }
            assert(video_views(batch@).take(batch.len() as int) =~= video_views(batch@));
        }
        b += 1;
    }
    assert(fetched@.take(fetched.len() as int) =~= fetched@);
    PrimeResult { added: videos.len(), total, skipped, failed, videos }
}

} // verus!
