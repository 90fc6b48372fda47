//! What the application does when asked, apart from what has to wait for
//! the world outside: each piece of outside work has a step that begins
//! it and a step that takes in how it ended.

use crate::app::{subscription_ref_views, video_ref_views, App, AppView, Mode, Screen};
use crate::order::sorted_by;
use crate::player::{PlayResult, PlayResultView};
use crate::store::{
    by_date, by_name, has_conflict, in_channel, in_scope, page_end, page_start, presented,
    string_views, subscription_position, subscription_views, upsert_all, video_views, DatabaseView,
};
use crate::sync::{enriched_ids, PrimeResult};
use crate::text::{append_decimal, append_str, decimal, from_chars};
use crate::video::{Subscription, SubscriptionView, Video, VideoView};
use crate::ytdlp::{ChannelInfo, ChannelInfoView, VideoDescription, VideoDescriptionView};
use vstd::hash_set::StringHashSet;
use vstd::prelude::*;

verus! {

/// The subscription to the channel that the provider has described.
pub open spec fn subscription_of(info: ChannelInfoView) -> SubscriptionView {
    SubscriptionView { id: info.id, name: info.name, url: info.url, added_at: None }
}

impl AppView {
    /// The state while outside work is under way, with words that say which.
    pub open spec fn loading_with(self, message: Seq<char>) -> AppView {
        AppView { loading: true, loading_message: message, ..self }
    }

    /// The state once outside work has ended.
    pub open spec fn loaded(self) -> AppView {
        AppView { loading: false, loading_message: Seq::empty(), ..self }
    }

    /// The state with the subscriptions as the store has them, and the
    /// counts with them.
    pub open spec fn with_fresh_subscriptions(self) -> AppView {
        (AppView { subscriptions: sorted_by(self.db.subscriptions, by_name()), ..self })
            .with_fresh_counts()
    }

    /// The state after the provider has described a channel that was to be
    /// added, or has failed to.  A channel that is new is subscribed to and
    /// offered for priming; for one that is subscribed to already, and for
    /// a failure, a message tells so.
    pub open spec fn channel_described(self, result: Result<ChannelInfoView, Seq<char>>) -> AppView {
        (match result {
            Ok(info) => if has_conflict(self.db.subscriptions, subscription_of(info)) {
                self.with_message("Subscription already exists"@, true)
            } else {
                AppView {
                    pending_channel: Some(info),
                    mode: Mode::ConfirmPrime,
                    ..(AppView {
                        db: DatabaseView {
                            subscriptions: self.db.subscriptions.push(subscription_of(info)),
                            ..self.db
                        },
                        ..self
                    }).with_fresh_subscriptions().with_message("Added: "@ + info.name, false)
                }
            },
            Err(e) => self.with_message(e, true),
        }).loaded().with_no_input()
    }

    /// The selection in the list of channels, brought back into the list
    /// where the list has become shorter.
    pub open spec fn with_channel_in_range(self) -> AppView {
        let len = self.filtered_subscriptions().len();
        if self.channel_selected >= len && len > 0 {
            AppView { channel_selected: (len - 1) as usize, ..self }
        } else {
            self
        }
    }

    /// The state after the selected channel has been unsubscribed from.
    pub open spec fn channel_deleted(self) -> AppView {
        let channels = self.filtered_subscriptions();
        AppView {
            mode: Mode::List,
            ..if self.channel_selected < channels.len() {
                let channel = channels[self.channel_selected as int];
                match subscription_position(self.db.subscriptions, channel.id, 0) {
                    Some(i) => (AppView {
                        db: DatabaseView {
                            subscriptions: self.db.subscriptions.remove(i),
                            ..self.db
                        },
                        ..self
                    }).with_fresh_subscriptions().with_message(
                        "Removed: "@ + channel.name,
                        false,
                    ).with_channel_in_range(),
                    None => self.with_message("Subscription not found"@, true),
                }
            } else {
                self
            }
        }
    }

    /// The state after a refresh has brought `fresh`.
    pub open spec fn refreshed(self, fresh: Seq<VideoView>) -> AppView {
        (AppView { db: DatabaseView { videos: upsert_all(self.db.videos, fresh), ..self.db }, ..self })
            .with_fresh_counts().loaded().with_message("Refreshed"@, false)
    }

    /// The state after the first check for new videos has brought `fresh`.
    pub open spec fn first_checked(self, fresh: Seq<VideoView>) -> AppView {
        AppView {
            has_checked_for_new: true,
            loading_message: Seq::empty(),
            ..(AppView {
                db: DatabaseView { videos: upsert_all(self.db.videos, fresh), ..self.db },
                ..self
            }).with_fresh_counts()
        }
    }

    /// The state when a search for `query` begins.
    pub open spec fn searching(self, query: Seq<char>) -> AppView {
        AppView {
            search_query: query,
            screen: Screen::Search,
            mode: Mode::List,
            search_selected: 0,
            search_scroll: 0,
            filter_text: Seq::empty(),
            show_description: false,
            description: None,
            loading: true,
            loading_message: "Searching..."@,
            ..self
        }
    }

    /// The state after a search has ended.
    pub open spec fn searched(self, result: Result<Seq<VideoView>, Seq<char>>) -> AppView {
        (match result {
            Ok(results) => (AppView { search_results: results, ..self }).with_fresh_watched(),
            Err(e) => self.with_message(e, true),
        }).loaded()
    }

    /// The video that is selected in the list that is shown, if one is.
    pub open spec fn selected_video(self) -> Option<VideoView> {
        let videos = self.filtered_videos();
        if self.selected() < videos.len() {
            Some(videos[self.selected() as int])
        } else {
            None
        }
    }

    /// The state when the selected video begins to play: it is marked as
    /// watched before the player is started.
    pub open spec fn playing_selected(self) -> AppView {
        match self.selected_video() {
            Some(video) => AppView {
                playing: true,
                ..(AppView {
                    db: DatabaseView {
                        watched: crate::store::marked(self.db.watched, video.id),
                        ..self.db
                    },
                    ..self
                }).with_fresh_watched().with_message("Opening: "@ + video.title, false)
            },
            None => self,
        }
    }

    /// The state after the start of the player has ended.
    pub open spec fn played(self, result: PlayResultView) -> AppView {
        AppView {
            playing: false,
            ..if result.success {
                self.with_message("Playing in "@ + result.player, false)
            } else {
                match result.error {
                    Some(e) => self.with_message("Failed to play: "@ + e, true),
                    None => self,
                }
            }
        }
    }

    /// The state when the description of the selected video is asked for.
    pub open spec fn describing(self) -> AppView {
        match self.selected_video() {
            Some(_) => AppView {
                show_description: true,
                loading_description: true,
                description: None,
                ..self
            },
            None => self,
        }
    }

    /// The state after the description of a video has come, or has failed to.
    pub open spec fn described(
        self,
        title: Seq<char>,
        channel_name: Seq<char>,
        result: Result<VideoDescriptionView, Seq<char>>,
    ) -> AppView {
        AppView {
            loading_description: false,
            description: Some(
                match result {
                    Ok(d) => d,
                    Err(e) => VideoDescriptionView {
                        title,
                        description: "Error: "@ + e,
                        channel_name,
                    },
                },
            ),
            ..self
        }
    }

    /// The subscription to the channel of a search result.
    pub open spec fn subscription_from(video: VideoView, channel_id: Seq<char>) -> SubscriptionView {
        SubscriptionView {
            id: channel_id,
            name: match video.channel_name {
                Some(n) => n,
                None => "Unknown"@,
            },
            url: "https://www.youtube.com/channel/"@ + channel_id,
            added_at: None,
        }
    }

    /// The state after the channel of the selected search result has been
    /// subscribed to.
    pub open spec fn subscribed_from_search(self) -> AppView {
        let videos = self.filtered_videos();
        AppView {
            mode: Mode::List,
            ..if self.search_selected < videos.len() {
                let video = videos[self.search_selected as int];
                match video.channel_id {
                    Some(channel_id) => if subscription_position(
                        self.db.subscriptions,
                        channel_id,
                        0,
                    ) is Some {
                        self.with_message(
                            "Already subscribed to "@ + match video.channel_name {
                                Some(n) => n,
                                None => "?"@,
                            },
                            false,
                        )
                    } else {
                        let sub = Self::subscription_from(video, channel_id);
                        if has_conflict(self.db.subscriptions, sub) {
                            self.with_message("Subscription already exists"@, true)
                        } else {
                            (AppView {
                                db: DatabaseView {
                                    subscriptions: self.db.subscriptions.push(sub),
                                    ..self.db
                                },
                                ..self
                            }).with_fresh_subscriptions().with_message("Added: "@ + sub.name, false)
                        }
                    },
                    None => self,
                }
            } else {
                self
            }
        }
    }
}

fn joined(prefix: &str, rest: &str) -> (r: String)
    ensures
        r@ == prefix@ + rest@,
{
    let mut out: Vec<char> = Vec::new();
    append_str(&mut out, prefix);
    append_str(&mut out, rest);
    from_chars(&out)
}

/// A request to play a video.
pub struct PlayRequest {
    pub url: String,
    pub id: String,
    pub title: String,
}

/// A request for the description of a video.
pub struct DescriptionRequest {
    pub video_id: String,
    pub title: String,
    pub channel_name: String,
}

impl App {
    /// Notes that outside work is under way, with words that say which.
    pub fn begin_loading(&mut self, message: &str)
        ensures
            final(self)@ == old(self)@.loading_with(message@),
            final(self).db == old(self).db,
    {
        self.loading = true;
        self.loading_message = message.to_owned();
    }

    /// Notes that outside work has ended.
    pub fn end_loading(&mut self)
        ensures
            final(self)@ == old(self)@.loaded(),
            final(self).db == old(self).db,
    {
        self.loading = false;
        self.loading_message = String::new();
    }

    /// Notes that the channel at the address that was entered is about to be
    /// looked up.
    pub fn begin_add_channel(&mut self)
        ensures
            final(self)@ == (AppView {
                mode: Mode::List,
                ..old(self)@.loading_with("Fetching channel info..."@)
            }),
            final(self).db == old(self).db,
    {
        self.begin_loading("Fetching channel info...");
        self.mode = Mode::List;
    }

    /// Notes that the feeds of all channels are about to be fetched, and
    /// says which: each channel of the list by its id and name.
    pub fn begin_refresh(&mut self) -> (r: Vec<(String, String)>)
        ensures
            final(self)@ == old(self)@.loading_with("Checking for new videos..."@),
            final(self).db == old(self).db,
            pair_views(r@) == id_name_pairs(old(self)@.subscriptions),
    {
        self.begin_loading("Checking for new videos...");
        feed_targets(&self.subscriptions)
    }

    /// Tells how far the priming of the channel `name` has come: how many
    /// of the videos that are to be fetched are dealt with.
    pub fn show_prime_progress(&mut self, name: &str, done: usize, total: usize)
        ensures
            final(self)@ == (AppView {
                loading_message: "Priming "@ + name@ + ": scanned "@ + decimal(done as nat) + " | "@
                    + decimal(total as nat) + " new"@,
                ..old(self)@
            }),
            final(self).db == old(self).db,
    {
        let mut text: Vec<char> = Vec::new();
        append_str(&mut text, "Priming ");
        append_str(&mut text, name);
        append_str(&mut text, ": scanned ");
        append_decimal(&mut text, done as u128);
        append_str(&mut text, " | ");
        append_decimal(&mut text, total as u128);
        append_str(&mut text, " new");
        self.loading_message = from_chars(&text);
    }

    /// Takes in what the provider has found of a channel that was to be added.
    pub fn finish_add_channel(&mut self, result: Result<ChannelInfo, String>)
        requires
            old(self).wf(),
        ensures
            final(self).wf(),
            final(self)@ == old(self)@.channel_described(
                match result {
                    Ok(info) => Ok(info@),
                    Err(e) => Err(e@),
                },
            ),
    {
        match result {
            Ok(info) => {
                let sub = Subscription {
                    id: info.id.clone(),
                    name: info.name.clone(),
                    url: info.url.clone(),
                    added_at: None,
                };
                assert(sub@ == subscription_of(info@));
                match self.db.add_subscription(&sub) {
                    Ok(_) => {
                        self.load_subscriptions();
                        self.set_message(joined("Added: ", info.name.as_str()).as_str());
                        self.pending_channel = Some(info);
                        self.mode = Mode::ConfirmPrime;
                    },
                    Err(e) => {
                        self.set_error(e.as_str());
                    },
                }
            },
            Err(e) => {
                self.set_error(e.as_str());
            },
        }
        self.end_loading();
        self.input_clear();
    }

    /// Unsubscribes from the selected channel and says so.
    pub fn delete_selected_channel(&mut self)
        requires
            old(self).wf(),
        ensures
            final(self).wf(),
            final(self)@ == old(self)@.channel_deleted(),
    {
        let filtered = self.filtered_subscriptions();
        if self.channel_selected < filtered.len() {
            assert(subscription_ref_views(filtered@)[self.channel_selected as int]
                == filtered@[self.channel_selected as int]@);
            let id = filtered[self.channel_selected].id.clone();
            let name = filtered[self.channel_selected].name.clone();
            match self.db.remove_subscription(id.as_str()) {
                Ok(_) => {
                    self.load_subscriptions();
                    self.set_message(joined("Removed: ", name.as_str()).as_str());
                    let remaining = self.filtered_subscriptions();
                    assert(subscription_ref_views(remaining@).len() == remaining@.len());
                    let filtered_len = remaining.len();
                    if self.channel_selected >= filtered_len && filtered_len > 0 {
                        self.channel_selected = filtered_len - 1;
                    }
                },
                Err(e) => {
                    self.set_error(e.as_str());
                },
            }
        } else {
            assert(subscription_ref_views(filtered@).len() == filtered@.len());
        }
        self.mode = Mode::List;
    }

    /// Takes in the videos that a refresh has brought.
    pub fn finish_refresh(&mut self, fresh: &Vec<Video>)
        requires
            old(self).wf(),
        ensures
            final(self).wf(),
            final(self)@ == old(self)@.refreshed(video_views(fresh@)),
    {
        self.db.store_videos(fresh);
        self.refresh_counts();
        self.end_loading();
        self.set_message("Refreshed");
    }

    /// Takes in the videos that the first check for new ones has brought.
    pub fn finish_first_check(&mut self, fresh: &Vec<Video>)
        requires
            old(self).wf(),
        ensures
            final(self).wf(),
            final(self)@ == old(self)@.first_checked(video_views(fresh@)),
    {
        self.db.store_videos(fresh);
        self.refresh_counts();
        self.has_checked_for_new = true;
        self.loading_message = String::new();
    }

    /// Goes to the results of a search that is about to run.
    pub fn begin_search(&mut self, query: &str)
        ensures
            final(self)@ == old(self)@.searching(query@),
            final(self).db == old(self).db,
    {
        self.navigate_to_search(query.to_owned());
        self.begin_loading("Searching...");
    }

    /// Takes in how a search has ended.
    pub fn finish_search(&mut self, result: Result<Vec<Video>, String>)
        requires
            old(self).wf(),
        ensures
            final(self).wf(),
            final(self)@ == old(self)@.searched(
                match result {
                    Ok(videos) => Ok(video_views(videos@)),
                    Err(e) => Err(e@),
                },
            ),
    {
        match result {
            Ok(results) => {
                self.search_results = results;
                self.refresh_watched();
            },
            Err(e) => {
                self.set_error(e.as_str());
            },
        }
        self.end_loading();
    }

    /// Marks the selected video as watched and notes that it is about to
    /// play; says what is to be played, or `None` where no video is selected.
    pub fn begin_play(&mut self) -> (r: Option<PlayRequest>)
        requires
            old(self).wf(),
        ensures
            final(self).wf(),
            final(self)@ == old(self)@.playing_selected(),
            match r {
                Some(request) => old(self)@.selected_video() matches Some(video) && request.url@
                    == video.url && request.id@ == video.id && request.title@ == video.title,
                None => old(self)@.selected_video() is None,
            },
    {
        let selected = self.current_selected();
        let filtered = self.filtered_videos();
        assert(video_ref_views(filtered@).len() == filtered@.len());
        if selected < filtered.len() {
            assert(video_ref_views(filtered@)[selected as int] == filtered@[selected as int]@);
            let request = PlayRequest {
                url: filtered[selected].url.clone(),
                id: filtered[selected].id.clone(),
                title: filtered[selected].title.clone(),
            };
            self.db.mark_as_watched(request.id.as_str());
            self.refresh_watched();
            self.playing = true;
            self.set_message(joined("Opening: ", request.title.as_str()).as_str());
            Some(request)
        } else {
            None
        }
    }

    /// Takes in how the start of the player has ended.
    pub fn finish_play(&mut self, result: &PlayResult)
        ensures
            final(self)@ == old(self)@.played(result@),
            final(self).db == old(self).db,
    {
        if result.success {
            self.set_message(joined("Playing in ", result.player.as_str()).as_str());
        } else {
            match &result.error {
                Some(err) => {
                    self.set_error(joined("Failed to play: ", err.as_str()).as_str());
                },
                None => {},
            }
        }
        self.playing = false;
    }

    /// Opens the description panel for the selected video; says which
    /// description is to be fetched, or `None` where no video is selected.
    pub fn begin_description(&mut self) -> (r: Option<DescriptionRequest>)
        ensures
            final(self)@ == old(self)@.describing(),
            final(self).db == old(self).db,
            match r {
                Some(request) => old(self)@.selected_video() matches Some(video) && request.video_id@
                    == video.id && request.title@ == video.title && request.channel_name@
                    == crate::app::channel_name_or_empty(video),
                None => old(self)@.selected_video() is None,
            },
    {
        let selected = self.current_selected();
        let filtered = self.filtered_videos();
        assert(video_ref_views(filtered@).len() == filtered@.len());
        if selected < filtered.len() {
            assert(video_ref_views(filtered@)[selected as int] == filtered@[selected as int]@);
            let request = DescriptionRequest {
                video_id: filtered[selected].id.clone(),
                title: filtered[selected].title.clone(),
                channel_name: match &filtered[selected].channel_name {
                    Some(n) => n.clone(),
                    None => "".to_owned(),
                },
            };
            self.show_description = true;
            self.loading_description = true;
            self.description = None;
            Some(request)
        } else {
            None
        }
    }

    /// Takes in the description that was asked for, or the reason why none came.
    pub fn finish_description(
        &mut self,
        request: DescriptionRequest,
        result: Result<VideoDescription, String>,
    )
        ensures
            final(self)@ == old(self)@.described(
                request.title@,
                request.channel_name@,
                match result {
                    Ok(d) => Ok(d@),
                    Err(e) => Err(e@),
                },
            ),
            final(self).db == old(self).db,
    {
        match result {
            Ok(desc) => {
                self.description = Some(desc);
            },
            Err(e) => {
                self.description = Some(
                    VideoDescription {
                        title: request.title,
                        description: joined("Error: ", e.as_str()),
                        channel_name: request.channel_name,
                    },
                );
            },
        }
        self.loading_description = false;
    }

    /// Subscribes to the channel of the selected search result and says so.
    pub fn subscribe_from_search(&mut self)
        requires
            old(self).wf(),
        ensures
            final(self).wf(),
            final(self)@ == old(self)@.subscribed_from_search(),
    {
        let filtered = self.filtered_videos();
        assert(video_ref_views(filtered@).len() == filtered@.len());
        if self.search_selected < filtered.len() {
            assert(video_ref_views(filtered@)[self.search_selected as int]
                == filtered@[self.search_selected as int]@);
            let video = filtered[self.search_selected];
            let channel_name = crate::video::clone_opt(&video.channel_name);
            match crate::video::clone_opt(&video.channel_id) {
                Some(channel_id) => {
                    if self.db.has_subscription(channel_id.as_str()) {
                        let name = match &channel_name {
                            Some(n) => n.as_str(),
                            None => "?",
                        };
                        self.set_message(joined("Already subscribed to ", name).as_str());
                    } else {
                        let sub = Subscription {
                            id: channel_id.clone(),
                            name: match channel_name {
                                Some(n) => n,
                                None => "Unknown".to_owned(),
                            },
                            url: joined("https://www.youtube.com/channel/", channel_id.as_str()),
                            added_at: None,
                        };
                        match self.db.add_subscription(&sub) {
                            Ok(_) => {
                                self.load_subscriptions();
                                self.set_message(joined("Added: ", sub.name.as_str()).as_str());
                            },
                            Err(e) => {
                                self.set_error(e.as_str());
                            },
                        }
                    }
                },
                None => {},
            }
        }
        self.mode = Mode::List;
    }
}

/// What priming a channel is asked with.
pub struct PrimeRequest {
    pub channel_id: String,
    pub channel_name: String,
    pub channel_url: String,
    /// The ids of the channel's videos whose metadata is known already.
    pub existing_ids: StringHashSet,
}

/// How the priming of a channel has ended.
pub enum PrimeOutcome {
    Done(PrimeResult),
    /// The list of the channel's videos could not be had; the reason in words.
    Failed(String),
    /// The run itself broke down; the reason in words.
    Broken(String),
}

/// What a priming run has brought, as plain values.
pub struct PrimeResultView {
    pub added: usize,
    pub total: usize,
    pub skipped: usize,
    pub failed: usize,
    pub videos: Seq<VideoView>,
}

impl View for PrimeResult {
    type V = PrimeResultView;

    open spec fn view(&self) -> PrimeResultView {
        PrimeResultView {
            added: self.added,
            total: self.total,
            skipped: self.skipped,
            failed: self.failed,
            videos: video_views(self.videos@),
        }
    }
}

/// How the priming of a channel has ended, as plain values.
pub enum PrimeOutcomeView {
    Done(PrimeResultView),
    Failed(Seq<char>),
    Broken(Seq<char>),
}

impl View for PrimeOutcome {
    type V = PrimeOutcomeView;

    open spec fn view(&self) -> PrimeOutcomeView {
        match self {
            PrimeOutcome::Done(r) => PrimeOutcomeView::Done(r@),
            PrimeOutcome::Failed(e) => PrimeOutcomeView::Failed(e@),
            PrimeOutcome::Broken(e) => PrimeOutcomeView::Broken(e@),
        }
    }
}

/// The sum of two counts, or the largest count there is where the sum is
/// beyond it.
pub open spec fn capped_sum(a: usize, b: usize) -> usize {
    if a + b > usize::MAX {
        usize::MAX
    } else {
        (a + b) as usize
    }
}

fn add_capped(a: usize, b: usize) -> (r: usize)
    ensures
        r == capped_sum(a, b),
{
    if a > usize::MAX - b {
        usize::MAX
    } else {
        a + b
    }
}

/// What the priming of all channels has brought so far.
#[derive(Debug, Clone, Copy, PartialEq, Eq, Structural)]
pub struct PrimeAllTally {
    pub completed: usize,
    pub added: usize,
    pub skipped: usize,
    pub failures: usize,
}

/// The words for how far the priming of all channels has come.
pub open spec fn priming_all_message(completed: usize, total: usize) -> Seq<char> {
    "Priming "@ + decimal(completed as nat) + "/"@ + decimal(total as nat)
}

fn priming_all_text(completed: usize, total: usize) -> (r: String)
    ensures
        r@ == priming_all_message(completed, total),
{
    let mut out: Vec<char> = Vec::new();
    append_str(&mut out, "Priming ");
    append_decimal(&mut out, completed as u128);
    append_str(&mut out, "/");
    append_decimal(&mut out, total as u128);
    from_chars(&out)
}

/// What is to be fetched before videos are shown.
pub enum LoadRequest {
    /// The feed of one channel, by its id and name.
    Channel(String, String),
    /// The feeds of all the given channels, each by its id and name.
    All(Vec<(String, String)>),
}

impl PrimeAllTally {
    /// The tally after one more channel is done.
    pub open spec fn with(self, result: Result<PrimeResultView, Seq<char>>) -> PrimeAllTally {
        match result {
            Ok(r) => PrimeAllTally {
                completed: capped_sum(self.completed, 1),
                added: capped_sum(self.added, r.added),
                skipped: capped_sum(self.skipped, r.skipped),
                failures: self.failures,
            },
            Err(_) => PrimeAllTally {
                completed: capped_sum(self.completed, 1),
                failures: capped_sum(self.failures, 1),
                ..self
            },
        }
    }

    /// The words that sum the priming of all channels up.
    pub open spec fn summary(self) -> Seq<char> {
        "Primed all: "@ + decimal(self.added as nat) + " videos added ("@ + decimal(
            self.skipped as nat,
        ) + " cached"@ + (if self.failures > 0 {
            ", "@ + decimal(self.failures as nat) + " failed"@
        } else {
            Seq::empty()
        }) + ")"@
    }

    /// A tally of nothing.
    pub fn new() -> (r: PrimeAllTally)
        ensures
            r == (PrimeAllTally { completed: 0, added: 0, skipped: 0, failures: 0 }),
    {
        PrimeAllTally { completed: 0, added: 0, skipped: 0, failures: 0 }
    }
}

/// The ids and names of the given subscriptions.
pub open spec fn id_name_pairs(subs: Seq<SubscriptionView>) -> Seq<(Seq<char>, Seq<char>)> {
    subs.map_values(|s: SubscriptionView| (s.id, s.name))
}

/// The views of the given pairs of strings.
pub open spec fn pair_views(pairs: Seq<(String, String)>) -> Seq<(Seq<char>, Seq<char>)> {
    pairs.map_values(|p: (String, String)| (p.0@, p.1@))
}

/// The ids and names of the given subscriptions.
pub fn feed_targets(subs: &Vec<Subscription>) -> (r: Vec<(String, String)>)
    ensures
        pair_views(r@) == id_name_pairs(subscription_views(subs@)),
{
    let mut out: Vec<(String, String)> = Vec::new();
    let mut i: usize = 0;
    while i < subs.len()
        invariant
            i <= subs.len(),
            pair_views(out@) == id_name_pairs(subscription_views(subs@)).take(i as int),
        decreases subs.len() - i,
    {
        let ghost before = pair_views(out@);
        out.push((subs[i].id.clone(), subs[i].name.clone()));
        assert(pair_views(out@) =~= before.push((subs@[i as int]@.id, subs@[i as int]@.name)));
        assert(pair_views(out@) =~= id_name_pairs(subscription_views(subs@)).take(i + 1));
        i += 1;
    }
    assert(id_name_pairs(subscription_views(subs@)).take(subs.len() as int) =~= id_name_pairs(
        subscription_views(subs@),
    ));
    out
}

/// The ids of the given subscriptions.
pub open spec fn ids_of(subs: Seq<SubscriptionView>) -> Seq<Seq<char>> {
    subs.map_values(|s: SubscriptionView| s.id)
}

/// The ids of the given subscriptions.
pub fn subscription_ids(subs: &Vec<Subscription>) -> (r: Vec<String>)
    ensures
        string_views(r@) == ids_of(subscription_views(subs@)),
{
    let mut out: Vec<String> = Vec::new();
    let mut i: usize = 0;
    while i < subs.len()
        invariant
            i <= subs.len(),
            string_views(out@) == ids_of(subscription_views(subs@)).take(i as int),
        decreases subs.len() - i,
    {
        let ghost before = string_views(out@);
        out.push(subs[i].id.clone());
        assert(string_views(out@) =~= before.push(subs@[i as int]@.id));
        assert(string_views(out@) =~= ids_of(subscription_views(subs@)).take(i + 1));
        i += 1;
    }
    assert(ids_of(subscription_views(subs@)).take(subs.len() as int) =~= ids_of(
        subscription_views(subs@),
    ));
    out
}

impl AppView {
    /// The state when the priming of the channel that was just added begins.
    pub open spec fn priming(self) -> AppView {
        match self.pending_channel {
            Some(channel) => self.loading_with("Priming "@ + channel.name + "..."@),
            None => self,
        }
    }

    /// The words that tell what the priming of a channel has brought.
    pub open spec fn primed_message(name: Seq<char>, result: PrimeResultView) -> Seq<char> {
        "Primed "@ + name + ": "@ + decimal(result.added as nat) + " new videos added"@ + if result.skipped
            > 0 {
            " ("@ + decimal(result.skipped as nat) + " already cached)"@
        } else {
            Seq::empty()
        }
    }

    /// The state after the priming of the channel `name` has ended: what it
    /// has brought is stored, and a message tells of it.
    pub open spec fn primed(self, name: Seq<char>, outcome: PrimeOutcomeView) -> AppView {
        AppView {
            pending_channel: None,
            mode: Mode::List,
            ..(match outcome {
                PrimeOutcomeView::Done(result) => (AppView {
                    db: DatabaseView {
                        videos: upsert_all(self.db.videos, result.videos),
                        ..self.db
                    },
                    ..self
                }).with_message(Self::primed_message(name, result), false).with_fresh_counts(),
                PrimeOutcomeView::Failed(e) => self.with_message("Prime failed: "@ + e, true),
                PrimeOutcomeView::Broken(e) => self.with_message("Prime task failed: "@ + e, true),
            }).loaded()
        }
    }

    /// The state when the priming of all channels begins.
    pub open spec fn priming_all(self) -> AppView {
        if self.subscriptions.len() == 0 {
            self
        } else {
            AppView {
                loading: true,
                mode: Mode::List,
                loading_message: priming_all_message(0, self.subscriptions.len() as usize),
                ..self
            }
        }
    }

    /// The state after one more channel of a priming of all is done.
    pub open spec fn primed_one(
        self,
        tally: PrimeAllTally,
        total_channels: usize,
        result: Result<PrimeResultView, Seq<char>>,
    ) -> AppView {
        AppView {
            loading_message: priming_all_message(tally.with(result).completed, total_channels),
            db: match result {
                Ok(r) => DatabaseView { videos: upsert_all(self.db.videos, r.videos), ..self.db },
                Err(_) => self.db,
            },
            ..self
        }
    }

    /// The state after the priming of all channels has ended.
    pub open spec fn primed_all(self, tally: PrimeAllTally) -> AppView {
        self.loaded().with_fresh_counts().with_message(tally.summary(), false)
    }

    /// The state when the videos for the screen begin to load.
    pub open spec fn loading_videos(self) -> AppView {
        self.loading_with("Refreshing..."@)
    }

    /// The state after the videos for the screen have loaded, at the instant
    /// `now`; `fresh` is what the feeds have brought.
    ///
    /// For one channel the screen shows what the store has of it, and what
    /// the feed has brought beyond that, newest first.  For all channels it
    /// shows the first page of the store's listing of the channels that are
    /// subscribed to; without subscriptions it shows nothing, and `fresh` is
    /// not stored.
    pub open spec fn videos_loaded(self, fresh: Seq<VideoView>, now: i64) -> AppView {
        let stored = DatabaseView { videos: upsert_all(self.db.videos, fresh), ..self.db };
        (AppView {
            video_selected: 0,
            video_scroll: 0,
            ..match self.current_channel {
                Some(channel) => {
                    let videos = sorted_by(
                        crate::store::merged_unseen(
                            presented(
                                sorted_by(stored.videos.filter(in_channel(channel.id)), by_date()),
                                now,
                            ),
                            fresh,
                        ),
                        crate::store::by_date_or_epoch(),
                    );
                    AppView { db: stored, videos, total_videos: videos.len() as usize, ..self }
                },
                None => if self.db.subscriptions.len() == 0 {
                    AppView { videos: Seq::empty(), total_videos: 0, ..self }
                } else {
                    let ids = ids_of(sorted_by(self.db.subscriptions, by_name()));
                    let rows = stored.videos.filter(in_scope(Some(ids)));
                    AppView {
                        db: stored,
                        all_channel_ids: ids,
                        videos: presented(
                            sorted_by(rows, by_date()).subrange(
                                page_start(rows.len() as int, 100, 0),
                                page_end(rows.len() as int, 100, 0),
                            ),
                            now,
                        ),
                        total_videos: rows.len() as usize,
                        page_size: 100,
                        current_page: 0,
                        ..self
                    }
                },
            }
        }).with_fresh_watched().loaded()
    }
}

impl App {
    /// Notes that the channel that was just added is about to be primed, and
    /// says what the priming is to be asked with; `None` where no channel
    /// was just added.
    pub fn begin_prime_channel(&mut self) -> (r: Option<PrimeRequest>)
        ensures
            final(self)@ == old(self)@.priming(),
            final(self).db == old(self).db,
            match r {
                Some(request) => old(self)@.pending_channel matches Some(channel)
                    && request.channel_id@ == channel.id && request.channel_name@ == channel.name
                    && request.channel_url@ == channel.url && request.existing_ids@
                    == old(self)@.db.enriched_ids(channel.id),
                None => old(self)@.pending_channel is None,
            },
    {
        let channel = match &self.pending_channel {
            Some(channel) => channel.clone(),
            None => {
                return None;
            },
        };
        let mut text: Vec<char> = Vec::new();
        append_str(&mut text, "Priming ");
        append_str(&mut text, channel.name.as_str());
        append_str(&mut text, "...");
        self.begin_loading(from_chars(&text).as_str());
        let existing_ids = self.db.enriched_video_ids(channel.id.as_str());
        Some(
            PrimeRequest {
                channel_id: channel.id,
                channel_name: channel.name,
                channel_url: channel.url,
                existing_ids,
            },
        )
    }

    /// Takes in how the priming of the channel `name` has ended.
    pub fn finish_prime_channel(&mut self, name: &str, outcome: PrimeOutcome)
        requires
            old(self).wf(),
        ensures
            final(self).wf(),
            final(self)@ == old(self)@.primed(name@, outcome@),
    {
        match outcome {
            PrimeOutcome::Done(result) => {
                self.db.store_videos(&result.videos);
                let mut text: Vec<char> = Vec::new();
                append_str(&mut text, "Primed ");
                append_str(&mut text, name);
                append_str(&mut text, ": ");
                append_decimal(&mut text, result.added as u128);
                append_str(&mut text, " new videos added");
                if result.skipped > 0 {
                    append_str(&mut text, " (");
                    append_decimal(&mut text, result.skipped as u128);
                    append_str(&mut text, " already cached)");
                }
                assert(text@ =~= AppView::primed_message(name@, result@));
                self.set_message(from_chars(&text).as_str());
                self.refresh_counts();
            },
            PrimeOutcome::Failed(e) => {
                self.set_error(joined("Prime failed: ", e.as_str()).as_str());
            },
            PrimeOutcome::Broken(e) => {
                self.set_error(joined("Prime task failed: ", e.as_str()).as_str());
            },
        }
        self.end_loading();
        self.pending_channel = None;
        self.mode = Mode::List;
    }

    /// Notes that all channels are about to be primed, and says what each
    /// priming is to be asked with, in the order of the list of channels.
    pub fn begin_prime_all(&mut self) -> (r: Vec<PrimeRequest>)
        ensures
            final(self)@ == old(self)@.priming_all(),
            final(self).db == old(self).db,
            r.len() == old(self).subscriptions.len(),
            forall|i: int|
                0 <= i < r.len() ==> (#[trigger] r@[i]).channel_id@ == old(self)@.subscriptions[i].id
                    && r@[i].channel_name@ == old(self)@.subscriptions[i].name && r@[i].channel_url@
                    == old(self)@.subscriptions[i].url && r@[i].existing_ids@
                    == old(self)@.db.enriched_ids(old(self)@.subscriptions[i].id),
    {
        let mut requests: Vec<PrimeRequest> = Vec::new();
        assert(self@.subscriptions.len() == self.subscriptions.len());
        if self.subscriptions.len() == 0 {
            return requests;
        }
        self.loading = true;
        self.mode = Mode::List;
        self.loading_message = priming_all_text(0, self.subscriptions.len());
        let mut i: usize = 0;
        while i < self.subscriptions.len()
            invariant
                i <= self.subscriptions.len(),
                requests.len() == i,
                self@ == old(self)@.priming_all(),
                self.db == old(self).db,
                self.subscriptions == old(self).subscriptions,
                forall|k: int|
                    0 <= k < i ==> (#[trigger] requests@[k]).channel_id@
                        == old(self)@.subscriptions[k].id && requests@[k].channel_name@
                        == old(self)@.subscriptions[k].name && requests@[k].channel_url@
                        == old(self)@.subscriptions[k].url && requests@[k].existing_ids@
                        == old(self)@.db.enriched_ids(old(self)@.subscriptions[k].id),
            decreases self.subscriptions.len() - i,
        {
            let sub = &self.subscriptions[i];
            assert(old(self)@.subscriptions[i as int] == sub@);
            let existing_ids = self.db.enriched_video_ids(sub.id.as_str());
            requests.push(
                PrimeRequest {
                    channel_id: sub.id.clone(),
                    channel_name: sub.name.clone(),
                    channel_url: sub.url.clone(),
                    existing_ids,
                },
            );
            i += 1;
        }
        requests
    }

    /// Takes in how the priming of one of all channels has ended, and
    /// counts it.
    pub fn record_prime_all(
        &mut self,
        tally: &mut PrimeAllTally,
        total_channels: usize,
        result: Result<PrimeResult, String>,
    )
        requires
            old(self).wf(),
        ensures
            final(self).wf(),
            *final(tally) == old(tally).with(
                match result {
                    Ok(r) => Ok(r@),
                    Err(e) => Err(e@),
                },
            ),
            final(self)@ == old(self)@.primed_one(
                *old(tally),
                total_channels,
                match result {
                    Ok(r) => Ok(r@),
                    Err(e) => Err(e@),
                },
            ),
    {
        tally.completed = add_capped(tally.completed, 1);
        match result {
            Ok(r) => {
                self.db.store_videos(&r.videos);
                tally.added = add_capped(tally.added, r.added);
                tally.skipped = add_capped(tally.skipped, r.skipped);
            },
            Err(_) => {
                tally.failures = add_capped(tally.failures, 1);
            },
        }
        self.loading_message = priming_all_text(tally.completed, total_channels);
    }

    /// Takes in that the priming of all channels has ended, and sums it up.
    pub fn finish_prime_all(&mut self, tally: &PrimeAllTally)
        requires
            old(self).wf(),
        ensures
            final(self).wf(),
            final(self)@ == old(self)@.primed_all(*tally),
    {
        self.end_loading();
        self.refresh_counts();
        let mut text: Vec<char> = Vec::new();
        append_str(&mut text, "Primed all: ");
        append_decimal(&mut text, tally.added as u128);
        append_str(&mut text, " videos added (");
        append_decimal(&mut text, tally.skipped as u128);
        append_str(&mut text, " cached");
        if tally.failures > 0 {
            append_str(&mut text, ", ");
            append_decimal(&mut text, tally.failures as u128);
            append_str(&mut text, " failed");
        }
        append_str(&mut text, ")");
        assert(text@ =~= tally.summary());
        self.set_message(from_chars(&text).as_str());
    }

    /// Notes that the videos for the screen are about to load, and says
    /// which feeds are to be fetched for it.
    pub fn begin_load_videos(&mut self) -> (r: LoadRequest)
        ensures
            final(self)@ == old(self)@.loading_videos(),
            final(self).db == old(self).db,
            match r {
                LoadRequest::Channel(id, name) => old(self)@.current_channel matches Some(channel)
                    && id@ == channel.id && name@ == channel.name,
                LoadRequest::All(pairs) => old(self)@.current_channel is None && pair_views(pairs@)
                    == id_name_pairs(sorted_by(old(self)@.db.subscriptions, by_name())),
            },
    {
        self.begin_loading("Refreshing...");
        match &self.current_channel {
            Some(channel) => LoadRequest::Channel(channel.id.clone(), channel.name.clone()),
            None => {
                let subs = self.db.get_subscriptions();
                LoadRequest::All(feed_targets(&subs))
            },
        }
    }

    /// Takes in what the feeds have brought, and shows the videos.
    pub fn finish_load_videos(&mut self, fresh: &Vec<Video>)
        requires
            old(self).wf(),
        ensures
            final(self).wf(),
            exists|now: i64|
                final(self)@ == #[trigger] old(self)@.videos_loaded(video_views(fresh@), now),
    {
        let now = crate::time::now();
        let channel_id = match &self.current_channel {
            Some(channel) => Some(channel.id.clone()),
            None => None,
        };
        match channel_id {
            Some(id) => {
                self.db.store_videos(fresh);
                let stored = self.db.get_stored_videos_at(id.as_str(), now);
                self.videos = crate::store::merge_for_screen(stored, fresh);
                self.total_videos = self.videos.len();
                assert(video_views(self.videos@).len() == self.videos@.len());
            },
            None => {
                let subs = self.db.get_subscriptions();
                assert(subscription_views(subs@).len() == subs@.len());
                if subs.len() == 0 {
                    self.videos = Vec::new();
                    self.total_videos = 0;
                    assert(video_views(self.videos@) =~= Seq::empty());
                } else {
                    self.db.store_videos(fresh);
                    self.all_channel_ids = subscription_ids(&subs);
                    let result = self.db.get_stored_videos_paginated_at(
                        Some(&self.all_channel_ids),
                        0,
                        100,
                        now,
                    );
                    self.videos = result.videos;
                    self.total_videos = result.total;
                    self.page_size = result.page_size;
                    self.current_page = 0;
                }
            },
        }
        self.refresh_watched();
        self.video_selected = 0;
        self.video_scroll = 0;
        self.end_loading();
        assert(self@ == old(self)@.videos_loaded(video_views(fresh@), now));
    }
}

} // verus!
