//! The state of the application: what is shown, what is selected, and what
//! the pressing of keys has entered so far.

use crate::order::sorted_by;
use crate::store::{
    by_date, by_name, in_channel, in_scope, marked_all, page_end, page_start, presented, put,
    shown_ids, string_views, subscription_views, toggled, video_views, Database, DatabaseView,
};
use crate::text::{
    append_decimal, append_str, contains, contains_sub, decimal, from_chars, lowercase, to_chars,
    to_lowercase,
};
use crate::video::{
    ChannelStats, Settings, SettingsView, Subscription, SubscriptionView, Video, VideoView,
};
use crate::ytdlp::{ChannelInfo, ChannelInfoView, VideoDescription, VideoDescriptionView};
use std::time::Instant;
use vstd::hash_map::StringHashMap;
use vstd::hash_set::StringHashSet;
use vstd::prelude::*;

verus! {

/// What the application shows.
#[derive(Debug, Clone, Copy, PartialEq, Eq, Structural)]
pub enum Screen {
    Channels,
    Videos,
    Search,
}

/// What the keys are taken for.
#[derive(Debug, Clone, Copy, PartialEq, Eq, Structural)]
pub enum Mode {
    List,
    Filter,
    Add,
    GlobalSearch,
    ConfirmDelete,
    ConfirmPrime,
    ConfirmPrimeAll,
    ConfirmMarkAll,
    ConfirmMarkAllVideos,
    ConfirmChannelWatched,
    ConfirmAddChannel,
    NewSearch,
    Description,
}

/// `std::time::Instant`, of which nothing is known here but that it is a type.
#[verifier::external_type_specification]
#[verifier::external_body]
pub struct ExInstant(Instant);

/// A message that is shown for a while.
pub struct StatusMessage {
    pub text: String,
    pub is_error: bool,
    pub created_at: Instant,
}

/// What a [`StatusMessage`] says, as plain values.
pub struct StatusView {
    pub text: Seq<char>,
    pub is_error: bool,
}

impl View for StatusMessage {
    type V = StatusView;

    open spec fn view(&self) -> StatusView {
        StatusView { text: self.text@, is_error: self.is_error }
    }
}

/// The number of seconds for which a message is shown.
pub const MESSAGE_SECONDS: u64 = 3;

/// The number of videos on a page of the listing of all channels.
pub const PAGE_SIZE: usize = 100;

/// The present moment.
///
/// Trusted: calls `std::time::Instant::now`.  Nothing is claimed of the value.
#[verifier::external_body]
fn this_moment() -> Instant {
    Instant::now()
}

/// The number of whole seconds since `moment`.
///
/// Trusted: calls `Instant::elapsed` and `Duration::as_secs`.  Nothing is
/// claimed of the value.
#[verifier::external_body]
fn seconds_since(moment: &Instant) -> u64 {
    moment.elapsed().as_secs()
}

/// The state of the application.
pub struct App {
    pub db: Database,
    pub screen: Screen,
    pub mode: Mode,
    pub subscriptions: Vec<Subscription>,
    pub channel_selected: usize,
    pub channel_scroll: usize,
    pub new_counts: StringHashMap<usize>,
    pub channel_stats: StringHashMap<ChannelStats>,
    pub fully_watched: StringHashSet,
    pub saved_channel_index: usize,
    pub current_channel: Option<Subscription>,
    pub videos: Vec<Video>,
    pub video_selected: usize,
    pub video_scroll: usize,
    pub current_page: usize,
    pub total_videos: usize,
    pub page_size: usize,
    pub search_query: String,
    pub search_results: Vec<Video>,
    pub search_selected: usize,
    pub search_scroll: usize,
    pub watched_ids: StringHashSet,
    pub settings: Settings,
    pub hide_shorts: bool,
    pub filter_text: String,
    pub input_text: String,
    pub input_cursor: usize,
    pub loading: bool,
    pub loading_message: String,
    pub status_message: Option<StatusMessage>,
    pub description: Option<VideoDescription>,
    pub loading_description: bool,
    pub show_description: bool,
    pub pending_channel: Option<ChannelInfo>,
    pub has_checked_for_new: bool,
    pub playing: bool,
    pub all_channel_ids: Vec<String>,
}

/// What the application's state holds, as plain values.
pub struct AppView {
    pub db: DatabaseView,
    pub screen: Screen,
    pub mode: Mode,
    pub subscriptions: Seq<SubscriptionView>,
    pub channel_selected: usize,
    pub channel_scroll: usize,
    pub new_counts: Map<Seq<char>, usize>,
    pub channel_stats: Map<Seq<char>, ChannelStats>,
    pub fully_watched: Set<Seq<char>>,
    pub saved_channel_index: usize,
    pub current_channel: Option<SubscriptionView>,
    pub videos: Seq<VideoView>,
    pub video_selected: usize,
    pub video_scroll: usize,
    pub current_page: usize,
    pub total_videos: usize,
    pub page_size: usize,
    pub search_query: Seq<char>,
    pub search_results: Seq<VideoView>,
    pub search_selected: usize,
    pub search_scroll: usize,
    pub watched_ids: Set<Seq<char>>,
    pub settings: SettingsView,
    pub hide_shorts: bool,
    pub filter_text: Seq<char>,
    pub input_text: Seq<char>,
    pub input_cursor: usize,
    pub loading: bool,
    pub loading_message: Seq<char>,
    pub status_message: Option<StatusView>,
    pub description: Option<VideoDescriptionView>,
    pub loading_description: bool,
    pub show_description: bool,
    pub pending_channel: Option<ChannelInfoView>,
    pub has_checked_for_new: bool,
    pub playing: bool,
    pub all_channel_ids: Seq<Seq<char>>,
}

impl View for App {
    type V = AppView;

    open spec fn view(&self) -> AppView {
        AppView {
            db: self.db@,
            screen: self.screen,
            mode: self.mode,
            subscriptions: subscription_views(self.subscriptions@),
            channel_selected: self.channel_selected,
            channel_scroll: self.channel_scroll,
            new_counts: self.new_counts@,
            channel_stats: self.channel_stats@,
            fully_watched: self.fully_watched@,
            saved_channel_index: self.saved_channel_index,
            current_channel: match self.current_channel {
                Some(c) => Some(c@),
                None => None,
            },
            videos: video_views(self.videos@),
            video_selected: self.video_selected,
            video_scroll: self.video_scroll,
            current_page: self.current_page,
            total_videos: self.total_videos,
            page_size: self.page_size,
            search_query: self.search_query@,
            search_results: video_views(self.search_results@),
            search_selected: self.search_selected,
            search_scroll: self.search_scroll,
            watched_ids: self.watched_ids@,
            settings: self.settings@,
            hide_shorts: self.hide_shorts,
            filter_text: self.filter_text@,
            input_text: self.input_text@,
            input_cursor: self.input_cursor,
            loading: self.loading,
            loading_message: self.loading_message@,
            status_message: match self.status_message {
                Some(m) => Some(m@),
                None => None,
            },
            description: match self.description {
                Some(d) => Some(d@),
                None => None,
            },
            loading_description: self.loading_description,
            show_description: self.show_description,
            pending_channel: match self.pending_channel {
                Some(c) => Some(c@),
                None => None,
            },
            has_checked_for_new: self.has_checked_for_new,
            playing: self.playing,
            all_channel_ids: string_views(self.all_channel_ids@),
        }
    }
}

/// The subscriptions whose name holds `filter`, without regard to case;
/// all of them where `filter` is empty.
pub open spec fn name_matches(filter: Seq<char>) -> spec_fn(SubscriptionView) -> bool {
    |s: SubscriptionView| filter.len() == 0 || contains_sub(lowercase(s.name), lowercase(filter))
}

/// The name of the channel of a video; empty where it has none.
pub open spec fn channel_name_or_empty(v: VideoView) -> Seq<char> {
    match v.channel_name {
        Some(n) => n,
        None => ""@,
    }
}

/// The videos that are shown and whose title or channel name holds
/// `filter`, without regard to case; all that are shown where `filter` is
/// empty.
pub open spec fn video_matches(filter: Seq<char>, hide_shorts: bool) -> spec_fn(VideoView) -> bool {
    |v: VideoView|
        !(hide_shorts && v.is_short) && (filter.len() == 0 || contains_sub(
            lowercase(v.title),
            lowercase(filter),
        ) || contains_sub(lowercase(channel_name_or_empty(v)), lowercase(filter)))
}

/// The views of the subscriptions that the references point to.
pub open spec fn subscription_ref_views(s: Seq<&Subscription>) -> Seq<SubscriptionView> {
    s.map_values(|x: &Subscription| x@)
}

/// The views of the videos that the references point to.
pub open spec fn video_ref_views(s: Seq<&Video>) -> Seq<VideoView> {
    s.map_values(|x: &Video| x@)
}

impl AppView {
    /// The state in which the application starts on the given store.
    pub open spec fn initial(db: DatabaseView) -> AppView {
        let settings = crate::store::settings_of(db.settings);
        AppView {
            db,
            screen: Screen::Channels,
            mode: Mode::List,
            subscriptions: Seq::empty(),
            channel_selected: 0,
            channel_scroll: 0,
            new_counts: Map::empty(),
            channel_stats: Map::empty(),
            fully_watched: Set::empty(),
            saved_channel_index: 0,
            current_channel: None,
            videos: Seq::empty(),
            video_selected: 0,
            video_scroll: 0,
            current_page: 0,
            total_videos: 0,
            page_size: 100,
            search_query: Seq::empty(),
            search_results: Seq::empty(),
            search_selected: 0,
            search_scroll: 0,
            watched_ids: db.watched.to_set(),
            settings,
            hide_shorts: settings.hide_shorts,
            filter_text: Seq::empty(),
            input_text: Seq::empty(),
            input_cursor: 0,
            loading: false,
            loading_message: Seq::empty(),
            status_message: None,
            description: None,
            loading_description: false,
            show_description: false,
            pending_channel: None,
            has_checked_for_new: false,
            playing: false,
            all_channel_ids: Seq::empty(),
        }
    }

    /// The state with the counts of new videos, the statistics and the fully
    /// watched channels as the store has them.
    pub open spec fn with_fresh_counts(self) -> AppView {
        AppView {
            new_counts: self.db.new_counts(self.hide_shorts),
            channel_stats: self.db.channel_stats(self.hide_shorts),
            fully_watched: self.db.fully_watched_channels(self.hide_shorts),
            ..self
        }
    }

    /// The state with the watched ids as the store has them.
    pub open spec fn with_fresh_watched(self) -> AppView {
        AppView { watched_ids: self.db.watched.to_set(), ..self }
    }

    /// The state with the given message shown.
    pub open spec fn with_message(self, text: Seq<char>, is_error: bool) -> AppView {
        AppView { status_message: Some(StatusView { text, is_error }), ..self }
    }

    /// The position selected in the list that is shown.
    pub open spec fn selected(self) -> usize {
        match self.screen {
            Screen::Channels => self.channel_selected,
            Screen::Videos => self.video_selected,
            Screen::Search => self.search_selected,
        }
    }

    /// The position at which the list that is shown begins on the screen.
    pub open spec fn scroll(self) -> usize {
        match self.screen {
            Screen::Channels => self.channel_scroll,
            Screen::Videos => self.video_scroll,
            Screen::Search => self.search_scroll,
        }
    }

    /// The state with the given selection and scroll position in the list
    /// that is shown.
    pub open spec fn with_selection(self, selected: usize, scroll: usize) -> AppView {
        match self.screen {
            Screen::Channels => AppView { channel_selected: selected, channel_scroll: scroll, ..self },
            Screen::Videos => AppView { video_selected: selected, video_scroll: scroll, ..self },
            Screen::Search => AppView { search_selected: selected, search_scroll: scroll, ..self },
        }
    }

    /// The videos of the list that is shown, before any filter.
    pub open spec fn listed_videos(self) -> Seq<VideoView> {
        if self.screen == Screen::Search {
            self.search_results
        } else {
            self.videos
        }
    }

    /// The subscriptions that pass the filter.
    pub open spec fn filtered_subscriptions(self) -> Seq<SubscriptionView> {
        self.subscriptions.filter(name_matches(self.filter_text))
    }

    /// The videos that pass the filter.
    pub open spec fn filtered_videos(self) -> Seq<VideoView> {
        self.listed_videos().filter(video_matches(self.filter_text, self.hide_shorts))
    }

    /// The state after a step up in the list.
    pub open spec fn moved_up(self) -> AppView {
        let selected = self.selected();
        let scroll = self.scroll();
        if selected > 0 {
            self.with_selection(
                (selected - 1) as usize,
                if selected - 1 < scroll {
                    (selected - 1) as usize
                } else {
                    scroll
                },
            )
        } else {
            self
        }
    }

    /// The state after a step down in a list of `list_len` entries of which
    /// `visible_count` are on the screen.
    pub open spec fn moved_down(self, list_len: usize, visible_count: usize) -> AppView {
        let selected = self.selected();
        let scroll = self.scroll();
        if selected + 1 < list_len {
            self.with_selection(
                (selected + 1) as usize,
                if selected + 1 >= scroll + visible_count {
                    (selected + 1 - visible_count + 1) as usize
                } else {
                    scroll
                },
            )
        } else {
            self
        }
    }

    /// The state after going back to the list of channels: to the position
    /// that was remembered, or to the last channel where the list has become
    /// shorter, with counts and watched ids as the store has them.
    pub open spec fn gone_back(self) -> AppView {
        (AppView {
            screen: Screen::Channels,
            mode: Mode::List,
            current_channel: None,
            search_query: Seq::empty(),
            filter_text: Seq::empty(),
            show_description: false,
            description: None,
            channel_selected: if self.saved_channel_index >= self.subscriptions.len()
                && self.subscriptions.len() > 0 {
                (self.subscriptions.len() - 1) as usize
            } else {
                self.saved_channel_index
            },
            ..self
        }).with_fresh_counts().with_fresh_watched()
    }

    /// The state after the hiding of short-form videos has been turned
    /// over: the choice is stored, a message tells of it, and the counts
    /// are as the store has them.
    pub open spec fn shorts_toggled(self) -> AppView {
        (AppView {
            hide_shorts: !self.hide_shorts,
            db: DatabaseView {
                settings: put(
                    self.db.settings,
                    "hideShorts"@,
                    if self.hide_shorts {
                        "false"@
                    } else {
                        "true"@
                    },
                ),
                ..self.db
            },
            ..self
        }).with_message(
            if self.hide_shorts {
                "Showing all videos"@
            } else {
                "Hiding Shorts"@
            },
            false,
        ).with_fresh_counts()
    }

    /// The state after the watched mark of the selected video has been
    /// turned over, with a message that tells of it; the state itself where
    /// no video is selected.
    pub open spec fn watched_toggled(self) -> AppView {
        if self.selected() < self.filtered_videos().len() {
            let id = self.filtered_videos()[self.selected() as int].id;
            (AppView {
                db: DatabaseView { watched: toggled(self.db.watched, id), ..self.db },
                ..self
            }).with_fresh_watched().with_message(
                if self.db.watched.contains(id) {
                    "Marked as unwatched"@
                } else {
                    "Marked as watched"@
                },
                false,
            )
        } else {
            self
        }
    }

    /// The state after a character has been put into the input: at the
    /// cursor, or at the end where the cursor is beyond it; the cursor moves
    /// one on, unless it is at the largest position there is.
    pub open spec fn with_input(self, c: char) -> AppView {
        AppView {
            input_text: self.input_text.insert(
                if self.input_cursor <= self.input_text.len() {
                    self.input_cursor as int
                } else {
                    self.input_text.len() as int
                },
                c,
            ),
            input_cursor: if self.input_cursor < usize::MAX {
                (self.input_cursor + 1) as usize
            } else {
                self.input_cursor
            },
            ..self
        }
    }

    /// The state after the character before the cursor has been taken out
    /// of the input.
    pub open spec fn without_input(self) -> AppView {
        if self.input_cursor == 0 {
            self
        } else {
            AppView {
                input_text: if self.input_cursor <= self.input_text.len() {
                    self.input_text.remove(self.input_cursor - 1)
                } else {
                    self.input_text
                },
                input_cursor: (self.input_cursor - 1) as usize,
                ..self
            }
        }
    }

    /// The state with the input empty.
    pub open spec fn with_no_input(self) -> AppView {
        AppView { input_text: Seq::empty(), input_cursor: 0, ..self }
    }

    /// The state after the videos of the selected channel that are shown
    /// have been marked as watched at the instant `now`: the channel counts
    /// as looked at, and a message tells how many videos were marked.
    /// Nothing changes where no channel is selected.
    pub open spec fn channel_marked(self, now: i64) -> AppView {
        let channels = self.filtered_subscriptions();
        if self.channel_selected < channels.len() {
            let channel = channels[self.channel_selected as int];
            let ids = shown_ids(
                sorted_by(self.db.videos.filter(in_channel(channel.id)), by_date()),
                self.hide_shorts,
            );
            let watched = marked_all(self.db.watched, ids);
            (AppView {
                db: DatabaseView {
                    watched,
                    seen: put(self.db.seen, channel.id, Some(now)),
                    ..self.db
                },
                ..self
            }).with_fresh_counts().with_fresh_watched().with_message(
                "Marked "@ + decimal((watched.len() - self.db.watched.len()) as nat)
                    + " videos as watched in "@ + channel.name,
                false,
            )
        } else {
            self
        }
    }

    /// The state after the current page of the listing of all channels has
    /// been read from the store at the instant `now`.  Nothing changes
    /// where the videos of one channel are shown, or no channels are known.
    pub open spec fn page_loaded(self, now: i64) -> AppView {
        if self.current_channel is Some || self.all_channel_ids.len() == 0 {
            self
        } else {
            let rows = self.db.videos.filter(in_scope(Some(self.all_channel_ids)));
            AppView {
                videos: presented(
                    sorted_by(rows, by_date()).subrange(
                        page_start(rows.len() as int, 100, self.current_page as int),
                        page_end(rows.len() as int, 100, self.current_page as int),
                    ),
                    now,
                ),
                total_videos: rows.len() as usize,
                page_size: 100,
                video_selected: 0,
                video_scroll: 0,
                ..self
            }
        }
    }

    /// The number of pages that the listing of all channels has.
    pub open spec fn total_pages(self) -> int {
        if self.page_size == 0 {
            1
        } else {
            (self.total_videos + self.page_size - 1) / (self.page_size as int)
        }
    }
}

fn clone_videos(videos: &Vec<Video>) -> (r: Vec<Video>)
    ensures
        r@ == videos@,
{
    let mut out: Vec<Video> = Vec::new();
    let mut i: usize = 0;
    while i < videos.len()
        invariant
            i <= videos.len(),
            out@ == videos@.take(i as int),
        decreases videos.len() - i,
    {
        out.push(videos[i].clone());
        assert(out@ =~= videos@.take(i + 1));
        i += 1;
    }
    assert(videos@.take(videos.len() as int) =~= videos@);
    out
}

impl App {
    /// The store of the application keeps its tables free of repeated keys.
    pub open spec fn wf(&self) -> bool {
        self.db.wf()
    }

    /// The application as it starts on the given store.
    pub fn new(db: Database) -> (app: App)
        requires
            db.wf(),
        ensures
            app.wf(),
            app@ == AppView::initial(db@),
    {
        let settings = db.get_settings();
        let hide_shorts = settings.hide_shorts;
        let watched_ids = db.get_watched_ids();
        let app = App {
            db,
            screen: Screen::Channels,
            mode: Mode::List,
            subscriptions: Vec::new(),
            channel_selected: 0,
            channel_scroll: 0,
            new_counts: StringHashMap::new(),
            channel_stats: StringHashMap::new(),
            fully_watched: StringHashSet::new(),
            saved_channel_index: 0,
            current_channel: None,
            videos: Vec::new(),
            video_selected: 0,
            video_scroll: 0,
            current_page: 0,
            total_videos: 0,
            page_size: PAGE_SIZE,
            search_query: String::new(),
            search_results: Vec::new(),
            search_selected: 0,
            search_scroll: 0,
            watched_ids,
            settings,
            hide_shorts,
            filter_text: String::new(),
            input_text: String::new(),
            input_cursor: 0,
            loading: false,
            loading_message: String::new(),
            status_message: None,
            description: None,
            loading_description: false,
            show_description: false,
            pending_channel: None,
            has_checked_for_new: false,
            playing: false,
            all_channel_ids: Vec::new(),
        };
        proof {
            assert(app@.subscriptions =~= Seq::empty());
            assert(app@.videos =~= Seq::empty());
            assert(app@.search_results =~= Seq::empty());
            assert(app@.all_channel_ids =~= Seq::empty());
        }
        app
    }

    /// The application as it starts on the videos of one channel.
    pub fn with_initial_channel(db: Database, channel: Subscription) -> (app: App)
        requires
            db.wf(),
        ensures
            app.wf(),
            app@ == (AppView {
                current_channel: Some(channel@),
                screen: Screen::Videos,
                ..AppView::initial(db@)
            }),
    {
        let mut app = App::new(db);
        app.current_channel = Some(channel);
        app.screen = Screen::Videos;
        app
    }

    /// Reads the subscriptions from the store, and the counts with them.
    pub fn load_subscriptions(&mut self)
        requires
            old(self).wf(),
        ensures
            final(self).wf(),
            final(self)@ == (AppView {
                subscriptions: sorted_by(old(self)@.db.subscriptions, by_name()),
                ..old(self)@
            }).with_fresh_counts(),
    {
        self.subscriptions = self.db.get_subscriptions();
        self.refresh_counts();
    }

    /// Reads the counts of new videos, the statistics and the fully watched
    /// channels from the store.
    pub fn refresh_counts(&mut self)
        requires
            old(self).wf(),
        ensures
            final(self).wf(),
            final(self)@ == old(self)@.with_fresh_counts(),
    {
        self.new_counts = self.db.get_new_video_counts(self.hide_shorts);
        self.channel_stats = self.db.get_channel_stats(self.hide_shorts);
        self.fully_watched = self.db.get_fully_watched_channels(self.hide_shorts);
    }

    /// Reads the watched ids from the store.
    pub fn refresh_watched(&mut self)
        requires
            old(self).wf(),
        ensures
            final(self).wf(),
            final(self)@ == old(self)@.with_fresh_watched(),
    {
        self.watched_ids = self.db.get_watched_ids();
    }

    /// Shows a message.
    pub fn set_message(&mut self, msg: &str)
        ensures
            final(self)@ == old(self)@.with_message(msg@, false),
            final(self).db == old(self).db,
    {
        self.status_message = Some(
            StatusMessage { text: msg.to_owned(), is_error: false, created_at: this_moment() },
        );
    }

    /// Shows a message that tells of an error.
    pub fn set_error(&mut self, msg: &str)
        ensures
            final(self)@ == old(self)@.with_message(msg@, true),
            final(self).db == old(self).db,
    {
        self.status_message = Some(
            StatusMessage { text: msg.to_owned(), is_error: true, created_at: this_moment() },
        );
    }

    /// Takes the message away if it has been shown for `age_secs` seconds
    /// and that is three or more.
    pub fn expire_message(&mut self, age_secs: u64)
        ensures
            final(self)@ == (if age_secs >= 3 {
                AppView { status_message: None, ..old(self)@ }
            } else {
                old(self)@
            }),
            final(self).db == old(self).db,
    {
        if age_secs >= MESSAGE_SECONDS {
            self.status_message = None;
        }
    }

    /// Takes the message away once it has been shown for three seconds.
    pub fn clear_expired_messages(&mut self)
        ensures
            final(self)@ == old(self)@ || final(self)@ == (AppView {
                status_message: None,
                ..old(self)@
            }),
            final(self).db == old(self).db,
    {
        let age = match &self.status_message {
            Some(msg) => seconds_since(&msg.created_at),
            None => 0,
        };
        self.expire_message(age);
    }

    /// The subscriptions that pass the filter.
    pub fn filtered_subscriptions(&self) -> (r: Vec<&Subscription>)
        ensures
            subscription_ref_views(r@) == self@.filtered_subscriptions(),
    {
        let ghost pred = name_matches(self.filter_text@);
        let ghost rows = self@.subscriptions;
        let unfiltered = self.filter_text.as_str().is_empty();
        let search = to_chars(to_lowercase(self.filter_text.as_str()).as_str());
        let mut out: Vec<&Subscription> = Vec::new();
        let mut i: usize = 0;
        proof {
            assert(rows.take(0) =~= Seq::empty());
            reveal(Seq::filter);
            assert(subscription_ref_views(out@) =~= rows.take(0).filter(pred));
        }
        while i < self.subscriptions.len()
            invariant
                i <= self.subscriptions.len(),
                rows == self@.subscriptions,
                pred == name_matches(self.filter_text@),
                unfiltered == (self.filter_text@.len() == 0),
                search@ == lowercase(self.filter_text@),
                subscription_ref_views(out@) == rows.take(i as int).filter(pred),
            decreases self.subscriptions.len() - i,
        {
            broadcast use Seq::lemma_filter_push;

            let sub = &self.subscriptions[i];
            assert(rows.take(i + 1) =~= rows.take(i as int).push(sub@));
            let hit = unfiltered || contains(
                &to_chars(to_lowercase(sub.name.as_str()).as_str()),
                &search,
            );
            assert(hit == pred(sub@));
            if hit {
                let ghost before = subscription_ref_views(out@);
                out.push(sub);
                assert(subscription_ref_views(out@) =~= before.push(sub@));
            }
            i += 1;
        }
        assert(rows.take(self.subscriptions.len() as int) =~= rows);
        out
    }

    /// The videos of the list that is shown that pass the filter.
    pub fn filtered_videos(&self) -> (r: Vec<&Video>)
        ensures
            video_ref_views(r@) == self@.filtered_videos(),
    {
        let source = match self.screen {
            Screen::Search => &self.search_results,
            _ => &self.videos,
        };
        let ghost pred = video_matches(self.filter_text@, self.hide_shorts);
        let ghost rows = self@.listed_videos();
        assert(rows == video_views(source@));
        let unfiltered = self.filter_text.as_str().is_empty();
        let search = to_chars(to_lowercase(self.filter_text.as_str()).as_str());
        let mut out: Vec<&Video> = Vec::new();
        let mut i: usize = 0;
        proof {
            assert(rows.take(0) =~= Seq::empty());
            reveal(Seq::filter);
            assert(video_ref_views(out@) =~= rows.take(0).filter(pred));
        }
        while i < source.len()
            invariant
                i <= source.len(),
                rows == video_views(source@),
                pred == video_matches(self.filter_text@, self.hide_shorts),
                unfiltered == (self.filter_text@.len() == 0),
                search@ == lowercase(self.filter_text@),
                video_ref_views(out@) == rows.take(i as int).filter(pred),
            decreases source.len() - i,
        {
            broadcast use Seq::lemma_filter_push;

            let v = &source[i];
            assert(rows.take(i + 1) =~= rows.take(i as int).push(v@));
            let hit = if self.hide_shorts && v.is_short {
                false
            } else if unfiltered {
                true
            } else {
                let name = match &v.channel_name {
                    Some(n) => to_lowercase(n.as_str()),
                    None => to_lowercase(""),
                };
                contains(&to_chars(to_lowercase(v.title.as_str()).as_str()), &search) || contains(
                    &to_chars(name.as_str()),
                    &search,
                )
            };
            assert(hit == pred(v@));
            if hit {
                let ghost before = video_ref_views(out@);
                out.push(v);
                assert(video_ref_views(out@) =~= before.push(v@));
            }
            i += 1;
        }
        assert(rows.take(source.len() as int) =~= rows);
        out
    }

    fn select(&mut self, selected: usize, scroll: usize)
        ensures
            final(self)@ == old(self)@.with_selection(selected, scroll),
            final(self).db == old(self).db,
    {
        match self.screen {
            Screen::Channels => {
                self.channel_selected = selected;
                self.channel_scroll = scroll;
            },
            Screen::Videos => {
                self.video_selected = selected;
                self.video_scroll = scroll;
            },
            Screen::Search => {
                self.search_selected = selected;
                self.search_scroll = scroll;
            },
        }
    }

    /// Moves the selection one entry up; the list scrolls where the
    /// selection would leave the screen.
    pub fn move_up(&mut self)
        ensures
            final(self)@ == old(self)@.moved_up(),
            final(self).db == old(self).db,
    {
        let selected = self.current_selected();
        let scroll = self.current_scroll();
        if selected > 0 {
            let next = selected - 1;
            self.select(next, if next < scroll { next } else { scroll });
        }
    }

    /// Moves the selection one entry down in a list of `list_len` entries of
    /// which `visible_count` are on the screen; the list scrolls where the
    /// selection would leave the screen.
    pub fn move_down(&mut self, list_len: usize, visible_count: usize)
        ensures
            final(self)@ == old(self)@.moved_down(list_len, visible_count),
            final(self).db == old(self).db,
    {
        let selected = self.current_selected();
        let scroll = self.current_scroll();
        if list_len > 0 && selected < list_len - 1 {
            let next = selected + 1;
            let beyond = visible_count <= next && scroll <= next - visible_count;
            self.select(next, if beyond { next - visible_count + 1 } else { scroll });
        }
    }

    /// Puts the selection and the list at the top.
    pub fn reset_scroll(&mut self)
        ensures
            final(self)@ == old(self)@.with_selection(0, 0),
            final(self).db == old(self).db,
    {
        self.select(0, 0);
    }

    /// The position selected in the list that is shown.
    pub fn current_selected(&self) -> (r: usize)
        ensures
            r == self@.selected(),
    {
        match self.screen {
            Screen::Channels => self.channel_selected,
            Screen::Videos => self.video_selected,
            Screen::Search => self.search_selected,
        }
    }

    /// The position at which the list that is shown begins on the screen.
    pub fn current_scroll(&self) -> (r: usize)
        ensures
            r == self@.scroll(),
    {
        match self.screen {
            Screen::Channels => self.channel_scroll,
            Screen::Videos => self.video_scroll,
            Screen::Search => self.search_scroll,
        }
    }

    /// Goes to the videos of a channel, or of all channels for `None`, and
    /// remembers the position `index` in the list of channels.
    pub fn navigate_to_videos(&mut self, channel: Option<Subscription>, index: usize)
        ensures
            final(self)@ == (AppView {
                saved_channel_index: index,
                current_channel: match channel {
                    Some(c) => Some(c@),
                    None => None,
                },
                screen: Screen::Videos,
                mode: Mode::List,
                video_selected: 0,
                video_scroll: 0,
                filter_text: Seq::empty(),
                show_description: false,
                description: None,
                ..old(self)@
            }),
            final(self).db == old(self).db,
    {
        self.saved_channel_index = index;
        self.current_channel = channel;
        self.screen = Screen::Videos;
        self.mode = Mode::List;
        self.video_selected = 0;
        self.video_scroll = 0;
        self.filter_text = String::new();
        self.show_description = false;
        self.description = None;
    }

    /// Goes to the results of a search.
    pub fn navigate_to_search(&mut self, query: String)
        ensures
            final(self)@ == (AppView {
                search_query: query@,
                screen: Screen::Search,
                mode: Mode::List,
                search_selected: 0,
                search_scroll: 0,
                filter_text: Seq::empty(),
                show_description: false,
                description: None,
                ..old(self)@
            }),
            final(self).db == old(self).db,
    {
        self.search_query = query;
        self.screen = Screen::Search;
        self.mode = Mode::List;
        self.search_selected = 0;
        self.search_scroll = 0;
        self.filter_text = String::new();
        self.show_description = false;
        self.description = None;
    }

    /// Goes back to the list of channels, to the position that was
    /// remembered or to the last channel where the list has become shorter,
    /// and reads counts and watched ids from the store.
    pub fn navigate_back(&mut self)
        requires
            old(self).wf(),
        ensures
            final(self).wf(),
            final(self)@ == old(self)@.gone_back(),
    {
        self.screen = Screen::Channels;
        self.mode = Mode::List;
        self.current_channel = None;
        self.search_query = String::new();
        self.filter_text = String::new();
        self.show_description = false;
        self.description = None;
        self.channel_selected = self.saved_channel_index;
        let subs_len = self.subscriptions.len();
        if self.channel_selected >= subs_len && subs_len > 0 {
            self.channel_selected = subs_len - 1;
        }
        self.refresh_counts();
        self.refresh_watched();
    }

    /// Puts a character into the input at the cursor, or at the end where the
    /// cursor is beyond it, and moves the cursor one on.
    pub fn input_insert(&mut self, c: char)
        ensures
            final(self)@ == old(self)@.with_input(c),
            final(self).db == old(self).db,
    {
        let mut chars = to_chars(self.input_text.as_str());
        let at = if self.input_cursor <= chars.len() {
            self.input_cursor
        } else {
            chars.len()
        };
        chars.insert(at, c);
        self.input_text = from_chars(&chars);
        if self.input_cursor < usize::MAX {
            self.input_cursor += 1;
        }
    }

    /// Takes the character before the cursor out of the input and moves the
    /// cursor one back.  With the cursor at the start nothing changes; with
    /// the cursor beyond the end only the cursor moves.
    pub fn input_backspace(&mut self)
        ensures
            final(self)@ == old(self)@.without_input(),
            final(self).db == old(self).db,
    {
        if self.input_cursor > 0 {
            self.input_cursor -= 1;
            let mut chars = to_chars(self.input_text.as_str());
            if self.input_cursor < chars.len() {
                chars.remove(self.input_cursor);
                self.input_text = from_chars(&chars);
            }
        }
    }

    /// Empties the input.
    pub fn input_clear(&mut self)
        ensures
            final(self)@ == old(self)@.with_no_input(),
            final(self).db == old(self).db,
    {
        self.input_text = String::new();
        self.input_cursor = 0;
    }

    /// Turns the hiding of short-form videos over, stores the choice, says
    /// so, and reads the counts from the store.
    pub fn toggle_shorts(&mut self)
        requires
            old(self).wf(),
        ensures
            final(self).wf(),
            final(self)@ == old(self)@.shorts_toggled(),
    {
        self.hide_shorts = !self.hide_shorts;
        self.db.update_setting("hideShorts", if self.hide_shorts { "true" } else { "false" });
        if self.hide_shorts {
            self.set_message("Hiding Shorts");
        } else {
            self.set_message("Showing all videos");
        }
        self.refresh_counts();
    }

    /// Turns the watched mark of the selected video over and says so; does
    /// nothing where no video is selected.
    pub fn toggle_watched_current(&mut self)
        requires
            old(self).wf(),
        ensures
            final(self).wf(),
            final(self)@ == old(self)@.watched_toggled(),
    {
        let selected = self.current_selected();
        let filtered = self.filtered_videos();
        if selected < filtered.len() {
            assert(video_ref_views(filtered@)[selected as int] == filtered@[selected as int]@);
            let video_id = filtered[selected].id.clone();
            let now_watched = self.db.toggle_watched(video_id.as_str());
            self.refresh_watched();
            if now_watched {
                self.set_message("Marked as watched");
            } else {
                self.set_message("Marked as unwatched");
            }
        } else {
            assert(video_ref_views(filtered@).len() == filtered@.len());
        }
    }

    /// Marks the videos of the selected channel that are shown as watched,
    /// records that the channel was looked at, and tells how many videos
    /// were marked.
    pub fn mark_channel_watched(&mut self)
        requires
            old(self).wf(),
        ensures
            final(self).wf(),
            exists|now: i64| final(self)@ == #[trigger] old(self)@.channel_marked(now),
    {
        let filtered = self.filtered_subscriptions();
        if self.channel_selected < filtered.len() {
            assert(subscription_ref_views(filtered@)[self.channel_selected as int]
                == filtered@[self.channel_selected as int]@);
            let channel_id = filtered[self.channel_selected].id.clone();
            let name = filtered[self.channel_selected].name.clone();
            let video_ids = self.db.channel_video_ids(channel_id.as_str(), self.hide_shorts);
            let count = self.db.mark_channel_all_watched(&video_ids);
            let now = crate::time::now();
            self.db.update_channel_last_viewed_at(channel_id.as_str(), now);
            self.refresh_counts();
            self.refresh_watched();
            let mut text: Vec<char> = Vec::new();
            append_str(&mut text, "Marked ");
            append_decimal(&mut text, count as u128);
            append_str(&mut text, " videos as watched in ");
            append_str(&mut text, name.as_str());
            self.set_message(from_chars(&text).as_str());
            assert(self@ == old(self)@.channel_marked(now));
        } else {
            assert(subscription_ref_views(filtered@).len() == filtered@.len());
            assert(self@ == old(self)@.channel_marked(0));
        }
    }

    /// Reads the current page of the listing of all channels from the store.
    pub fn load_video_page(&mut self)
        requires
            old(self).wf(),
        ensures
            final(self).wf(),
            exists|now: i64| final(self)@ == #[trigger] old(self)@.page_loaded(now),
    {
        if self.current_channel.is_some() || self.all_channel_ids.len() == 0 {
            assert(self.all_channel_ids.len() == 0 <==> self@.all_channel_ids.len() == 0);
            assert(self@ == old(self)@.page_loaded(0));
            return ;
        }
        let now = crate::time::now();
        let result = self.db.get_stored_videos_paginated_at(
            Some(&self.all_channel_ids),
            self.current_page,
            PAGE_SIZE,
            now,
        );
        self.videos = result.videos;
        self.total_videos = result.total;
        self.page_size = result.page_size;
        self.video_selected = 0;
        self.video_scroll = 0;
        assert(self@ == old(self)@.page_loaded(now));
    }

    /// The number of pages that the listing of all channels has.
    pub fn total_pages(&self) -> (r: usize)
        ensures
            r == self@.total_pages(),
    {
        if self.page_size == 0 {
            return 1;
        }
        let total = self.total_videos as u128;
        let size = self.page_size as u128;
        let pages = (total + size - 1) / size;
        assert(pages <= total) by (nonlinear_arith)
            requires
                pages == (total + size - 1) / (size as int),
                size >= 1,
                total >= 0,
        ;
        pages as usize
    }
}

/// A count with its noun, in the plural unless the count is one.
pub open spec fn counted(count: nat, noun: Seq<char>) -> Seq<char> {
    decimal(count) + " "@ + noun + if count != 1 {
        "s"@
    } else {
        Seq::empty()
    }
}

/// The words that tell of the filter, where one is set.
pub open spec fn filter_note(filter: Seq<char>) -> Seq<char> {
    if filter.len() == 0 {
        Seq::empty()
    } else {
        " filter: \""@ + filter + "\""@
    }
}

/// The line under the title: what is listed, and how much of it.
pub open spec fn subtitle(app: AppView) -> Seq<char> {
    match app.screen {
        Screen::Channels => counted(app.subscriptions.len(), "subscription"@) + filter_note(
            app.filter_text,
        ),
        Screen::Videos => counted(app.filtered_videos().len(), "video"@) + filter_note(
            app.filter_text,
        ) + if app.current_channel is None && app.total_pages() > 1 {
            " ["@ + decimal((app.current_page + 1) as nat) + "/"@ + decimal(
                app.total_pages() as nat,
            ) + "]"@
        } else {
            Seq::empty()
        },
        Screen::Search => if app.loading {
            Seq::empty()
        } else {
            counted(app.search_results.len(), "result"@) + " for \""@ + app.search_query + "\""@
        },
    }
}

fn append_counted(out: &mut Vec<char>, count: usize, noun: &str)
    ensures
        final(out)@ == old(out)@ + counted(count as nat, noun@),
{
    append_decimal(out, count as u128);
    append_str(out, " ");
    append_str(out, noun);
    if count != 1 {
        append_str(out, "s");
    }
    assert(out@ =~= old(out)@ + counted(count as nat, noun@));
}

fn append_filter_note(out: &mut Vec<char>, filter: &str)
    ensures
        final(out)@ == old(out)@ + filter_note(filter@),
{
    if !filter.is_empty() {
        append_str(out, " filter: \"");
        append_str(out, filter);
        append_str(out, "\"");
    }
    assert(out@ =~= old(out)@ + filter_note(filter@));
}

/// The line under the title: what is listed, and how much of it.
pub fn build_subtitle(app: &App) -> (r: String)
    ensures
        r@ == subtitle(app@),
{
    let mut out: Vec<char> = Vec::new();
    match app.screen {
        Screen::Channels => {
            assert(app@.subscriptions.len() == app.subscriptions.len());
            append_counted(&mut out, app.subscriptions.len(), "subscription");
            append_filter_note(&mut out, app.filter_text.as_str());
            assert(out@ =~= subtitle(app@));
        },
        Screen::Videos => {
            let filtered = app.filtered_videos();
            assert(video_ref_views(filtered@).len() == filtered@.len());
            append_counted(&mut out, filtered.len(), "video");
            append_filter_note(&mut out, app.filter_text.as_str());
            let pages = app.total_pages();
            if app.current_channel.is_none() && pages > 1 {
                append_str(&mut out, " [");
                append_decimal(&mut out, app.current_page as u128 + 1);
                append_str(&mut out, "/");
                append_decimal(&mut out, pages as u128);
                append_str(&mut out, "]");
            }
            assert(out@ =~= subtitle(app@));
        },
        Screen::Search => {
            if !app.loading {
                assert(app@.search_results.len() == app.search_results.len());
                append_counted(&mut out, app.search_results.len(), "result");
                append_str(&mut out, " for \"");
                append_str(&mut out, app.search_query.as_str());
                append_str(&mut out, "\"");
            }
            assert(out@ =~= subtitle(app@));
        },
    }
    from_chars(&out)
}

} // verus!
