//! What the pressing of a key and the use of the mouse come to: how the
//! state changes, and what is asked of the world outside.

use crate::app::{subscription_ref_views, video_ref_views, App, AppView, Mode, Screen};
use crate::store::{marked_all, put_all, string_views, video_views, DatabaseView};
use crate::text::{
    append_decimal, append_str, decimal, from_chars, str_trim, to_chars, trimmed,
};
use crate::video::{SubscriptionView, Video, VideoView};
use vstd::prelude::*;

verus! {

/// A key of the keyboard.
#[derive(Debug, Clone, Copy, PartialEq, Eq, Structural)]
pub enum Key {
    Esc,
    Enter,
    Backspace,
    Up,
    Down,
    Char(char),
    Other,
}

/// What is asked of the world outside.
pub enum Command {
    /// Nothing.
    Nothing,
    /// End the application.
    Quit,
    /// Find the channel at the given address and add it.
    AddChannel(String),
    /// Search for the given words.
    Search(String),
    /// Prime the channel that was just added.
    PrimeChannel,
    /// Prime all channels.
    PrimeAll,
    /// Fetch the feeds and show the videos.
    LoadVideos,
    /// Fetch the feeds of all channels.
    Refresh,
    /// Play the selected video.
    Play,
    /// Fetch the description of the selected video.
    FetchDescription,
}

/// What a [`Command`] holds, as plain values.
pub enum CommandView {
    Nothing,
    Quit,
    AddChannel(Seq<char>),
    Search(Seq<char>),
    PrimeChannel,
    PrimeAll,
    LoadVideos,
    Refresh,
    Play,
    FetchDescription,
}

impl View for Command {
    type V = CommandView;

    open spec fn view(&self) -> CommandView {
        match self {
            Command::Nothing => CommandView::Nothing,
            Command::Quit => CommandView::Quit,
            Command::AddChannel(url) => CommandView::AddChannel(url@),
            Command::Search(query) => CommandView::Search(query@),
            Command::PrimeChannel => CommandView::PrimeChannel,
            Command::PrimeAll => CommandView::PrimeAll,
            Command::LoadVideos => CommandView::LoadVideos,
            Command::Refresh => CommandView::Refresh,
            Command::Play => CommandView::Play,
            Command::FetchDescription => CommandView::FetchDescription,
        }
    }
}

/// What the mouse has done.
#[derive(Debug, Clone, Copy, PartialEq, Eq, Structural)]
pub enum Mouse {
    ScrollUp,
    ScrollDown,
    /// The left button went down in the given row of the screen.
    LeftDown(u16),
    Other,
}

/// The number of rows that the mouse wheel takes to be on the screen.
pub const WHEEL_ROWS: usize = 30;

/// The number of rows above the list.
pub const HEADER_ROWS: u16 = 3;

/// The key says yes: `y` or `Y`.
pub open spec fn is_yes(key: Key) -> bool {
    key == Key::Char('y') || key == Key::Char('Y')
}

/// The key says no: `n` or `N`.
pub open spec fn is_no(key: Key) -> bool {
    key == Key::Char('n') || key == Key::Char('N')
}

/// The key confirms: yes, or the enter key.
pub open spec fn confirms(key: Key) -> bool {
    is_yes(key) || key == Key::Enter
}

/// The ids of the given videos.
pub open spec fn video_ids(videos: Seq<VideoView>) -> Seq<Seq<char>> {
    videos.map_values(|v: VideoView| v.id)
}

/// The ids of the given subscriptions.
pub open spec fn channel_ids(app: AppView) -> Seq<Seq<char>> {
    crate::actions::ids_of(app.subscriptions)
}

impl AppView {
    /// The state in the given mode.
    pub open spec fn in_mode(self, mode: Mode) -> AppView {
        AppView { mode, ..self }
    }

    /// The state in list mode.
    pub open spec fn in_list_mode(self) -> AppView {
        self.in_mode(Mode::List)
    }

    /// The state with the given filter.
    pub open spec fn with_filter(self, filter: Seq<char>) -> AppView {
        AppView { filter_text: filter, ..self }
    }

    /// The state after a key while the filter is being entered.
    pub open spec fn after_filter_key(self, key: Key) -> AppView {
        match key {
            Key::Esc => self.in_list_mode().with_filter(Seq::empty()).with_selection(0, 0),
            Key::Enter => self.in_list_mode(),
            Key::Backspace => self.with_filter(
                if self.filter_text.len() > 0 {
                    self.filter_text.drop_last()
                } else {
                    self.filter_text
                },
            ).with_selection(0, 0),
            Key::Char(c) => self.with_filter(self.filter_text.push(c)).with_selection(0, 0),
            _ => self,
        }
    }

    /// The state and the command after the enter key while an address or a
    /// query is being entered: an address is to be looked up, a query to be
    /// searched for; an empty input ends the entering.
    pub open spec fn input_entered(self) -> (AppView, CommandView) {
        let text = trimmed(self.input_text);
        if text.len() == 0 {
            (self.in_list_mode().with_no_input(), CommandView::Nothing)
        } else if self.mode == Mode::Add {
            (self, CommandView::AddChannel(text))
        } else {
            (self.with_no_input().in_list_mode(), CommandView::Search(text))
        }
    }

    /// The state and the command after a key while an address or a query is
    /// being entered.
    pub open spec fn after_input_key(self, key: Key) -> (AppView, CommandView) {
        match key {
            Key::Esc => (self.in_list_mode().with_no_input(), CommandView::Nothing),
            Key::Enter => self.input_entered(),
            Key::Backspace => (self.without_input(), CommandView::Nothing),
            Key::Char(c) => (self.with_input(c), CommandView::Nothing),
            _ => (self, CommandView::Nothing),
        }
    }

    /// The state after all channels have been marked as looked at, at the
    /// instant `now`.
    pub open spec fn all_marked_viewed(self, now: i64) -> AppView {
        (AppView {
            db: DatabaseView { seen: put_all(self.db.seen, channel_ids(self), Some(now)), ..self.db },
            new_counts: Map::empty(),
            ..self
        }).with_message("Marked all channels as read"@, false).in_list_mode()
    }

    /// The state after all videos of the list have been marked as watched.
    pub open spec fn all_videos_marked(self) -> AppView {
        let watched = marked_all(self.db.watched, video_ids(self.videos));
        (AppView { db: DatabaseView { watched, ..self.db }, ..self }).with_fresh_watched().with_message(
            "Marked "@ + decimal((watched.len() - self.db.watched.len()) as nat)
                + " videos as watched"@,
            false,
        ).in_list_mode()
    }

    /// The state after the answer to "prime this channel?".
    pub open spec fn after_prime_answer(self, key: Key) -> (AppView, CommandView) {
        if is_no(key) {
            (AppView { pending_channel: None, ..self }.in_list_mode(), CommandView::Nothing)
        } else if confirms(key) {
            (self, CommandView::PrimeChannel)
        } else {
            (self, CommandView::Nothing)
        }
    }

    /// The state after the answer to "prime all channels?".
    pub open spec fn after_prime_all_answer(self, key: Key) -> (AppView, CommandView) {
        if is_no(key) || key == Key::Esc {
            (self.in_list_mode(), CommandView::Nothing)
        } else if confirms(key) {
            (self, CommandView::PrimeAll)
        } else {
            (self, CommandView::Nothing)
        }
    }

    /// The state and the command after a key while a question is open: the
    /// question is answered, and but for the two about priming every key
    /// that does not confirm closes it.
    pub open spec fn after_confirm_key(self, key: Key, now: i64) -> (AppView, CommandView) {
        match self.mode {
            Mode::ConfirmDelete => (
                if is_yes(key) {
                    self.channel_deleted()
                } else {
                    self.in_list_mode()
                },
                CommandView::Nothing,
            ),
            Mode::ConfirmPrime => self.after_prime_answer(key),
            Mode::ConfirmPrimeAll => self.after_prime_all_answer(key),
            Mode::ConfirmMarkAll => (
                if confirms(key) {
                    self.all_marked_viewed(now)
                } else {
                    self.in_list_mode()
                },
                CommandView::Nothing,
            ),
            Mode::ConfirmMarkAllVideos => (
                if confirms(key) {
                    self.all_videos_marked()
                } else {
                    self.in_list_mode()
                },
                CommandView::Nothing,
            ),
            Mode::ConfirmAddChannel => (
                if confirms(key) {
                    self.subscribed_from_search()
                } else {
                    self.in_list_mode()
                },
                CommandView::Nothing,
            ),
            Mode::ConfirmChannelWatched => (
                if confirms(key) {
                    self.channel_marked(now).in_list_mode()
                } else {
                    self.in_list_mode()
                },
                CommandView::Nothing,
            ),
            _ => (self, CommandView::Nothing),
        }
    }

    /// The state with the filter taken off and the list at the top, where a
    /// filter is set.
    pub open spec fn without_filter(self) -> AppView {
        if self.filter_text.len() > 0 {
            self.with_filter(Seq::empty()).with_selection(0, 0)
        } else {
            self
        }
    }

    /// The state after the videos of a channel, or of all channels, have
    /// been gone to from position `index` of the list of channels.
    pub open spec fn videos_opened(self, channel: Option<SubscriptionView>, index: usize) -> AppView {
        AppView {
            saved_channel_index: index,
            current_channel: channel,
            screen: Screen::Videos,
            mode: Mode::List,
            video_selected: 0,
            video_scroll: 0,
            filter_text: Seq::empty(),
            show_description: false,
            description: None,
            ..self
        }
    }

    /// The state and the command after the selected channel has been
    /// opened at the instant `now`: the channel counts as looked at, so it
    /// has no new videos any more, and its videos are to be loaded.
    pub open spec fn channel_opened(self, now: i64) -> (AppView, CommandView) {
        let channels = self.filtered_subscriptions();
        if self.channel_selected < channels.len() {
            let channel = channels[self.channel_selected as int];
            (
                (AppView {
                    db: DatabaseView {
                        seen: crate::store::put(self.db.seen, channel.id, Some(now)),
                        ..self.db
                    },
                    new_counts: self.new_counts.remove(channel.id),
                    ..self
                }).videos_opened(Some(channel), self.channel_selected),
                CommandView::LoadVideos,
            )
        } else {
            (self, CommandView::Nothing)
        }
    }

    /// Whether the selected channel has anything left to mark: videos that
    /// are not watched, or new ones.
    pub open spec fn channel_has_unwatched(self) -> bool {
        let channels = self.filtered_subscriptions();
        self.channel_selected < channels.len() && {
            let id = channels[self.channel_selected as int].id;
            !self.fully_watched.contains(id) || (self.new_counts.contains_key(id)
                && self.new_counts[id] > 0)
        }
    }

    /// The state in the given mode where `wanted` holds, and as it is
    /// where not.
    pub open spec fn in_mode_if(self, wanted: bool, mode: Mode) -> AppView {
        if wanted {
            self.in_mode(mode)
        } else {
            self
        }
    }

    /// The command where `wanted` holds, and none where not.
    pub open spec fn command_if(wanted: bool, command: CommandView) -> CommandView {
        if wanted {
            command
        } else {
            CommandView::Nothing
        }
    }

    /// The state and the command after a letter in the list of channels.
    pub open spec fn after_channel_letter(self, c: char, visible_count: usize) -> (
        AppView,
        CommandView,
    ) {
        let len = self.filtered_subscriptions().len();
        if c == 'q' {
            (self, CommandView::Quit)
        } else if c == 'b' {
            (self.without_filter(), CommandView::Nothing)
        } else if c == 'k' {
            (self.moved_up(), CommandView::Nothing)
        } else if c == 'j' {
            (self.moved_down(len as usize, visible_count), CommandView::Nothing)
        } else if c == 'a' {
            (self.in_mode(Mode::Add).with_no_input(), CommandView::Nothing)
        } else if c == 'g' {
            (self.in_mode(Mode::GlobalSearch).with_no_input(), CommandView::Nothing)
        } else if c == '/' {
            (self.in_mode(Mode::Filter).with_filter(Seq::empty()), CommandView::Nothing)
        } else if c == 'd' {
            (self.in_mode_if(len > 0, Mode::ConfirmDelete), CommandView::Nothing)
        } else if c == 'v' {
            (self.videos_opened(None, self.channel_selected), CommandView::LoadVideos)
        } else if c == 'r' {
            (
                self,
                Self::command_if(
                    self.subscriptions.len() > 0 && !self.loading,
                    CommandView::Refresh,
                ),
            )
        } else if c == 's' {
            (self.shorts_toggled(), CommandView::Nothing)
        } else if c == 'w' {
            (
                self.in_mode_if(self.channel_has_unwatched(), Mode::ConfirmChannelWatched),
                CommandView::Nothing,
            )
        } else if c == 'p' {
            (
                self.in_mode_if(self.subscriptions.len() > 0, Mode::ConfirmPrimeAll),
                CommandView::Nothing,
            )
        } else if c == 'm' {
            (self.in_mode(Mode::ConfirmMarkAll), CommandView::Nothing)
        } else {
            (self, CommandView::Nothing)
        }
    }

    /// The state and the command after a key in the list of channels.
    pub open spec fn after_channel_key(self, key: Key, visible_count: usize, now: i64) -> (
        AppView,
        CommandView,
    ) {
        match key {
            Key::Esc => (self.without_filter(), CommandView::Nothing),
            Key::Up => (self.moved_up(), CommandView::Nothing),
            Key::Down => (
                self.moved_down(self.filtered_subscriptions().len() as usize, visible_count),
                CommandView::Nothing,
            ),
            Key::Enter => self.channel_opened(now),
            Key::Char(c) => self.after_channel_letter(c, visible_count),
            _ => (self, CommandView::Nothing),
        }
    }

    /// The state and the command after the key for the description: an
    /// open description is closed; else that of the selected video is to
    /// be fetched.
    pub open spec fn after_description_key(self) -> (AppView, CommandView) {
        if self.show_description {
            (AppView { show_description: false, description: None, ..self }, CommandView::Nothing)
        } else {
            (self, Self::command_if(self.filtered_videos().len() > 0, CommandView::FetchDescription))
        }
    }

    /// The state after the key that leaves a list of videos: a filter is
    /// taken off where one is set, and else the list of channels is gone
    /// back to.
    pub open spec fn left(self) -> AppView {
        if self.filter_text.len() > 0 {
            self.without_filter()
        } else {
            self.gone_back()
        }
    }

    /// The state after the page of the listing of all channels has been
    /// turned, forward or back, at the instant `now`; the state itself
    /// where there is no page to turn to.
    pub open spec fn page_turned(self, forward: bool, now: i64) -> AppView {
        if self.current_channel is Some {
            self
        } else if forward {
            if self.current_page + 1 < self.total_pages() {
                (AppView { current_page: (self.current_page + 1) as usize, ..self }).page_loaded(now)
            } else {
                self
            }
        } else {
            if self.current_page > 0 {
                (AppView { current_page: (self.current_page - 1) as usize, ..self }).page_loaded(now)
            } else {
                self
            }
        }
    }

    /// The state and the command after a letter in a list of videos.
    pub open spec fn after_video_letter(self, c: char, visible_count: usize, now: i64) -> (
        AppView,
        CommandView,
    ) {
        let len = self.filtered_videos().len();
        if c == 'q' {
            (self, CommandView::Quit)
        } else if c == 'b' {
            (self.left(), CommandView::Nothing)
        } else if c == 'k' {
            (self.moved_up(), CommandView::Nothing)
        } else if c == 'j' {
            (self.moved_down(len as usize, visible_count), CommandView::Nothing)
        } else if c == '/' {
            (self.in_mode(Mode::Filter).with_filter(Seq::empty()), CommandView::Nothing)
        } else if c == 'i' {
            self.after_description_key()
        } else if c == 'w' {
            (self.watched_toggled(), CommandView::Nothing)
        } else if c == 'm' {
            (
                self.in_mode_if(self.current_channel is Some && len > 0, Mode::ConfirmMarkAllVideos),
                CommandView::Nothing,
            )
        } else if c == 's' {
            (self.shorts_toggled().with_selection(0, 0), CommandView::Nothing)
        } else if c == 'n' {
            (self.page_turned(true, now), CommandView::Nothing)
        } else if c == 'p' {
            (self.page_turned(false, now), CommandView::Nothing)
        } else if c == 'r' {
            (self, Self::command_if(!self.loading, CommandView::LoadVideos))
        } else {
            (self, CommandView::Nothing)
        }
    }

    /// The state and the command after a key in a list of videos.
    pub open spec fn after_video_key(self, key: Key, visible_count: usize, now: i64) -> (
        AppView,
        CommandView,
    ) {
        match key {
            Key::Esc => (self.left(), CommandView::Nothing),
            Key::Up => (self.moved_up(), CommandView::Nothing),
            Key::Down => (
                self.moved_down(self.filtered_videos().len() as usize, visible_count),
                CommandView::Nothing,
            ),
            Key::Enter => (self, Self::command_if(!self.loading, CommandView::Play)),
            Key::Char(c) => self.after_video_letter(c, visible_count, now),
            _ => (self, CommandView::Nothing),
        }
    }

    /// The state after the key that asks to subscribe to the channel of the
    /// selected search result.
    pub open spec fn asked_to_subscribe(self) -> AppView {
        let results = self.filtered_videos();
        if self.search_selected < results.len() {
            if results[self.search_selected as int].channel_id is Some {
                self.in_mode(Mode::ConfirmAddChannel)
            } else {
                self.with_message("Cannot add channel - no channel ID available"@, true)
            }
        } else {
            self
        }
    }

    /// The state and the command after a letter in the results of a search.
    pub open spec fn after_search_letter(self, c: char, visible_count: usize) -> (AppView, CommandView) {
        if c == 'q' {
            (self, CommandView::Quit)
        } else if c == 'b' {
            (self.gone_back(), CommandView::Nothing)
        } else if c == 'k' {
            (self.moved_up(), CommandView::Nothing)
        } else if c == 'j' {
            (
                self.moved_down(self.filtered_videos().len() as usize, visible_count),
                CommandView::Nothing,
            )
        } else if c == 'g' {
            (self.in_mode(Mode::NewSearch).with_no_input(), CommandView::Nothing)
        } else if c == 'a' {
            (self.asked_to_subscribe(), CommandView::Nothing)
        } else if c == 'i' {
            self.after_description_key()
        } else {
            (self, CommandView::Nothing)
        }
    }

    /// The state and the command after a key in the results of a search.
    pub open spec fn after_search_key(self, key: Key, visible_count: usize) -> (AppView, CommandView) {
        match key {
            Key::Esc => (self.gone_back(), CommandView::Nothing),
            Key::Up => (self.moved_up(), CommandView::Nothing),
            Key::Down => (
                self.moved_down(self.filtered_videos().len() as usize, visible_count),
                CommandView::Nothing,
            ),
            Key::Enter => (self, Self::command_if(!self.loading, CommandView::Play)),
            Key::Char(c) => self.after_search_letter(c, visible_count),
            _ => (self, CommandView::Nothing),
        }
    }

    /// The state and the command after a key, at the instant `now`, with
    /// `visible_count` rows of the list on the screen.
    ///
    /// While a video plays no key counts.  A key goes to the filter, to the
    /// input or to an open question where there is one, and to the list
    /// that is shown otherwise.
    pub open spec fn after_key(self, key: Key, visible_count: usize, now: i64) -> (AppView, CommandView) {
        if self.playing {
            (self, CommandView::Nothing)
        } else {
            match self.mode {
                Mode::Filter => (self.after_filter_key(key), CommandView::Nothing),
                Mode::Add | Mode::GlobalSearch | Mode::NewSearch => self.after_input_key(key),
                Mode::List | Mode::Description => match self.screen {
                    Screen::Channels => self.after_channel_key(key, visible_count, now),
                    Screen::Videos => self.after_video_key(key, visible_count, now),
                    Screen::Search => self.after_search_key(key, visible_count),
                },
                _ => self.after_confirm_key(key, now),
            }
        }
    }

    /// The number of entries of the list that is shown.
    pub open spec fn list_len(self) -> nat {
        match self.screen {
            Screen::Channels => self.filtered_subscriptions().len(),
            _ => self.filtered_videos().len(),
        }
    }

    /// The state after a click on the given row of the screen: the entry
    /// in that row is selected, where there is one.
    pub open spec fn clicked(self, row: u16) -> AppView {
        if row >= 3 && self.scroll() + (row - 3) < self.list_len() {
            self.with_selection((self.scroll() + (row - 3)) as usize, self.scroll())
        } else {
            self
        }
    }

    /// The state after the mouse has been used.  The wheel moves the
    /// selection as the arrow keys do.
    pub open spec fn after_mouse(self, mouse: Mouse) -> AppView {
        match mouse {
            Mouse::ScrollUp => self.moved_up(),
            Mouse::ScrollDown => self.moved_down(self.list_len() as usize, 30),
            Mouse::LeftDown(row) => self.clicked(row),
            Mouse::Other => self,
        }
    }
}

fn is_yes_key(key: Key) -> (r: bool)
    ensures
        r == is_yes(key),
{
    match key {
        Key::Char(c) => c == 'y' || c == 'Y',
        _ => false,
    }
}

fn is_no_key(key: Key) -> (r: bool)
    ensures
        r == is_no(key),
{
    match key {
        Key::Char(c) => c == 'n' || c == 'N',
        _ => false,
    }
}

fn confirms_key(key: Key) -> (r: bool)
    ensures
        r == confirms(key),
{
    match key {
        Key::Enter => true,
        _ => is_yes_key(key),
    }
}

fn is_esc(key: Key) -> (r: bool)
    ensures
        r == (key == Key::Esc),
{
    match key {
        Key::Esc => true,
        _ => false,
    }
}

fn ids_of_videos(videos: &Vec<Video>) -> (r: Vec<String>)
    ensures
        string_views(r@) == video_ids(video_views(videos@)),
{
    let mut out: Vec<String> = Vec::new();
    let mut i: usize = 0;
    while i < videos.len()
        invariant
            i <= videos.len(),
            string_views(out@) == video_ids(video_views(videos@)).take(i as int),
        decreases videos.len() - i,
    {
        let ghost before = string_views(out@);
        out.push(videos[i].id.clone());
        assert(string_views(out@) =~= before.push(videos@[i as int]@.id));
        assert(string_views(out@) =~= video_ids(video_views(videos@)).take(i + 1));
        i += 1;
    }
    assert(video_ids(video_views(videos@)).take(videos.len() as int) =~= video_ids(
        video_views(videos@),
    ));
    out
}

impl App {
    fn set_mode(&mut self, mode: Mode)
        ensures
            final(self)@ == old(self)@.in_mode(mode),
            final(self).db == old(self).db,
    {
        self.mode = mode;
    }

    fn set_mode_if(&mut self, wanted: bool, mode: Mode)
        ensures
            final(self)@ == old(self)@.in_mode_if(wanted, mode),
            final(self).db == old(self).db,
    {
        if wanted {
            self.mode = mode;
        }
    }

    fn begin_filter(&mut self)
        ensures
            final(self)@ == old(self)@.in_mode(Mode::Filter).with_filter(Seq::empty()),
            final(self).db == old(self).db,
    {
        self.mode = Mode::Filter;
        self.filter_text = String::new();
    }

    fn begin_input(&mut self, mode: Mode)
        ensures
            final(self)@ == old(self)@.in_mode(mode).with_no_input(),
            final(self).db == old(self).db,
    {
        self.mode = mode;
        self.input_clear();
    }

    fn end_input(&mut self)
        ensures
            final(self)@ == old(self)@.in_list_mode().with_no_input(),
            final(self).db == old(self).db,
    {
        self.mode = Mode::List;
        self.input_clear();
    }

    fn filter_key(&mut self, key: Key)
        ensures
            final(self)@ == old(self)@.after_filter_key(key),
            final(self).db == old(self).db,
    {
        match key {
            Key::Esc => {
                self.mode = Mode::List;
                self.filter_text = String::new();
                self.reset_scroll();
            },
            Key::Enter => {
                self.mode = Mode::List;
            },
            Key::Backspace => {
                let mut chars = to_chars(self.filter_text.as_str());
                if chars.len() > 0 {
                    chars.pop();
                    self.filter_text = from_chars(&chars);
                }
                self.reset_scroll();
            },
            Key::Char(c) => {
                let mut chars = to_chars(self.filter_text.as_str());
                chars.push(c);
                self.filter_text = from_chars(&chars);
                self.reset_scroll();
            },
            _ => {},
        }
    }

    fn enter_input(&mut self) -> (r: Command)
        ensures
            (final(self)@, r@) == old(self)@.input_entered(),
            final(self).db == old(self).db,
    {
        let text = str_trim(self.input_text.as_str());
        if text.as_str().is_empty() {
            self.end_input();
            Command::Nothing
        } else {
            match self.mode {
                Mode::Add => Command::AddChannel(text),
                _ => {
                    self.input_clear();
                    self.mode = Mode::List;
                    Command::Search(text)
                },
            }
        }
    }

    fn input_key(&mut self, key: Key) -> (r: Command)
        ensures
            (final(self)@, r@) == old(self)@.after_input_key(key),
            final(self).db == old(self).db,
    {
        match key {
            Key::Esc => {
                self.end_input();
                Command::Nothing
            },
            Key::Enter => self.enter_input(),
            Key::Backspace => {
                self.input_backspace();
                Command::Nothing
            },
            Key::Char(c) => {
                self.input_insert(c);
                Command::Nothing
            },
            _ => Command::Nothing,
        }
    }

    /// Marks all channels as looked at and says so.
    pub fn mark_all_viewed(&mut self)
        requires
            old(self).wf(),
        ensures
            final(self).wf(),
            exists|now: i64| final(self)@ == #[trigger] old(self)@.all_marked_viewed(now),
    {
        let ids = crate::actions::subscription_ids(&self.subscriptions);
        let now = crate::time::now();
        self.db.mark_all_channels_viewed_at(&ids, now);
        self.new_counts.clear();
        self.set_message("Marked all channels as read");
        self.mode = Mode::List;
        assert(self@ == old(self)@.all_marked_viewed(now));
    }

    /// Marks all videos of the list as watched and says how many were not
    /// marked before.
    pub fn mark_all_videos_watched(&mut self)
        requires
            old(self).wf(),
        ensures
            final(self).wf(),
            final(self)@ == old(self)@.all_videos_marked(),
    {
        let ids = ids_of_videos(&self.videos);
        let count = self.db.mark_channel_all_watched(&ids);
        self.refresh_watched();
        let mut text: Vec<char> = Vec::new();
        append_str(&mut text, "Marked ");
        append_decimal(&mut text, count as u128);
        append_str(&mut text, " videos as watched");
        self.set_message(from_chars(&text).as_str());
        self.mode = Mode::List;
    }

    fn answer_prime(&mut self, key: Key) -> (r: Command)
        ensures
            (final(self)@, r@) == old(self)@.after_prime_answer(key),
            final(self).db == old(self).db,
    {
        if is_no_key(key) {
            self.pending_channel = None;
            self.mode = Mode::List;
            Command::Nothing
        } else if confirms_key(key) {
            Command::PrimeChannel
        } else {
            Command::Nothing
        }
    }

    fn answer_prime_all(&mut self, key: Key) -> (r: Command)
        ensures
            (final(self)@, r@) == old(self)@.after_prime_all_answer(key),
            final(self).db == old(self).db,
    {
        if is_no_key(key) || is_esc(key) {
            self.mode = Mode::List;
            Command::Nothing
        } else if confirms_key(key) {
            Command::PrimeAll
        } else {
            Command::Nothing
        }
    }

    fn mark_channel_and_close(&mut self)
        requires
            old(self).wf(),
        ensures
            final(self).wf(),
            exists|now: i64| final(self)@ == #[trigger] old(self)@.channel_marked(now).in_list_mode(),
    {
        self.mark_channel_watched();
        let ghost now = choose|now: i64| self@ == #[trigger] old(self)@.channel_marked(now);
        self.mode = Mode::List;
        assert(self@ == old(self)@.channel_marked(now).in_list_mode());
    }

    #[verifier::rlimit(40)]
    fn confirm_key(&mut self, key: Key) -> (r: Command)
        requires
            old(self).wf(),
        ensures
            final(self).wf(),
            exists|now: i64| (final(self)@, r@) == #[trigger] old(self)@.after_confirm_key(key, now),
    {
        let ghost mut at: i64 = 0;
        let command = match self.mode {
            Mode::ConfirmDelete => {
                if is_yes_key(key) {
                    self.delete_selected_channel();
                } else {
                    self.set_mode(Mode::List);
                }
                Command::Nothing
            },
            Mode::ConfirmPrime => self.answer_prime(key),
            Mode::ConfirmPrimeAll => self.answer_prime_all(key),
            Mode::ConfirmMarkAll => {
                if confirms_key(key) {
                    self.mark_all_viewed();
                    proof {
                        at = choose|now: i64| self@ == #[trigger] old(self)@.all_marked_viewed(now);
                    }
                } else {
                    self.set_mode(Mode::List);
                }
                Command::Nothing
            },
            Mode::ConfirmMarkAllVideos => {
                if confirms_key(key) {
                    self.mark_all_videos_watched();
                } else {
                    self.set_mode(Mode::List);
                }
                Command::Nothing
            },
            Mode::ConfirmAddChannel => {
                if confirms_key(key) {
                    self.subscribe_from_search();
                } else {
                    self.set_mode(Mode::List);
                }
                Command::Nothing
            },
            Mode::ConfirmChannelWatched => {
                if confirms_key(key) {
                    self.mark_channel_and_close();
                    proof {
                        at = choose|now: i64|
                            self@ == #[trigger] old(self)@.channel_marked(now).in_list_mode();
                    }
                } else {
                    self.set_mode(Mode::List);
                }
                Command::Nothing
            },
            _ => Command::Nothing,
        };
        assert((self@, command@) == old(self)@.after_confirm_key(key, at));
        command
    }

    fn clear_filter(&mut self)
        ensures
            final(self)@ == old(self)@.without_filter(),
            final(self).db == old(self).db,
    {
        if !self.filter_text.as_str().is_empty() {
            self.filter_text = String::new();
            self.reset_scroll();
        }
    }

    fn description_key(&mut self) -> (r: Command)
        ensures
            (final(self)@, r@) == old(self)@.after_description_key(),
            final(self).db == old(self).db,
    {
        if self.show_description {
            self.show_description = false;
            self.description = None;
            Command::Nothing
        } else {
            let filtered = self.filtered_videos();
            assert(video_ref_views(filtered@).len() == filtered@.len());
            if filtered.len() > 0 {
                Command::FetchDescription
            } else {
                Command::Nothing
            }
        }
    }

    fn open_videos(&mut self, channel: Option<crate::video::Subscription>, index: usize)
        ensures
            final(self)@ == old(self)@.videos_opened(
                match channel {
                    Some(c) => Some(c@),
                    None => None,
                },
                index,
            ),
            final(self).db == old(self).db,
    {
        self.navigate_to_videos(channel, index);
    }

    fn open_selected_channel(&mut self) -> (r: Command)
        requires
            old(self).wf(),
        ensures
            final(self).wf(),
            exists|now: i64| (final(self)@, r@) == #[trigger] old(self)@.channel_opened(now),
    {
        let filtered = self.filtered_subscriptions();
        assert(subscription_ref_views(filtered@).len() == filtered@.len());
        if self.channel_selected < filtered.len() {
            assert(subscription_ref_views(filtered@)[self.channel_selected as int]
                == filtered@[self.channel_selected as int]@);
            let channel = filtered[self.channel_selected].clone();
            let idx = self.channel_selected;
            let now = crate::time::now();
            self.db.update_channel_last_viewed_at(channel.id.as_str(), now);
            self.new_counts.remove(channel.id.as_str());
            self.open_videos(Some(channel), idx);
            assert((self@, CommandView::LoadVideos) == old(self)@.channel_opened(now));
            Command::LoadVideos
        } else {
            assert((self@, CommandView::Nothing) == old(self)@.channel_opened(0));
            Command::Nothing
        }
    }

    fn selected_channel_has_unwatched(&self) -> (r: bool)
        ensures
            r == self@.channel_has_unwatched(),
    {
        let filtered = self.filtered_subscriptions();
        assert(subscription_ref_views(filtered@).len() == filtered@.len());
        if self.channel_selected < filtered.len() {
            assert(subscription_ref_views(filtered@)[self.channel_selected as int]
                == filtered@[self.channel_selected as int]@);
            let id = filtered[self.channel_selected].id.as_str();
            let is_all_watched = self.fully_watched.contains(id);
            let has_new = match self.new_counts.get(id) {
                Some(n) => *n > 0,
                None => false,
            };
            !is_all_watched || has_new
        } else {
            false
        }
    }

    fn channel_count(&self) -> (r: usize)
        ensures
            r == self@.filtered_subscriptions().len(),
    {
        let filtered = self.filtered_subscriptions();
        assert(subscription_ref_views(filtered@).len() == filtered@.len());
        filtered.len()
    }

    fn video_count(&self) -> (r: usize)
        ensures
            r == self@.filtered_videos().len(),
    {
        let filtered = self.filtered_videos();
        assert(video_ref_views(filtered@).len() == filtered@.len());
        filtered.len()
    }

    fn has_subscriptions(&self) -> (r: bool)
        ensures
            r == (self@.subscriptions.len() > 0),
    {
        assert(self@.subscriptions.len() == self.subscriptions.len());
        self.subscriptions.len() > 0
    }

    #[verifier::rlimit(40)]
    fn channel_letter(&mut self, c: char, visible_count: usize) -> (r: Command)
        requires
            old(self).wf(),
        ensures
            final(self).wf(),
            (final(self)@, r@) == old(self)@.after_channel_letter(c, visible_count),
    {
        if c == 'q' {
            Command::Quit
        } else if c == 'b' {
            self.clear_filter();
            Command::Nothing
        } else if c == 'k' {
            self.move_up();
            Command::Nothing
        } else if c == 'j' {
            let len = self.channel_count();
            self.move_down(len, visible_count);
            Command::Nothing
        } else if c == 'a' {
            self.begin_input(Mode::Add);
            Command::Nothing
        } else if c == 'g' {
            self.begin_input(Mode::GlobalSearch);
            Command::Nothing
        } else if c == '/' {
            self.begin_filter();
            Command::Nothing
        } else if c == 'd' {
            let len = self.channel_count();
            self.set_mode_if(len > 0, Mode::ConfirmDelete);
            Command::Nothing
        } else if c == 'v' {
            let idx = self.channel_selected;
            self.open_videos(None, idx);
            Command::LoadVideos
        } else if c == 'r' {
            if self.has_subscriptions() && !self.loading {
                Command::Refresh
            } else {
                Command::Nothing
            }
        } else if c == 's' {
            self.toggle_shorts();
            Command::Nothing
        } else if c == 'w' {
            let wanted = self.selected_channel_has_unwatched();
            self.set_mode_if(wanted, Mode::ConfirmChannelWatched);
            Command::Nothing
        } else if c == 'p' {
            let wanted = self.has_subscriptions();
            self.set_mode_if(wanted, Mode::ConfirmPrimeAll);
            Command::Nothing
        } else if c == 'm' {
            self.set_mode(Mode::ConfirmMarkAll);
            Command::Nothing
        } else {
            Command::Nothing
        }
    }

    fn channel_key(&mut self, key: Key, visible_count: usize) -> (r: Command)
        requires
            old(self).wf(),
        ensures
            final(self).wf(),
            exists|now: i64|
                (final(self)@, r@) == #[trigger] old(self)@.after_channel_key(key, visible_count, now),
    {
        let ghost mut at: i64 = 0;
        let command = match key {
            Key::Esc => {
                self.clear_filter();
                Command::Nothing
            },
            Key::Up => {
                self.move_up();
                Command::Nothing
            },
            Key::Down => {
                let len = self.channel_count();
                self.move_down(len, visible_count);
                Command::Nothing
            },
            Key::Enter => {
                let command = self.open_selected_channel();
                proof {
                    at = choose|now: i64| (self@, command@) == #[trigger] old(self)@.channel_opened(now);
                }
                command
            },
            Key::Char(c) => self.channel_letter(c, visible_count),
            _ => Command::Nothing,
        };
        assert((self@, command@) == old(self)@.after_channel_key(key, visible_count, at));
        command
    }

    fn leave(&mut self)
        requires
            old(self).wf(),
        ensures
            final(self).wf(),
            final(self)@ == old(self)@.left(),
    {
        if !self.filter_text.as_str().is_empty() {
            self.clear_filter();
        } else {
            self.navigate_back();
        }
    }

    fn turn_page(&mut self, forward: bool)
        requires
            old(self).wf(),
        ensures
            final(self).wf(),
            exists|now: i64| final(self)@ == #[trigger] old(self)@.page_turned(forward, now),
    {
        if self.current_channel.is_some() {
            assert(self@ == old(self)@.page_turned(forward, 0));
            return ;
        }
        if forward {
            let pages = self.total_pages();
            if pages > 0 && self.current_page < pages - 1 {
                self.current_page += 1;
                let ghost before = self@;
                self.load_video_page();
                let ghost now = choose|now: i64| self@ == #[trigger] before.page_loaded(now);
                assert(self@ == old(self)@.page_turned(forward, now));
            } else {
                assert(self@ == old(self)@.page_turned(forward, 0));
            }
        } else {
            if self.current_page > 0 {
                self.current_page -= 1;
                let ghost before = self@;
                self.load_video_page();
                let ghost now = choose|now: i64| self@ == #[trigger] before.page_loaded(now);
                assert(self@ == old(self)@.page_turned(forward, now));
            } else {
                assert(self@ == old(self)@.page_turned(forward, 0));
            }
        }
    }

    fn toggle_shorts_at_top(&mut self)
        requires
            old(self).wf(),
        ensures
            final(self).wf(),
            final(self)@ == old(self)@.shorts_toggled().with_selection(0, 0),
    {
        self.toggle_shorts();
        self.reset_scroll();
    }

    #[verifier::rlimit(40)]
    fn video_letter(&mut self, c: char, visible_count: usize) -> (r: Command)
        requires
            old(self).wf(),
        ensures
            final(self).wf(),
            exists|now: i64|
                (final(self)@, r@) == #[trigger] old(self)@.after_video_letter(c, visible_count, now),
    {
        let ghost mut at: i64 = 0;
        let command = if c == 'q' {
            Command::Quit
        } else if c == 'b' {
            self.leave();
            Command::Nothing
        } else if c == 'k' {
            self.move_up();
            Command::Nothing
        } else if c == 'j' {
            let len = self.video_count();
            self.move_down(len, visible_count);
            Command::Nothing
        } else if c == '/' {
            self.begin_filter();
            Command::Nothing
        } else if c == 'i' {
            self.description_key()
        } else if c == 'w' {
            self.toggle_watched_current();
            Command::Nothing
        } else if c == 'm' {
            let len = self.video_count();
            let wanted = self.current_channel.is_some() && len > 0;
            self.set_mode_if(wanted, Mode::ConfirmMarkAllVideos);
            Command::Nothing
        } else if c == 's' {
            self.toggle_shorts_at_top();
            Command::Nothing
        } else if c == 'n' {
            self.turn_page(true);
            proof {
                at = choose|now: i64| self@ == #[trigger] old(self)@.page_turned(true, now);
            }
            Command::Nothing
        } else if c == 'p' {
            self.turn_page(false);
            proof {
                at = choose|now: i64| self@ == #[trigger] old(self)@.page_turned(false, now);
            }
            Command::Nothing
        } else if c == 'r' {
            if !self.loading {
                Command::LoadVideos
            } else {
                Command::Nothing
            }
        } else {
            Command::Nothing
        };
        assert((self@, command@) == old(self)@.after_video_letter(c, visible_count, at));
        command
    }

    fn play_command(&self) -> (r: Command)
        ensures
            r@ == AppView::command_if(!self.loading, CommandView::Play),
    {
        if !self.loading {
            Command::Play
        } else {
            Command::Nothing
        }
    }

    fn video_key(&mut self, key: Key, visible_count: usize) -> (r: Command)
        requires
            old(self).wf(),
        ensures
            final(self).wf(),
            exists|now: i64|
                (final(self)@, r@) == #[trigger] old(self)@.after_video_key(key, visible_count, now),
    {
        let ghost mut at: i64 = 0;
        let command = match key {
            Key::Esc => {
                self.leave();
                Command::Nothing
            },
            Key::Up => {
                self.move_up();
                Command::Nothing
            },
            Key::Down => {
                let len = self.video_count();
                self.move_down(len, visible_count);
                Command::Nothing
            },
            Key::Enter => self.play_command(),
            Key::Char(c) => {
                let command = self.video_letter(c, visible_count);
                proof {
                    at = choose|now: i64|
                        (self@, command@) == #[trigger] old(self)@.after_video_letter(
                            c,
                            visible_count,
                            now,
                        );
                }
                command
            },
            _ => Command::Nothing,
        };
        assert((self@, command@) == old(self)@.after_video_key(key, visible_count, at));
        command
    }

    fn ask_to_subscribe(&mut self)
        ensures
            final(self)@ == old(self)@.asked_to_subscribe(),
            final(self).db == old(self).db,
    {
        let filtered = self.filtered_videos();
        assert(video_ref_views(filtered@).len() == filtered@.len());
        if self.search_selected < filtered.len() {
            assert(video_ref_views(filtered@)[self.search_selected as int]
                == filtered@[self.search_selected as int]@);
            if filtered[self.search_selected].channel_id.is_some() {
                self.mode = Mode::ConfirmAddChannel;
            } else {
                self.set_error("Cannot add channel - no channel ID available");
            }
        }
    }

    fn search_letter(&mut self, c: char, visible_count: usize) -> (r: Command)
        requires
            old(self).wf(),
        ensures
            final(self).wf(),
            (final(self)@, r@) == old(self)@.after_search_letter(c, visible_count),
    {
        if c == 'q' {
            Command::Quit
        } else if c == 'b' {
            self.navigate_back();
            Command::Nothing
        } else if c == 'k' {
            self.move_up();
            Command::Nothing
        } else if c == 'j' {
            let len = self.video_count();
            self.move_down(len, visible_count);
            Command::Nothing
        } else if c == 'g' {
            self.begin_input(Mode::NewSearch);
            Command::Nothing
        } else if c == 'a' {
            self.ask_to_subscribe();
            Command::Nothing
        } else if c == 'i' {
            self.description_key()
        } else {
            Command::Nothing
        }
    }

    fn search_key(&mut self, key: Key, visible_count: usize) -> (r: Command)
        requires
            old(self).wf(),
        ensures
            final(self).wf(),
            (final(self)@, r@) == old(self)@.after_search_key(key, visible_count),
    {
        match key {
            Key::Esc => {
                self.navigate_back();
                Command::Nothing
            },
            Key::Up => {
                self.move_up();
                Command::Nothing
            },
            Key::Down => {
                let len = self.video_count();
                self.move_down(len, visible_count);
                Command::Nothing
            },
            Key::Enter => self.play_command(),
            Key::Char(c) => self.search_letter(c, visible_count),
            _ => Command::Nothing,
        }
    }

    /// Takes a key in: changes the state as the key asks, and says what is
    /// to be done outside (see [`AppView::after_key`]).
    pub fn handle_key_event(&mut self, key: Key, visible_count: usize) -> (r: Command)
        requires
            old(self).wf(),
        ensures
            final(self).wf(),
            exists|now: i64|
                (final(self)@, r@) == #[trigger] old(self)@.after_key(key, visible_count, now),
    {
        let ghost mut at: i64 = 0;
        let command = if self.playing {
            Command::Nothing
        } else {
            match self.mode {
                Mode::Filter => {
                    self.filter_key(key);
                    Command::Nothing
                },
                Mode::Add | Mode::GlobalSearch | Mode::NewSearch => self.input_key(key),
                Mode::List | Mode::Description => match self.screen {
                    Screen::Channels => {
                        let command = self.channel_key(key, visible_count);
                        proof {
                            at = choose|now: i64|
                                (self@, command@) == #[trigger] old(self)@.after_channel_key(
                                    key,
                                    visible_count,
                                    now,
                                );
                        }
                        command
                    },
                    Screen::Videos => {
                        let command = self.video_key(key, visible_count);
                        proof {
                            at = choose|now: i64|
                                (self@, command@) == #[trigger] old(self)@.after_video_key(
                                    key,
                                    visible_count,
                                    now,
                                );
                        }
                        command
                    },
                    Screen::Search => self.search_key(key, visible_count),
                },
                _ => {
                    let command = self.confirm_key(key);
                    proof {
                        at = choose|now: i64|
                            (self@, command@) == #[trigger] old(self)@.after_confirm_key(key, now);
                    }
                    command
                },
            }
        };
        assert((self@, command@) == old(self)@.after_key(key, visible_count, at));
        command
    }

    fn list_count(&self) -> (r: usize)
        ensures
            r == self@.list_len(),
    {
        match self.screen {
            Screen::Channels => self.channel_count(),
            _ => self.video_count(),
        }
    }

    fn click(&mut self, row: u16)
        ensures
            final(self)@ == old(self)@.clicked(row),
            final(self).db == old(self).db,
    {
        if row >= HEADER_ROWS {
            let len = self.list_count();
            let click_index = (row - HEADER_ROWS) as usize;
            let scroll = self.current_scroll();
            if scroll < len && click_index < len - scroll {
                let target = scroll + click_index;
                match self.screen {
                    Screen::Channels => {
                        self.channel_selected = target;
                    },
                    Screen::Videos => {
                        self.video_selected = target;
                    },
                    Screen::Search => {
                        self.search_selected = target;
                    },
                }
            }
        }
    }

    /// Takes in what the mouse has done (see [`AppView::after_mouse`]).
    pub fn handle_mouse_event(&mut self, mouse: Mouse)
        ensures
            final(self)@ == old(self)@.after_mouse(mouse),
            final(self).db == old(self).db,
    {
        match mouse {
            Mouse::ScrollUp => {
                self.move_up();
            },
            Mouse::ScrollDown => {
                let len = self.list_count();
                self.move_down(len, WHEEL_ROWS);
            },
            Mouse::LeftDown(row) => {
                self.click(row);
            },
            Mouse::Other => {},
        }
    }
}

} // verus!
