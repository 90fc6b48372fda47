//! What stands on the screen, as plain values: texts, each with the shade
//! it is drawn in.  Drawing them is not done here.

use crate::app::{channel_name_or_empty, video_ref_views, App, AppView, Mode, Screen};
use crate::layout::{cut, pad_str, padded, truncate_str, word_wrap, wrapped};
use crate::text::{
    append_decimal, append_str, decimal, from_chars, lines, lines_of, to_chars, trim_end,
    trimmed_end, truncate, truncated,
};
use crate::time::{relative_date_at, relative_date_between};
use crate::video::{format_views, views_text, ChannelStats, Subscription, SubscriptionView, Video, VideoView};
use vstd::prelude::*;

verus! {

/// A shade of the palette, by what it is used for.
#[derive(Debug, Clone, Copy, PartialEq, Eq, Structural)]
pub enum Shade {
    /// The colour of what is selected, and of titles.
    Cyan,
    Gray,
    LightGray,
    DarkGray,
    /// The colour of what has gone well, and of what is new.
    Green,
    Yellow,
    Red,
    Magenta,
    /// The colour of what is less important, and of what is watched.
    Dim,
    Accent,
    White,
    /// The colour of the background: what is drawn in it cannot be seen.
    Body,
    /// The colour that the terminal draws in by itself.
    Plain,
}

/// The background of a row or of a label.
#[derive(Debug, Clone, Copy, PartialEq, Eq, Structural)]
pub enum Ground {
    Body,
    Zebra,
    Highlight,
    StatusBar,
    /// The label of the filter mode.
    Amber,
    /// The label of the input modes.
    Leaf,
    /// The label of the description and of the search results.
    Sky,
    /// The label of the lists.
    Night,
}

/// A text and how it is drawn.
pub struct Piece {
    pub text: String,
    pub shade: Shade,
    pub bold: bool,
}

/// What a [`Piece`] holds, as plain values.
pub struct PieceView {
    pub text: Seq<char>,
    pub shade: Shade,
    pub bold: bool,
}

impl View for Piece {
    type V = PieceView;

    open spec fn view(&self) -> PieceView {
        PieceView { text: self.text@, shade: self.shade, bold: self.bold }
    }
}

/// The views of the given pieces.
pub open spec fn piece_views(pieces: Seq<Piece>) -> Seq<PieceView> {
    pieces.map_values(|p: Piece| p@)
}

/// A text in a shade.
pub open spec fn plain(text: Seq<char>, shade: Shade) -> PieceView {
    PieceView { text, shade, bold: false }
}

/// A text in a shade, in bold.
pub open spec fn strong(text: Seq<char>, shade: Shade) -> PieceView {
    PieceView { text, shade, bold: true }
}

fn push_piece(out: &mut Vec<Piece>, text: String, shade: Shade, bold: bool)
    ensures
        piece_views(final(out)@) == piece_views(old(out)@).push(
            PieceView { text: text@, shade, bold },
        ),
{
    let ghost before = piece_views(out@);
    out.push(Piece { text, shade, bold });
    assert(piece_views(out@) =~= before.push(PieceView { text: text@, shade, bold }));
}

fn push_plain(out: &mut Vec<Piece>, text: &str, shade: Shade)
    ensures
        piece_views(final(out)@) == piece_views(old(out)@).push(plain(text@, shade)),
{
    push_piece(out, text.to_owned(), shade, false);
}

/// The number of rows of a list that are on a screen of `height` rows.
pub fn visible_rows(height: u16) -> (r: usize)
    ensures
        r == if height >= 7 {
            height - 7
        } else {
            0
        },
{
    if height >= 7 {
        (height - 7) as usize
    } else {
        0
    }
}

/// The title of what is shown.
pub open spec fn title_of(app: AppView) -> Seq<char> {
    match app.screen {
        Screen::Channels => "Channels"@,
        Screen::Videos => match app.current_channel {
            Some(channel) => channel.name,
            None => "All Videos"@,
        },
        Screen::Search => "Search YouTube"@,
    }
}

/// The title of what is shown.
pub fn screen_title(app: &App) -> (r: String)
    ensures
        r@ == title_of(app@),
{
    match app.screen {
        Screen::Channels => "Channels".to_owned(),
        Screen::Videos => match &app.current_channel {
            Some(channel) => channel.name.clone(),
            None => "All Videos".to_owned(),
        },
        Screen::Search => "Search YouTube".to_owned(),
    }
}

/// The videos that are watched.
pub open spec fn is_watched(watched: Set<Seq<char>>) -> spec_fn(VideoView) -> bool {
    |v: VideoView| watched.contains(v.id)
}

/// How many of the videos on the list are watched.
pub open spec fn watched_on_list(app: AppView) -> nat {
    app.filtered_videos().filter(is_watched(app.watched_ids)).len()
}

/// How many of the videos on the list are watched, and how many there are.
pub fn watched_progress(app: &App) -> (r: (usize, usize))
    ensures
        r.0 == watched_on_list(app@),
        r.1 == app@.filtered_videos().len(),
{
    let filtered = app.filtered_videos();
    let ghost rows = video_ref_views(filtered@);
    let ghost pred = is_watched(app.watched_ids@);
    let mut watched: usize = 0;
    let mut i: usize = 0;
    proof {
        assert(rows.take(0) =~= Seq::empty());
        reveal(Seq::filter);
    }
    while i < filtered.len()
        invariant
            i <= filtered.len(),
            rows == video_ref_views(filtered@),
            pred == is_watched(app.watched_ids@),
            watched == rows.take(i as int).filter(pred).len(),
            watched <= i,
        decreases filtered.len() - i,
    {
        broadcast use Seq::lemma_filter_len_push;

        assert(rows.take(i + 1) =~= rows.take(i as int).push(filtered@[i as int]@));
        if app.watched_ids.contains(filtered[i].id.as_str()) {
            watched += 1;
        }
        i += 1;
    }
    assert(rows.take(filtered.len() as int) =~= rows);
    assert(rows.len() == filtered@.len());
    (watched, filtered.len())
}

/// The head line: the name of the program, the title of what is shown with
/// how much of it there is, how many videos of the list are watched, whether
/// short-form videos are hidden, and what is being waited for.
pub open spec fn header_line(app: AppView) -> Seq<PieceView> {
    let sub = crate::app::subtitle(app);
    let total = app.filtered_videos().len();
    let watched = watched_on_list(app);
    seq![strong("youtube-cli"@, Shade::Cyan), plain(" - "@, Shade::Gray), strong(
        title_of(app),
        Shade::LightGray,
    )] + (if sub.len() > 0 {
        seq![plain(" ("@ + sub + ")"@, Shade::Gray)]
    } else {
        Seq::empty()
    }) + (if app.screen == Screen::Videos {
        seq![
            plain(" │ "@, Shade::DarkGray),
            plain(
                decimal(watched) + "/"@ + decimal(total),
                if watched == total && total > 0 {
                    Shade::Green
                } else {
                    Shade::Gray
                },
            ),
            plain(" watched"@, Shade::Gray),
        ]
    } else {
        Seq::empty()
    }) + seq![
        plain(" │ "@, Shade::DarkGray),
        if app.hide_shorts {
            plain("shorts hidden"@, Shade::Yellow)
        } else {
            plain("shorts shown"@, Shade::Gray)
        },
    ] + (if app.loading {
        seq![plain(" │ "@, Shade::DarkGray), plain("⟳ "@, Shade::Cyan)] + (if app.loading_message.len()
            > 0 {
            seq![plain(app.loading_message, Shade::Green)]
        } else {
            Seq::empty()
        })
    } else {
        Seq::empty()
    })
}

/// The head line (see [`header_line`]).
pub fn header(app: &App) -> (r: Vec<Piece>)
    ensures
        piece_views(r@) == header_line(app@),
{
    let mut out: Vec<Piece> = Vec::new();
    assert(piece_views(out@) =~= Seq::empty());
    push_piece(&mut out, "youtube-cli".to_owned(), Shade::Cyan, true);
    push_plain(&mut out, " - ", Shade::Gray);
    push_piece(&mut out, screen_title(app), Shade::LightGray, true);
    let ghost first = piece_views(out@);
    assert(first =~= seq![
        strong("youtube-cli"@, Shade::Cyan),
        plain(" - "@, Shade::Gray),
        strong(title_of(app@), Shade::LightGray),
    ]);
    let sub = crate::app::build_subtitle(app);
    if !sub.as_str().is_empty() {
        let mut text: Vec<char> = Vec::new();
        append_str(&mut text, " (");
        append_str(&mut text, sub.as_str());
        append_str(&mut text, ")");
        push_piece(&mut out, from_chars(&text), Shade::Gray, false);
    }
    let ghost second = piece_views(out@);
    assert(second =~= first + (if sub@.len() > 0 {
        seq![plain(" ("@ + sub@ + ")"@, Shade::Gray)]
    } else {
        Seq::empty()
    }));
    match app.screen {
        Screen::Videos => {
            let (watched, total) = watched_progress(app);
            push_plain(&mut out, " │ ", Shade::DarkGray);
            let mut text: Vec<char> = Vec::new();
            append_decimal(&mut text, watched as u128);
            append_str(&mut text, "/");
            append_decimal(&mut text, total as u128);
            push_piece(
                &mut out,
                from_chars(&text),
                if watched == total && total > 0 {
                    Shade::Green
                } else {
                    Shade::Gray
                },
                false,
            );
            push_plain(&mut out, " watched", Shade::Gray);
        },
        _ => {},
    }
    let ghost third = piece_views(out@);
    assert(third =~= second + (if app.screen == Screen::Videos {
        seq![
            plain(" │ "@, Shade::DarkGray),
            plain(
                decimal(watched_on_list(app@)) + "/"@ + decimal(app@.filtered_videos().len()),
                if watched_on_list(app@) == app@.filtered_videos().len()
                    && app@.filtered_videos().len() > 0 {
                    Shade::Green
                } else {
                    Shade::Gray
                },
            ),
            plain(" watched"@, Shade::Gray),
        ]
    } else {
        Seq::empty()
    }));
    push_plain(&mut out, " │ ", Shade::DarkGray);
    if app.hide_shorts {
        push_plain(&mut out, "shorts hidden", Shade::Yellow);
    } else {
        push_plain(&mut out, "shorts shown", Shade::Gray);
    }
    let ghost fourth = piece_views(out@);
    assert(fourth =~= third + seq![
        plain(" │ "@, Shade::DarkGray),
        if app.hide_shorts {
            plain("shorts hidden"@, Shade::Yellow)
        } else {
            plain("shorts shown"@, Shade::Gray)
        },
    ]);
    if app.loading {
        push_plain(&mut out, " │ ", Shade::DarkGray);
        push_plain(&mut out, "⟳ ", Shade::Cyan);
        if !app.loading_message.as_str().is_empty() {
            push_plain(&mut out, app.loading_message.as_str(), Shade::Green);
        }
    }
    assert(piece_views(out@) =~= fourth + (if app.loading {
        seq![plain(" │ "@, Shade::DarkGray), plain("⟳ "@, Shade::Cyan)] + (if app@.loading_message.len()
            > 0 {
            seq![plain(app@.loading_message, Shade::Green)]
        } else {
            Seq::empty()
        })
    } else {
        Seq::empty()
    }));
    out
}

/// The background of row `index` of a list.
pub open spec fn row_ground(index: int, selected: bool) -> Ground {
    if selected {
        Ground::Highlight
    } else if index % 2 == 0 {
        Ground::Body
    } else {
        Ground::Zebra
    }
}

fn ground_of(index: usize, selected: bool) -> (r: Ground)
    ensures
        r == row_ground(index as int, selected),
{
    if selected {
        Ground::Highlight
    } else if index % 2 == 0 {
        Ground::Body
    } else {
        Ground::Zebra
    }
}

/// The widths of the columns of the list of channels: the pointer, the
/// name, the number of videos, the age of the latest.
pub struct ChannelColumns {
    pub pointer: usize,
    pub name: usize,
    pub videos: usize,
    pub latest: usize,
}

/// The widths of the columns of the list of channels on a screen of the
/// given width: the name takes what the others leave.
pub fn channel_columns(width: u16) -> (r: ChannelColumns)
    ensures
        r.pointer == 2,
        r.videos == 7,
        r.latest == 8,
        r.name == if width >= 17 {
            width - 17
        } else {
            0
        },
{
    ChannelColumns {
        pointer: 2,
        name: if width >= 17 {
            (width - 17) as usize
        } else {
            0
        },
        videos: 7,
        latest: 8,
    }
}

/// One row of the list of channels.
pub struct ChannelRow {
    pub pointer: Piece,
    /// The name, and behind it the number of new videos where there are any.
    pub name: Vec<Piece>,
    pub videos: Piece,
    pub latest: Piece,
    pub ground: Ground,
}

/// What a [`ChannelRow`] holds, as plain values.
pub struct ChannelRowView {
    pub pointer: PieceView,
    pub name: Seq<PieceView>,
    pub videos: PieceView,
    pub latest: PieceView,
    pub ground: Ground,
}

impl View for ChannelRow {
    type V = ChannelRowView;

    open spec fn view(&self) -> ChannelRowView {
        ChannelRowView {
            pointer: self.pointer@,
            name: piece_views(self.name@),
            videos: self.videos@,
            latest: self.latest@,
            ground: self.ground,
        }
    }
}

/// The number of new videos as it stands behind the name of a channel:
/// ` (+3)`, and ` (+999)` for more than 999.
pub open spec fn new_suffix(new_count: usize) -> Seq<char> {
    if new_count > 999 {
        " (+999)"@
    } else if new_count > 0 {
        " (+"@ + decimal(new_count as nat) + ")"@
    } else {
        Seq::empty()
    }
}

fn new_suffix_text(new_count: usize) -> (r: String)
    ensures
        r@ == new_suffix(new_count),
{
    if new_count > 999 {
        " (+999)".to_owned()
    } else if new_count > 0 {
        let mut text: Vec<char> = Vec::new();
        append_str(&mut text, " (+");
        append_decimal(&mut text, new_count as u128);
        append_str(&mut text, ")");
        from_chars(&text)
    } else {
        String::new()
    }
}

/// The number of bytes that a text takes in UTF-8.
pub open spec fn utf8_len(s: Seq<char>) -> usize {
    vstd::utf8::encode_utf8(s).len() as usize
}

/// `a - b`, and 0 where `b` is the larger.
pub open spec fn minus(a: int, b: int) -> int {
    if a >= b {
        a - b
    } else {
        0
    }
}

fn sub_or_zero(a: usize, b: usize) -> (r: usize)
    ensures
        r == minus(a as int, b as int),
{
    if a >= b {
        a - b
    } else {
        0
    }
}

/// The number of new videos of a channel as the application has it.
pub open spec fn new_count_of(app: AppView, channel: Seq<char>) -> usize {
    if app.new_counts.contains_key(channel) {
        app.new_counts[channel]
    } else {
        0
    }
}

/// The row of the list of channels for the channel at position `index` of
/// the list, at the instant `now`.
///
/// The name is drawn as selected, as having new videos, as fully watched or
/// plainly, in this order of precedence, and is cut so that the number of
/// new videos has room behind it.
pub open spec fn channel_row_of(
    app: AppView,
    channel: SubscriptionView,
    index: int,
    columns: ChannelColumns,
    now: i64,
) -> ChannelRowView {
    let selected = index == app.channel_selected;
    let new_count = new_count_of(app, channel.id);
    let name_shade = if selected {
        Shade::Cyan
    } else if new_count > 0 {
        Shade::Green
    } else if app.fully_watched.contains(channel.id) {
        Shade::Dim
    } else {
        Shade::LightGray
    };
    let suffix = new_suffix(new_count);
    let available = minus(columns.name as int, utf8_len(suffix) as int);
    let name = cut(channel.name, minus(available, 1) as usize);
    let stats: Option<ChannelStats> = if app.channel_stats.contains_key(channel.id) {
        Some(app.channel_stats[channel.id])
    } else {
        None
    };
    let value_shade = if selected {
        Shade::Cyan
    } else {
        Shade::Gray
    };
    ChannelRowView {
        pointer: plain(
            if selected {
                "▶"@
            } else {
                " "@
            },
            if selected {
                Shade::Accent
            } else {
                Shade::Body
            },
        ),
        name: if new_count > 0 {
            seq![
                PieceView { text: name, shade: name_shade, bold: selected },
                plain(
                    padded(suffix, minus(columns.name as int, utf8_len(name) as int) as usize),
                    Shade::Green,
                ),
            ]
        } else {
            seq![PieceView { text: padded(name, columns.name), shade: name_shade, bold: selected }]
        },
        videos: plain(
            padded(
                match stats {
                    Some(s) => decimal(s.video_count as nat),
                    None => Seq::empty(),
                },
                columns.videos,
            ),
            value_shade,
        ),
        latest: plain(
            padded(
                match stats {
                    Some(ChannelStats { video_count, latest_date: Some(d) }) => relative_date_at(
                        d,
                        now,
                    ),
                    _ => Seq::empty(),
                },
                columns.latest,
            ),
            value_shade,
        ),
        ground: row_ground(index, selected),
    }
}

/// The row of the list of channels for the channel at position `index`
/// (see [`channel_row_of`]).
pub fn channel_row_at(
    app: &App,
    channel: &Subscription,
    index: usize,
    columns: &ChannelColumns,
    now: i64,
) -> (r: ChannelRow)
    ensures
        r@ == channel_row_of(app@, channel@, index as int, *columns, now),
{
    let selected = index == app.channel_selected;
    let new_count: usize = match app.new_counts.get(channel.id.as_str()) {
        Some(n) => *n,
        None => 0,
    };
    let name_shade = if selected {
        Shade::Cyan
    } else if new_count > 0 {
        Shade::Green
    } else if app.fully_watched.contains(channel.id.as_str()) {
        Shade::Dim
    } else {
        Shade::LightGray
    };
    let suffix = new_suffix_text(new_count);
    let available = sub_or_zero(columns.name, suffix.as_str().len());
    let name = truncate_str(channel.name.as_str(), sub_or_zero(available, 1));
    let stats = app.channel_stats.get(channel.id.as_str());
    let value_shade = if selected {
        Shade::Cyan
    } else {
        Shade::Gray
    };
    let count_text = match stats {
        Some(s) => crate::text::decimal_string(s.video_count as u64),
        None => String::new(),
    };
    let latest_text = match stats {
        Some(s) => match s.latest_date {
            Some(d) => relative_date_between(d, now),
            None => String::new(),
        },
        None => String::new(),
    };
    let mut name_pieces: Vec<Piece> = Vec::new();
    assert(piece_views(name_pieces@) =~= Seq::empty());
    if new_count > 0 {
        let rest = sub_or_zero(columns.name, name.as_str().len());
        push_piece(&mut name_pieces, name, name_shade, selected);
        push_piece(&mut name_pieces, pad_str(suffix.as_str(), rest), Shade::Green, false);
    } else {
        push_piece(&mut name_pieces, pad_str(name.as_str(), columns.name), name_shade, selected);
    }
    let row = ChannelRow {
        pointer: Piece {
            text: if selected {
                "▶".to_owned()
            } else {
                " ".to_owned()
            },
            shade: if selected {
                Shade::Accent
            } else {
                Shade::Body
            },
            bold: false,
        },
        name: name_pieces,
        videos: Piece {
            text: pad_str(count_text.as_str(), columns.videos),
            shade: value_shade,
            bold: false,
        },
        latest: Piece {
            text: pad_str(latest_text.as_str(), columns.latest),
            shade: value_shade,
            bold: false,
        },
        ground: ground_of(index, selected),
    };
    assert(row@.name =~= channel_row_of(app@, channel@, index as int, *columns, now).name);
    row
}

/// The row of the list of channels for the channel at position `index`,
/// as seen now.
pub fn channel_row(app: &App, channel: &Subscription, index: usize, columns: &ChannelColumns) -> (r:
    ChannelRow)
    ensures
        exists|now: i64| r@ == #[trigger] channel_row_of(app@, channel@, index as int, *columns, now),
{
    let now = crate::time::now();
    channel_row_at(app, channel, index, columns, now)
}

/// The widths of the columns of a list of videos: the pointer, the channel,
/// the title, the duration, the views, the age.
pub struct VideoColumns {
    pub pointer: usize,
    /// 0 where the channel is not shown.
    pub channel: usize,
    pub title: usize,
    pub duration: usize,
    pub views: usize,
    pub date: usize,
}

/// The width of the column of the channel: a third of the screen, 32 at most;
/// 0 where the channel is not shown.
pub open spec fn channel_width(width: u16, show_channel: bool) -> int {
    if !show_channel {
        0
    } else if width / 3 < 32 {
        (width / 3) as int
    } else {
        32
    }
}

/// The widths of the columns of a list of videos on a screen of the given
/// width: the title takes what the others leave, but for two columns.
pub fn video_columns(width: u16, show_channel: bool) -> (r: VideoColumns)
    ensures
        r.pointer == 3,
        r.channel == channel_width(width, show_channel),
        r.duration == 8,
        r.views == 8,
        r.date == 8,
        r.title == minus(width as int, 29 + channel_width(width, show_channel)),
{
    let channel: usize = if !show_channel {
        0
    } else if width / 3 < 32 {
        (width / 3) as usize
    } else {
        32
    };
    VideoColumns {
        pointer: 3,
        channel,
        title: sub_or_zero(width as usize, 29 + channel),
        duration: 8,
        views: 8,
        date: 8,
    }
}

/// One row of a list of videos.
pub struct VideoRow {
    pub pointer: Piece,
    /// The name of the channel, where it is shown.
    pub channel: Option<Piece>,
    pub title: Piece,
    pub duration: Piece,
    pub views: Piece,
    pub date: Piece,
    pub ground: Ground,
}

/// What a [`VideoRow`] holds, as plain values.
pub struct VideoRowView {
    pub pointer: PieceView,
    pub channel: Option<PieceView>,
    pub title: PieceView,
    pub duration: PieceView,
    pub views: PieceView,
    pub date: PieceView,
    pub ground: Ground,
}

impl View for VideoRow {
    type V = VideoRowView;

    open spec fn view(&self) -> VideoRowView {
        VideoRowView {
            pointer: self.pointer@,
            channel: match self.channel {
                Some(p) => Some(p@),
                None => None,
            },
            title: self.title@,
            duration: self.duration@,
            views: self.views@,
            date: self.date@,
            ground: self.ground,
        }
    }
}

/// The duration of a video as it stands in the list: its text, or `--:--`
/// for none; a short-form video has an `S` behind it.
pub open spec fn duration_cell(video: VideoView) -> Seq<char> {
    let text = match video.duration_string {
        Some(t) => t,
        None => "--:--"@,
    };
    if video.is_short {
        trimmed_end(text) + "S"@
    } else {
        text
    }
}

/// The row of a list of videos for the video at position `index` of the
/// list, of which position `selected` is selected.
///
/// A video that is selected is drawn as such; else one that is watched is
/// drawn dim.
pub open spec fn video_row_of(
    app: AppView,
    video: VideoView,
    index: int,
    selected: usize,
    show_channel: bool,
    columns: VideoColumns,
) -> VideoRowView {
    let is_selected = index == selected;
    let watched = app.watched_ids.contains(video.id);
    VideoRowView {
        pointer: plain(
            if is_selected {
                "▶ "@
            } else {
                "  "@
            },
            if is_selected {
                Shade::Accent
            } else {
                Shade::Body
            },
        ),
        channel: if show_channel {
            Some(
                plain(
                    padded(
                        cut(
                            channel_name_or_empty(video),
                            minus(columns.channel as int, 1) as usize,
                        ),
                        columns.channel,
                    ),
                    if is_selected {
                        Shade::Cyan
                    } else if watched {
                        Shade::Dim
                    } else {
                        Shade::Yellow
                    },
                ),
            )
        } else {
            None
        },
        title: PieceView {
            text: padded(cut(video.title, minus(columns.title as int, 1) as usize), columns.title),
            shade: if is_selected {
                Shade::Cyan
            } else if watched {
                Shade::Dim
            } else {
                Shade::LightGray
            },
            bold: is_selected,
        },
        duration: plain(
            padded(duration_cell(video), columns.duration),
            if is_selected {
                Shade::Cyan
            } else if video.is_short {
                Shade::Dim
            } else {
                Shade::Gray
            },
        ),
        views: plain(
            padded(views_text(video.view_count), columns.views),
            if is_selected {
                Shade::Cyan
            } else {
                Shade::Magenta
            },
        ),
        date: plain(
            padded(video.relative_date, columns.date),
            if is_selected {
                Shade::Cyan
            } else {
                Shade::Gray
            },
        ),
        ground: row_ground(index, is_selected),
    }
}

/// The row of a list of videos for the video at position `index` (see
/// [`video_row_of`]).
pub fn video_row(
    app: &App,
    video: &Video,
    index: usize,
    selected: usize,
    show_channel: bool,
    columns: &VideoColumns,
) -> (r: VideoRow)
    ensures
        r@ == video_row_of(app@, video@, index as int, selected, show_channel, *columns),
{
    let is_selected = index == selected;
    let watched = app.watched_ids.contains(video.id.as_str());
    let channel = if show_channel {
        let name = match &video.channel_name {
            Some(n) => n.as_str(),
            None => "",
        };
        let shown = truncate_str(name, sub_or_zero(columns.channel, 1));
        Some(
            Piece {
                text: pad_str(shown.as_str(), columns.channel),
                shade: if is_selected {
                    Shade::Cyan
                } else if watched {
                    Shade::Dim
                } else {
                    Shade::Yellow
                },
                bold: false,
            },
        )
    } else {
        None
    };
    let title = truncate_str(video.title.as_str(), sub_or_zero(columns.title, 1));
    let duration = {
        let text = match &video.duration_string {
            Some(t) => to_chars(t.as_str()),
            None => to_chars("--:--"),
        };
        if video.is_short {
            let mut out = trim_end(&text);
            append_str(&mut out, "S");
            from_chars(&out)
        } else {
            from_chars(&text)
        }
    };
    let views = format_views(video.view_count);
    VideoRow {
        pointer: Piece {
            text: if is_selected {
                "▶ ".to_owned()
            } else {
                "  ".to_owned()
            },
            shade: if is_selected {
                Shade::Accent
            } else {
                Shade::Body
            },
            bold: false,
        },
        channel,
        title: Piece {
            text: pad_str(title.as_str(), columns.title),
            shade: if is_selected {
                Shade::Cyan
            } else if watched {
                Shade::Dim
            } else {
                Shade::LightGray
            },
            bold: is_selected,
        },
        duration: Piece {
            text: pad_str(duration.as_str(), columns.duration),
            shade: if is_selected {
                Shade::Cyan
            } else if video.is_short {
                Shade::Dim
            } else {
                Shade::Gray
            },
            bold: false,
        },
        views: Piece {
            text: pad_str(views.as_str(), columns.views),
            shade: if is_selected {
                Shade::Cyan
            } else {
                Shade::Magenta
            },
            bold: false,
        },
        date: Piece {
            text: pad_str(video.relative_date.as_str(), columns.date),
            shade: if is_selected {
                Shade::Cyan
            } else {
                Shade::Gray
            },
            bold: false,
        },
        ground: ground_of(index, is_selected),
    }
}

/// The label of the status line: what the keys are taken for.
pub open spec fn mode_label(app: AppView) -> (Seq<char>, Ground) {
    match app.mode {
        Mode::Filter => ("FILTER"@, Ground::Amber),
        Mode::Add => ("ADD"@, Ground::Leaf),
        Mode::GlobalSearch | Mode::NewSearch => ("SEARCH"@, Ground::Leaf),
        Mode::Description => ("INFO"@, Ground::Sky),
        _ => match app.screen {
            Screen::Channels => ("CHANNELS"@, Ground::Night),
            Screen::Videos => ("VIDEOS"@, Ground::Night),
            Screen::Search => ("SEARCH"@, Ground::Sky),
        },
    }
}

/// The label of the status line.
pub fn status_label(app: &App) -> (r: (&'static str, Ground))
    ensures
        (r.0@, r.1) == mode_label(app@),
{
    match app.mode {
        Mode::Filter => ("FILTER", Ground::Amber),
        Mode::Add => ("ADD", Ground::Leaf),
        Mode::GlobalSearch | Mode::NewSearch => ("SEARCH", Ground::Leaf),
        Mode::Description => ("INFO", Ground::Sky),
        _ => match app.screen {
            Screen::Channels => ("CHANNELS", Ground::Night),
            Screen::Videos => ("VIDEOS", Ground::Night),
            Screen::Search => ("SEARCH", Ground::Sky),
        },
    }
}

/// A key and what it does, as it stands in the status line.
pub open spec fn hint(key: Seq<char>, does: Seq<char>) -> PieceView {
    plain("("@ + key + ")"@ + does + " "@, Shade::Gray)
}

fn push_hint(out: &mut Vec<Piece>, key: &str, does: &str)
    ensures
        piece_views(final(out)@) == piece_views(old(out)@).push(hint(key@, does@)),
{
    let mut text: Vec<char> = Vec::new();
    append_str(&mut text, "(");
    append_str(&mut text, key);
    append_str(&mut text, ")");
    append_str(&mut text, does);
    append_str(&mut text, " ");
    push_piece(out, from_chars(&text), Shade::Gray, false);
}

/// The hint for the key that hides or shows short-form videos.
pub open spec fn shorts_hint(app: AppView) -> PieceView {
    hint(
        "s"@,
        if app.hide_shorts {
            "+shorts"@
        } else {
            "-shorts"@
        },
    )
}

/// The hints of the list of channels.
pub open spec fn channel_hints(app: AppView) -> Seq<PieceView> {
    seq![hint("a"@, "dd"@)] + (if app.subscriptions.len() > 0 {
        seq![hint("d"@, "elete"@), hint("w"@, "atched"@), hint("p"@, "rime all"@)]
    } else {
        Seq::empty()
    }) + seq![
        hint("v"@, "iew all"@),
        hint("g"@, "lobal"@),
        hint("/"@, "filter"@),
        shorts_hint(app),
        hint("r"@, "efresh"@),
        hint("m"@, "ark all"@),
        hint("q"@, "uit"@),
    ]
}

/// The hints of a list of videos.
pub open spec fn video_hints(app: AppView) -> Seq<PieceView> {
    seq![hint("Enter"@, "play"@), hint("i"@, "nfo"@), hint("w"@, "atched"@)] + (if app.current_channel
        is Some {
        seq![hint("m"@, "ark all"@)]
    } else {
        Seq::empty()
    }) + seq![hint("/"@, "filter"@), shorts_hint(app)] + (if app.current_channel is None
        && app.total_pages() > 1 {
        seq![hint("n"@, "ext"@), hint("p"@, "rev"@)]
    } else {
        Seq::empty()
    }) + seq![hint("r"@, "efresh"@), hint("b"@, "ack"@), hint("q"@, "uit"@)]
}

/// The hints of the results of a search.
pub open spec fn search_hints() -> Seq<PieceView> {
    seq![
        hint("Enter"@, "play"@),
        hint("i"@, "nfo"@),
        hint("a"@, "dd channel"@),
        hint("g"@, "new search"@),
        hint("b"@, "ack"@),
        hint("q"@, "uit"@),
    ]
}

/// What stands in the status line behind the label: the filter while it is
/// entered; else how to close the description while it is open; else the
/// keys of the list, in list mode.
pub open spec fn status_hints(app: AppView) -> Seq<PieceView> {
    if app.mode == Mode::Filter {
        seq![
            plain("Filter: "@, Shade::Yellow),
            plain(app.filter_text, Shade::LightGray),
            plain("│"@, Shade::Accent),
            plain("  Enter:confirm  Esc:cancel"@, Shade::Gray),
        ]
    } else if app.show_description {
        seq![hint("i"@, "close info"@)]
    } else if app.mode == Mode::List {
        match app.screen {
            Screen::Channels => channel_hints(app),
            Screen::Videos => video_hints(app),
            Screen::Search => search_hints(),
        }
    } else {
        Seq::empty()
    }
}

/// The status line behind its label: a space, the hints, and the message
/// where there is one.
pub open spec fn status_line(app: AppView) -> Seq<PieceView> {
    seq![plain(" "@, Shade::Plain)] + status_hints(app) + match app.status_message {
        Some(m) => seq![
            plain(" │ "@, Shade::DarkGray),
            plain(
                m.text,
                if m.is_error {
                    Shade::Red
                } else {
                    Shade::Green
                },
            ),
        ],
        None => Seq::empty(),
    }
}

fn push_shorts_hint(out: &mut Vec<Piece>, app: &App)
    ensures
        piece_views(final(out)@) == piece_views(old(out)@).push(shorts_hint(app@)),
{
    if app.hide_shorts {
        push_hint(out, "s", "+shorts");
    } else {
        push_hint(out, "s", "-shorts");
    }
}

fn push_channel_hints(out: &mut Vec<Piece>, app: &App)
    ensures
        piece_views(final(out)@) == piece_views(old(out)@) + channel_hints(app@),
{
    let ghost start = piece_views(out@);
    push_hint(out, "a", "dd");
    assert(app@.subscriptions.len() == app.subscriptions.len());
    if app.subscriptions.len() > 0 {
        push_hint(out, "d", "elete");
        push_hint(out, "w", "atched");
        push_hint(out, "p", "rime all");
    }
    let ghost middle = piece_views(out@);
    assert(middle =~= start + (seq![hint("a"@, "dd"@)] + (if app@.subscriptions.len() > 0 {
        seq![hint("d"@, "elete"@), hint("w"@, "atched"@), hint("p"@, "rime all"@)]
    } else {
        Seq::empty()
    })));
    push_hint(out, "v", "iew all");
    push_hint(out, "g", "lobal");
    push_hint(out, "/", "filter");
    push_shorts_hint(out, app);
    push_hint(out, "r", "efresh");
    push_hint(out, "m", "ark all");
    push_hint(out, "q", "uit");
    assert(piece_views(out@) =~= start + channel_hints(app@));
}

fn push_video_hints(out: &mut Vec<Piece>, app: &App)
    ensures
        piece_views(final(out)@) == piece_views(old(out)@) + video_hints(app@),
{
    let ghost start = piece_views(out@);
    push_hint(out, "Enter", "play");
    push_hint(out, "i", "nfo");
    push_hint(out, "w", "atched");
    if app.current_channel.is_some() {
        push_hint(out, "m", "ark all");
    }
    let ghost first = piece_views(out@);
    assert(first =~= start + (seq![hint("Enter"@, "play"@), hint("i"@, "nfo"@), hint(
        "w"@,
        "atched"@,
    )] + (if app@.current_channel is Some {
        seq![hint("m"@, "ark all"@)]
    } else {
        Seq::empty()
    })));
    push_hint(out, "/", "filter");
    push_shorts_hint(out, app);
    let pages = app.total_pages();
    if app.current_channel.is_none() && pages > 1 {
        push_hint(out, "n", "ext");
        push_hint(out, "p", "rev");
    }
    let ghost second = piece_views(out@);
    assert(second =~= first + seq![hint("/"@, "filter"@), shorts_hint(app@)] + (if app@.current_channel
        is None && app@.total_pages() > 1 {
        seq![hint("n"@, "ext"@), hint("p"@, "rev"@)]
    } else {
        Seq::empty()
    }));
    push_hint(out, "r", "efresh");
    push_hint(out, "b", "ack");
    push_hint(out, "q", "uit");
    assert(piece_views(out@) =~= start + video_hints(app@));
}

fn push_search_hints(out: &mut Vec<Piece>)
    ensures
        piece_views(final(out)@) == piece_views(old(out)@) + search_hints(),
{
    let ghost start = piece_views(out@);
    push_hint(out, "Enter", "play");
    push_hint(out, "i", "nfo");
    push_hint(out, "a", "dd channel");
    push_hint(out, "g", "new search");
    push_hint(out, "b", "ack");
    push_hint(out, "q", "uit");
    assert(piece_views(out@) =~= start + search_hints());
}

fn push_status_hints(out: &mut Vec<Piece>, app: &App)
    ensures
        piece_views(final(out)@) == piece_views(old(out)@) + status_hints(app@),
{
    let ghost start = piece_views(out@);
    match app.mode {
        Mode::Filter => {
            push_plain(out, "Filter: ", Shade::Yellow);
            push_plain(out, app.filter_text.as_str(), Shade::LightGray);
            push_plain(out, "│", Shade::Accent);
            push_plain(out, "  Enter:confirm  Esc:cancel", Shade::Gray);
            assert(piece_views(out@) =~= start + status_hints(app@));
        },
        Mode::List => {
            if app.show_description {
                push_hint(out, "i", "close info");
                assert(piece_views(out@) =~= start + status_hints(app@));
            } else {
                match app.screen {
                    Screen::Channels => push_channel_hints(out, app),
                    Screen::Videos => push_video_hints(out, app),
                    Screen::Search => push_search_hints(out),
                }
            }
        },
        _ => {
            if app.show_description {
                push_hint(out, "i", "close info");
            }
            assert(piece_views(out@) =~= start + status_hints(app@));
        },
    }
}

/// The status line behind its label (see [`status_line`]).
pub fn status_pieces(app: &App) -> (r: Vec<Piece>)
    ensures
        piece_views(r@) == status_line(app@),
{
    let mut out: Vec<Piece> = Vec::new();
    assert(piece_views(out@) =~= Seq::empty());
    push_plain(&mut out, " ", Shade::Plain);
    push_status_hints(&mut out, app);
    let ghost before = piece_views(out@);
    assert(before =~= seq![plain(" "@, Shade::Plain)] + status_hints(app@));
    match &app.status_message {
        Some(m) => {
            push_plain(&mut out, " │ ", Shade::DarkGray);
            push_plain(
                &mut out,
                m.text.as_str(),
                if m.is_error {
                    Shade::Red
                } else {
                    Shade::Green
                },
            );
            assert(piece_views(out@) =~= before + seq![
                plain(" │ "@, Shade::DarkGray),
                plain(
                    m.text@,
                    if m.is_error {
                        Shade::Red
                    } else {
                        Shade::Green
                    },
                ),
            ]);
        },
        None => {
            assert(piece_views(out@) =~= before + Seq::<PieceView>::empty());
        },
    }
    out
}

/// A box that is laid over the screen: its title, and its lines.
pub struct Overlay {
    pub title: String,
    pub lines: Vec<Piece>,
}

/// What an [`Overlay`] holds, as plain values.
pub struct OverlayView {
    pub title: Seq<char>,
    pub lines: Seq<PieceView>,
}

impl View for Overlay {
    type V = OverlayView;

    open spec fn view(&self) -> OverlayView {
        OverlayView { title: self.title@, lines: piece_views(self.lines@) }
    }
}

/// The box in which an address or a query is entered: what has been
/// entered, or in its place what could be; and the keys that end it.
pub open spec fn input_box(app: AppView) -> OverlayView {
    let (title, placeholder) = match app.mode {
        Mode::Add => ("Add Channel"@, "https://youtube.com/@channel"@),
        Mode::GlobalSearch => ("Search YouTube"@, "enter search query"@),
        Mode::NewSearch => ("New Search"@, "enter search query"@),
        _ => ("Input"@, ""@),
    };
    OverlayView {
        title,
        lines: seq![
            if app.input_text.len() == 0 {
                plain(placeholder, Shade::Dim)
            } else {
                plain(app.input_text, Shade::LightGray)
            },
            plain("Esc:cancel  Enter:submit"@, Shade::Gray),
        ],
    }
}

/// The box in which an address or a query is entered.
pub fn input_overlay(app: &App) -> (r: Overlay)
    ensures
        r@ == input_box(app@),
{
    let (title, placeholder) = match app.mode {
        Mode::Add => ("Add Channel", "https://youtube.com/@channel"),
        Mode::GlobalSearch => ("Search YouTube", "enter search query"),
        Mode::NewSearch => ("New Search", "enter search query"),
        _ => ("Input", ""),
    };
    let mut lines: Vec<Piece> = Vec::new();
    assert(piece_views(lines@) =~= Seq::empty());
    if app.input_text.as_str().is_empty() {
        push_plain(&mut lines, placeholder, Shade::Dim);
    } else {
        push_plain(&mut lines, app.input_text.as_str(), Shade::LightGray);
    }
    push_plain(&mut lines, "Esc:cancel  Enter:submit", Shade::Gray);
    let r = Overlay { title: title.to_owned(), lines };
    assert(r@.lines =~= input_box(app@).lines);
    r
}

/// The name of the selected channel, or `?` where none is selected.
pub open spec fn selected_channel_name(app: AppView) -> Seq<char> {
    let channels = app.filtered_subscriptions();
    if app.channel_selected < channels.len() {
        channels[app.channel_selected as int].name
    } else {
        "?"@
    }
}

/// The name of the channel of the selected search result, or `?`.
pub open spec fn selected_result_channel(app: AppView) -> Seq<char> {
    let videos = app.filtered_videos();
    if app.search_selected < videos.len() {
        match videos[app.search_selected as int].channel_name {
            Some(n) => n,
            None => "?"@,
        }
    } else {
        "?"@
    }
}

/// The question that is open: its title, its words, and the keys that
/// answer it.
pub open spec fn question(app: AppView) -> (Seq<char>, Seq<char>, Seq<char>) {
    match app.mode {
        Mode::ConfirmDelete => (
            "Delete Channel"@,
            "Delete \""@ + selected_channel_name(app) + "\"?"@,
            "y:Yes  n:No"@,
        ),
        Mode::ConfirmPrime => (
            "Prime Channel"@,
            "Fetch historical videos for \""@ + (match app.pending_channel {
                Some(c) => c.name,
                None => "?"@,
            }) + "\"?"@,
            "Y:Yes  n:No"@,
        ),
        Mode::ConfirmPrimeAll => (
            "Prime All"@,
            "Prime historical videos for all "@ + decimal(app.subscriptions.len()) + " channels?"@,
            "Y:Yes  n:No"@,
        ),
        Mode::ConfirmMarkAll => ("Mark All Read"@, "Mark all channels as read?"@, "y:Yes  n:No"@),
        Mode::ConfirmMarkAllVideos => (
            "Mark All Watched"@,
            "Mark all "@ + decimal(app.videos.len()) + " videos as watched?"@,
            "y:Yes  n:No"@,
        ),
        Mode::ConfirmChannelWatched => (
            "Mark Watched"@,
            "Mark all videos in \""@ + selected_channel_name(app) + "\" as watched?"@,
            "y:Yes  n:No"@,
        ),
        Mode::ConfirmAddChannel => (
            "Subscribe"@,
            "Subscribe to \""@ + selected_result_channel(app) + "\"?"@,
            "Y:Yes  n:No"@,
        ),
        _ => ("Confirm"@, Seq::empty(), ""@),
    }
}

/// The box of the question that is open: its words, an empty line, and
/// the keys that answer it.
pub open spec fn confirm_box(app: AppView) -> OverlayView {
    let (title, words, keys) = question(app);
    OverlayView {
        title,
        lines: seq![
            plain(words, Shade::LightGray),
            plain(Seq::empty(), Shade::Plain),
            plain(keys, Shade::Gray),
        ],
    }
}

fn quoted(before: &str, name: &str, after: &str) -> (r: String)
    ensures
        r@ == before@ + name@ + after@,
{
    let mut out: Vec<char> = Vec::new();
    append_str(&mut out, before);
    append_str(&mut out, name);
    append_str(&mut out, after);
    from_chars(&out)
}

fn counted_question(before: &str, count: usize, after: &str) -> (r: String)
    ensures
        r@ == before@ + decimal(count as nat) + after@,
{
    let mut out: Vec<char> = Vec::new();
    append_str(&mut out, before);
    append_decimal(&mut out, count as u128);
    append_str(&mut out, after);
    from_chars(&out)
}

fn name_of_selected_channel(app: &App) -> (r: String)
    ensures
        r@ == selected_channel_name(app@),
{
    let filtered = app.filtered_subscriptions();
    assert(crate::app::subscription_ref_views(filtered@).len() == filtered@.len());
    if app.channel_selected < filtered.len() {
        assert(crate::app::subscription_ref_views(filtered@)[app.channel_selected as int]
            == filtered@[app.channel_selected as int]@);
        filtered[app.channel_selected].name.clone()
    } else {
        "?".to_owned()
    }
}

fn channel_of_selected_result(app: &App) -> (r: String)
    ensures
        r@ == selected_result_channel(app@),
{
    let filtered = app.filtered_videos();
    assert(video_ref_views(filtered@).len() == filtered@.len());
    if app.search_selected < filtered.len() {
        assert(video_ref_views(filtered@)[app.search_selected as int]
            == filtered@[app.search_selected as int]@);
        match &filtered[app.search_selected].channel_name {
            Some(n) => n.clone(),
            None => "?".to_owned(),
        }
    } else {
        "?".to_owned()
    }
}

/// The box of the question that is open.
pub fn confirm_overlay(app: &App) -> (r: Overlay)
    ensures
        r@ == confirm_box(app@),
{
    let (title, words, keys): (&str, String, &str) = match app.mode {
        Mode::ConfirmDelete => (
            "Delete Channel",
            quoted("Delete \"", name_of_selected_channel(app).as_str(), "\"?"),
            "y:Yes  n:No",
        ),
        Mode::ConfirmPrime => {
            let name = match &app.pending_channel {
                Some(c) => c.name.clone(),
                None => "?".to_owned(),
            };
            (
                "Prime Channel",
                quoted("Fetch historical videos for \"", name.as_str(), "\"?"),
                "Y:Yes  n:No",
            )
        },
        Mode::ConfirmPrimeAll => {
            assert(app@.subscriptions.len() == app.subscriptions.len());
            (
                "Prime All",
                counted_question(
                    "Prime historical videos for all ",
                    app.subscriptions.len(),
                    " channels?",
                ),
                "Y:Yes  n:No",
            )
        },
        Mode::ConfirmMarkAll => (
            "Mark All Read",
            "Mark all channels as read?".to_owned(),
            "y:Yes  n:No",
        ),
        Mode::ConfirmMarkAllVideos => {
            assert(app@.videos.len() == app.videos.len());
            (
                "Mark All Watched",
                counted_question("Mark all ", app.videos.len(), " videos as watched?"),
                "y:Yes  n:No",
            )
        },
        Mode::ConfirmChannelWatched => (
            "Mark Watched",
            quoted(
                "Mark all videos in \"",
                name_of_selected_channel(app).as_str(),
                "\" as watched?",
            ),
            "y:Yes  n:No",
        ),
        Mode::ConfirmAddChannel => (
            "Subscribe",
            quoted("Subscribe to \"", channel_of_selected_result(app).as_str(), "\"?"),
            "Y:Yes  n:No",
        ),
        _ => ("Confirm", String::new(), ""),
    };
    let mut lines: Vec<Piece> = Vec::new();
    assert(piece_views(lines@) =~= Seq::empty());
    push_piece(&mut lines, words, Shade::LightGray, false);
    push_piece(&mut lines, String::new(), Shade::Plain, false);
    push_plain(&mut lines, keys, Shade::Gray);
    let r = Overlay { title: title.to_owned(), lines };
    assert(r@.lines =~= confirm_box(app@).lines);
    r
}

/// The words of a description as they are shown: the longest beginning
/// that takes no more than 500 bytes, and three dots behind it where
/// something was cut off.
pub open spec fn shortened(description: Seq<char>) -> Seq<char> {
    let t = truncated(description, 500);
    if t.len() < description.len() {
        t + "..."@
    } else {
        description
    }
}

/// The given lines, each set in lines of `width` columns at most; an empty
/// line stays one.
pub open spec fn wrapped_lines(lines: Seq<Seq<char>>, width: usize) -> Seq<PieceView>
    decreases lines.len(),
{
    if lines.len() == 0 {
        Seq::empty()
    } else {
        wrapped_lines(lines.drop_last(), width) + if lines.last().len() == 0 {
            seq![plain(Seq::empty(), Shade::Plain)]
        } else {
            wrapped(lines.last(), width).map_values(|l: Seq<char>| plain(l, Shade::LightGray))
        }
    }
}

/// The lines of the description panel, for a panel whose inside is
/// `inner_width` columns wide: a notice while the description loads; else
/// title, channel, and the words of the description, wrapped.
pub open spec fn description_lines(app: AppView, inner_width: usize) -> Seq<PieceView> {
    if app.loading_description {
        seq![plain("Loading description..."@, Shade::Gray)]
    } else {
        match app.description {
            Some(d) => seq![
                strong(d.title, Shade::Cyan),
                plain(d.channel_name, Shade::Yellow),
                plain(Seq::empty(), Shade::Plain),
            ] + wrapped_lines(lines_of(shortened(d.description)), inner_width) + seq![
                plain(Seq::empty(), Shade::Plain),
                plain("Press (i) to close"@, Shade::Gray),
            ],
            None => seq![plain(Seq::empty(), Shade::Plain)],
        }
    }
}

/// The lines of the description panel (see [`description_lines`]).
pub fn description_panel(app: &App, inner_width: usize) -> (r: Vec<Piece>)
    ensures
        piece_views(r@) == description_lines(app@, inner_width),
{
    let mut out: Vec<Piece> = Vec::new();
    assert(piece_views(out@) =~= Seq::empty());
    if app.loading_description {
        push_plain(&mut out, "Loading description...", Shade::Gray);
        assert(piece_views(out@) =~= description_lines(app@, inner_width));
        return out;
    }
    let desc = match &app.description {
        Some(d) => d,
        None => {
            push_piece(&mut out, String::new(), Shade::Plain, false);
            assert(piece_views(out@) =~= description_lines(app@, inner_width));
            return out;
        },
    };
    push_piece(&mut out, desc.title.clone(), Shade::Cyan, true);
    push_plain(&mut out, desc.channel_name.as_str(), Shade::Yellow);
    push_piece(&mut out, String::new(), Shade::Plain, false);
    let ghost head = piece_views(out@);
    assert(head =~= seq![
        strong(desc@.title, Shade::Cyan),
        plain(desc@.channel_name, Shade::Yellow),
        plain(Seq::empty(), Shade::Plain),
    ]);
    let chars = to_chars(desc.description.as_str());
    let mut text = truncate(&chars, 500);
    let ghost kept = text@;
    assert(kept == truncated(desc@.description, 500));
    if text.len() < chars.len() {
        append_str(&mut text, "...");
        assert(text@ == kept + "..."@);
    }
    assert(text@ == shortened(desc@.description));
    let all = lines(&text);
    let ghost texts = all@.map_values(|l: Vec<char>| l@);
    let mut i: usize = 0;
    assert(texts.take(0) =~= Seq::empty());
    assert(head + wrapped_lines(texts.take(0), inner_width) =~= head);
    while i < all.len()
        invariant
            i <= all.len(),
            texts == all@.map_values(|l: Vec<char>| l@),
            piece_views(out@) == head + wrapped_lines(texts.take(i as int), inner_width),
        decreases all.len() - i,
    {
        assert(texts.take(i + 1).drop_last() =~= texts.take(i as int));
        assert(texts.take(i + 1).last() == all@[i as int]@);
        let ghost before = piece_views(out@);
        if all[i].len() == 0 {
            push_piece(&mut out, String::new(), Shade::Plain, false);
            assert(piece_views(out@) =~= head + wrapped_lines(texts.take(i + 1), inner_width));
        } else {
            let line = from_chars(&all[i]);
            let parts = word_wrap(line.as_str(), inner_width);
            let ghost part_texts = crate::layout::text_views(parts@);
            let mut k: usize = 0;
            assert(part_texts.take(0) =~= Seq::empty());
            assert(before + part_texts.take(0).map_values(|l: Seq<char>| plain(l, Shade::LightGray))
                =~= before);
            while k < parts.len()
                invariant
                    k <= parts.len(),
                    part_texts == crate::layout::text_views(parts@),
                    piece_views(out@) == before + part_texts.take(k as int).map_values(
                        |l: Seq<char>| plain(l, Shade::LightGray),
                    ),
                decreases parts.len() - k,
            {
                let ghost so_far = piece_views(out@);
                push_plain(&mut out, parts[k].as_str(), Shade::LightGray);
                assert(piece_views(out@) =~= before + part_texts.take(k + 1).map_values(
                    |l: Seq<char>| plain(l, Shade::LightGray),
                ));
                k += 1;
            }
            assert(part_texts.take(parts.len() as int) =~= part_texts);
            assert(piece_views(out@) =~= head + wrapped_lines(texts.take(i + 1), inner_width));
        }
        i += 1;
    }
    assert(texts.take(all.len() as int) =~= texts);
    let ghost body = piece_views(out@);
    push_piece(&mut out, String::new(), Shade::Plain, false);
    push_plain(&mut out, "Press (i) to close", Shade::Gray);
    assert(piece_views(out@) =~= body + seq![
        plain(Seq::empty(), Shade::Plain),
        plain("Press (i) to close"@, Shade::Gray),
    ]);
    out
}

/// Where a box stands on the screen: its left column, its top row, its
/// width and its height.
#[derive(Debug, Clone, Copy, PartialEq, Eq, Structural)]
pub struct Bounds {
    pub x: u16,
    pub y: u16,
    pub width: u16,
    pub height: u16,
}

/// Where a box of the given size stands on a screen of the given size: in
/// the middle of its width, a third down, and no wider than the screen
/// without four columns.
pub fn modal_bounds(screen_width: u16, screen_height: u16, width: u16, height: u16) -> (r: Bounds)
    ensures
        r.width == (if width <= minus(screen_width as int, 4) {
            width as int
        } else {
            minus(screen_width as int, 4)
        }),
        r.x == (screen_width - r.width) / 2,
        r.y == screen_height / 3,
        r.height == height,
{
    let room = if screen_width >= 4 {
        screen_width - 4
    } else {
        0
    };
    let w = if width <= room {
        width
    } else {
        room
    };
    Bounds { x: (screen_width - w) / 2, y: screen_height / 3, width: w, height }
}

/// Where the description panel stands on a screen of the given size: in
/// the middle, 80 columns wide at most and no wider than the screen without
/// six columns, two thirds of the screen high and 10 rows at least.
pub fn description_bounds(screen_width: u16, screen_height: u16) -> (r: Bounds)
    ensures
        r.width == (if 80 <= minus(screen_width as int, 6) {
            80
        } else {
            minus(screen_width as int, 6)
        }),
        r.height == (if screen_height * 2 / 3 >= 10 {
            screen_height * 2 / 3
        } else {
            10
        }),
        r.x == (screen_width - r.width) / 2,
        r.y == minus(screen_height as int, r.height as int) / 2,
{
    let room = if screen_width >= 6 {
        screen_width - 6
    } else {
        0
    };
    let width = if 80 <= room {
        80
    } else {
        room
    };
    let two_thirds = ((screen_height as u32) * 2 / 3) as u16;
    let height = if two_thirds >= 10 {
        two_thirds
    } else {
        10
    };
    Bounds {
        x: (screen_width - width) / 2,
        y: if screen_height >= height {
            (screen_height - height) / 2
        } else {
            0
        },
        width,
        height,
    }
}

} // verus!
