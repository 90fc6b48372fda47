//! Choosing a media player and the arguments it is started with.
//!
//! Starting the player is not done here.

use crate::pattern::{capture, regex_group};
use crate::text::str_eq;
use vstd::prelude::*;

verus! {

/// The players that are known, in the order in which they are preferred.
pub open spec fn known_players() -> Seq<Seq<char>> {
    seq!["mpv"@, "iina"@, "vlc"@]
}

/// The characters of each of the given literals.
pub open spec fn literal_views(s: Seq<&'static str>) -> Seq<Seq<char>> {
    s.map_values(|x: &'static str| x@)
}

/// The players that are known, in the order in which they are preferred.
pub fn supported_players() -> (r: Vec<&'static str>)
    ensures
        literal_views(r@) == known_players(),
{
    let mut r: Vec<&'static str> = Vec::new();
    r.push("mpv");
    r.push("iina");
    r.push("vlc");
    assert(literal_views(r@) =~= known_players());
    r
}

/// The arguments that a player is always started with; none for a
/// player that is not known.
pub open spec fn fixed_args(player: Seq<char>) -> Seq<Seq<char>> {
    if player == "mpv"@ {
        seq!["--force-window=immediate"@, "--keep-open=no"@]
    } else if player == "iina"@ {
        seq!["--no-stdin"@]
    } else if player == "vlc"@ {
        seq!["--no-video-title-show"@]
    } else {
        Seq::empty()
    }
}

/// The arguments that a player is always started with.
pub fn player_args(player: &str) -> (r: Vec<&'static str>)
    ensures
        literal_views(r@) == fixed_args(player@),
{
    let mut r: Vec<&'static str> = Vec::new();
    if str_eq(player, "mpv") {
        r.push("--force-window=immediate");
        r.push("--keep-open=no");
    } else if str_eq(player, "iina") {
        r.push("--no-stdin");
    } else if str_eq(player, "vlc") {
        r.push("--no-video-title-show");
    }
    assert(literal_views(r@) =~= fixed_args(player@));
    r
}

/// The argument that keeps a player to 1080 lines, for the players that
/// take one, where `max_resolution` is `1080`.
pub open spec fn format_arg(player: Seq<char>, max_resolution: Seq<char>) -> Option<Seq<char>> {
    if max_resolution != "1080"@ {
        None
    } else if player == "mpv"@ {
        Some("--ytdl-format=bestvideo[height<=1080]+bestaudio/best[height<=1080]/best"@)
    } else if player == "iina"@ {
        Some("--mpv-ytdl-format=bestvideo[height<=1080]+bestaudio/best[height<=1080]/best"@)
    } else {
        None
    }
}

/// All the arguments that a player is started with to play `video_url`:
/// its fixed arguments, the format argument if there is one, and the address.
pub open spec fn command_line(player: Seq<char>, max_resolution: Seq<char>, video_url: Seq<char>) -> Seq<
    Seq<char>,
> {
    let fixed = fixed_args(player);
    match format_arg(player, max_resolution) {
        Some(arg) => fixed.push(arg).push(video_url),
        None => fixed.push(video_url),
    }
}

/// All the arguments that a player is started with to play `video_url`.
pub fn command_args(player: &str, max_resolution: &str, video_url: &str) -> (r: Vec<String>)
    ensures
        r@.map_values(|s: String| s@) == command_line(player@, max_resolution@, video_url@),
{
    let fixed = player_args(player);
    let mut r: Vec<String> = Vec::new();
    let mut i: usize = 0;
    while i < fixed.len()
        invariant
            i <= fixed.len(),
            r@.map_values(|s: String| s@) == literal_views(fixed@).take(i as int),
        decreases fixed.len() - i,
    {
        let ghost before = r@.map_values(|s: String| s@);
        r.push(fixed[i].to_owned());
        assert(r@.map_values(|s: String| s@) =~= before.push(fixed@[i as int]@));
        assert(r@.map_values(|s: String| s@) =~= literal_views(fixed@).take(i + 1));
        i += 1;
    }
    assert(literal_views(fixed@).take(fixed.len() as int) =~= literal_views(fixed@));
    let ghost before = r@.map_values(|s: String| s@);
    if str_eq(max_resolution, "1080") {
        if str_eq(player, "mpv") {
            r.push(
                "--ytdl-format=bestvideo[height<=1080]+bestaudio/best[height<=1080]/best".to_owned(),
            );
        } else if str_eq(player, "iina") {
            r.push(
                "--mpv-ytdl-format=bestvideo[height<=1080]+bestaudio/best[height<=1080]/best".to_owned(),
            );
        }
    }
    let ghost middle = r@.map_values(|s: String| s@);
    assert(middle =~= match format_arg(player@, max_resolution@) {
        Some(arg) => before.push(arg),
        None => before,
    });
    r.push(video_url.to_owned());
    assert(r@.map_values(|s: String| s@) =~= middle.push(video_url@));
    r
}

/// The pattern of the address of a video, by its page or in short form.
pub open spec fn watch_pattern() -> Seq<char> {
    r"(?:youtube\.com/watch\?v=|youtu\.be/)([a-zA-Z0-9_\-]{11})"@
}

/// The pattern of the address of an embedded video.
pub open spec fn embed_pattern() -> Seq<char> {
    r"youtube\.com/embed/([a-zA-Z0-9_\-]{11})"@
}

/// The id of the video that an address is of: what the first group of
/// [`watch_pattern`] holds, or else that of [`embed_pattern`].
pub open spec fn video_id_in(url: Seq<char>) -> Option<Seq<char>> {
    match regex_group(watch_pattern(), url, 1) {
        Some(id) => Some(id),
        None => regex_group(embed_pattern(), url, 1),
    }
}

/// The id of the video that an address is of.
pub fn extract_video_id(url: &str) -> (r: Option<String>)
    ensures
        match r {
            Some(id) => video_id_in(url@) == Some(id@),
            None => video_id_in(url@) is None,
        },
{
    match capture(r"(?:youtube\.com/watch\?v=|youtu\.be/)([a-zA-Z0-9_\-]{11})", url, 1) {
        Some(id) => Some(id),
        None => capture(r"youtube\.com/embed/([a-zA-Z0-9_\-]{11})", url, 1),
    }
}

/// The first of the known players that is there; `available` says of each
/// known player, in order, whether it is.
pub fn first_available(available: &Vec<bool>) -> (r: Option<&'static str>)
    ensures
        match r {
            Some(p) => exists|i: int|
                0 <= i < 3 && i < available.len() && #[trigger] available@[i] && p@
                    == known_players()[i] && forall|k: int| 0 <= k < i ==> !available@[k],
            None => forall|i: int| 0 <= i < 3 && i < available.len() ==> !available@[i],
        },
{
    let players = supported_players();
    assert(players@.len() == literal_views(players@).len());
    let mut i: usize = 0;
    while i < players.len() && i < available.len()
        invariant
            i <= players.len() == 3,
            literal_views(players@) == known_players(),
            forall|k: int| 0 <= k < i ==> !available@[k],
        decreases players.len() - i,
    {
        if available[i] {
            assert(literal_views(players@)[i as int] == players@[i as int]@);
            return Some(players[i]);
        }
        i += 1;
    }
    None
}

/// How playing a video ended.
pub struct PlayResult {
    pub success: bool,
    pub player: String,
    pub error: Option<String>,
}

/// How the start of a player ended.
pub enum Launch {
    /// No player is there.
    NoPlayer,
    /// The player was started.
    Started,
    /// The player could not be started, but the system opened the address.
    OpenedElsewhere,
    /// Neither the player nor the system could open the address; the
    /// player's reason in words.
    Failed(String),
}

/// What a [`PlayResult`] holds, as plain values.
pub struct PlayResultView {
    pub success: bool,
    pub player: Seq<char>,
    pub error: Option<Seq<char>>,
}

impl View for PlayResult {
    type V = PlayResultView;

    open spec fn view(&self) -> PlayResultView {
        PlayResultView {
            success: self.success,
            player: self.player@,
            error: match self.error {
                Some(e) => Some(e@),
                None => None,
            },
        }
    }
}

/// What is reported of playing a video with `player`.
pub open spec fn play_outcome(player: Seq<char>, launch: Launch) -> PlayResultView {
    match launch {
        Launch::NoPlayer => PlayResultView {
            success: false,
            player: Seq::empty(),
            error: Some("No video player found. Please install mpv, iina, or vlc."@),
        },
        Launch::Started => PlayResultView { success: true, player, error: None },
        Launch::OpenedElsewhere => PlayResultView { success: true, player: "browser"@, error: None },
        Launch::Failed(reason) => PlayResultView {
            success: false,
            player: Seq::empty(),
            error: Some(reason@),
        },
    }
}

/// What is reported of playing a video with `player`.
pub fn play_result(player: &str, launch: Launch) -> (r: PlayResult)
    ensures
        r@ == play_outcome(player@, launch),
{
    match launch {
        Launch::NoPlayer => PlayResult {
            success: false,
            player: String::new(),
            error: Some("No video player found. Please install mpv, iina, or vlc.".to_owned()),
        },
        Launch::Started => PlayResult { success: true, player: player.to_owned(), error: None },
        Launch::OpenedElsewhere => PlayResult {
            success: true,
            player: "browser".to_owned(),
            error: None,
        },
        Launch::Failed(reason) => PlayResult {
            success: false,
            player: String::new(),
            error: Some(reason),
        },
    }
}

} // verus!
