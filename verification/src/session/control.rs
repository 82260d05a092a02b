//! The session controller: every screen's key handling, the round lifecycle
//! and the async results, as a state machine. The outside work it decides on
//! (audio, network, saving the profile) goes back to the frontend as a list
//! of effects, which the frontend performs in order.

use std::sync::Arc;
use std::time::{Duration, Instant};

use vstd::prelude::*;

use crate::config::Category;
use crate::deezer::Track;
use crate::game::{awarded, GameMode, Round};
use crate::lobby::{NewGame, RoundResult, RoundStart};
use crate::profile::{can_record, profile_recorded, Profile, RoundRecord};
use crate::session::{number_text, signed_decimal, LobbyState, PostAction, Screen};
use crate::supa::Party;
use crate::text::{chars_of, string_of, trim, trimmed};

verus! {

/// The most characters a display name may have.
pub const NAME_MAX: usize = 20;

/// Search queries shorter than this many characters (once trimmed) are not sent.
pub const MIN_QUERY_LEN: usize = 2;

/// The lead-in before the first round of a run, in seconds.
pub const FIRST_COUNTDOWN_SECS: u32 = 5;

/// The lead-in before every later round, in seconds.
pub const COUNTDOWN_SECS: u32 = 3;

/// How many recent solo songs a new solo round avoids.
pub const RECENT_SONGS: usize = 20;

/// How far one volume key moves the volume, in percent.
pub const VOLUME_STEP: u32 = 10;

/// An event on the lobby channel, sent or received.
pub enum LobbyEvent {
    /// Host → all: a fresh game starts.
    NewGame(NewGame),
    /// Host → all: a round's song.
    RoundStart(RoundStart),
    /// Host → all: a game is running (for late joiners), with its round count.
    GameState { round: u32, rounds: u32 },
    /// Player → all: one player's result for a round.
    Result(RoundResult),
    /// Host → all: the game is over.
    GameOver,
}

/// Outside work the frontend performs for the session, in order.
pub enum Effect {
    /// Stop whatever is playing.
    StopAudio,
    /// Play the preview from its start up to `clip`, under the `mode` effect.
    PlayClip { preview: Arc<Vec<u8>>, clip: Duration, mode: GameMode },
    /// Let the clip that is playing run on to `clip` without a restart.
    ExtendClip(Duration),
    /// Play the whole preview (the reveal).
    PlayFull(Arc<Vec<u8>>),
    /// Set the output volume, in percent.
    SetVolume(u32),
    /// Write the profile (with the session's volume and default effect) to disk.
    SaveProfile,
    /// Load a round from `category`, drawing a song whose key is not among
    /// `avoid` where there is one; answer with `Msg::RoundReady` or `Msg::Error`.
    LoadRound { category: Category, avoid: Vec<String> },
    /// Search for tracks; answer with `Msg::Search` of this generation.
    Search { generation: u64, query: String },
    /// List the public parties; answer with `Msg::PublicParties` or `Msg::Error`.
    RefreshParties,
    /// Advertise and connect a new lobby; answer with `Msg::LobbyReady` or `Msg::Error`.
    HostLobby {
        public: bool,
        max_players: u32,
        host_name: String,
        rounds: u32,
        mode: GameMode,
        category: Category,
    },
    /// Check a lobby code and connect to it; answer with `Msg::LobbyReady` or `Msg::Error`.
    JoinLobby { code: String, name: String },
    /// Load the category's playable songs; answer with `Msg::LobbyPool`.
    FetchLobbyPool(Category),
    /// Resolve a round's song; answer with `Msg::LobbyRoundReady` or `Msg::Error`.
    LoadLobbyRound { round: u32, track_id: i64 },
    /// Send an event on the lobby channel.
    Broadcast(LobbyEvent),
    /// Publish this player's presence on the lobby channel.
    UpdatePresence { name: String, host: bool, spectating: bool },
    /// Update the lobby's advertisement (its title names the category `label`).
    UpdateParty { code: String, public: bool, max_players: u32, label: String },
    /// Remove the lobby's advertisement.
    DeleteParty(String),
    /// Close the lobby channel.
    CloseLobby,
}

/// Calls `Instant::now`.
#[verifier::external_body]
pub(crate) fn now() -> (r: Instant) {
    Instant::now()
}

/// Calls `Instant::elapsed`.
#[verifier::external_body]
pub(crate) fn elapsed(since: &Instant) -> (r: Duration) {
    since.elapsed()
}

/// The whole milliseconds that a duration holds, as `Duration::as_millis`
/// gives them.
pub uninterp spec fn duration_ms(d: Duration) -> u128;

/// Calls `Duration::as_millis`, whose result depends on the duration alone;
/// the contract names that result and says no more of it.
#[verifier::external_body]
pub(crate) fn millis(d: &Duration) -> (r: u128)
    ensures
        r == duration_ms(*d),
{
    d.as_millis()
}

/// Calls `Arc::clone`: another handle to the same value.
#[verifier::external_body]
pub(crate) fn share(a: &Arc<Vec<u8>>) -> (r: Arc<Vec<u8>>)
    ensures
        r == *a,
{
    Arc::clone(a)
}

/// All app state and every state transition, independent of any frontend.
/// A list of one effect.
pub(crate) fn single(e: Effect) -> (r: Vec<Effect>)
    ensures
        r@ == seq![e],
{
    let mut v: Vec<Effect> = Vec::new();
    v.push(e);
    assert(v@ =~= seq![e]);
    v
}

/// What the session was set up with; it never changes.
pub struct Setup {
    /// Clip length per level of a round.
    pub schedule: Vec<Duration>,
    /// The playlist categories that follow the genres on the menu.
    pub playlists: Vec<Category>,
    /// The name a blank display name falls back to.
    pub default_name: String,
    /// Whether online play is available.
    pub online: bool,
    pub audio_available: bool,
}

/// Screen, status line and the app-wide flags.
pub struct Ui {
    pub screen: Screen,
    /// Screen to return to when leaving the profile.
    pub profile_return: Screen,
    /// Highlighted action on the Home screen.
    pub home_index: usize,
    pub should_quit: bool,
    pub status: Option<String>,
    pub status_since: Option<Instant>,
    /// Whether the uninstall confirmation overlay is showing.
    pub confirm_uninstall: bool,
    /// Action to run after the frontend exits.
    pub post_action: Option<PostAction>,
    /// Newer version available, if a background check found one.
    pub update_available: Option<String>,
    /// Screen to return to when leaving the release notes.
    pub notes_return: Screen,
}

/// The player's audio preferences.
pub struct Prefs {
    /// Output volume in percent, 0..=100.
    pub volume: u32,
    /// Selected game mode (audio effect) for solo rounds.
    pub game_mode: GameMode,
}

/// The category menu.
pub struct Menu {
    /// Live category list (fallback genres → live genres once loaded, + playlists).
    pub categories: Vec<Category>,
    pub menu_index: usize,
    /// Type-to-filter text (also accepts a Deezer playlist id/URL).
    pub menu_filter: String,
    /// True while the menu is picking a song pool to host.
    pub host_selecting: bool,
}

/// The round in play and the guess being typed.
pub struct Turn {
    pub round: Option<Round>,
    pub input: String,
    pub suggestions: Vec<Track>,
    pub suggestion_index: usize,
    /// When the current clip started playing.
    pub play_started_at: Option<Instant>,
    pub search_gen: u64,
    /// When the last keystroke queued a search (it is due once typing settles).
    pub pending_search_at: Option<Instant>,
    /// The category of the current/last round, for "play again".
    pub last_category: Option<Category>,
    /// The lead-in before the round's first clip, while it runs.
    pub countdown: Option<Countdown>,
}

/// A running "get ready" lead-in before a round's first clip.
#[derive(Clone, Copy)]
pub struct Countdown {
    /// When it began.
    pub since: Instant,
    /// How many seconds it lasts.
    pub secs: u32,
}

/// Points and counts of this run.
pub struct Tally {
    pub score: u32,
    pub streak: u32,
    pub rounds_played: u32,
    /// When the score last increased.
    pub score_flash_at: Option<Instant>,
    /// When the round ended.
    pub round_end_at: Option<Instant>,
    /// Points awarded for the last round.
    pub last_points: u32,
    /// The song keys of the last solo rounds, oldest first (at most
    /// `RECENT_SONGS`): songs a new solo round avoids.
    pub recent_songs: Vec<String>,
    /// Whether a round of this run has opened yet (later rounds get the
    /// shorter lead-in).
    pub warmed_up: bool,
}

/// The online Challenge screens: identity, joining, browsing and hosting.
pub struct Challenge {
    pub player_name: String,
    pub editing_name: bool,
    pub challenge_index: usize,
    pub join_input: String,
    pub browse: Vec<Party>,
    pub browse_index: usize,
    pub host_category: Option<Category>,
    pub host_public: bool,
    pub host_max: u32,
    /// Number of rounds the host will run.
    pub host_rounds: u32,
    /// Audio effect the host applies to every round.
    pub host_mode: GameMode,
    /// True while the host config edits a running lobby rather than a new one.
    pub editing_lobby: bool,
    /// Whether the in-flight Loading was started from Challenge (for back-routing).
    pub loading_is_challenge: bool,
    /// Host: awaiting confirmation to skip ahead while players still guess.
    pub confirm_skip_round: bool,
}

/// All app state and every state transition, independent of any frontend.
pub struct Session {
    pub setup: Setup,
    /// Persistent local player profile (identity + lifetime stats + history).
    pub profile: Profile,
    pub ui: Ui,
    pub prefs: Prefs,
    pub menu: Menu,
    pub turn: Turn,
    pub tally: Tally,
    pub challenge: Challenge,
    /// The live lobby, when in one.
    pub lobby: Option<LobbyState>,
}

/// `fx` is loading a round from `c` that avoids the songs `recent`.
pub open spec fn loads(fx: Seq<Effect>, c: Category, recent: Seq<String>) -> bool {
    fx.len() == 1 && (fx[0] matches Effect::LoadRound { category, avoid } && category == c
        && avoid@ == recent)
}

/// `b` has `a`'s round and turn: the same round, input, suggestions and
/// pending search.
pub open spec fn keeps_turn(a: Session, b: Session) -> bool {
    &&& b.turn.round == a.turn.round
    &&& b.turn.input == a.turn.input
    &&& b.turn.suggestions == a.turn.suggestions
    &&& b.turn.suggestion_index == a.turn.suggestion_index
    &&& b.turn.pending_search_at == a.turn.pending_search_at
}

/// The first `n` characters of `s` (all of them when it is shorter).
pub open spec fn first_chars(s: Seq<char>, n: nat) -> Seq<char> {
    if s.len() <= n {
        s
    } else {
        s.take(n as int)
    }
}

/// The effect in force: the host's in a lobby, else the player's default.
pub open spec fn active_mode(s: Session) -> GameMode {
    match s.lobby {
        Some(l) => l.mode,
        None => s.prefs.game_mode,
    }
}

/// `b` is `a` with a status message `text` shown (since an unknown instant).
#[verifier::opaque]
pub open spec fn with_status(a: Session, b: Session, text: Seq<char>) -> bool {
    &&& b == (Session {
        ui: Ui { status: b.ui.status, status_since: b.ui.status_since, ..a.ui },
        ..a
    })
    &&& b.ui.status matches Some(t) && t@ == text
    &&& b.ui.status_since is Some
}

/// `b` is `a` with the current turn reset: no input, no suggestions, no
/// search pending.
#[verifier::opaque]
pub open spec fn with_turn_reset(a: Session, b: Session) -> bool {
    &&& b == (Session {
        turn: Turn {
            input: b.turn.input,
            suggestions: b.turn.suggestions,
            suggestion_index: 0,
            pending_search_at: None,
            ..a.turn
        },
        ..a
    })
    &&& b.turn.input@.len() == 0
    &&& b.turn.suggestions@.len() == 0
}

/// `b` is `a` with default effect `m`.
#[verifier::opaque]
pub open spec fn mode_set(a: Session, b: Session, m: GameMode) -> bool {
    b == (Session { prefs: Prefs { game_mode: m, ..a.prefs }, ..a })
}

/// `b` is `a` showing `screen`.
#[verifier::opaque]
pub open spec fn screen_set(a: Session, b: Session, screen: Screen) -> bool {
    b == (Session { ui: Ui { screen, ..a.ui }, ..a })
}

/// `b` is `a` asked to quit.
#[verifier::opaque]
pub open spec fn quit_set(a: Session, b: Session) -> bool {
    b == (Session { ui: Ui { should_quit: true, ..a.ui }, ..a })
}

/// `b` is `a` with the profile screen open, returning to where `a` was.
#[verifier::opaque]
pub open spec fn profile_opened(a: Session, b: Session) -> bool {
    b == (Session {
        ui: Ui {
            screen: Screen::Profile,
            profile_return: if a.ui.screen != Screen::Profile {
                a.ui.screen
            } else {
                a.ui.profile_return
            },
            ..a.ui
        },
        ..a
    })
}

/// `b` is `a` with the category menu open, unfiltered: to play solo, or to
/// pick a lobby's song pool (`hosting`).
#[verifier::opaque]
pub open spec fn menu_opened(a: Session, b: Session, hosting: bool) -> bool {
    &&& b == (Session {
        menu: Menu {
            host_selecting: hosting,
            menu_filter: b.menu.menu_filter,
            menu_index: 0,
            ..a.menu
        },
        ui: Ui { screen: Screen::Menu, ..a.ui },
        ..a
    })
    &&& b.menu.menu_filter@.len() == 0
}

/// `b` is `a` with the Challenge menu open, or with a status saying online
/// play is unavailable.
#[verifier::opaque]
pub open spec fn challenge_opened(a: Session, b: Session) -> bool {
    if a.setup.online {
        b == (Session {
            challenge: Challenge { challenge_index: 0, editing_name: false, ..a.challenge },
            ui: Ui { screen: Screen::ChallengeMenu, ..a.ui },
            ..a
        })
    } else {
        with_status(a, b, "Online play is unavailable."@)
    }
}

/// The current clip, as the effect that plays it (none without a round).
pub open spec fn clip_of(s: Session) -> Seq<Effect> {
    match s.turn.round {
        Some(r) => seq![
            Effect::PlayClip {
                preview: r.preview,
                clip: r.schedule_view()[r.level as int],
                mode: active_mode(s),
            },
        ],
        None => Seq::empty(),
    }
}

/// `b` is `a` after (re)starting the clip: the start instant is new when
/// there is a round.
#[verifier::opaque]
pub open spec fn with_clip_started(a: Session, b: Session) -> bool {
    &&& b == (Session {
        turn: Turn { play_started_at: b.turn.play_started_at, ..a.turn },
        ..a
    })
    &&& a.turn.round is Some ==> b.turn.play_started_at is Some
    &&& a.turn.round is None ==> b.turn.play_started_at == a.turn.play_started_at
}

/// `b` is `a` with the lead-in before its round's first clip begun (no clip
/// playing yet): the long one for the run's first round, else the short one.
#[verifier::opaque]
pub open spec fn with_countdown_started(a: Session, b: Session) -> bool {
    &&& b == (Session {
        turn: Turn { countdown: b.turn.countdown, play_started_at: None, ..a.turn },
        tally: Tally { warmed_up: true, ..a.tally },
        ..a
    })
    &&& b.turn.countdown matches Some(c) && c.secs == if a.tally.warmed_up {
        COUNTDOWN_SECS
    } else {
        FIRST_COUNTDOWN_SECS
    }
}

/// `b` is `a` after an edit of the guess text: back to the top suggestion; a
/// search is pending when the trimmed text is long enough, else there are no
/// suggestions and nothing pending.
#[verifier::opaque]
pub open spec fn with_search_queued(a: Session, b: Session) -> bool {
    if trimmed(a.turn.input@).len() < MIN_QUERY_LEN {
        &&& b == (Session {
            turn: Turn {
                suggestion_index: 0,
                suggestions: b.turn.suggestions,
                pending_search_at: None,
                ..a.turn
            },
            ..a
        })
        &&& b.turn.suggestions@.len() == 0
    } else {
        &&& b == (Session {
            turn: Turn { suggestion_index: 0, pending_search_at: b.turn.pending_search_at, ..a.turn },
            ..a
        })
        &&& b.turn.pending_search_at is Some
    }
}

/// The next search generation (wrapping around after the largest).
pub open spec fn next_generation(g: u64) -> u64 {
    if g == u64::MAX {
        0
    } else {
        (g + 1) as u64
    }
}

/// `b` is `a` loading a round from `c`: remembered for "play again", no
/// round, the turn reset, on the Loading screen (not from Challenge).
#[verifier::opaque]
pub open spec fn loading_round(a: Session, b: Session, c: Category) -> bool {
    &&& b == (Session {
        turn: Turn {
            last_category: Some(c),
            round: None,
            input: b.turn.input,
            suggestions: b.turn.suggestions,
            suggestion_index: 0,
            pending_search_at: None,
            ..a.turn
        },
        challenge: Challenge { loading_is_challenge: false, ..a.challenge },
        ui: Ui { screen: Screen::Loading, ..a.ui },
        ..a
    })
    &&& b.turn.input@.len() == 0
    &&& b.turn.suggestions@.len() == 0
}

/// The volume one step up or down, within 0..=100%.
pub open spec fn stepped_volume(v: u32, up: bool) -> u32 {
    if up {
        if v + VOLUME_STEP >= 100 {
            100
        } else {
            (v + VOLUME_STEP) as u32
        }
    } else {
        if v <= VOLUME_STEP {
            0
        } else {
            (v - VOLUME_STEP) as u32
        }
    }
}

/// `b` is `a` after a volume key: stepped, applied, saved and announced.
#[verifier::opaque]
pub open spec fn volume_stepped(a: Session, b: Session, up: bool, fx: Seq<Effect>) -> bool {
    let v = stepped_volume(a.prefs.volume, up);
    &&& fx == seq![Effect::SetVolume(v), Effect::SaveProfile]
    &&& with_status(
        Session { prefs: Prefs { volume: v, ..a.prefs }, ..a },
        b,
        "Volume "@ + signed_decimal(v as int) + "%"@,
    )
}

/// The profile record of a finished round: its song, the category, whether
/// it was won, the clips used (the guess number when won, every clip when
/// not) and the points.
pub open spec fn round_record(r: Round, won: bool, points: u32, category: String) -> RoundRecord {
    RoundRecord {
        title: r.answer.title,
        artist: r.answer.artist.name,
        category,
        won,
        clips: if won {
            (r.level + 1) as u32
        } else {
            r.levels() as u32
        },
        points,
    }
}

/// `b` is profile `a` with `rec` folded in, or unchanged when a counter
/// would overflow.
pub open spec fn profile_after(a: Profile, b: Profile, rec: RoundRecord) -> bool {
    if can_record(a.stats, rec) {
        profile_recorded(a, b, rec)
    } else {
        b == a
    }
}

/// The category a solo round is recorded under: the last category's name,
/// else "Solo".
pub open spec fn category_name(s: Session) -> Seq<char> {
    match s.turn.last_category {
        Some(c) => c.name@,
        None => "Solo"@,
    }
}

/// The points a round ending in `s` earns (none without a round).
pub open spec fn round_points(s: Session) -> u32 {
    match s.turn.round {
        Some(r) => awarded(r),
        None => 0,
    }
}

/// `t2` is tally `t` after a round worth `points`, won or not: one more
/// round, the points banked (and flashed when there are any), the streak
/// grown on a win and reset otherwise.
pub open spec fn banked(t: Tally, t2: Tally, won: bool, points: u32) -> bool {
    &&& t2 == (Tally {
        rounds_played: t.rounds_played.saturating_add(1),
        round_end_at: t2.round_end_at,
        score: t.score.saturating_add(points),
        last_points: points,
        score_flash_at: t2.score_flash_at,
        streak: if won {
            t.streak.saturating_add(1)
        } else {
            0
        },
        ..t
    })
    &&& t2.round_end_at is Some
    &&& (points > 0 ==> t2.score_flash_at is Some)
    &&& (points == 0 ==> t2.score_flash_at == t.score_flash_at)
}

/// `b` is `a` after its solo round ended (won or not), with effects `fx`:
/// the reveal plays, the points are banked, the round goes into the profile
/// (then saved), and the result screen shows.
#[verifier::opaque]
pub open spec fn finished_solo(a: Session, b: Session, won: bool, fx: Seq<Effect>) -> bool {
    let points = round_points(a);
    &&& b == (Session {
        tally: b.tally,
        profile: b.profile,
        ui: Ui { screen: Screen::RoundEnd, ..a.ui },
        ..a
    })
    &&& banked(a.tally, b.tally, won, points)
    &&& match a.turn.round {
        None => b.profile == a.profile && fx.len() == 0,
        Some(r) => {
            &&& fx == seq![Effect::PlayFull(r.preview), Effect::SaveProfile]
            &&& exists|c: String|
                c@ == category_name(a) && #[trigger] profile_after(
                    a.profile,
                    b.profile,
                    round_record(r, won, points, c),
                )
        },
    }
}

impl Session {
    /// The session is well formed: a schedule of at least one clip (and one
    /// whose length fits a `u32`), a volume of at most 100%, a well-formed
    /// round of that length, and well-formed lobby standings.
    pub open spec fn wf(&self) -> bool {
        &&& self.setup.schedule@.len() > 0
        &&& self.setup.schedule@.len() <= u32::MAX
        &&& self.prefs.volume <= 100
        &&& (self.turn.round matches Some(r) ==> r.wf() && r.levels() <= u32::MAX)
        &&& (self.lobby matches Some(l) ==> l.game.standings.wf())
    }

    /// A session on the Home screen. `mode_tag` is the saved default effect
    /// (empty for none); the volume is capped at 100%.
    pub fn new(
        schedule: Vec<Duration>,
        categories: Vec<Category>,
        playlists: Vec<Category>,
        profile: Profile,
        default_name: String,
        volume: u32,
        mode_tag: &str,
        audio_available: bool,
        online: bool,
        whats_new: bool,
    ) -> (r: Session)
        requires
            schedule@.len() > 0,
            schedule@.len() <= u32::MAX,
        ensures
            r.wf(),
            r.setup.schedule == schedule,
            r.setup.playlists == playlists,
            r.setup.default_name == default_name,
            r.setup.online == online,
            r.setup.audio_available == audio_available,
            r.profile == profile,
            r.ui.screen == (if whats_new {
                Screen::Whatsnew
            } else {
                Screen::Home
            }),
            r.ui.notes_return == Screen::Home,
            r.ui.profile_return == Screen::Home,
            r.ui.home_index == 0,
            !r.ui.should_quit,
            r.ui.status is None,
            r.ui.status_since is None,
            !r.ui.confirm_uninstall,
            r.ui.post_action is None,
            r.ui.update_available is None,
            r.prefs.volume == (if volume > 100 { 100 } else { volume }),
            r.prefs.game_mode == (if mode_tag@.len() == 0 {
                GameMode::Normal
            } else {
                crate::game::mode_of_tag(mode_tag@)
            }),
            r.menu.categories == categories,
            r.menu.menu_index == 0,
            r.menu.menu_filter@.len() == 0,
            !r.menu.host_selecting,
            r.turn.round is None,
            r.turn.input@.len() == 0,
            r.turn.suggestions@.len() == 0,
            r.turn.suggestion_index == 0,
            r.turn.play_started_at is None,
            r.turn.search_gen == 0,
            r.turn.pending_search_at is None,
            r.turn.last_category is None,
            r.tally.score == 0 && r.tally.streak == 0 && r.tally.rounds_played == 0,
            r.tally.last_points == 0,
            r.tally.score_flash_at is None,
            r.tally.round_end_at is None,
            r.tally.recent_songs@.len() == 0,
            !r.tally.warmed_up,
            r.turn.countdown is None,
            r.challenge.player_name == profile.name,
            !r.challenge.editing_name,
            r.challenge.challenge_index == 0,
            r.challenge.join_input@.len() == 0,
            r.challenge.browse@.len() == 0,
            r.challenge.browse_index == 0,
            r.challenge.host_category is None,
            r.challenge.host_public,
            r.challenge.host_max == 8,
            r.challenge.host_rounds == 5,
            r.challenge.host_mode == GameMode::Normal,
            !r.challenge.editing_lobby,
            !r.challenge.loading_is_challenge,
            !r.challenge.confirm_skip_round,
            r.lobby is None,
    {
        let game_mode = if mode_tag.is_empty() {
            GameMode::Normal
        } else {
            GameMode::from_tag(mode_tag)
        };
        let player_name = profile.name.clone();
        Session {
            setup: Setup { schedule, playlists, default_name, online, audio_available },
            profile,
            ui: Ui {
                screen: if whats_new {
                    Screen::Whatsnew
                } else {
                    Screen::Home
                },
                notes_return: Screen::Home,
                profile_return: Screen::Home,
                home_index: 0,
                should_quit: false,
                status: None,
                status_since: None,
                confirm_uninstall: false,
                post_action: None,
                update_available: None,
            },
            prefs: Prefs {
                volume: if volume > 100 {
                    100
                } else {
                    volume
                },
                game_mode,
            },
            menu: Menu {
                categories,
                menu_index: 0,
                menu_filter: String::new(),
                host_selecting: false,
            },
            turn: Turn {
                round: None,
                input: String::new(),
                suggestions: Vec::new(),
                suggestion_index: 0,
                play_started_at: None,
                search_gen: 0,
                pending_search_at: None,
                last_category: None,
                countdown: None,
            },
            tally: Tally {
                score: 0,
                streak: 0,
                rounds_played: 0,
                score_flash_at: None,
                round_end_at: None,
                last_points: 0,
                recent_songs: Vec::new(),
                warmed_up: false,
            },
            challenge: Challenge {
                player_name,
                editing_name: false,
                challenge_index: 0,
                join_input: String::new(),
                browse: Vec::new(),
                browse_index: 0,
                host_category: None,
                host_public: true,
                host_max: 8,
                host_rounds: 5,
                host_mode: GameMode::Normal,
                editing_lobby: false,
                loading_is_challenge: false,
                confirm_skip_round: false,
            },
            lobby: None,
        }
    }

    /// The action the frontend should run after tearing down (update/uninstall).
    pub fn post_action(&self) -> (r: Option<PostAction>)
        ensures
            r == self.ui.post_action,
    {
        self.ui.post_action
    }

    /// Show a status message.
    pub(crate) fn set_status(&mut self, text: String)
        ensures
            with_status(*old(self), *final(self), text@),
            final(self).ui.status == Some(text),
            old(self).wf() ==> final(self).wf(),
    {
        reveal(with_status);
        self.ui.status = Some(text);
        self.ui.status_since = Some(now());
    }

    /// Clear the current turn: input, suggestions and any pending search.
    pub(crate) fn reset_turn(&mut self)
        ensures
            with_turn_reset(*old(self), *final(self)),
            old(self).wf() ==> final(self).wf(),
    {
        reveal(with_turn_reset);
        self.turn.input = String::new();
        self.turn.suggestions = Vec::new();
        self.turn.suggestion_index = 0;
        self.turn.pending_search_at = None;
    }

    /// Set the menu filter text (e.g. bound to a GUI text field).
    pub fn set_menu_filter(&mut self, filter: String)
        ensures
            *final(self) == (Session {
                menu: Menu { menu_filter: filter, menu_index: 0, ..old(self).menu },
                ..*old(self)
            }),
    {
        self.menu.menu_filter = filter;
        self.menu.menu_index = 0;
    }

    /// Open the profile screen, remembering where to return to.
    pub fn open_profile(&mut self)
        ensures
            profile_opened(*old(self), *final(self)),
            old(self).wf() ==> final(self).wf(),
    {
        reveal(profile_opened);
        if self.ui.screen != Screen::Profile {
            self.ui.profile_return = self.ui.screen;
        }
        self.ui.screen = Screen::Profile;
    }

    /// Live-edit the display name (bound to a text field): at most
    /// `NAME_MAX` characters, kept in step with the profile. Persist with
    /// `commit_profile` when done.
    pub fn set_display_name(&mut self, name: String)
        ensures
            final(self).challenge.player_name@ == first_chars(name@, NAME_MAX as nat),
            *final(self) == (Session {
                challenge: Challenge {
                    player_name: final(self).challenge.player_name,
                    ..old(self).challenge
                },
                profile: Profile { name: final(self).challenge.player_name, ..old(self).profile },
                ..*old(self)
            }),
    {
        let cs = chars_of(name.as_str());
        let mut kept: Vec<char> = Vec::new();
        let mut i: usize = 0;
        while i < cs.len() && i < NAME_MAX
            invariant
                i <= cs.len(),
                i <= NAME_MAX,
                cs@ == name@,
                kept@ == cs@.take(i as int),
            decreases cs.len() - i,
        {
            kept.push(cs[i]);
            assert(cs@.take(i as int).push(cs@[i as int]) =~= cs@.take(i + 1));
            i = i + 1;
        }
        assert(cs@.take(cs@.len() as int) =~= cs@);
        assert(kept@ =~= first_chars(name@, NAME_MAX as nat));
        self.challenge.player_name = string_of(&kept);
        self.profile.name = self.challenge.player_name.clone();
    }

    /// Settle the name (a blank one falls back to the default name, in the
    /// profile too) and save the profile.
    pub fn commit_profile(&mut self) -> (fx: Vec<Effect>)
        ensures
            fx@ == seq![Effect::SaveProfile],
            trimmed(old(self).challenge.player_name@).len() == 0 ==> *final(self) == (Session {
                challenge: Challenge {
                    player_name: old(self).setup.default_name,
                    ..old(self).challenge
                },
                profile: Profile { name: old(self).setup.default_name, ..old(self).profile },
                ..*old(self)
            }),
            trimmed(old(self).challenge.player_name@).len() > 0 ==> *final(self) == *old(self),
    {
        if trim(&chars_of(self.challenge.player_name.as_str())).len() == 0 {
            self.challenge.player_name = self.setup.default_name.clone();
            self.profile.name = self.challenge.player_name.clone();
        }
        single(Effect::SaveProfile)
    }

    /// A blank display name falls back to the default name; the profile
    /// carries the name.
    pub(crate) fn settle_name(&mut self)
        ensures
            name_settled(*old(self), *final(self)),
    {
        reveal(name_settled);
        if trim(&chars_of(self.challenge.player_name.as_str())).len() == 0 {
            self.challenge.player_name = self.setup.default_name.clone();
        }
        self.profile.name = self.challenge.player_name.clone();
    }

    /// Choose the profile accent colour (a theme key) and save the profile.
    pub fn set_accent(&mut self, key: &str) -> (fx: Vec<Effect>)
        ensures
            fx@ == seq![Effect::SaveProfile],
            final(self).profile.accent@ == key@,
            *final(self) == (Session {
                profile: Profile { accent: final(self).profile.accent, ..old(self).profile },
                ..*old(self)
            }),
    {
        self.profile.accent = String::from_str(key);
        single(Effect::SaveProfile)
    }

    /// Enter the solo category picker.
    pub fn play_solo(&mut self)
        ensures
            menu_opened(*old(self), *final(self), false),
            old(self).wf() ==> final(self).wf(),
    {
        reveal(menu_opened);
        self.menu.host_selecting = false;
        self.menu.menu_filter = String::new();
        self.menu.menu_index = 0;
        self.ui.screen = Screen::Menu;
    }

    /// Open the preferences screen.
    pub fn open_settings(&mut self)
        ensures
            screen_set(*old(self), *final(self), Screen::Settings),
            old(self).wf() ==> final(self).wf(),
    {
        reveal(screen_set);
        self.ui.screen = Screen::Settings;
    }

    /// Set the default solo effect and save it with the profile.
    pub fn set_default_mode(&mut self, mode: GameMode) -> (fx: Vec<Effect>)
        ensures
            fx@ == seq![Effect::SaveProfile],
            mode_set(*old(self), *final(self), mode),
            old(self).wf() ==> final(self).wf(),
    {
        reveal(mode_set);
        self.prefs.game_mode = mode;
        single(Effect::SaveProfile)
    }

    /// Go pick a different song pool (back to the host config on selection).
    pub fn change_pool(&mut self)
        ensures
            menu_opened(*old(self), *final(self), true),
            old(self).wf() ==> final(self).wf(),
    {
        reveal(menu_opened);
        self.menu.host_selecting = true;
        self.menu.menu_filter = String::new();
        self.menu.menu_index = 0;
        self.ui.screen = Screen::Menu;
    }

    /// Open the online Challenge menu, or say that online play is unavailable.
    pub fn open_challenge(&mut self)
        ensures
            challenge_opened(*old(self), *final(self)),
            old(self).wf() ==> final(self).wf(),
    {
        reveal(challenge_opened);
        if !self.setup.online {
            self.set_status(String::from_str("Online play is unavailable."));
            return;
        }
        self.challenge.challenge_index = 0;
        self.challenge.editing_name = false;
        self.ui.screen = Screen::ChallengeMenu;
    }

    /// Begin the lead-in before the round's first clip.
    pub(crate) fn start_countdown(&mut self)
        ensures
            with_countdown_started(*old(self), *final(self)),
            old(self).wf() ==> final(self).wf(),
    {
        reveal(with_countdown_started);
        let secs = if self.tally.warmed_up {
            COUNTDOWN_SECS
        } else {
            FIRST_COUNTDOWN_SECS
        };
        self.turn.countdown = Some(Countdown { since: now(), secs });
        self.turn.play_started_at = None;
        self.tally.warmed_up = true;
    }

    /// (Re)start the current clip from the top, under the active effect.
    pub(crate) fn play_current_clip(&mut self) -> (fx: Vec<Effect>)
        requires
            old(self).wf(),
        ensures
            fx@ == clip_of(*old(self)),
            with_clip_started(*old(self), *final(self)),
            final(self).wf(),
            keeps_turn(*old(self), *final(self)),
    {
        reveal(with_clip_started);
        let mode = self.active_mode();
        match &self.turn.round {
            Some(round) => {
                let clip = round.current_clip();
                let preview = share(&round.preview);
                self.turn.play_started_at = Some(now());
                single(Effect::PlayClip { preview, clip, mode })
            },
            None => Vec::new(),
        }
    }

    /// The effect in force: the host's in a lobby round, else the menu one.
    pub fn active_mode(&self) -> (m: GameMode)
        ensures
            m == active_mode(*self),
    {
        match &self.lobby {
            Some(l) => l.mode,
            None => self.prefs.game_mode,
        }
    }

    /// After an edit of the guess text: start over at the top suggestion, and
    /// queue a search once the query is long enough (else drop the
    /// suggestions).
    pub(crate) fn queue_search(&mut self)
        ensures
            with_search_queued(*old(self), *final(self)),
            final(self).turn.input == old(self).turn.input,
            old(self).wf() ==> final(self).wf(),
    {
        reveal(with_search_queued);
        self.turn.suggestion_index = 0;
        if trim(&chars_of(self.turn.input.as_str())).len() < MIN_QUERY_LEN {
            self.turn.suggestions = Vec::new();
            self.turn.pending_search_at = None;
        } else {
            self.turn.pending_search_at = Some(now());
        }
    }

    /// Set the guess-search query and queue a search for it.
    pub fn set_search(&mut self, query: String)
        ensures
            with_search_queued(
                Session { turn: Turn { input: query, ..old(self).turn }, ..*old(self) },
                *final(self),
            ),
            final(self).turn.input == query,
            old(self).wf() ==> final(self).wf(),
    {
        self.turn.input = query;
        self.queue_search();
    }

    /// Send the search for the current input under a new generation (nothing
    /// when the trimmed input is too short).
    pub(crate) fn fire_search(&mut self) -> (fx: Vec<Effect>)
        ensures
            trimmed(old(self).turn.input@).len() < MIN_QUERY_LEN ==> *final(self) == *old(self)
                && fx@.len() == 0,
            trimmed(old(self).turn.input@).len() >= MIN_QUERY_LEN ==> {
                &&& *final(self) == (Session {
                    turn: Turn {
                        search_gen: next_generation(old(self).turn.search_gen),
                        ..old(self).turn
                    },
                    ..*old(self)
                })
                &&& fx@.len() == 1
                &&& fx@[0] matches Effect::Search { generation, query } && generation
                    == final(self).turn.search_gen && query@ == trimmed(old(self).turn.input@)
            },
    {
        let q = trim(&chars_of(self.turn.input.as_str()));
        if q.len() < MIN_QUERY_LEN {
            return Vec::new();
        }
        self.turn.search_gen = self.turn.search_gen.wrapping_add(1);
        single(Effect::Search { generation: self.turn.search_gen, query: string_of(&q) })
    }

    /// Begin loading a round from a category.
    pub(crate) fn start_round(&mut self, category: Category) -> (fx: Vec<Effect>)
        ensures
            loads(fx@, category, old(self).tally.recent_songs@),
            loading_round(*old(self), *final(self), category),
            old(self).wf() ==> final(self).wf(),
    {
        reveal(loading_round);
        self.turn.last_category = Some(category.clone());
        self.turn.round = None;
        self.challenge.loading_is_challenge = false;
        self.turn.input = String::new();
        self.turn.suggestions = Vec::new();
        self.turn.suggestion_index = 0;
        self.turn.pending_search_at = None;
        self.ui.screen = Screen::Loading;
        let avoid = self.tally.recent_songs.clone();
        assert(avoid@ =~= self.tally.recent_songs@);
        single(Effect::LoadRound { category, avoid })
    }

    /// Move the volume one step up or down (within 0..=100%), apply and save
    /// it, and say so.
    pub(crate) fn adjust_volume(&mut self, up: bool) -> (fx: Vec<Effect>)
        requires
            old(self).wf(),
        ensures
            final(self).wf(),
            volume_stepped(*old(self), *final(self), up, fx@),
    {
        reveal(volume_stepped);
        reveal(with_status);
        self.prefs.volume = if up {
            if self.prefs.volume >= 100 - VOLUME_STEP {
                100
            } else {
                self.prefs.volume + VOLUME_STEP
            }
        } else {
            if self.prefs.volume <= VOLUME_STEP {
                0
            } else {
                self.prefs.volume - VOLUME_STEP
            }
        };
        let mut text = String::from_str("Volume ");
        let n = number_text(self.prefs.volume as i64);
        text.append(n.as_str());
        text.append("%");
        self.set_status(text);
        let mut fx: Vec<Effect> = Vec::new();
        fx.push(Effect::SetVolume(self.prefs.volume));
        fx.push(Effect::SaveProfile);
        assert(fx@ =~= seq![Effect::SetVolume(self.prefs.volume), Effect::SaveProfile]);
        fx
    }

    /// Fold the finished round into the profile (when no counter overflows)
    /// and save it.
    pub(crate) fn record_to_profile(&mut self, won: bool, points: u32, category: String) -> (fx:
        Vec<Effect>)
        requires
            old(self).wf(),
        ensures
            match old(self).turn.round {
                None => *final(self) == *old(self) && fx@.len() == 0,
                Some(r) => {
                    &&& fx@ == seq![Effect::SaveProfile]
                    &&& *final(self) == (Session { profile: final(self).profile, ..*old(self) })
                    &&& profile_after(
                        old(self).profile,
                        final(self).profile,
                        round_record(r, won, points, category),
                    )
                },
            },
    {
        let record = match &self.turn.round {
            Some(round) => {
                let clips = if won {
                    round.guess_number() as u32
                } else {
                    round.total_levels() as u32
                };
                RoundRecord {
                    title: round.answer.title.clone(),
                    artist: round.answer.artist.name.clone(),
                    category,
                    won,
                    clips,
                    points,
                }
            },
            None => return Vec::new(),
        };
        if self.profile.stats.fits_round(&record) {
            self.profile.record_round(record);
        }
        single(Effect::SaveProfile)
    }

    /// Count a finished round: bank its points (flashing them when there are
    /// any) and update the streak.
    fn bank(&mut self, won: bool, points: u32)
        ensures
            *final(self) == (Session { tally: final(self).tally, ..*old(self) }),
            banked(old(self).tally, final(self).tally, won, points),
    {
        self.tally.rounds_played = self.tally.rounds_played.saturating_add(1);
        self.tally.round_end_at = Some(now());
        self.tally.score = self.tally.score.saturating_add(points);
        self.tally.last_points = points;
        if points > 0 {
            self.tally.score_flash_at = Some(now());
        }
        self.tally.streak = if won {
            self.tally.streak.saturating_add(1)
        } else {
            0
        };
    }

    /// The category a solo round is recorded under.
    fn solo_category(&self) -> (r: String)
        ensures
            r@ == category_name(*self),
    {
        match &self.turn.last_category {
            Some(c) => c.name.clone(),
            None => String::from_str("Solo"),
        }
    }

    /// A solo round ended: reveal the whole song, bank the points (the solve
    /// value, or the right-artist consolation), update the streak, record the
    /// round in the profile and show the result.
    pub(crate) fn finish_round(&mut self, won: bool) -> (fx: Vec<Effect>)
        requires
            old(self).wf(),
        ensures
            finished_solo(*old(self), *final(self), won, fx@),
            keeps_turn(*old(self), *final(self)),
            final(self).wf(),
    {
        reveal(finished_solo);
        let mut fx: Vec<Effect> = Vec::new();
        let points = match &self.turn.round {
            Some(round) => {
                fx.push(Effect::PlayFull(share(&round.preview)));
                round.awarded_points()
            },
            None => 0,
        };
        assert(points == round_points(*old(self)));
        self.bank(won, points);
        let category = self.solo_category();
        let ghost cat = category;
        let mut more = self.record_to_profile(won, points, category);
        fx.append(&mut more);
        self.ui.screen = Screen::RoundEnd;
        proof {
            match old(self).turn.round {
                Some(r) => {
                    assert(fx@ =~= seq![Effect::PlayFull(r.preview), Effect::SaveProfile]);
                    assert(profile_after(old(self).profile, self.profile, round_record(r, won, points, cat)));
                },
                None => {
                    assert(fx@ =~= Seq::<Effect>::empty());
                },
            }
        }
        fx
    }
}

/// `b` is `a` with the display name settled: a blank name falls back to the
/// default name, and the profile carries the name.
#[verifier::opaque]
pub open spec fn name_settled(a: Session, b: Session) -> bool {
    let name = if trimmed(a.challenge.player_name@).len() == 0 {
        a.setup.default_name
    } else {
        a.challenge.player_name
    };
    b == (Session {
        challenge: Challenge { player_name: name, ..a.challenge },
        profile: Profile { name, ..a.profile },
        ..a
    })
}

} // verus!
