//! Results that come back from the outside work (loaded rounds, searches,
//! lists, lobby connections, errors) and the clock tick.

use std::time::Duration;

use vstd::prelude::*;

use crate::anime::AnimeTag;
use crate::config::{Category, CategorySource};
use crate::deezer::{Genre, Track};
use crate::game::{key_of, song_key, GameMode, Outcome, Round};
use crate::session::control::{
    clip_of, elapsed, millis, next_generation, now, with_clip_started, with_countdown_started,
    with_turn_reset,
    Challenge, Effect, Menu, Session, Tally, Turn, Ui, MIN_QUERY_LEN, RECENT_SONGS,
};
use crate::session::key_views;
use crate::session::lobby_flow::fresh_game;
use crate::session::{LobbyPhase, LobbyState, Screen};
use crate::supa::Party;
use crate::text::trimmed;

verus! {

/// How long a status message stays up, in milliseconds.
pub const TOAST_TTL_MS: u128 = 4000;

/// How long typing must settle before a search is sent, in milliseconds.
pub const DEBOUNCE_MS: u128 = 250;

/// The keys `recent` once `key` joins them, keeping the last `RECENT_SONGS`.
pub open spec fn remembered(recent: Seq<Seq<char>>, key: Seq<char>) -> Seq<Seq<char>> {
    let r = recent.push(key);
    if r.len() > RECENT_SONGS {
        r.skip(r.len() - RECENT_SONGS)
    } else {
        r
    }
}

/// A result delivered back to the session by the outside work it asked for.
pub enum Msg {
    /// A solo round's song and preview (with the anime, for anime rounds).
    RoundReady { answer: Track, preview: Vec<u8>, anime: Option<AnimeTag> },
    /// Search results for a generation of the query.
    Search { generation: u64, tracks: Vec<Track> },
    /// The live genre list.
    Genres(Vec<Genre>),
    /// A newer version exists.
    UpdateAvailable(String),
    /// The public lobbies.
    PublicParties(Vec<Party>),
    /// Connected to a lobby (as host or joiner).
    LobbyReady {
        code: String,
        is_host: bool,
        rounds: u32,
        mode: GameMode,
        category_label: String,
        /// Host only: the pool to draw round songs from.
        category: Option<Category>,
    },
    /// A lobby round's song and preview.
    LobbyRoundReady { round: u32, answer: Track, preview: Vec<u8> },
    /// Host only: the category's playable songs.
    LobbyPool(Vec<Track>),
    /// Something failed; the text says what.
    Error(String),
}

/// `r` is a fresh round of `answer` with `preview`, the anime tag `anime`
/// and the clip lengths `schedule`.
pub open spec fn fresh_round(
    r: Round,
    answer: Track,
    preview: Vec<u8>,
    anime: Option<AnimeTag>,
    schedule: Seq<Duration>,
) -> bool {
    &&& r.wf()
    &&& r.answer == answer
    &&& r.anime == anime
    &&& *r.preview == preview
    &&& r.schedule_view() == schedule
    &&& r.level == 0
    &&& r.guesses@.len() == 0
    &&& r.artist_bonus == 0
    &&& r.outcome == Outcome::Playing
}

/// The state just before a new round's first clip plays, ending in `b`:
/// `a` with `b`'s round and lobby, the turn reset, on the Playing screen.
pub open spec fn ready_base(a: Session, b: Session) -> Session {
    Session {
        lobby: b.lobby,
        turn: Turn {
            round: b.turn.round,
            input: b.turn.input,
            suggestions: b.turn.suggestions,
            suggestion_index: 0,
            pending_search_at: None,
            ..a.turn
        },
        ui: Ui { screen: Screen::Playing, ..a.ui },
        ..a
    }
}

/// `b` is `a` opening its new round: the turn reset, the Playing screen,
/// and the lead-in before the first clip running (nothing plays yet).
pub open spec fn round_opened(a: Session, b: Session, fx: Seq<Effect>) -> bool {
    let m = ready_base(a, b);
    &&& with_turn_reset(
        Session {
            lobby: b.lobby,
            turn: Turn { round: b.turn.round, ..a.turn },
            ui: Ui { screen: Screen::Playing, ..a.ui },
            ..a
        },
        m,
    )
    &&& fx.len() == 0
    &&& with_countdown_started(m, Session { lobby: m.lobby, ..b })
    &&& b.lobby == m.lobby
}

/// The menu after the live genre list `genres` arrived: a chart category
/// per genre, then the playlists.
pub open spec fn genre_menu(cats: Seq<Category>, genres: Seq<Genre>, playlists: Seq<Category>) -> bool {
    &&& cats.len() == genres.len() + playlists.len()
    &&& forall|i: int|
        0 <= i < genres.len() ==> (#[trigger] cats[i]).name@ == genres[i].name@ && cats[i].source
            == CategorySource::Chart(genres[i].id)
    &&& forall|j: int| 0 <= j < playlists.len() ==> cats[genres.len() + j] == #[trigger] playlists[j]
}

/// An index kept when it is still in a list of `n` rows, else back to 0.
pub open spec fn kept_index(i: usize, n: nat) -> usize {
    if i >= n {
        0
    } else {
        i
    }
}

/// `b` is `a` after the result `msg`, with effects `fx`.
#[verifier::opaque]
pub open spec fn msg_step(a: Session, b: Session, msg: Msg, fx: Seq<Effect>) -> bool {
    match msg {
        Msg::RoundReady { answer, preview, anime } => if a.ui.screen != Screen::Loading {
            b == a && fx.len() == 0
        } else {
            &&& key_views(b.tally.recent_songs@) == remembered(
                key_views(a.tally.recent_songs@),
                key_of(answer),
            )
            &&& b.turn.round matches Some(r) && fresh_round(
                r,
                answer,
                preview,
                anime,
                a.setup.schedule@,
            )
            &&& b.lobby == a.lobby
            &&& round_opened(
                Session { tally: Tally { recent_songs: b.tally.recent_songs, ..a.tally }, ..a },
                b,
                fx,
            )
        },
        Msg::Search { generation, tracks } => fx.len() == 0 && if generation
            == a.turn.search_gen {
            b == (Session {
                turn: Turn {
                    suggestions: tracks,
                    suggestion_index: kept_index(a.turn.suggestion_index, tracks@.len()),
                    ..a.turn
                },
                ..a
            })
        } else {
            b == a
        },
        Msg::Genres(genres) => fx.len() == 0 && if genres@.len() == 0 {
            b == a
        } else {
            &&& genre_menu(b.menu.categories@, genres@, a.setup.playlists@)
            &&& b == (Session {
                menu: Menu {
                    categories: b.menu.categories,
                    menu_index: kept_index(a.menu.menu_index, b.menu.categories@.len()),
                    ..a.menu
                },
                ..a
            })
        },
        Msg::UpdateAvailable(v) => fx.len() == 0 && b == (Session {
            ui: Ui { update_available: Some(v), ..a.ui },
            ..a
        }),
        Msg::PublicParties(list) => fx.len() == 0 && b == (Session {
            challenge: Challenge {
                browse: list,
                browse_index: kept_index(a.challenge.browse_index, list@.len()),
                ..a.challenge
            },
            ..a
        }),
        Msg::LobbyReady { code, is_host, rounds, mode, category_label, category } => {
            &&& b.lobby matches Some(l) && l == (LobbyState {
                code,
                is_host,
                players: l.players,
                spectators: l.spectators,
                game: l.game,
                phase: LobbyPhase::Waiting,
                rounds,
                mode,
                category_label,
                category,
                pool: l.pool,
                last_answer: None,
                round_started_at: None,
                my_result_sent: false,
                playing_this_game: is_host,
                spectating: false,
                played: l.played,
            }) && l.players@.len() == 0 && l.spectators@.len() == 0 && l.pool@.len() == 0
                && l.played@.len() == 0
                && fresh_game(l.game, rounds, a.setup.schedule@.len())
            &&& b == (Session { lobby: b.lobby, ui: Ui { screen: Screen::Lobby, ..a.ui }, ..a })
            &&& fx == if is_host && category is Some {
                seq![Effect::FetchLobbyPool(category->Some_0)]
            } else {
                Seq::empty()
            }
        },
        Msg::LobbyRoundReady { round, answer, preview } => match a.lobby {
            Some(l) => if l.game.round != round {
                b == a && fx.len() == 0
            } else {
                &&& b.turn.round matches Some(r) && fresh_round(
                    r,
                    answer,
                    preview,
                    None,
                    a.setup.schedule@,
                )
                &&& b.lobby == Some(LobbyState { round_started_at: None, my_result_sent: false, ..l })
                &&& round_opened(a, b, fx)
            },
            None => b == a && fx.len() == 0,
        },
        Msg::LobbyPool(tracks) => fx.len() == 0 && match a.lobby {
            Some(l) => b == (Session { lobby: Some(LobbyState { pool: tracks, ..l }), ..a }),
            None => b == a,
        },
        Msg::Error(err) => {
            &&& fx.len() == 0
            &&& b == (Session {
                ui: Ui {
                    status: Some(err),
                    status_since: b.ui.status_since,
                    screen: if a.ui.screen == Screen::Loading {
                        if a.challenge.loading_is_challenge {
                            Screen::ChallengeMenu
                        } else {
                            Screen::Menu
                        }
                    } else {
                        a.ui.screen
                    },
                    ..a.ui
                },
                ..a
            })
            &&& b.ui.status_since is Some
        },
    }
}

/// `b` is `a` after sending the search for its input, with effects `fx`
/// (nothing when the trimmed input is too short).
pub open spec fn search_fired(a: Session, b: Session, fx: Seq<Effect>) -> bool {
    if trimmed(a.turn.input@).len() < MIN_QUERY_LEN {
        b == a && fx.len() == 0
    } else {
        &&& b == (Session {
            turn: Turn { search_gen: next_generation(a.turn.search_gen), ..a.turn },
            ..a
        })
        &&& fx.len() == 1
        &&& fx[0] matches Effect::Search { generation, query } && generation == b.turn.search_gen
            && query@ == trimmed(a.turn.input@)
    }
}

/// `b` is `a` once its lead-in is over: the lead-in gone and, when a round
/// is on screen, its first clip playing and (in a lobby) the round's scoring
/// clock started.
pub open spec fn clip_begun(a: Session, b: Session, fx: Seq<Effect>) -> bool {
    let a1 = Session { turn: Turn { countdown: None, ..a.turn }, ..a };
    if a.ui.screen == Screen::Playing && a.turn.round is Some {
        let a2 = Session { lobby: b.lobby, ..a1 };
        &&& match a.lobby {
            Some(l) => b.lobby matches Some(l2) && l2 == (LobbyState {
                round_started_at: l2.round_started_at,
                ..l
            }) && l2.round_started_at is Some,
            None => b.lobby is None,
        }
        &&& fx == clip_of(a2)
        &&& with_clip_started(a2, b)
    } else {
        b == a1 && fx.len() == 0
    }
}

/// `b` is `a` after a clock tick, with effects `fx`: an expired status
/// message goes away (when one is up); then a finished lead-in starts the
/// round's clip (when one is running), or else a due search is sent (when
/// one is pending).
#[verifier::opaque]
pub open spec fn tick_step(
    a: Session,
    b: Session,
    status_expired: bool,
    search_due: bool,
    countdown_over: bool,
    fx: Seq<Effect>,
) -> bool {
    let a1 = if status_expired && a.ui.status_since is Some {
        Session { ui: Ui { status: None, status_since: None, ..a.ui }, ..a }
    } else {
        a
    };
    if countdown_over && a.turn.countdown is Some {
        clip_begun(a1, b, fx)
    } else if search_due && a.turn.pending_search_at is Some {
        search_fired(Session { turn: Turn { pending_search_at: None, ..a1.turn }, ..a1 }, b, fx)
    } else {
        b == a1 && fx.len() == 0
    }
}

/// Whether a status message up for `ms` milliseconds (none where no status
/// message is up) has been up too long.
pub open spec fn status_expired_after(ms: Option<u128>) -> bool {
    ms matches Some(m) && m > TOAST_TTL_MS
}

/// Whether typing settled `ms` milliseconds ago (none where no search is
/// pending) is long enough to send the search.
pub open spec fn search_due_after(ms: Option<u128>) -> bool {
    ms matches Some(m) && m >= DEBOUNCE_MS
}

/// Whether `a`'s lead-in, running for `ms` milliseconds (none where there is
/// no lead-in), has run its seconds.
pub open spec fn countdown_over_after(a: Session, ms: Option<u128>) -> bool {
    ms matches Some(m) && a.turn.countdown matches Some(c) && m >= c.secs * 1000
}

fn copy_schedule(v: &Vec<Duration>) -> (r: Vec<Duration>)
    ensures
        r@ == v@,
{
    let mut out: Vec<Duration> = Vec::new();
    let mut i: usize = 0;
    while i < v.len()
        invariant
            i <= v.len(),
            out@ == v@.take(i as int),
        decreases v.len() - i,
    {
        out.push(v[i]);
        assert(v@.take(i as int).push(v@[i as int]) =~= v@.take(i + 1));
        i = i + 1;
    }
    assert(v@.take(v.len() as int) =~= v@);
    out
}

impl Session {
    /// Open a freshly loaded round: reset the turn, show it, and begin the
    /// lead-in before its first clip.
    fn begin_round(&mut self, round: Round) -> (fx: Vec<Effect>)
        requires
            old(self).wf(),
            round.wf(),
            round.levels() == old(self).setup.schedule@.len(),
        ensures
            final(self).wf(),
            final(self).turn.round == Some(round),
            final(self).lobby == old(self).lobby,
            round_opened(
                Session { turn: Turn { round: Some(round), ..old(self).turn }, ..*old(self) },
                *final(self),
                fx@,
            ),
    {
        self.turn.round = Some(round);
        self.reset_turn();
        self.ui.screen = Screen::Playing;
        let ghost m = *self;
        self.start_countdown();
        proof {
            reveal(with_turn_reset);
            reveal(with_countdown_started);
        }
        Vec::new()
    }

    /// Remember `answer` among the recent solo songs.
    fn remember_song(&mut self, answer: &Track)
        ensures
            key_views(final(self).tally.recent_songs@) == remembered(
                key_views(old(self).tally.recent_songs@),
                key_of(*answer),
            ),
            *final(self) == (Session {
                tally: Tally { recent_songs: final(self).tally.recent_songs, ..old(self).tally },
                ..*old(self)
            }),
    {
        let mut recent = self.tally.recent_songs.clone();
        assert(recent@ =~= self.tally.recent_songs@);
        recent.push(song_key(answer));
        let ghost r = key_views(recent@);
        assert(r =~= key_views(self.tally.recent_songs@).push(key_of(*answer)));
        assert(r.skip(0) =~= r);
        while recent.len() > RECENT_SONGS
            invariant
                recent@.len() <= r.len(),
                recent@.len() == r.len() || recent@.len() >= RECENT_SONGS,
                key_views(recent@) == r.skip(r.len() - recent@.len()),
            decreases recent.len(),
        {
            let ghost before = recent@;
            recent.remove(0);
            assert forall|k: int| 0 <= k < recent@.len() implies key_views(recent@)[k] == r.skip(
                r.len() - recent@.len(),
            )[k] by {
                assert(recent@[k] == before[k + 1]);
                assert(key_views(before)[k + 1] == r.skip(r.len() - before.len())[k + 1]);
            }
            assert(key_views(recent@) =~= r.skip(r.len() - recent@.len()));
        }
        self.tally.recent_songs = recent;
    }

    fn on_round_ready(&mut self, answer: Track, preview: Vec<u8>, anime: Option<AnimeTag>) -> (fx:
        Vec<Effect>)
        requires
            old(self).wf(),
        ensures
            final(self).wf(),
            msg_step(*old(self), *final(self), Msg::RoundReady { answer, preview, anime }, fx@),
    {
        reveal(msg_step);
        if self.ui.screen != Screen::Loading {
            return Vec::new();
        }
        self.remember_song(&answer);
        let ghost m = *self;
        let mut round = Round::new(answer, preview, copy_schedule(&self.setup.schedule));
        round.anime = anime;
        let fx = self.begin_round(round);
        proof {
            reveal(with_turn_reset);
            reveal(with_countdown_started);
            assert(m == Session {
                tally: Tally { recent_songs: m.tally.recent_songs, ..old(self).tally },
                ..*old(self)
            });
        }
        fx
    }

    fn on_lobby_round_ready(&mut self, round: u32, answer: Track, preview: Vec<u8>) -> (fx: Vec<
        Effect,
    >)
        requires
            old(self).wf(),
        ensures
            final(self).wf(),
            msg_step(*old(self), *final(self), Msg::LobbyRoundReady { round, answer, preview }, fx@),
    {
        reveal(msg_step);
        let mut lobby = match self.lobby.take() {
            Some(l) => l,
            None => return Vec::new(),
        };
        if lobby.game.round != round {
            self.lobby = Some(lobby);
            return Vec::new();
        }
        lobby.round_started_at = None;
        lobby.my_result_sent = false;
        self.lobby = Some(lobby);
        let r = Round::new(answer, preview, copy_schedule(&self.setup.schedule));
        let fx = self.begin_round(r);
        proof {
            reveal(with_turn_reset);
        }
        fx
    }

    fn on_genres(&mut self, genres: Vec<Genre>)
        ensures
            msg_step(*old(self), *final(self), Msg::Genres(genres), Seq::empty()),
            old(self).wf() ==> final(self).wf(),
    {
        reveal(msg_step);
        if genres.len() == 0 {
            return ;
        }
        let mut cats: Vec<Category> = Vec::new();
        let mut i: usize = 0;
        while i < genres.len()
            invariant
                i <= genres.len(),
                cats@.len() == i,
                forall|k: int|
                    0 <= k < i ==> (#[trigger] cats@[k]).name@ == genres@[k].name@
                        && cats@[k].source == CategorySource::Chart(genres@[k].id),
            decreases genres.len() - i,
        {
            cats.push(Category::chart(genres[i].name.as_str(), genres[i].id));
            i = i + 1;
        }
        let mut j: usize = 0;
        while j < self.setup.playlists.len()
            invariant
                j <= self.setup.playlists.len(),
                cats@.len() == genres@.len() + j,
                forall|k: int|
                    0 <= k < genres@.len() ==> (#[trigger] cats@[k]).name@ == genres@[k].name@
                        && cats@[k].source == CategorySource::Chart(genres@[k].id),
                forall|k: int| 0 <= k < j ==> cats@[genres@.len() + k] == #[trigger] self.setup.playlists@[k],
            decreases self.setup.playlists.len() - j,
        {
            let c = self.setup.playlists[j].clone();
            cats.push(c);
            j = j + 1;
        }
        let n = cats.len();
        self.menu.categories = cats;
        if self.menu.menu_index >= n {
            self.menu.menu_index = 0;
        }
    }

    fn on_lobby_ready(
        &mut self,
        code: String,
        is_host: bool,
        rounds: u32,
        mode: GameMode,
        category_label: String,
        category: Option<Category>,
    ) -> (fx: Vec<Effect>)
        requires
            old(self).wf(),
        ensures
            final(self).wf(),
            msg_step(
                *old(self),
                *final(self),
                Msg::LobbyReady { code, is_host, rounds, mode, category_label, category },
                fx@,
            ),
    {
        reveal(msg_step);
        let fetch = match &category {
            Some(c) if is_host => Some(c.clone()),
            _ => None,
        };
        let game = crate::lobby::Game::new(
            if rounds >= 1 {
                rounds
            } else {
                1
            },
            self.setup.schedule.len() as u32,
        );
        self.lobby = Some(
            LobbyState {
                code,
                is_host,
                players: Vec::new(),
                spectators: Vec::new(),
                game,
                phase: LobbyPhase::Waiting,
                rounds,
                mode,
                category_label,
                category,
                pool: Vec::new(),
                last_answer: None,
                round_started_at: None,
                my_result_sent: false,
                playing_this_game: is_host,
                spectating: false,
                played: Vec::new(),
            },
        );
        self.ui.screen = Screen::Lobby;
        match fetch {
            Some(c) => crate::session::control::single(Effect::FetchLobbyPool(c)),
            None => Vec::new(),
        }
    }

    fn on_search(&mut self, generation: u64, tracks: Vec<Track>)
        ensures
            msg_step(*old(self), *final(self), Msg::Search { generation, tracks }, Seq::empty()),
            old(self).wf() ==> final(self).wf(),
    {
        reveal(msg_step);
        if generation == self.turn.search_gen {
            let n = tracks.len();
            self.turn.suggestions = tracks;
            if self.turn.suggestion_index >= n {
                self.turn.suggestion_index = 0;
            }
        }
    }

    fn on_update_available(&mut self, v: String)
        ensures
            msg_step(*old(self), *final(self), Msg::UpdateAvailable(v), Seq::empty()),
            old(self).wf() ==> final(self).wf(),
    {
        reveal(msg_step);
        self.ui.update_available = Some(v);
    }

    fn on_public_parties(&mut self, list: Vec<Party>)
        ensures
            msg_step(*old(self), *final(self), Msg::PublicParties(list), Seq::empty()),
            old(self).wf() ==> final(self).wf(),
    {
        reveal(msg_step);
        let n = list.len();
        self.challenge.browse = list;
        if self.challenge.browse_index >= n {
            self.challenge.browse_index = 0;
        }
    }

    fn on_lobby_pool(&mut self, tracks: Vec<Track>)
        ensures
            msg_step(*old(self), *final(self), Msg::LobbyPool(tracks), Seq::empty()),
            old(self).wf() ==> final(self).wf(),
    {
        reveal(msg_step);
        let mut lobby = match self.lobby.take() {
            Some(l) => l,
            None => return ,
        };
        lobby.pool = tracks;
        self.lobby = Some(lobby);
    }

    fn on_error(&mut self, err: String)
        ensures
            msg_step(*old(self), *final(self), Msg::Error(err), Seq::empty()),
            old(self).wf() ==> final(self).wf(),
    {
        reveal(msg_step);
        reveal(crate::session::control::with_status);
        self.set_status(err);
        if self.ui.screen == Screen::Loading {
            self.ui.screen = if self.challenge.loading_is_challenge {
                Screen::ChallengeMenu
            } else {
                Screen::Menu
            };
        }
    }

    /// Take in a result of the outside work.
    pub fn handle_msg(&mut self, msg: Msg) -> (fx: Vec<Effect>)
        requires
            old(self).wf(),
        ensures
            final(self).wf(),
            msg_step(*old(self), *final(self), msg, fx@),
    {
        match msg {
            Msg::RoundReady { answer, preview, anime } => self.on_round_ready(answer, preview, anime),
            Msg::Search { generation, tracks } => {
                self.on_search(generation, tracks);
                Vec::new()
            },
            Msg::Genres(genres) => {
                self.on_genres(genres);
                Vec::new()
            },
            Msg::UpdateAvailable(v) => {
                self.on_update_available(v);
                Vec::new()
            },
            Msg::PublicParties(list) => {
                self.on_public_parties(list);
                Vec::new()
            },
            Msg::LobbyReady { code, is_host, rounds, mode, category_label, category } => self.on_lobby_ready(
                code,
                is_host,
                rounds,
                mode,
                category_label,
                category,
            ),
            Msg::LobbyRoundReady { round, answer, preview } => self.on_lobby_round_ready(
                round,
                answer,
                preview,
            ),
            Msg::LobbyPool(tracks) => {
                self.on_lobby_pool(tracks);
                Vec::new()
            },
            Msg::Error(err) => {
                self.on_error(err);
                Vec::new()
            },
        }
    }

    /// A clock tick with the clock's verdicts: whether the status message has
    /// been up too long, and whether typing has settled for a pending search.
    pub fn tick_with(&mut self, status_expired: bool, search_due: bool, countdown_over: bool) -> (fx:
        Vec<Effect>)
        requires
            old(self).wf(),
        ensures
            tick_step(*old(self), *final(self), status_expired, search_due, countdown_over, fx@),
            final(self).wf(),
    {
        reveal(tick_step);
        if status_expired && self.ui.status_since.is_some() {
            self.ui.status = None;
            self.ui.status_since = None;
        }
        if countdown_over && self.turn.countdown.is_some() {
            return self.begin_clip();
        }
        if search_due && self.turn.pending_search_at.is_some() {
            self.turn.pending_search_at = None;
            return self.fire_search();
        }
        Vec::new()
    }

    /// End the lead-in: start the round's first clip (and, in a lobby, the
    /// round's scoring clock) when a round is on screen.
    fn begin_clip(&mut self) -> (fx: Vec<Effect>)
        requires
            old(self).wf(),
        ensures
            clip_begun(*old(self), *final(self), fx@),
            final(self).wf(),
    {
        reveal(with_clip_started);
        self.turn.countdown = None;
        if self.ui.screen != Screen::Playing || self.turn.round.is_none() {
            return Vec::new();
        }
        match self.lobby.take() {
            Some(mut l) => {
                l.round_started_at = Some(now());
                self.lobby = Some(l);
            },
            None => {},
        }
        self.play_current_clip()
    }

    /// A clock tick, given how long the status message has been up, how long
    /// typing has settled for a pending search and how long the lead-in has
    /// run, each in milliseconds (none where there is no such thing): clear
    /// the status message once it has been up longer than `TOAST_TTL_MS`,
    /// start the clip once the lead-in has run its seconds, or else send the
    /// search once typing has settled for `DEBOUNCE_MS`.
    pub fn tick_after(
        &mut self,
        status_ms: Option<u128>,
        search_ms: Option<u128>,
        countdown_ms: Option<u128>,
    ) -> (fx: Vec<Effect>)
        requires
            old(self).wf(),
        ensures
            tick_step(
                *old(self),
                *final(self),
                status_expired_after(status_ms),
                search_due_after(search_ms),
                countdown_over_after(*old(self), countdown_ms),
                fx@,
            ),
            final(self).wf(),
    {
        let status_expired = match status_ms {
            Some(m) => m > TOAST_TTL_MS,
            None => false,
        };
        let search_due = match search_ms {
            Some(m) => m >= DEBOUNCE_MS,
            None => false,
        };
        let countdown_over = match (&self.turn.countdown, countdown_ms) {
            (Some(c), Some(m)) => m >= (c.secs as u128) * 1000,
            _ => false,
        };
        self.tick_with(status_expired, search_due, countdown_over)
    }

    /// A clock tick: read the clock for each instant that is set (the status
    /// message's, the pending search's, the lead-in's) and go on as
    /// `tick_after` does with those elapsed times.
    pub fn on_tick(&mut self) -> (fx: Vec<Effect>)
        requires
            old(self).wf(),
        ensures
            exists|status_ms: Option<u128>, search_ms: Option<u128>, countdown_ms: Option<u128>|
                {
                    &&& (status_ms is Some <==> old(self).ui.status_since is Some)
                    &&& (search_ms is Some <==> old(self).turn.pending_search_at is Some)
                    &&& (countdown_ms is Some <==> old(self).turn.countdown is Some)
                    &&& #[trigger] tick_step(
                        *old(self),
                        *final(self),
                        status_expired_after(status_ms),
                        search_due_after(search_ms),
                        countdown_over_after(*old(self), countdown_ms),
                        fx@,
                    )
                },
            final(self).wf(),
    {
        let status_ms: Option<u128> = match &self.ui.status_since {
            Some(since) => Some(millis(&elapsed(since))),
            None => None,
        };
        let search_ms: Option<u128> = match &self.turn.pending_search_at {
            Some(at) => Some(millis(&elapsed(at))),
            None => None,
        };
        let countdown_ms: Option<u128> = match &self.turn.countdown {
            Some(c) => Some(millis(&elapsed(&c.since))),
            None => None,
        };
        self.tick_after(status_ms, search_ms, countdown_ms)
    }
}

} // verus!
