//! The live lobby: its keys, the host's game control, leaving, editing the
//! settings, and the events that arrive on the lobby channel.

use vstd::prelude::*;

use crate::config::Category;
use crate::deezer::Track;
use crate::game::{key_of, mode_of_tag, mode_tag, song_key, GameMode};
use crate::lobby::{Game, NewGame, RoundResult, RoundStart};
use crate::session::control::{
    single, with_status, with_turn_reset, Challenge, Effect, LobbyEvent, Session, Turn, Ui,
};
use crate::session::turns::game_after;
use crate::session::{fresh, key_views, pick_fresh, Key, LobbyPhase, LobbyState, Screen};

verus! {

/// One member of the lobby channel's roster.
pub struct PresenceEntry {
    pub name: String,
    /// Waiting out a running game.
    pub spectating: bool,
}

/// Something that happened on the lobby channel.
pub enum RtEvent {
    /// The roster changed.
    Presence(Vec<PresenceEntry>),
    /// A game event arrived.
    Broadcast(LobbyEvent),
    /// The channel closed, for the given reason.
    Disconnected(String),
}

/// `g` is a fresh game of `rounds` rounds with `clips` clips each (both at
/// least one): round 0, no standings, nobody submitted.
pub open spec fn fresh_game(g: Game, rounds: u32, clips: nat) -> bool {
    &&& g.rounds == (if rounds >= 1 { rounds } else { 1 })
    &&& g.max_clips == (if clips >= 1 { clips as u32 } else { 1 })
    &&& g.round == 0
    &&& g.standings.wf()
    &&& g.standings.rows().len() == 0
    &&& g.submitted_names().len() == 0
}

/// `e` broadcasts the start of round `round` with a song `t` of `pool` that
/// is not among the songs `played` (any song of `pool` once every one is),
/// and `after` is `played` with `t`'s key added.
pub open spec fn round_start_fx(
    pool: Seq<Track>,
    played: Seq<Seq<char>>,
    round: u32,
    e: Effect,
    after: Seq<Seq<char>>,
) -> bool {
    exists|t: Track|
        #[trigger] pool.contains(t) && (fresh(t, played) || forall|i: int|
            0 <= i < pool.len() ==> !fresh(#[trigger] pool[i], played)) && e == Effect::Broadcast(
            LobbyEvent::RoundStart(RoundStart { round, track_id: t.id }),
        ) && after == played.push(key_of(t))
}

/// `b` is `a` after the host starts round `round`: a random song of the pool
/// not yet played this game (any song once all were) is broadcast and
/// counted as played (or, with an empty pool, a status says there is none).
#[verifier::opaque]
pub open spec fn round_started(a: Session, b: Session, round: u32, fx: Seq<Effect>) -> bool {
    match a.lobby {
        None => b == a && fx.len() == 0,
        Some(l) => if l.pool@.len() == 0 {
            with_status(a, b, "No playable songs in that category."@) && fx.len() == 0
        } else {
            &&& b == (Session { lobby: b.lobby, ..a })
            &&& b.lobby matches Some(l2) && l2 == (LobbyState { played: l2.played, ..l })
                && fx.len() == 1 && round_start_fx(
                l.pool@,
                key_views(l.played@),
                round,
                fx[0],
                key_views(l2.played@),
            )
        },
    }
}

/// `b` is `a` after the host (re)starts a game: the configuration is
/// broadcast, the game starts over, and round 1 starts (or, with no songs
/// loaded yet, a status says to wait).
#[verifier::opaque]
pub open spec fn game_started(a: Session, b: Session, fx: Seq<Effect>) -> bool {
    match a.lobby {
        None => b == a && fx.len() == 0,
        Some(l) => if l.pool@.len() == 0 {
            with_status(a, b, "Still loading songs — try again in a moment."@) && fx.len() == 0
        } else {
            &&& b == (Session { lobby: b.lobby, ..a })
            &&& b.lobby matches Some(l2) && l2 == (LobbyState {
                game: l2.game,
                played: l2.played,
                ..l
            }) && fresh_game(l2.game, l.rounds, a.setup.schedule@.len()) && fx.len() == 2
                && round_start_fx(l.pool@, Seq::empty(), 1, fx[1], key_views(l2.played@))
            &&& fx[0] matches Effect::Broadcast(LobbyEvent::NewGame(ng)) && ng.rounds == l.rounds
                && ng.mode@ == mode_tag(l.mode) && ng.category == l.category_label
        },
    }
}

/// Whether every active player has submitted for the current round (true
/// without a lobby).
pub open spec fn round_complete(a: Session) -> bool {
    match a.lobby {
        Some(l) => l.game.submitted_names().len() >= l.players@.len(),
        None => true,
    }
}

/// `b` is `a` after the host moves on: past the final round the game is
/// over (broadcast, audio stopped); otherwise the next round starts.
#[verifier::opaque]
pub open spec fn advanced_now(a: Session, b: Session, fx: Seq<Effect>) -> bool {
    let a1 = Session { challenge: Challenge { confirm_skip_round: false, ..a.challenge }, ..a };
    match a.lobby {
        None => b == a1 && fx.len() == 0,
        Some(l) => if l.game.round >= l.game.rounds {
            &&& b == (Session { lobby: Some(LobbyState { phase: LobbyPhase::GameOver, ..l }), ..a1 })
            &&& fx == seq![Effect::Broadcast(LobbyEvent::GameOver), Effect::StopAudio]
        } else {
            round_started(a1, b, (l.game.round + 1) as u32, fx)
        },
    }
}

/// `b` is `a` after the host asks to move on: while players are still
/// guessing it asks for confirmation first.
#[verifier::opaque]
pub open spec fn lobby_advanced(a: Session, b: Session, fx: Seq<Effect>) -> bool {
    if round_complete(a) {
        advanced_now(a, b, fx)
    } else {
        b == (Session { challenge: Challenge { confirm_skip_round: true, ..a.challenge }, ..a })
            && fx.len() == 0
    }
}

/// `b` is `a` after the lobby's primary action: the host starts a game
/// (waiting or over) or moves on (between rounds); players just wait.
#[verifier::opaque]
pub open spec fn primary_done(a: Session, b: Session, fx: Seq<Effect>) -> bool {
    match a.lobby {
        Some(l) => if !l.is_host {
            b == a && fx.len() == 0
        } else {
            match l.phase {
                LobbyPhase::Waiting | LobbyPhase::GameOver => game_started(a, b, fx),
                LobbyPhase::Between => lobby_advanced(a, b, fx),
                LobbyPhase::Spectating => b == a && fx.len() == 0,
            }
        },
        None => b == a && fx.len() == 0,
    }
}

/// `b` is `a` with the host configuration open on the running lobby's
/// settings (host only, while waiting or after a game).
#[verifier::opaque]
pub open spec fn lobby_settings_opened(a: Session, b: Session) -> bool {
    match a.lobby {
        Some(l) => if l.is_host && (l.phase == LobbyPhase::Waiting || l.phase
            == LobbyPhase::GameOver) {
            b == (Session {
                challenge: Challenge {
                    host_rounds: l.rounds,
                    host_mode: l.mode,
                    host_category: l.category,
                    editing_lobby: true,
                    ..a.challenge
                },
                ui: Ui { screen: Screen::HostConfig, ..a.ui },
                ..a
            })
        } else {
            b == a
        },
        None => b == a,
    }
}

/// `b` is `a` with the edited settings applied to the running lobby (at
/// least one round), its pool reloaded when the category changed, and its
/// advertisement updated (online).
#[verifier::opaque]
pub open spec fn settings_applied(a: Session, b: Session, fx: Seq<Effect>) -> bool {
    let a1 = Session {
        challenge: Challenge { editing_lobby: false, ..a.challenge },
        ui: Ui { screen: Screen::Lobby, ..a.ui },
        ..a
    };
    match (a.challenge.host_category, a.lobby) {
        (Some(cat), Some(l)) => {
            let changed = l.category_label@ != cat.name@;
            let l2 = LobbyState {
                rounds: if a.challenge.host_rounds >= 1 {
                    a.challenge.host_rounds
                } else {
                    1
                },
                mode: a.challenge.host_mode,
                category: Some(cat),
                category_label: cat.name,
                ..l
            };
            &&& b == (Session { lobby: Some(l2), ..a1 })
            &&& fx == (if changed {
                seq![Effect::FetchLobbyPool(cat)]
            } else {
                Seq::empty()
            }) + (if a.setup.online {
                seq![
                    Effect::UpdateParty {
                        code: l.code,
                        public: a.challenge.host_public,
                        max_players: a.challenge.host_max,
                        label: cat.name,
                    },
                ]
            } else {
                Seq::empty()
            })
        },
        _ => b == a1 && fx.len() == 0,
    }
}

/// `b` is `a` after leaving the lobby: its advertisement is removed (by the
/// host, or by the last one there), the channel closed, the audio stopped,
/// the round and turn dropped, and the Challenge menu shows.
#[verifier::opaque]
pub open spec fn lobby_left(a: Session, b: Session, fx: Seq<Effect>) -> bool {
    let fx_del = match a.lobby {
        Some(l) => if (l.is_host || l.players@.len() + l.spectators@.len() <= 1) && a.setup.online {
            seq![Effect::DeleteParty(l.code)]
        } else {
            Seq::empty()
        },
        None => Seq::empty(),
    };
    let fx_close = if a.lobby is Some {
        seq![Effect::CloseLobby]
    } else {
        Seq::empty()
    };
    &&& fx == fx_del + fx_close + seq![Effect::StopAudio]
    &&& with_turn_reset(
        Session {
            challenge: Challenge { editing_lobby: false, confirm_skip_round: false, ..a.challenge },
            lobby: None,
            turn: Turn { round: None, ..a.turn },
            ui: Ui { screen: Screen::ChallengeMenu, ..a.ui },
            ..a
        },
        b,
    )
}

/// `b` is `a` after `key` in the lobby, with effects `fx`. A pending skip
/// confirmation takes the key first (Enter or y goes ahead).
#[verifier::opaque]
pub open spec fn lobby_key_step(a: Session, b: Session, key: Key, fx: Seq<Effect>) -> bool {
    if a.challenge.confirm_skip_round {
        if key == Key::Enter || key == Key::Char('y') {
            advanced_now(a, b, fx)
        } else {
            b == (Session {
                challenge: Challenge { confirm_skip_round: false, ..a.challenge },
                ..a
            }) && fx.len() == 0
        }
    } else {
        match key {
            Key::Enter => primary_done(a, b, fx),
            Key::Char(c) => fx.len() == 0 && if c == 's' {
                lobby_settings_opened(a, b)
            } else {
                b == a
            },
            Key::Esc => lobby_left(a, b, fx),
            _ => b == a && fx.len() == 0,
        }
    }
}

/// `b` is `a` loading lobby round `round` (song `track_id`).
#[verifier::opaque]
pub open spec fn lobby_round_loading(
    a: Session,
    b: Session,
    round: u32,
    track_id: i64,
    fx: Seq<Effect>,
) -> bool {
    &&& fx == seq![Effect::LoadLobbyRound { round, track_id }]
    &&& with_turn_reset(
        Session {
            turn: Turn { round: None, ..a.turn },
            ui: Ui { screen: Screen::Loading, ..a.ui },
            ..a
        },
        b,
    )
}

/// `b` is `a` watching the running game: a late joiner (not the host, not
/// playing it, not already watching) becomes a spectator and says so.
#[verifier::opaque]
pub open spec fn spectating_entered(a: Session, b: Session, fx: Seq<Effect>) -> bool {
    match a.lobby {
        Some(l) => if l.is_host || l.playing_this_game || l.spectating {
            b == a && fx.len() == 0
        } else {
            &&& b == (Session {
                lobby: Some(
                    LobbyState { spectating: true, phase: LobbyPhase::Spectating, ..l },
                ),
                turn: Turn { round: None, ..a.turn },
                ui: Ui { screen: Screen::Lobby, ..a.ui },
                ..a
            })
            &&& fx == seq![
                Effect::UpdatePresence {
                    name: a.challenge.player_name,
                    host: l.is_host,
                    spectating: true,
                },
            ]
        },
        None => b == a && fx.len() == 0,
    }
}

/// The names of the roster's entries that are (or are not) spectating.
pub open spec fn roster_names(roster: Seq<PresenceEntry>, spectating: bool) -> Seq<String> {
    roster.filter(|e: PresenceEntry| e.spectating == spectating).map_values(
        |e: PresenceEntry| e.name,
    )
}

/// `b` is `a` with the lobby roster `roster`: split into players and
/// spectators; the host re-announces a running game.
#[verifier::opaque]
pub open spec fn presence_seen(
    a: Session,
    b: Session,
    roster: Seq<PresenceEntry>,
    fx: Seq<Effect>,
) -> bool {
    match a.lobby {
        None => b == a && fx.len() == 0,
        Some(l) => {
            &&& b.lobby matches Some(l2) && l2.players@ == roster_names(roster, false)
                && l2.spectators@ == roster_names(roster, true) && l2 == (LobbyState {
                players: l2.players,
                spectators: l2.spectators,
                ..l
            })
            &&& b == (Session { lobby: b.lobby, ..a })
            &&& fx == if l.is_host && l.game.round >= 1 && l.phase != LobbyPhase::GameOver {
                seq![
                    Effect::Broadcast(
                        LobbyEvent::GameState { round: l.game.round, rounds: l.rounds },
                    ),
                ]
            } else {
                Seq::empty()
            }
        },
    }
}

/// `g2` is game `g` at the start of round `round`: nobody has submitted.
pub open spec fn round_begun(g: Game, g2: Game, round: u32) -> bool {
    &&& g2.round == round
    &&& g2.submitted_names().len() == 0
    &&& g2.rounds == g.rounds
    &&& g2.max_clips == g.max_clips
    &&& g2.standings == g.standings
}

/// `b` is `a` (in lobby `l`) after the start of round `rs`: the round
/// begins in the game; a participant loads its song, anyone else starts
/// spectating.
#[verifier::opaque]
pub open spec fn round_start_seen(
    a: Session,
    b: Session,
    l: LobbyState,
    rs: RoundStart,
    fx: Seq<Effect>,
) -> bool {
    exists|g2: Game|
        #[trigger] round_begun(l.game, g2, rs.round) && {
            let a1 = Session { lobby: Some(LobbyState { game: g2, ..l }), ..a };
            if l.is_host || l.playing_this_game {
                lobby_round_loading(a1, b, rs.round, rs.track_id, fx)
            } else {
                spectating_entered(a1, b, fx)
            }
        }
}

/// `b` is `a` after the lobby event `ev`, with effects `fx`.
#[verifier::opaque]
pub open spec fn broadcast_seen(a: Session, b: Session, ev: LobbyEvent, fx: Seq<Effect>) -> bool {
    match a.lobby {
        None => b == a && fx.len() == 0,
        Some(l) => match ev {
            LobbyEvent::NewGame(ng) => {
                let rounds = if ng.rounds >= 1 {
                    ng.rounds
                } else {
                    1
                };
                &&& b.lobby matches Some(l2) && l2 == (LobbyState {
                    rounds,
                    mode: mode_of_tag(ng.mode@),
                    category_label: ng.category,
                    game: l2.game,
                    phase: LobbyPhase::Waiting,
                    last_answer: None,
                    my_result_sent: false,
                    playing_this_game: true,
                    spectating: false,
                    ..l
                }) && fresh_game(l2.game, rounds, a.setup.schedule@.len())
                &&& b == (Session {
                    lobby: b.lobby,
                    turn: Turn { round: None, ..a.turn },
                    ui: Ui { screen: Screen::Lobby, ..a.ui },
                    ..a
                })
                &&& fx == seq![
                    Effect::StopAudio,
                    Effect::UpdatePresence {
                        name: a.challenge.player_name,
                        host: l.is_host,
                        spectating: false,
                    },
                ]
            },
            LobbyEvent::RoundStart(rs) => round_start_seen(a, b, l, rs, fx),
            LobbyEvent::GameState { round, rounds } => {
                let a1 = if rounds > 0 {
                    Session { lobby: Some(LobbyState { rounds, ..l }), ..a }
                } else {
                    a
                };
                spectating_entered(a1, b, fx)
            },
            LobbyEvent::Result(r) => {
                &&& b.lobby matches Some(l2) && l2 == (LobbyState { game: l2.game, ..l })
                    && game_after(l.game, l2.game, r)
                &&& b == (Session { lobby: b.lobby, ..a })
                &&& fx.len() == 0
            },
            LobbyEvent::GameOver => {
                &&& b == (Session {
                    lobby: Some(LobbyState { phase: LobbyPhase::GameOver, ..l }),
                    turn: Turn { round: None, ..a.turn },
                    ui: Ui { screen: Screen::Lobby, ..a.ui },
                    ..a
                })
                &&& fx == seq![Effect::StopAudio]
            },
        },
    }
}

/// `b` is `a` after the lobby channel event `evt`, with effects `fx`: a
/// roster change, a game event, or a disconnect (which, in a lobby, says why
/// and leaves it).
#[verifier::opaque]
pub open spec fn rt_event_step(a: Session, b: Session, evt: RtEvent, fx: Seq<Effect>) -> bool {
    match evt {
        RtEvent::Presence(roster) => presence_seen(a, b, roster@, fx),
        RtEvent::Broadcast(ev) => broadcast_seen(a, b, ev, fx),
        RtEvent::Disconnected(reason) => if a.lobby is Some {
            exists|m: Session|
                #[trigger] with_status(a, m, "Lobby disconnected: "@ + reason@) && lobby_left(
                    m,
                    b,
                    fx,
                )
        } else {
            b == a && fx.len() == 0
        },
    }
}

fn copy_category(c: &Option<Category>) -> (r: Option<Category>)
    ensures
        r == *c,
{
    match c {
        Some(x) => Some(x.clone()),
        None => None,
    }
}

impl Session {
    /// Host: pick a random song from the pool and broadcast the round start.
    fn start_lobby_round(&mut self, round: u32) -> (fx: Vec<Effect>)
        ensures
            round_started(*old(self), *final(self), round, fx@),
            old(self).wf() ==> final(self).wf(),
    {
        reveal(round_started);
        reveal(with_status);
        let mut lobby = match self.lobby.take() {
            Some(l) => l,
            None => return Vec::new(),
        };
        let ghost l = lobby;
        let picked = pick_fresh(&lobby.pool, &lobby.played);
        let (track_id, key) = match picked {
            Some(t) => {
                let ghost chosen = *t;
                let id = t.id;
                let k = song_key(t);
                proof {
                    assert(id == chosen.id && k@ == key_of(chosen));
                }
                (id, k)
            },
            None => {
                self.lobby = Some(lobby);
                self.set_status(String::from_str("No playable songs in that category."));
                return Vec::new();
            },
        };
        let ghost t = picked->Some_0;
        lobby.played.push(key);
        assert(key_views(lobby.played@) =~= key_views(l.played@).push(key_of(*t)));
        self.lobby = Some(lobby);
        let fx = single(Effect::Broadcast(LobbyEvent::RoundStart(RoundStart { round, track_id })));
        assert(l.pool@.contains(*t));
        fx
    }

    /// Host: (re)start a game: broadcast the configuration, then round 1.
    fn start_lobby_game(&mut self) -> (fx: Vec<Effect>)
        requires
            old(self).wf(),
        ensures
            game_started(*old(self), *final(self), fx@),
            final(self).wf(),
    {
        reveal(game_started);
        reveal(with_status);
        reveal(round_started);
        let mut lobby = match self.lobby.take() {
            Some(l) => l,
            None => return Vec::new(),
        };
        if lobby.pool.len() == 0 {
            self.lobby = Some(lobby);
            self.set_status(String::from_str("Still loading songs — try again in a moment."));
            return Vec::new();
        }
        let ng = NewGame {
            rounds: lobby.rounds,
            mode: String::from_str(lobby.mode.tag()),
            category: lobby.category_label.clone(),
        };
        let mut fx = single(Effect::Broadcast(LobbyEvent::NewGame(ng)));
        lobby.game = Game::new(lobby.rounds, self.setup.schedule.len() as u32);
        lobby.played = Vec::new();
        assert(key_views(lobby.played@) =~= Seq::<Seq<char>>::empty());
        self.lobby = Some(lobby);
        let mut more = self.start_lobby_round(1);
        let ghost first = fx@[0];
        let ghost rest = more@;
        fx.append(&mut more);
        assert(fx@ =~= seq![first] + rest);
        fx
    }

    /// Actually advance: the next round, or the end of the game.
    fn do_advance_lobby(&mut self) -> (fx: Vec<Effect>)
        requires
            old(self).wf(),
        ensures
            advanced_now(*old(self), *final(self), fx@),
            final(self).wf(),
    {
        reveal(advanced_now);
        self.challenge.confirm_skip_round = false;
        let (last, next) = match &self.lobby {
            None => return Vec::new(),
            Some(l) => (l.game.is_final_round(), l.game.round),
        };
        if last {
            let mut lobby = match self.lobby.take() {
                Some(l) => l,
                None => return Vec::new(),
            };
            lobby.phase = LobbyPhase::GameOver;
            self.lobby = Some(lobby);
            let mut fx = single(Effect::Broadcast(LobbyEvent::GameOver));
            fx.push(Effect::StopAudio);
            assert(fx@ =~= seq![Effect::Broadcast(LobbyEvent::GameOver), Effect::StopAudio]);
            fx
        } else {
            self.start_lobby_round(next + 1)
        }
    }

    /// Host: move past the board; ask first while players are still guessing.
    fn advance_lobby(&mut self) -> (fx: Vec<Effect>)
        requires
            old(self).wf(),
        ensures
            lobby_advanced(*old(self), *final(self), fx@),
            final(self).wf(),
    {
        reveal(lobby_advanced);
        let complete = match &self.lobby {
            Some(l) => l.game.round_complete(l.players.len()),
            None => true,
        };
        if !complete {
            self.challenge.confirm_skip_round = true;
            return Vec::new();
        }
        self.do_advance_lobby()
    }

    /// The host's context-sensitive primary action.
    fn lobby_primary_action(&mut self) -> (fx: Vec<Effect>)
        requires
            old(self).wf(),
        ensures
            primary_done(*old(self), *final(self), fx@),
            final(self).wf(),
    {
        reveal(primary_done);
        let phase = match &self.lobby {
            Some(l) => if l.is_host {
                l.phase
            } else {
                return Vec::new();
            },
            None => return Vec::new(),
        };
        match phase {
            LobbyPhase::Waiting | LobbyPhase::GameOver => self.start_lobby_game(),
            LobbyPhase::Between => self.advance_lobby(),
            LobbyPhase::Spectating => Vec::new(),
        }
    }

    /// Host: re-open the config to change this lobby's settings (waiting or
    /// game over only), pre-filled from the lobby.
    pub fn open_lobby_settings(&mut self)
        ensures
            lobby_settings_opened(*old(self), *final(self)),
            old(self).wf() ==> final(self).wf(),
    {
        reveal(lobby_settings_opened);
        let (rounds, mode, category) = match &self.lobby {
            Some(l) => if l.is_host && (l.phase == LobbyPhase::Waiting || l.phase
                == LobbyPhase::GameOver) {
                (l.rounds, l.mode, copy_category(&l.category))
            } else {
                return ;
            },
            None => return ,
        };
        self.challenge.host_rounds = rounds;
        self.challenge.host_mode = mode;
        self.challenge.host_category = category;
        self.challenge.editing_lobby = true;
        self.ui.screen = Screen::HostConfig;
    }

    /// Retune the running lobby to the configured rounds, effect and pool
    /// `category`; the effects reload the pool if the category changed and
    /// update the advertisement.
    fn retune_lobby(&mut self, category: Category) -> (fx: Vec<Effect>)
        requires
            old(self).lobby is Some,
            old(self).wf(),
        ensures
            final(self).wf(),
            ({
                let a = *old(self);
                let l = a.lobby->Some_0;
                let changed = l.category_label@ != category.name@;
                &&& *final(self) == (Session {
                    lobby: Some(
                        LobbyState {
                            rounds: if a.challenge.host_rounds >= 1 {
                                a.challenge.host_rounds
                            } else {
                                1
                            },
                            mode: a.challenge.host_mode,
                            category: Some(category),
                            category_label: category.name,
                            ..l
                        },
                    ),
                    ..a
                })
                &&& fx@ == (if changed {
                    seq![Effect::FetchLobbyPool(category)]
                } else {
                    Seq::empty()
                }) + (if a.setup.online {
                    seq![
                        Effect::UpdateParty {
                            code: l.code,
                            public: a.challenge.host_public,
                            max_players: a.challenge.host_max,
                            label: category.name,
                        },
                    ]
                } else {
                    Seq::empty()
                })
            }),
    {
        let mut lobby = match self.lobby.take() {
            Some(l) => l,
            None => return Vec::new(),
        };
        let changed = lobby.category_label != category.name;
        lobby.rounds = if self.challenge.host_rounds >= 1 {
            self.challenge.host_rounds
        } else {
            1
        };
        lobby.mode = self.challenge.host_mode;
        lobby.category_label = category.name.clone();
        let code = lobby.code.clone();
        let label = category.name.clone();
        let fetch = category.clone();
        lobby.category = Some(category);
        self.lobby = Some(lobby);
        let mut head: Vec<Effect> = Vec::new();
        if changed {
            head.push(Effect::FetchLobbyPool(fetch));
        }
        let mut tail: Vec<Effect> = Vec::new();
        if self.setup.online {
            tail.push(
                Effect::UpdateParty {
                    code,
                    public: self.challenge.host_public,
                    max_players: self.challenge.host_max,
                    label,
                },
            );
        }
        let ghost h = head@;
        let ghost t = tail@;
        head.append(&mut tail);
        assert(head@ =~= h + t);
        head
    }

    /// Apply the edited settings to the running lobby: update it, reload the
    /// pool if the category changed, and update its advertisement.
    pub(crate) fn apply_lobby_settings(&mut self) -> (fx: Vec<Effect>)
        requires
            old(self).wf(),
        ensures
            settings_applied(*old(self), *final(self), fx@),
            final(self).wf(),
    {
        reveal(settings_applied);
        self.challenge.editing_lobby = false;
        self.ui.screen = Screen::Lobby;
        let category = match &self.challenge.host_category {
            Some(c) => c.clone(),
            None => return Vec::new(),
        };
        if self.lobby.is_none() {
            return Vec::new();
        }
        self.retune_lobby(category)
    }

    /// Leave the lobby: remove its advertisement (host, or the last one
    /// there), close the channel, stop the audio and go back to Challenge.
    fn leave_lobby(&mut self) -> (fx: Vec<Effect>)
        requires
            old(self).wf(),
        ensures
            lobby_left(*old(self), *final(self), fx@),
            final(self).wf(),
    {
        reveal(lobby_left);
        let mut fx: Vec<Effect> = Vec::new();
        let had_lobby = self.lobby.is_some();
        if let Some(l) = &self.lobby {
            let alone = l.players.len() <= 1 && l.spectators.len() <= 1 - l.players.len();
            if (l.is_host || alone) && self.setup.online {
                fx.push(Effect::DeleteParty(l.code.clone()));
            }
        }
        self.challenge.editing_lobby = false;
        self.challenge.confirm_skip_round = false;
        if had_lobby {
            fx.push(Effect::CloseLobby);
        }
        self.lobby = None;
        self.turn.round = None;
        fx.push(Effect::StopAudio);
        self.ui.screen = Screen::ChallengeMenu;
        self.reset_turn();
        proof {
            let a = *old(self);
            let fx_del = match a.lobby {
                Some(l) => if (l.is_host || l.players@.len() + l.spectators@.len() <= 1)
                    && a.setup.online {
                    seq![Effect::DeleteParty(l.code)]
                } else {
                    Seq::empty()
                },
                None => Seq::empty(),
            };
            let fx_close = if a.lobby is Some {
                seq![Effect::CloseLobby]
            } else {
                Seq::empty()
            };
            assert(fx@ =~= fx_del + fx_close + seq![Effect::StopAudio]);
        }
        fx
    }

    pub(crate) fn on_lobby_key(&mut self, key: Key) -> (fx: Vec<Effect>)
        requires
            old(self).wf(),
        ensures
            lobby_key_step(*old(self), *final(self), key, fx@),
            final(self).wf(),
    {
        reveal(lobby_key_step);
        if self.challenge.confirm_skip_round {
            if key == Key::Enter || key == Key::Char('y') {
                return self.do_advance_lobby();
            }
            self.challenge.confirm_skip_round = false;
            return Vec::new();
        }
        match key {
            Key::Enter => self.lobby_primary_action(),
            Key::Char(c) => {
                if c == 's' {
                    self.open_lobby_settings();
                }
                Vec::new()
            },
            Key::Esc => self.leave_lobby(),
            _ => Vec::new(),
        }
    }

    /// A round's song is announced: load it.
    fn load_lobby_round(&mut self, round: u32, track_id: i64) -> (fx: Vec<Effect>)
        ensures
            lobby_round_loading(*old(self), *final(self), round, track_id, fx@),
            old(self).wf() ==> final(self).wf(),
    {
        reveal(lobby_round_loading);
        self.turn.round = None;
        self.ui.screen = Screen::Loading;
        self.reset_turn();
        single(Effect::LoadLobbyRound { round, track_id })
    }

    /// Become a spectator of the running game (not for the host, players of
    /// this game, or someone already watching).
    fn enter_spectating(&mut self) -> (fx: Vec<Effect>)
        ensures
            spectating_entered(*old(self), *final(self), fx@),
            old(self).wf() ==> final(self).wf(),
    {
        reveal(spectating_entered);
        let mut lobby = match self.lobby.take() {
            Some(l) => l,
            None => return Vec::new(),
        };
        if lobby.is_host || lobby.playing_this_game || lobby.spectating {
            self.lobby = Some(lobby);
            return Vec::new();
        }
        lobby.spectating = true;
        lobby.phase = LobbyPhase::Spectating;
        let host = lobby.is_host;
        self.lobby = Some(lobby);
        self.turn.round = None;
        self.ui.screen = Screen::Lobby;
        single(
            Effect::UpdatePresence {
                name: self.challenge.player_name.clone(),
                host,
                spectating: true,
            },
        )
    }

    /// The roster changed: split it into players and spectators; the host
    /// re-announces a running game so fresh joiners know to spectate.
    fn on_presence(&mut self, roster: Vec<PresenceEntry>) -> (fx: Vec<Effect>)
        requires
            old(self).wf(),
        ensures
            presence_seen(*old(self), *final(self), roster@, fx@),
            final(self).wf(),
    {
        reveal(presence_seen);
        let mut lobby = match self.lobby.take() {
            Some(l) => l,
            None => return Vec::new(),
        };
        let mut players: Vec<String> = Vec::new();
        let mut spectators: Vec<String> = Vec::new();
        let mut i: usize = 0;
        assert(roster@.take(0) =~= Seq::<PresenceEntry>::empty());
        while i < roster.len()
            invariant
                i <= roster.len(),
                players@ == roster_names(roster@.take(i as int), false),
                spectators@ == roster_names(roster@.take(i as int), true),
            decreases roster.len() - i,
        {
            assert(roster@.take(i + 1).drop_last() =~= roster@.take(i as int));
            reveal_with_fuel(Seq::filter, 1);
            let e = &roster[i];
            if e.spectating {
                spectators.push(e.name.clone());
            } else {
                players.push(e.name.clone());
            }
            assert(players@ =~= roster_names(roster@.take(i + 1), false));
            assert(spectators@ =~= roster_names(roster@.take(i + 1), true));
            i = i + 1;
        }
        assert(roster@.take(roster.len() as int) =~= roster@);
        lobby.players = players;
        lobby.spectators = spectators;
        let announce = lobby.is_host && lobby.game.round >= 1 && lobby.phase
            != LobbyPhase::GameOver;
        let (round, rounds) = (lobby.game.round, lobby.rounds);
        self.lobby = Some(lobby);
        if announce {
            single(Effect::Broadcast(LobbyEvent::GameState { round, rounds }))
        } else {
            Vec::new()
        }
    }

    fn on_new_game(&mut self, ng: NewGame) -> (fx: Vec<Effect>)
        requires
            old(self).wf(),
            old(self).lobby is Some,
        ensures
            broadcast_seen(*old(self), *final(self), LobbyEvent::NewGame(ng), fx@),
            final(self).wf(),
    {
        reveal(broadcast_seen);
        let mut lobby = match self.lobby.take() {
            Some(l) => l,
            None => return Vec::new(),
        };
        lobby.rounds = if ng.rounds >= 1 {
            ng.rounds
        } else {
            1
        };
        lobby.mode = GameMode::from_tag(ng.mode.as_str());
        lobby.category_label = ng.category;
        lobby.game = Game::new(lobby.rounds, self.setup.schedule.len() as u32);
        lobby.phase = LobbyPhase::Waiting;
        lobby.last_answer = None;
        lobby.my_result_sent = false;
        lobby.playing_this_game = true;
        lobby.spectating = false;
        let host = lobby.is_host;
        self.lobby = Some(lobby);
        self.turn.round = None;
        self.ui.screen = Screen::Lobby;
        let mut fx = single(Effect::StopAudio);
        fx.push(
            Effect::UpdatePresence {
                name: self.challenge.player_name.clone(),
                host,
                spectating: false,
            },
        );
        assert(fx@ =~= seq![
            Effect::StopAudio,
            Effect::UpdatePresence {
                name: old(self).challenge.player_name,
                host,
                spectating: false,
            },
        ]);
        fx
    }

    fn on_round_start(&mut self, rs: RoundStart) -> (fx: Vec<Effect>)
        requires
            old(self).wf(),
            old(self).lobby is Some,
        ensures
            broadcast_seen(*old(self), *final(self), LobbyEvent::RoundStart(rs), fx@),
            final(self).wf(),
    {
        reveal(broadcast_seen);
        let mut lobby = match self.lobby.take() {
            Some(l) => l,
            None => return Vec::new(),
        };
        lobby.game.start_round(rs.round);
        let participate = lobby.is_host || lobby.playing_this_game;
        let ghost g2 = lobby.game;
        let ghost l = old(self).lobby->Some_0;
        assert(lobby == (LobbyState { game: g2, ..l }));
        self.lobby = Some(lobby);
        let ghost a1 = *self;
        assert(a1 == (Session { lobby: Some(LobbyState { game: g2, ..l }), ..*old(self) }));
        let fx = if participate {
            self.load_lobby_round(rs.round, rs.track_id)
        } else {
            self.enter_spectating()
        };
        assert(round_begun(l.game, g2, rs.round));
        assert(if l.is_host || l.playing_this_game {
            lobby_round_loading(a1, *self, rs.round, rs.track_id, fx@)
        } else {
            spectating_entered(a1, *self, fx@)
        });
        proof {
            reveal(round_start_seen);
        }
        assert(round_start_seen(*old(self), *self, l, rs, fx@));
        fx
    }

    fn on_game_state(&mut self, round: u32, rounds: u32) -> (fx: Vec<Effect>)
        requires
            old(self).wf(),
            old(self).lobby is Some,
        ensures
            broadcast_seen(*old(self), *final(self), LobbyEvent::GameState { round, rounds }, fx@),
            final(self).wf(),
    {
        reveal(broadcast_seen);
        if rounds > 0 {
            let mut lobby = match self.lobby.take() {
                Some(l) => l,
                None => return Vec::new(),
            };
            lobby.rounds = rounds;
            self.lobby = Some(lobby);
        }
        self.enter_spectating()
    }

    fn on_result_event(&mut self, r: RoundResult) -> (fx: Vec<Effect>)
        requires
            old(self).wf(),
            old(self).lobby is Some,
        ensures
            broadcast_seen(*old(self), *final(self), LobbyEvent::Result(r), fx@),
            final(self).wf(),
    {
        reveal(broadcast_seen);
        let mut lobby = match self.lobby.take() {
            Some(l) => l,
            None => return Vec::new(),
        };
        let fresh = r.round == lobby.game.round && !lobby.game.has_submitted(&r.name);
        if !fresh || lobby.game.standings.fits(&r, lobby.game.max_clips) {
            lobby.game.on_result(&r);
        }
        self.lobby = Some(lobby);
        Vec::new()
    }

    fn on_game_over(&mut self) -> (fx: Vec<Effect>)
        requires
            old(self).wf(),
            old(self).lobby is Some,
        ensures
            broadcast_seen(*old(self), *final(self), LobbyEvent::GameOver, fx@),
            final(self).wf(),
    {
        reveal(broadcast_seen);
        let mut lobby = match self.lobby.take() {
            Some(l) => l,
            None => return Vec::new(),
        };
        lobby.phase = LobbyPhase::GameOver;
        self.lobby = Some(lobby);
        self.turn.round = None;
        self.ui.screen = Screen::Lobby;
        single(Effect::StopAudio)
    }

    /// A game event arrived on the lobby channel. Every client runs the same
    /// logic; only the host ever sends start/next/game-over.
    fn on_lobby_broadcast(&mut self, ev: LobbyEvent) -> (fx: Vec<Effect>)
        requires
            old(self).wf(),
        ensures
            broadcast_seen(*old(self), *final(self), ev, fx@),
            final(self).wf(),
    {
        if self.lobby.is_none() {
            proof {
                reveal(broadcast_seen);
            }
            return Vec::new();
        }
        match ev {
            LobbyEvent::NewGame(ng) => self.on_new_game(ng),
            LobbyEvent::RoundStart(rs) => self.on_round_start(rs),
            LobbyEvent::GameState { round, rounds } => self.on_game_state(round, rounds),
            LobbyEvent::Result(r) => self.on_result_event(r),
            LobbyEvent::GameOver => self.on_game_over(),
        }
    }

    /// Handle an event from the lobby channel.
    pub fn handle_rt_event(&mut self, evt: RtEvent) -> (fx: Vec<Effect>)
        requires
            old(self).wf(),
        ensures
            rt_event_step(*old(self), *final(self), evt, fx@),
            final(self).wf(),
    {
        reveal(rt_event_step);
        match evt {
            RtEvent::Presence(roster) => self.on_presence(roster),
            RtEvent::Broadcast(ev) => self.on_lobby_broadcast(ev),
            RtEvent::Disconnected(reason) => {
                if self.lobby.is_none() {
                    return Vec::new();
                }
                let mut text = String::from_str("Lobby disconnected: ");
                text.append(reason.as_str());
                self.set_status(text);
                let ghost m = *self;
                let fx = self.leave_lobby();
                assert(with_status(*old(self), m, "Lobby disconnected: "@ + reason@));
                fx
            },
        }
    }
}

} // verus!
