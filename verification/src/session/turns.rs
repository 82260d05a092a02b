//! Playing a round: guesses, skips, and finishing a solo or lobby round.

use vstd::prelude::*;

use crate::deezer::Track;
use crate::game::{awarded, guess_applied, skip_applied, GuessLog, Outcome, Round};
use crate::lobby::{fits, Game, RoundResult};
use crate::session::control::{
    clip_of, duration_ms, elapsed, finished_solo, keeps_turn, millis, profile_after, round_record, share, single,
    with_clip_started, with_turn_reset, Effect, LobbyEvent, Session, Tally, Turn,
};
use crate::session::{LobbyPhase, LobbyState};

verus! {

/// How many entries of a guess log are wrong guesses (skips are not).
pub open spec fn mistakes_in(log: Seq<GuessLog>) -> nat
    decreases log.len(),
{
    if log.len() == 0 {
        0
    } else {
        mistakes_in(log.drop_last()) + (if log.last() is Skipped {
            0nat
        } else {
            1nat
        })
    }
}

fn count_mistakes(log: &Vec<GuessLog>) -> (r: u32)
    ensures
        r == mistakes_in(log@) as u32,
{
    let mut n: usize = 0;
    let mut i: usize = 0;
    assert(log@.take(0) =~= Seq::<GuessLog>::empty());
    while i < log.len()
        invariant
            i <= log.len(),
            n == mistakes_in(log@.take(i as int)),
            n <= i,
        decreases log.len() - i,
    {
        assert(log@.take(i + 1).drop_last() =~= log@.take(i as int));
        match &log[i] {
            GuessLog::Skipped => {},
            _ => {
                n = n + 1;
            },
        }
        i = i + 1;
    }
    assert(log@.take(log.len() as int) =~= log@);
    n as u32
}

/// The result a lobby player reports for round `r` of lobby `l`: this
/// round's number, the player's name, whether it was solved, the clips used
/// (the guess number when solved, every clip when not) and the wrong
/// guesses, with the round's right-artist consolation; the time is measured
/// from the round's start (0 when unknown).
pub open spec fn lobby_result(s: Session, r: Round, l: LobbyState, won: bool, res: RoundResult) -> bool {
    &&& res.round == l.game.round
    &&& res.name == s.challenge.player_name
    &&& res.solved == won
    &&& res.clips == (if won {
        (r.level + 1) as u32
    } else {
        r.levels() as u32
    })
    &&& res.mistakes == mistakes_in(r.guesses@) as u32
    &&& res.artist_bonus == r.artist_bonus
    &&& (l.round_started_at is None ==> res.time_ms == 0)
}

/// `g2` is game `g` after the result `res` came in: a new result for the
/// current round (one per player) goes into the standings; anything else,
/// or a result that would overflow a total, changes nothing.
pub open spec fn game_after(g: Game, g2: Game, res: RoundResult) -> bool {
    let accepted = res.round == g.round && !g.submitted_names().contains(res.name@);
    if accepted && !fits(g.standings.rows(), res, g.max_clips) {
        g2 == g
    } else {
        &&& g2.standings.wf()
        &&& g2.round == g.round
        &&& g2.rounds == g.rounds
        &&& g2.max_clips == g.max_clips
        &&& accepted ==> {
            &&& g2.submitted_names() == g.submitted_names().push(res.name@)
            &&& g2.standings.rows() == crate::lobby::record_rows(
                g.standings.rows(),
                res,
                g.max_clips,
            )
        }
        &&& !accepted ==> {
            &&& g2.submitted_names() == g.submitted_names()
            &&& g2.standings == g.standings
        }
    }
}

/// `l2` is lobby `l` after our own result `res` for a round with answer
/// `answer`: scored locally, the song revealed, marked as sent, and the
/// board between rounds showing.
pub open spec fn lobby_scored(l: LobbyState, l2: LobbyState, res: RoundResult, answer: Track) -> bool {
    &&& l2 == (LobbyState {
        game: l2.game,
        last_answer: Some(answer),
        my_result_sent: true,
        phase: LobbyPhase::Between,
        ..l
    })
    &&& game_after(l.game, l2.game, res)
}

/// The category a lobby round is recorded under: the lobby's label, or
/// "Challenge" when it has none.
pub open spec fn challenge_category(l: LobbyState) -> Seq<char> {
    if l.category_label@.len() == 0 {
        "Challenge"@
    } else {
        l.category_label@
    }
}

/// `b` is `a` after its lobby round ended (won or not), with effects `fx`.
/// A spectator changes nothing. Otherwise the reveal plays and one more
/// round is counted; then, once per round, our result is scored locally and
/// broadcast, the round goes into the profile (then saved), and the lobby
/// board shows.
#[verifier::opaque]
pub open spec fn finished_lobby(a: Session, b: Session, won: bool, fx: Seq<Effect>) -> bool {
    if a.lobby matches Some(l) && l.spectating {
        b == a && fx.len() == 0
    } else {
        let head = match a.turn.round {
            Some(r) => seq![Effect::PlayFull(r.preview)],
            None => Seq::empty(),
        };
        let counted = Session {
            tally: Tally { rounds_played: a.tally.rounds_played.saturating_add(1), ..a.tally },
            ..a
        };
        match (a.turn.round, a.lobby) {
            (Some(r), Some(l)) => if !l.my_result_sent {
                &&& b == (Session {
                    lobby: b.lobby,
                    profile: b.profile,
                    ui: crate::session::control::Ui { screen: crate::session::Screen::Lobby, ..a.ui },
                    ..counted
                })
                &&& exists|res: RoundResult|
                    #[trigger] lobby_result(a, r, l, won, res) && fx == head + seq![
                        Effect::Broadcast(LobbyEvent::Result(res)),
                        Effect::SaveProfile,
                    ] && (b.lobby matches Some(l2) && lobby_scored(l, l2, res, r.answer))
                &&& exists|c: String|
                    c@ == challenge_category(l) && #[trigger] profile_after(
                        a.profile,
                        b.profile,
                        round_record(r, won, awarded(r), c),
                    )
            } else {
                b == counted && fx == head
            },
            _ => b == counted && fx == head,
        }
    }
}

/// `b` is `a` after its round ended: the lobby board when in a lobby, else
/// the solo result.
pub open spec fn finished(a: Session, b: Session, won: bool, fx: Seq<Effect>) -> bool {
    if a.lobby is Some {
        finished_lobby(a, b, won, fx)
    } else {
        finished_solo(a, b, won, fx)
    }
}

/// `b` is `a` after its turn: a won or lost round is finished, a round
/// still in play plays its (next) clip.
#[verifier::opaque]
pub open spec fn turn_ended(a: Session, b: Session, fx: Seq<Effect>) -> bool {
    match a.turn.round {
        Some(r) => match r.outcome {
            Outcome::Won => finished(a, b, true, fx),
            Outcome::Lost => finished(a, b, false, fx),
            Outcome::Playing => fx == clip_of(a) && with_clip_started(a, b),
        },
        None => b == a && fx.len() == 0,
    }
}

/// `m` is `a` after the guess `guess` in its round, with the turn reset.
#[verifier::opaque]
pub open spec fn guessed(a: Session, m: Session, guess: Track) -> bool {
    &&& a.turn.round matches Some(r) && m.turn.round matches Some(r2) && guess_applied(r, r2, guess)
    &&& with_turn_reset(Session { turn: Turn { round: m.turn.round, ..a.turn }, ..a }, m)
}

/// `m` is `a` after a skip in its round, with the turn reset.
#[verifier::opaque]
pub open spec fn skipped(a: Session, m: Session) -> bool {
    &&& a.turn.round matches Some(r) && m.turn.round matches Some(r2) && skip_applied(r, r2)
    &&& with_turn_reset(Session { turn: Turn { round: m.turn.round, ..a.turn }, ..a }, m)
}

/// `b` is `m` (just after a skip) with the clip handled: a lost round is
/// finished; otherwise the playing clip runs on to the new checkpoint when
/// `extend`, else the clip restarts.
#[verifier::opaque]
pub open spec fn after_skip(m: Session, b: Session, extend: bool, fx: Seq<Effect>) -> bool {
    match m.turn.round {
        Some(r) => if r.outcome == Outcome::Lost {
            finished(m, b, false, fx)
        } else if extend {
            b == m && fx == seq![Effect::ExtendClip(r.schedule_view()[r.level as int])]
        } else {
            fx == clip_of(m) && with_clip_started(m, b)
        },
        None => b == m && fx.len() == 0,
    }
}

/// The state in the middle of a turn ending in `b`: `a` with `b`'s round
/// and the turn reset (what follows a guess or a skip leaves both as they
/// are).
pub open spec fn turn_base(a: Session, b: Session) -> Session {
    Session {
        turn: Turn {
            round: b.turn.round,
            input: b.turn.input,
            suggestions: b.turn.suggestions,
            suggestion_index: 0,
            pending_search_at: None,
            ..a.turn
        },
        ..a
    }
}

/// `b` is `a` after a skip in its round: nothing without a round; else the
/// skip is logged and the clip handled (`extend` says whether the playing
/// clip runs on rather than restarting).
#[verifier::opaque]
pub open spec fn skip_step(a: Session, b: Session, extend: bool, fx: Seq<Effect>) -> bool {
    if a.turn.round is None {
        b == a && fx.len() == 0
    } else {
        skipped(a, turn_base(a, b)) && after_skip(turn_base(a, b), b, extend, fx)
    }
}

/// `b` is `a` after a guess `guess`: nothing without a round; else the
/// guess is applied, the turn reset and the turn ended.
#[verifier::opaque]
pub open spec fn guess_step(a: Session, b: Session, guess: Track, fx: Seq<Effect>) -> bool {
    if a.turn.round is None {
        b == a && fx.len() == 0
    } else {
        guessed(a, turn_base(a, b), guess) && turn_ended(turn_base(a, b), b, fx)
    }
}

/// `b` is `a` after the player named the anime: the round (if any) is won,
/// the turn reset, and the round finished as a solve.
#[verifier::opaque]
pub open spec fn anime_step(a: Session, b: Session, fx: Seq<Effect>) -> bool {
    let m = turn_base(a, b);
    &&& m.turn.round == match a.turn.round {
        Some(r) => Some(Round { outcome: Outcome::Won, ..r }),
        None => None,
    }
    &&& with_turn_reset(Session { turn: Turn { round: m.turn.round, ..a.turn }, ..a }, m)
    &&& finished(m, b, true, fx)
}

/// A skip may let the clip run on only with a round and a clip started,
/// under an effect that can extend seamlessly (Normal, Muffled).
pub open spec fn skip_may_extend(a: Session) -> bool {
    &&& a.turn.round is Some
    &&& a.turn.play_started_at is Some
    &&& (crate::session::control::active_mode(a) == crate::game::GameMode::Normal
        || crate::session::control::active_mode(a) == crate::game::GameMode::Muffled)
}

/// A skip lets the playing clip run on only under an effect that can extend
/// seamlessly (Normal, Muffled) and while the clip is more than 150 ms from
/// its checkpoint.
pub open spec fn clip_continues(mode: crate::game::GameMode, elapsed_ms: u128, clip_ms: u128) -> bool {
    (mode == crate::game::GameMode::Normal || mode == crate::game::GameMode::Muffled) && elapsed_ms
        + 150 < clip_ms
}

/// Whether a skip in `a`, with the playing clip started `elapsed_ms`
/// milliseconds ago (none where the clock was not read), lets the clip run
/// on: only with a round and a started clip, as `clip_continues` says of the
/// round's current clip.
pub open spec fn skip_extends(a: Session, elapsed_ms: Option<u128>) -> bool {
    &&& elapsed_ms is Some
    &&& a.turn.play_started_at is Some
    &&& a.turn.round matches Some(r) && clip_continues(
        crate::session::control::active_mode(a),
        elapsed_ms->0,
        duration_ms(r.schedule_view()[r.level as int]),
    )
}

/// Whether a skip should continue the live clip: see `clip_continues`.
pub fn continues_clip(mode: crate::game::GameMode, elapsed_ms: u128, clip_ms: u128) -> (r: bool)
    ensures
        r == clip_continues(mode, elapsed_ms, clip_ms),
{
    (mode == crate::game::GameMode::Normal || mode == crate::game::GameMode::Muffled) && clip_ms > 150
        && elapsed_ms < clip_ms - 150
}


impl Session {
    /// The result to report for the lobby round just played (none without a
    /// round or a lobby, or once it was sent).
    fn lobby_result_for(&self, won: bool) -> (res: Option<RoundResult>)
        requires
            self.wf(),
        ensures
            match (self.turn.round, self.lobby) {
                (Some(r), Some(l)) => if l.my_result_sent {
                    res is None
                } else {
                    res matches Some(x) && lobby_result(*self, r, l, won, x)
                },
                _ => res is None,
            },
    {
        let round = match &self.turn.round {
            Some(r) => r,
            None => return None,
        };
        let lobby = match &self.lobby {
            Some(l) => l,
            None => return None,
        };
        if lobby.my_result_sent {
            return None;
        }
        let clips = if won {
            round.guess_number() as u32
        } else {
            round.total_levels() as u32
        };
        let time_ms: u32 = match &lobby.round_started_at {
            Some(t) => {
                let ms = millis(&elapsed(t));
                #[verifier::truncate]
                (ms as u32)
            },
            None => 0,
        };
        Some(
            RoundResult {
                round: lobby.game.round,
                name: self.challenge.player_name.clone(),
                solved: won,
                clips,
                time_ms,
                mistakes: count_mistakes(&round.guesses),
                artist_bonus: round.artist_bonus,
            },
        )
    }

    /// Score our own result locally and show the board between rounds.
    fn score_own_result(&mut self, res: &RoundResult)
        requires
            old(self).wf(),
            old(self).turn.round is Some,
            old(self).lobby is Some,
        ensures
            final(self).wf(),
            *final(self) == (Session { lobby: final(self).lobby, ..*old(self) }),
            final(self).lobby matches Some(l2) && lobby_scored(
                old(self).lobby->Some_0,
                l2,
                *res,
                old(self).turn.round->Some_0.answer,
            ),
    {
        let answer = match &self.turn.round {
            Some(r) => r.answer.clone(),
            None => return,
        };
        let mut lobby = match self.lobby.take() {
            Some(l) => l,
            None => return,
        };
        let fresh = res.round == lobby.game.round && !lobby.game.has_submitted(&res.name);
        if !fresh || lobby.game.standings.fits(res, lobby.game.max_clips) {
            lobby.game.on_result(res);
        }
        lobby.last_answer = Some(answer);
        lobby.my_result_sent = true;
        lobby.phase = LobbyPhase::Between;
        self.lobby = Some(lobby);
    }

    /// A lobby round ended (solved, out of guesses, or forfeited): reveal the
    /// song, then — once per round — score and broadcast our result, record
    /// it in the profile and save. Spectators never finish a round.
    pub(crate) fn finish_lobby_round(&mut self, won: bool) -> (fx: Vec<Effect>)
        requires
            old(self).wf(),
        ensures
            final(self).wf(),
            finished_lobby(*old(self), *final(self), won, fx@),
            keeps_turn(*old(self), *final(self)),
    {
        reveal(finished_lobby);
        let spectating = match &self.lobby {
            Some(l) => l.spectating,
            None => false,
        };
        if spectating {
            return Vec::new();
        }
        let mut fx: Vec<Effect> = Vec::new();
        if let Some(round) = &self.turn.round {
            fx.push(Effect::PlayFull(share(&round.preview)));
        }
        self.tally.rounds_played = self.tally.rounds_played.saturating_add(1);
        let ghost counted = *self;
        let res = match self.lobby_result_for(won) {
            Some(x) => x,
            None => return fx,
        };
        let points = match &self.turn.round {
            Some(r) => r.awarded_points(),
            None => 0,
        };
        let category = match &self.lobby {
            Some(l) => if l.category_label.as_str().is_empty() {
                String::from_str("Challenge")
            } else {
                l.category_label.clone()
            },
            None => String::from_str("Challenge"),
        };
        let ghost cat = category;
        self.score_own_result(&res);
        let ghost scored = *self;
        fx.push(Effect::Broadcast(LobbyEvent::Result(res)));
        let mut more = self.record_to_profile(won, points, category);
        fx.append(&mut more);
        self.ui.screen = crate::session::Screen::Lobby;
        proof {
            let r = old(self).turn.round->Some_0;
            let l = old(self).lobby->Some_0;
            assert(lobby_result(*old(self), r, l, won, res));
            assert(fx@ =~= seq![Effect::PlayFull(r.preview)] + seq![
                Effect::Broadcast(LobbyEvent::Result(res)),
                Effect::SaveProfile,
            ]);
            assert(profile_after(old(self).profile, self.profile, round_record(r, won, awarded(r), cat)));
        }
        fx
    }

    /// Route a finished round to the lobby board or the solo result.
    pub(crate) fn finish(&mut self, won: bool) -> (fx: Vec<Effect>)
        requires
            old(self).wf(),
        ensures
            final(self).wf(),
            finished(*old(self), *final(self), won, fx@),
            keeps_turn(*old(self), *final(self)),
    {
        if self.lobby.is_some() {
            self.finish_lobby_round(won)
        } else {
            self.finish_round(won)
        }
    }

    /// The player named the anime this song is from: count it as a solve.
    pub(crate) fn win_anime_guess(&mut self) -> (fx: Vec<Effect>)
        requires
            old(self).wf(),
        ensures
            final(self).wf(),
            anime_step(*old(self), *final(self), fx@),
    {
        reveal(anime_step);
        reveal(with_turn_reset);
        let ghost won_round = match old(self).turn.round {
            Some(r) => Some(Round { outcome: Outcome::Won, ..r }),
            None => None,
        };
        if let Some(mut round) = self.turn.round.take() {
            round.outcome = Outcome::Won;
            self.turn.round = Some(round);
        }
        assert(*self == (Session { turn: Turn { round: won_round, ..old(self).turn }, ..*old(self) }));
        self.reset_turn();
        let ghost m = *self;
        assert(with_turn_reset(Session { turn: Turn { round: won_round, ..old(self).turn }, ..*old(self) }, m));
        let fx = self.finish(true);
        assert(finished(m, *self, true, fx@));
        fx
    }

    /// Submit a selected track as the guess.
    pub(crate) fn make_guess(&mut self, guess: Track) -> (fx: Vec<Effect>)
        requires
            old(self).wf(),
        ensures
            final(self).wf(),
            guess_step(*old(self), *final(self), guess, fx@),
    {
        reveal(guess_step);
        reveal(guessed);
        reveal(turn_ended);
        reveal(with_turn_reset);
        let mut round = match self.turn.round.take() {
            Some(r) => r,
            None => return Vec::new(),
        };
        round.submit_guess(&guess);
        let outcome = round.outcome;
        self.turn.round = Some(round);
        self.reset_turn();
        let ghost m = *self;
        let fx = match outcome {
            Outcome::Won => self.finish(true),
            Outcome::Lost => self.finish(false),
            Outcome::Playing => self.play_current_clip(),
        };
        assert(guessed(*old(self), m, guess));
        fx
    }

    /// After a skip: finish a lost round, else let the clip run on
    /// (`extend`) or restart it.
    fn after_skip_clip(&mut self, extend: bool) -> (fx: Vec<Effect>)
        requires
            old(self).wf(),
        ensures
            final(self).wf(),
            after_skip(*old(self), *final(self), extend, fx@),
            keeps_turn(*old(self), *final(self)),
    {
        reveal(after_skip);
        let (lost, clip) = match &self.turn.round {
            Some(round) => (round.outcome == Outcome::Lost, round.current_clip()),
            None => return Vec::new(),
        };
        if lost {
            return self.finish(false);
        }
        if extend {
            return single(Effect::ExtendClip(clip));
        }
        self.play_current_clip()
    }

    /// Give up this clip: log the skip and reveal the next one, either
    /// letting the playing clip run on (`extend`) or restarting it; out of
    /// clips, the round is lost.
    pub fn skip_with(&mut self, extend: bool) -> (fx: Vec<Effect>)
        requires
            old(self).wf(),
        ensures
            final(self).wf(),
            skip_step(*old(self), *final(self), extend, fx@),
    {
        reveal(skip_step);
        reveal(skipped);
        reveal(with_turn_reset);
        let mut round = match self.turn.round.take() {
            Some(r) => r,
            None => return Vec::new(),
        };
        round.skip();
        self.turn.round = Some(round);
        self.reset_turn();
        let ghost m = *self;
        let fx = self.after_skip_clip(extend);
        assert(turn_base(*old(self), *self) == m);
        fx
    }

    /// Skip, given how long ago the playing clip started, in milliseconds
    /// (none where that is unknown): the clip runs on when `skip_extends`
    /// says so, else it restarts.
    pub fn skip_after(&mut self, elapsed_ms: Option<u128>) -> (fx: Vec<Effect>)
        requires
            old(self).wf(),
        ensures
            final(self).wf(),
            skip_step(*old(self), *final(self), skip_extends(*old(self), elapsed_ms), fx@),
    {
        let mode = self.active_mode();
        let extend = match (&self.turn.round, &self.turn.play_started_at, elapsed_ms) {
            (Some(round), Some(_), Some(e)) => {
                let c = millis(&round.current_clip());
                continues_clip(mode, e, c)
            },
            _ => false,
        };
        self.skip_with(extend)
    }

    /// Skip, letting the clip run on when it is still audibly playing under
    /// an effect that can extend it (judged from the clock).
    pub(crate) fn skip(&mut self) -> (fx: Vec<Effect>)
        requires
            old(self).wf(),
        ensures
            final(self).wf(),
            exists|extend: bool|
                #[trigger] skip_step(*old(self), *final(self), extend, fx@) && (extend
                    ==> skip_may_extend(*old(self))),
            exists|elapsed_ms: Option<u128>|
                (elapsed_ms is Some <==> (old(self).turn.round is Some
                    && old(self).turn.play_started_at is Some)) && #[trigger] skip_step(
                    *old(self),
                    *final(self),
                    skip_extends(*old(self), elapsed_ms),
                    fx@,
                ),
    {
        let elapsed_ms: Option<u128> = match (&self.turn.round, &self.turn.play_started_at) {
            (Some(_), Some(started)) => Some(millis(&elapsed(started))),
            _ => None,
        };
        let fx = self.skip_after(elapsed_ms);
        assert(skip_extends(*old(self), elapsed_ms) ==> skip_may_extend(*old(self)));
        fx
    }
}

} // verus!
