//! Properties of the session that span its steps.

use vstd::prelude::*;

use crate::deezer::Track;
use crate::game::{awarded, key_of};
use crate::lobby::{RoundResult, RoundStart};
use crate::session::control::{
    profile_after, quit_set, round_record, with_countdown_started, Effect, LobbyEvent, Session, Ui,
    COUNTDOWN_SECS, FIRST_COUNTDOWN_SECS, RECENT_SONGS,
};
use crate::session::keys::playing_key_step;
use crate::session::dispatch::key_step;
use crate::session::lobby_flow::{primary_done, round_started};
use crate::session::msgs::{msg_step, Msg};
use crate::session::turns::{finished_lobby, lobby_result, lobby_scored};
use crate::session::{fresh, key_views, Key, LobbyPhase, PostAction, Screen};

verus! {

/// Search results of a superseded query are dropped: a result whose
/// generation is not the current one changes nothing.
pub proof fn lemma_stale_search_dropped(
    a: Session,
    b: Session,
    generation: u64,
    tracks: Vec<Track>,
    fx: Seq<Effect>,
)
    requires
        msg_step(a, b, Msg::Search { generation, tracks }, fx),
        generation != a.turn.search_gen,
    ensures
        b == a,
        fx.len() == 0,
{
    reveal(msg_step);
}

/// A round that finishes loading after the player backed out of the Loading
/// screen is ignored.
pub proof fn lemma_late_round_ignored(
    a: Session,
    b: Session,
    answer: Track,
    preview: Vec<u8>,
    anime: Option<crate::anime::AnimeTag>,
    fx: Seq<Effect>,
)
    requires
        msg_step(a, b, Msg::RoundReady { answer, preview, anime }, fx),
        a.ui.screen != Screen::Loading,
    ensures
        b == a,
        fx.len() == 0,
{
    reveal(msg_step);
}

/// Ctrl-C quits from any screen, overlay or not, and does nothing else.
pub proof fn lemma_ctrl_c_quits(a: Session, b: Session, extend: bool, fx: Seq<Effect>)
    requires
        key_step(a, b, Key::Ctrl('c'), extend, fx),
    ensures
        b == (Session { ui: Ui { should_quit: true, ..a.ui }, ..a }),
        fx.len() == 0,
{
    reveal(key_step);
    reveal(quit_set);
}

/// The uninstall confirmation intercepts every key but the global ones: y or
/// Y confirms (uninstall after quitting), anything else dismisses it; no
/// other state changes and no outside work happens.
pub proof fn lemma_uninstall_overlay_intercepts(
    a: Session,
    b: Session,
    key: Key,
    extend: bool,
    fx: Seq<Effect>,
)
    requires
        key_step(a, b, key, extend, fx),
        a.ui.confirm_uninstall,
        key != Key::Ctrl('c'),
        key != Key::CtrlUp,
        key != Key::CtrlDown,
    ensures
        fx.len() == 0,
        b.ui.post_action == (if key == Key::Char('y') || key == Key::Char('Y') {
            Some(PostAction::Uninstall)
        } else {
            a.ui.post_action
        }),
        b == (Session {
            ui: Ui {
                post_action: b.ui.post_action,
                should_quit: b.ui.should_quit,
                confirm_uninstall: b.ui.confirm_uninstall,
                ..a.ui
            },
            ..a
        }),
{
    reveal(key_step);
}

/// A player's result is reported at most once per round: once it was sent,
/// finishing the round again (say, Esc after a win) broadcasts nothing and
/// records nothing in the profile.
pub proof fn lemma_result_reported_once(a: Session, b: Session, won: bool, fx: Seq<Effect>)
    requires
        finished_lobby(a, b, won, fx),
        a.lobby matches Some(l) && l.my_result_sent,
    ensures
        forall|i: int| 0 <= i < fx.len() ==> !(fx[i] is Broadcast),
        b.profile == a.profile,
        b.lobby == a.lobby,
{
    reveal(finished_lobby);
}

/// The first time a player finishes a lobby round, exactly one result goes
/// out: the round's result (its number, the player's name, whether it was
/// solved, the clips used), broadcast once and followed by a save; the
/// result is then marked sent, the lobby waits between rounds on its board,
/// and the profile gains the round when its counters have room.
pub proof fn lemma_first_finish_reports_once(a: Session, b: Session, won: bool, fx: Seq<Effect>)
    requires
        finished_lobby(a, b, won, fx),
        a.turn.round is Some,
        a.lobby matches Some(l) && !l.spectating && !l.my_result_sent,
    ensures
        exists|res: RoundResult|
            #[trigger] lobby_result(a, a.turn.round->0, a.lobby->0, won, res) && fx.len() >= 2
                && fx[fx.len() - 2] == Effect::Broadcast(LobbyEvent::Result(res)) && fx.last()
                == Effect::SaveProfile && forall|i: int|
                0 <= i < fx.len() - 2 ==> !(#[trigger] fx[i] is Broadcast),
        b.lobby matches Some(l2) && l2.my_result_sent && l2.phase == LobbyPhase::Between,
        b.ui.screen == Screen::Lobby,
        exists|c: String|
            #[trigger] profile_after(
                a.profile,
                b.profile,
                round_record(a.turn.round->0, won, awarded(a.turn.round->0), c),
            ),
{
    reveal(finished_lobby);
    let r = a.turn.round->0;
    let l = a.lobby->0;
    let res = choose|res: RoundResult|
        #[trigger] lobby_result(a, r, l, won, res) && fx == seq![Effect::PlayFull(r.preview)]
            + seq![Effect::Broadcast(LobbyEvent::Result(res)), Effect::SaveProfile] && (
        b.lobby matches Some(l2) && lobby_scored(l, l2, res, r.answer));
    assert(fx[fx.len() - 2] == Effect::Broadcast(LobbyEvent::Result(res)));
    assert(fx[0] == Effect::PlayFull(r.preview));
}

/// Spectators never play a round, so finishing one changes nothing.
pub proof fn lemma_spectators_never_finish(a: Session, b: Session, won: bool, fx: Seq<Effect>)
    requires
        finished_lobby(a, b, won, fx),
        a.lobby matches Some(l) && l.spectating,
    ensures
        b == a,
        fx.len() == 0,
{
    reveal(finished_lobby);
}

/// Only the host drives the game: a player's primary action in the lobby
/// changes nothing and sends nothing.
pub proof fn lemma_only_host_drives(a: Session, b: Session, fx: Seq<Effect>)
    requires
        primary_done(a, b, fx),
        a.lobby matches Some(l) && !l.is_host,
    ensures
        b == a,
        fx.len() == 0,
{
    reveal(primary_done);
}

/// Solo remembers the songs it plays: once a solo round is ready, its song is
/// the newest of the recent songs, the list keeps at most `RECENT_SONGS`
/// songs, and every song of the `RECENT_SONGS - 1` before it stays in it.
pub proof fn lemma_recent_songs_window(
    a: Session,
    b: Session,
    answer: Track,
    preview: Vec<u8>,
    anime: Option<crate::anime::AnimeTag>,
    fx: Seq<Effect>,
)
    requires
        msg_step(a, b, Msg::RoundReady { answer, preview, anime }, fx),
        a.ui.screen == Screen::Loading,
        a.tally.recent_songs@.len() <= RECENT_SONGS,
    ensures
        b.tally.recent_songs@.len() <= RECENT_SONGS,
        key_views(b.tally.recent_songs@).last() == key_of(answer),
        forall|i: int|
            a.tally.recent_songs@.len() - (RECENT_SONGS - 1) <= i < a.tally.recent_songs@.len()
                && 0 <= i ==> key_views(b.tally.recent_songs@).contains(
                #[trigger] key_views(a.tally.recent_songs@)[i],
            ),
{
    reveal(msg_step);
    let old_keys = key_views(a.tally.recent_songs@);
    let r = old_keys.push(key_of(answer));
    let new_keys = key_views(b.tally.recent_songs@);
    assert(new_keys.len() == b.tally.recent_songs@.len());
    assert(old_keys.len() == a.tally.recent_songs@.len());
    assert forall|i: int|
        a.tally.recent_songs@.len() - (RECENT_SONGS - 1) <= i < a.tally.recent_songs@.len()
            && 0 <= i implies new_keys.contains(#[trigger] old_keys[i]) by {
        if r.len() > RECENT_SONGS {
            let d = r.len() - RECENT_SONGS;
            assert(new_keys[i - d] == r[i]);
        } else {
            assert(new_keys[i] == r[i]);
        }
    }
}

/// An online game never repeats a song while its pool still holds one it has
/// not played: the round the host starts plays such a song, and counts it as
/// played.
pub proof fn lemma_online_game_fresh_song(a: Session, b: Session, round: u32, fx: Seq<Effect>)
    requires
        round_started(a, b, round, fx),
        a.lobby matches Some(l) && exists|i: int|
            0 <= i < l.pool@.len() && fresh(#[trigger] l.pool@[i], key_views(l.played@)),
    ensures
        a.lobby matches Some(l) && b.lobby matches Some(l2) && exists|t: Track|
            #[trigger] l.pool@.contains(t) && fresh(t, key_views(l.played@)) && fx == seq![
                Effect::Broadcast(LobbyEvent::RoundStart(RoundStart { round, track_id: t.id })),
            ] && key_views(l2.played@) == key_views(l.played@).push(key_of(t)),
{
    reveal(round_started);
    let l = a.lobby->Some_0;
    let i = choose|i: int| 0 <= i < l.pool@.len() && fresh(#[trigger] l.pool@[i], key_views(l.played@));
    assert(l.pool@.len() > 0);
    let l2 = b.lobby->Some_0;
    let t = choose|t: Track|
        #[trigger] l.pool@.contains(t) && (fresh(t, key_views(l.played@)) || forall|j: int|
            0 <= j < l.pool@.len() ==> !fresh(#[trigger] l.pool@[j], key_views(l.played@)))
            && fx[0] == Effect::Broadcast(LobbyEvent::RoundStart(RoundStart { round, track_id: t.id }))
            && key_views(l2.played@) == key_views(l.played@).push(key_of(t));
    assert(fx =~= seq![fx[0]]);
}

/// Every round opens with a lead-in and no clip: five seconds for the run's
/// first round, three for every later one; and in a lobby the scoring clock
/// is not running while it lasts.
pub proof fn lemma_rounds_open_with_a_countdown(
    a: Session,
    b: Session,
    round: u32,
    answer: Track,
    preview: Vec<u8>,
    fx: Seq<Effect>,
)
    requires
        msg_step(a, b, Msg::LobbyRoundReady { round, answer, preview }, fx),
        a.lobby matches Some(l) && l.game.round == round,
    ensures
        fx.len() == 0,
        b.turn.countdown matches Some(c) && c.secs == if a.tally.warmed_up {
            COUNTDOWN_SECS
        } else {
            FIRST_COUNTDOWN_SECS
        },
        b.turn.play_started_at is None,
        b.lobby matches Some(l2) && l2.round_started_at is None,
        b.tally.warmed_up,
{
    reveal(msg_step);
    reveal(with_countdown_started);
}

/// During a round's lead-in, guessing, skipping and replaying do nothing.
pub proof fn lemma_keys_wait_for_the_clip(a: Session, b: Session, key: Key, extend: bool, fx: Seq<Effect>)
    requires
        playing_key_step(a, b, key, extend, fx),
        a.turn.countdown is Some,
        key == Key::Enter || key == Key::Tab || key == Key::Ctrl('r'),
    ensures
        b == a,
        fx.len() == 0,
{
    reveal(playing_key_step);
}

} // verus!
