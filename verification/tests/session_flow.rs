use std::time::Duration;

use hitair::config::Category;
use hitair::deezer::{Artist, Genre, Track};
use hitair::game::{GameMode, Outcome};
use hitair::lobby::{NewGame, RoundResult};
use hitair::profile::Profile;
use hitair::session::control::{Effect, LobbyEvent, Session};
use hitair::session::dispatch::ClickAction;
use hitair::session::lobby_flow::{PresenceEntry, RtEvent};
use hitair::session::msgs::Msg;
use hitair::game::song_key;
use hitair::session::{
    fresh_indices, pick_fresh, pick_fresh_with, take_fresh, take_fresh_with, Key, LobbyPhase, PostAction,
    Screen,
};
use hitair::supa::Party;

fn track(id: i64, title: &str, artist: &str) -> Track {
    Track {
        id,
        title: title.into(),
        preview: "https://cdn.example/p.mp3".into(),
        artist: Artist { id: 0, name: artist.into() },
        album: None,
    }
}

fn schedule() -> Vec<Duration> {
    vec![
        Duration::from_millis(1000),
        Duration::from_millis(2000),
        Duration::from_millis(4000),
    ]
}

fn session(online: bool) -> Session {
    let categories = vec![Category::chart("Pop", 132), Category::chart("Rock", 152)];
    let playlists = vec![Category::playlist("Summer Hits", 99)];
    Session::new(
        schedule(),
        categories,
        playlists,
        Profile::with_name("Ana".into()),
        "player".into(),
        70,
        "",
        true,
        online,
        false,
    )
}

fn loaded(s: &mut Session, answer: Track) {
    s.play_solo();
    let fx = s.handle_key(Key::Enter);
    assert!(matches!(fx.as_slice(), [Effect::LoadRound { category: c, .. }] if c.name == "Pop"));
    assert!(s.ui.screen == Screen::Loading);
    let fx = s.handle_msg(Msg::RoundReady { answer, preview: vec![1, 2, 3], anime: None });
    assert!(s.ui.screen == Screen::Playing);
    assert!(fx.is_empty() && s.turn.countdown.is_some());
    let fx = s.tick_with(false, false, true);
    assert!(s.turn.countdown.is_none());
    assert!(
        matches!(fx.as_slice(), [Effect::PlayClip { clip, mode: GameMode::Normal, .. }] if *clip == Duration::from_millis(1000))
    );
}

#[test]
fn new_session_starts_home() {
    let s = session(false);
    assert!(s.ui.screen == Screen::Home);
    assert_eq!(s.prefs.volume, 70);
    assert!(s.prefs.game_mode == GameMode::Normal);
    assert_eq!(s.challenge.player_name, "Ana");
    assert!(s.post_action().is_none());
}

#[test]
fn new_session_caps_volume_and_reads_mode() {
    let s = Session::new(
        schedule(),
        vec![],
        vec![],
        Profile::default(),
        "player".into(),
        250,
        "reverse",
        true,
        false,
        false,
    );
    assert_eq!(s.prefs.volume, 100);
    assert!(s.prefs.game_mode == GameMode::Reverse);
}

#[test]
fn home_navigation_is_clamped_and_opens_settings() {
    let mut s = session(false);
    for _ in 0..6 {
        s.handle_key(Key::Down);
    }
    assert_eq!(s.ui.home_index, 3);
    s.handle_key(Key::Enter);
    assert!(s.ui.screen == Screen::Settings);
    let fx = s.handle_key(Key::Left);
    assert!(s.prefs.game_mode == GameMode::Muffled);
    assert!(matches!(fx.as_slice(), [Effect::SaveProfile]));
    s.handle_key(Key::Esc);
    assert!(s.ui.screen == Screen::Home);
    s.handle_key(Key::Up);
    assert_eq!(s.ui.home_index, 2);
}

#[test]
fn offline_challenge_says_unavailable() {
    let mut s = session(false);
    s.home_select(1);
    assert!(s.ui.screen == Screen::Home);
    assert_eq!(s.ui.status.as_deref(), Some("Online play is unavailable."));
}

#[test]
fn profile_returns_to_where_it_was_opened() {
    let mut s = session(false);
    s.play_solo();
    s.open_profile();
    assert!(s.ui.screen == Screen::Profile);
    s.handle_key(Key::Esc);
    assert!(s.ui.screen == Screen::Menu);
}

#[test]
fn menu_filter_narrows_rows_and_accepts_playlists() {
    let mut s = session(false);
    s.play_solo();
    s.handle_key(Key::Char('r'));
    s.handle_key(Key::Char('O'));
    assert_eq!(s.menu.menu_filter, "rO");
    let rows = s.menu_items();
    assert_eq!(rows.len(), 1);
    assert_eq!(rows[0].label(), "Rock");
    s.handle_key(Key::Backspace);
    assert_eq!(s.menu.menu_filter, "r");
    s.handle_key(Key::Esc);
    assert_eq!(s.menu.menu_filter, "");
    s.handle_key(Key::Esc);
    assert!(s.ui.screen == Screen::Home);
    s.play_solo();
    s.set_menu_filter("https://www.deezer.com/playlist/1234567".into());
    let fx = s.handle_key(Key::Enter);
    assert!(matches!(fx.as_slice(), [Effect::LoadRound { category: c, .. }] if c.name == "Playlist 1234567"));
}

#[test]
fn menu_mode_keys_announce_the_effect() {
    let mut s = session(false);
    s.play_solo();
    s.handle_key(Key::Right);
    assert!(s.prefs.game_mode == GameMode::Fast);
    assert_eq!(s.ui.status.as_deref(), Some("Game mode: 2× Nightcore"));
}

#[test]
fn volume_keys_step_and_clamp() {
    let mut s = session(false);
    let fx = s.handle_key(Key::CtrlUp);
    assert_eq!(s.prefs.volume, 80);
    assert!(matches!(fx.as_slice(), [Effect::SetVolume(80), Effect::SaveProfile]));
    assert_eq!(s.ui.status.as_deref(), Some("Volume 80%"));
    s.handle_key(Key::CtrlUp);
    s.handle_key(Key::CtrlUp);
    s.handle_key(Key::CtrlUp);
    assert_eq!(s.prefs.volume, 100);
    for _ in 0..12 {
        s.handle_key(Key::CtrlDown);
    }
    assert_eq!(s.prefs.volume, 0);
}

#[test]
fn uninstall_needs_confirmation() {
    let mut s = session(false);
    s.play_solo();
    s.handle_key(Key::Ctrl('x'));
    assert!(s.ui.confirm_uninstall);
    s.handle_key(Key::Char('n'));
    assert!(!s.ui.confirm_uninstall && !s.ui.should_quit);
    s.handle_key(Key::Ctrl('x'));
    s.handle_key(Key::Char('Y'));
    assert!(s.ui.should_quit);
    assert!(matches!(s.post_action(), Some(PostAction::Uninstall)));
}

#[test]
fn ctrl_c_quits_anywhere() {
    let mut s = session(false);
    s.handle_key(Key::Ctrl('c'));
    assert!(s.ui.should_quit);
}

#[test]
fn correct_guess_scores_and_records() {
    let mut s = session(false);
    let answer = track(7, "Bohemian Rhapsody", "Queen");
    loaded(&mut s, answer.clone());
    s.set_search("bohemian".into());
    assert!(s.turn.pending_search_at.is_some());
    let fx = s.tick_with(false, true, false);
    let generation = match fx.as_slice() {
        [Effect::Search { generation, query }] => {
            assert_eq!(query, "bohemian");
            *generation
        }
        _ => panic!("expected one search"),
    };
    s.handle_msg(Msg::Search { generation, tracks: vec![track(9, "Other", "X"), answer] });
    s.handle_key(Key::Down);
    let fx = s.handle_key(Key::Enter);
    assert!(s.ui.screen == Screen::RoundEnd);
    assert_eq!(s.tally.score, 3);
    assert_eq!(s.tally.last_points, 3);
    assert_eq!(s.tally.streak, 1);
    assert_eq!(s.tally.rounds_played, 1);
    assert!(matches!(fx.as_slice(), [Effect::PlayFull(_), Effect::SaveProfile]));
    assert_eq!(s.profile.stats.rounds, 1);
    assert_eq!(s.profile.stats.recent[0].category, "Pop");
    assert_eq!(s.profile.stats.recent[0].clips, 1);
    let fx = s.handle_key(Key::Enter);
    assert!(matches!(fx.as_slice(), [Effect::LoadRound { category: c, .. }] if c.name == "Pop"));
}

#[test]
fn stale_search_results_are_dropped() {
    let mut s = session(false);
    loaded(&mut s, track(1, "A", "B"));
    s.set_search("abc".into());
    s.tick_with(false, true, false);
    s.handle_msg(Msg::Search { generation: 0, tracks: vec![track(2, "C", "D")] });
    assert!(s.turn.suggestions.is_empty());
}

#[test]
fn short_queries_clear_suggestions() {
    let mut s = session(false);
    loaded(&mut s, track(1, "A", "B"));
    s.handle_key(Key::Char(' '));
    s.handle_key(Key::Char('a'));
    assert!(s.turn.pending_search_at.is_none());
    let fx = s.tick_with(false, true, false);
    assert!(fx.is_empty());
}

#[test]
fn skipping_every_clip_loses() {
    let mut s = session(false);
    loaded(&mut s, track(1, "A", "B"));
    let fx = s.handle_key(Key::Tab);
    assert_eq!(s.turn.round.as_ref().unwrap().level, 1);
    assert!(matches!(fx.as_slice(), [Effect::PlayClip { .. }] | [Effect::ExtendClip(_)]));
    s.handle_key(Key::Tab);
    s.handle_key(Key::Tab);
    assert!(s.ui.screen == Screen::RoundEnd);
    assert!(s.turn.round.as_ref().unwrap().outcome == Outcome::Lost);
    assert_eq!(s.tally.streak, 0);
    assert_eq!(s.tally.score, 0);
    assert_eq!(s.profile.stats.recent[0].clips, 3);
}

#[test]
fn skip_with_extend_runs_the_clip_on() {
    let mut s = session(false);
    loaded(&mut s, track(1, "A", "B"));
    let fx = s.skip_with(true);
    assert!(matches!(fx.as_slice(), [Effect::ExtendClip(d)] if *d == Duration::from_millis(2000)));
}

#[test]
fn escape_abandons_a_solo_round() {
    let mut s = session(false);
    loaded(&mut s, track(1, "A", "B"));
    let fx = s.handle_key(Key::Esc);
    assert!(matches!(fx.as_slice(), [Effect::StopAudio]));
    assert!(s.turn.round.is_none());
    assert!(s.ui.screen == Screen::Menu);
}

#[test]
fn round_ready_is_ignored_after_backing_out() {
    let mut s = session(false);
    s.play_solo();
    s.handle_key(Key::Enter);
    s.handle_key(Key::Esc);
    assert!(s.ui.screen == Screen::Menu);
    let fx = s.handle_msg(Msg::RoundReady { answer: track(1, "A", "B"), preview: vec![], anime: None });
    assert!(fx.is_empty());
    assert!(s.turn.round.is_none());
}

#[test]
fn errors_show_and_leave_loading() {
    let mut s = session(false);
    s.play_solo();
    s.handle_key(Key::Enter);
    s.handle_msg(Msg::Error("Couldn't load".into()));
    assert!(s.ui.screen == Screen::Menu);
    assert_eq!(s.ui.status.as_deref(), Some("Couldn't load"));
    s.tick_with(true, false, false);
    assert!(s.ui.status.is_none());
}

#[test]
fn live_genres_replace_the_menu() {
    let mut s = session(false);
    s.handle_msg(Msg::Genres(vec![Genre { id: 116, name: "Rap".into() }]));
    assert_eq!(s.menu.categories.len(), 2);
    assert_eq!(s.menu.categories[0].name, "Rap");
    assert_eq!(s.menu.categories[1].name, "Summer Hits");
    s.handle_msg(Msg::Genres(vec![]));
    assert_eq!(s.menu.categories.len(), 2);
}

#[test]
fn display_name_is_capped_and_settled() {
    let mut s = session(false);
    s.set_display_name("ABCDEFGHIJKLMNOPQRSTUVWXYZ".into());
    assert_eq!(s.challenge.player_name, "ABCDEFGHIJKLMNOPQRST");
    assert_eq!(s.profile.name, "ABCDEFGHIJKLMNOPQRST");
    s.set_display_name("   ".into());
    let fx = s.commit_profile();
    assert!(matches!(fx.as_slice(), [Effect::SaveProfile]));
    assert_eq!(s.challenge.player_name, "player");
    assert_eq!(s.profile.name, "player");
}

#[test]
fn join_code_is_typed_uppercase() {
    let mut s = session(true);
    s.home_select(1);
    assert!(s.ui.screen == Screen::ChallengeMenu);
    s.handle_key(Key::Down);
    s.handle_key(Key::Down);
    s.handle_key(Key::Enter);
    assert!(s.ui.screen == Screen::JoinCode);
    for c in ['a', 'b', '-', '7'] {
        s.handle_key(Key::Char(c));
    }
    assert_eq!(s.challenge.join_input, "AB7");
    let fx = s.handle_key(Key::Enter);
    assert!(matches!(fx.as_slice(), [Effect::JoinLobby { code, name }] if code == "AB7" && name == "Ana"));
    assert!(s.ui.screen == Screen::Loading);
}

#[test]
fn browse_lists_and_joins_a_party() {
    let mut s = session(true);
    s.home_select(1);
    s.handle_key(Key::Down);
    let fx = s.handle_key(Key::Enter);
    assert!(s.ui.screen == Screen::Browse);
    assert!(matches!(fx.as_slice(), [Effect::RefreshParties]));
    let party = Party {
        code: "QWERTY".into(),
        visibility: "public".into(),
        max_players: 8,
        track_id: 0,
        title: "Live lobby · Pop".into(),
        artist: "hitair".into(),
        album: None,
        schedule: vec![1000],
        host_name: "Bo".into(),
        created_at: None,
    };
    s.handle_msg(Msg::PublicParties(vec![party]));
    let fx = s.list_click(0);
    assert!(matches!(fx.as_slice(), [Effect::JoinLobby { code, .. }] if code == "QWERTY"));
}

#[test]
fn hosting_configures_and_starts_a_lobby() {
    let mut s = session(true);
    s.home_select(1);
    s.handle_key(Key::Enter);
    assert!(s.ui.screen == Screen::Menu && s.menu.host_selecting);
    s.handle_key(Key::Down);
    s.handle_key(Key::Enter);
    assert!(s.ui.screen == Screen::HostConfig);
    s.handle_key(Key::Up);
    s.handle_key(Key::Char('v'));
    s.handle_key(Key::Char('-'));
    s.handle_key(Key::Right);
    let fx = s.handle_key(Key::Enter);
    match fx.as_slice() {
        [Effect::HostLobby { public, max_players, host_name, rounds, mode, category }] => {
            assert!(!*public);
            assert_eq!(*max_players, 7);
            assert_eq!(host_name, "Ana");
            assert_eq!(*rounds, 6);
            assert!(*mode == GameMode::Fast);
            assert_eq!(category.name, "Rock");
        }
        _ => panic!("expected HostLobby"),
    }
    let fx = s.handle_msg(Msg::LobbyReady {
        code: "ABCDEF".into(),
        is_host: true,
        rounds: 2,
        mode: GameMode::Fast,
        category_label: "Rock".into(),
        category: Some(Category::chart("Rock", 152)),
    });
    assert!(s.ui.screen == Screen::Lobby);
    assert!(matches!(fx.as_slice(), [Effect::FetchLobbyPool(c)] if c.name == "Rock"));
    let fx = s.handle_key(Key::Enter);
    assert_eq!(s.ui.status.as_deref(), Some("Still loading songs — try again in a moment."));
    assert!(fx.is_empty());
    s.handle_msg(Msg::LobbyPool(vec![track(5, "Song", "Band")]));
    let fx = s.handle_key(Key::Enter);
    match fx.as_slice() {
        [Effect::Broadcast(LobbyEvent::NewGame(ng)), Effect::Broadcast(LobbyEvent::RoundStart(rs))] => {
            assert_eq!(ng.rounds, 2);
            assert_eq!(ng.mode, "fast");
            assert_eq!(ng.category, "Rock");
            assert_eq!(rs.round, 1);
            assert_eq!(rs.track_id, 5);
        }
        _ => panic!("expected the new game and round 1"),
    }
}

#[test]
fn lobby_round_is_played_scored_and_reported_once() {
    let mut s = session(true);
    s.handle_msg(Msg::LobbyReady {
        code: "ABCDEF".into(),
        is_host: false,
        rounds: 3,
        mode: GameMode::Normal,
        category_label: "".into(),
        category: None,
    });
    let fx = s.handle_rt_event(RtEvent::Broadcast(LobbyEvent::NewGame(NewGame {
        rounds: 3,
        mode: "slow".into(),
        category: "Pop".into(),
    })));
    assert!(matches!(fx.as_slice(), [Effect::StopAudio, Effect::UpdatePresence { spectating: false, .. }]));
    let l = s.lobby.as_ref().unwrap();
    assert!(l.playing_this_game && l.mode == GameMode::Slow);
    let fx = s.handle_rt_event(RtEvent::Broadcast(LobbyEvent::RoundStart(
        hitair::lobby::RoundStart { round: 1, track_id: 5 },
    )));
    assert!(matches!(fx.as_slice(), [Effect::LoadLobbyRound { round: 1, track_id: 5 }]));
    s.handle_msg(Msg::LobbyRoundReady { round: 1, answer: track(5, "Song", "Band"), preview: vec![0] });
    assert!(s.ui.screen == Screen::Playing);
    let fx = s.handle_key(Key::Esc);
    match fx.as_slice() {
        [Effect::PlayFull(_), Effect::Broadcast(LobbyEvent::Result(r)), Effect::SaveProfile] => {
            assert_eq!(r.round, 1);
            assert_eq!(r.name, "Ana");
            assert!(!r.solved);
            assert_eq!(r.clips, 3);
        }
        _ => panic!("expected the forfeited result"),
    }
    let l = s.lobby.as_ref().unwrap();
    assert!(l.phase == LobbyPhase::Between && l.my_result_sent);
    assert_eq!(l.board().len(), 1);
    assert_eq!(s.profile.stats.recent[0].category, "Pop");
    let fx = s.handle_key(Key::Esc);
    assert!(matches!(fx.as_slice(), [Effect::DeleteParty(_), Effect::CloseLobby, Effect::StopAudio]));
    assert!(s.lobby.is_none());
    assert!(s.ui.screen == Screen::ChallengeMenu);
}

#[test]
fn late_joiners_spectate_and_presence_splits_the_roster() {
    let mut s = session(true);
    s.handle_msg(Msg::LobbyReady {
        code: "ABCDEF".into(),
        is_host: false,
        rounds: 0,
        mode: GameMode::Normal,
        category_label: "".into(),
        category: None,
    });
    let fx = s.handle_rt_event(RtEvent::Broadcast(LobbyEvent::GameState { round: 2, rounds: 4 }));
    assert!(matches!(fx.as_slice(), [Effect::UpdatePresence { spectating: true, .. }]));
    let l = s.lobby.as_ref().unwrap();
    assert!(l.spectating && l.phase == LobbyPhase::Spectating);
    assert_eq!(l.rounds, 4);
    s.handle_rt_event(RtEvent::Presence(vec![
        PresenceEntry { name: "Bo".into(), spectating: false },
        PresenceEntry { name: "Ana".into(), spectating: true },
    ]));
    let l = s.lobby.as_ref().unwrap();
    assert_eq!(l.players, vec!["Bo".to_string()]);
    assert_eq!(l.spectators, vec!["Ana".to_string()]);
    s.handle_rt_event(RtEvent::Broadcast(LobbyEvent::Result(RoundResult {
        round: 0,
        name: "Bo".into(),
        solved: true,
        clips: 1,
        time_ms: 900,
        mistakes: 0,
        artist_bonus: 0,
    })));
    assert_eq!(s.lobby.as_ref().unwrap().board().len(), 1);
    let fx = s.handle_rt_event(RtEvent::Disconnected("closed".into()));
    assert!(s.lobby.is_none());
    assert!(matches!(fx.as_slice(), [Effect::CloseLobby, Effect::StopAudio]));
    assert_eq!(s.ui.status.as_deref(), Some("Lobby disconnected: closed"));
}

#[test]
fn buttons_act_as_their_keys() {
    let mut s = session(false);
    let fx = s.dispatch_click(ClickAction::VolumeDown);
    assert_eq!(s.prefs.volume, 60);
    assert!(matches!(fx.as_slice(), [Effect::SetVolume(60), Effect::SaveProfile]));
    loaded(&mut s, track(7, "Numb", "Linkin Park"));
    s.dispatch_click(ClickAction::Skip);
    assert_eq!(s.turn.round.as_ref().map(|r| r.guess_number()), Some(2));
    s.dispatch_click(ClickAction::Skip);
    s.dispatch_click(ClickAction::Skip);
    assert!(s.ui.screen == Screen::RoundEnd);
    s.dispatch_click(ClickAction::ResultToMenu);
    assert!(s.ui.screen == Screen::Menu);
}

#[test]
fn a_clicked_row_is_chosen() {
    let mut s = session(false);
    s.dispatch_click(ClickAction::ListItem(3));
    assert!(s.ui.screen == Screen::Settings);
}

#[test]
fn accent_is_saved() {
    let mut s = session(false);
    let fx = s.set_accent("violet");
    assert_eq!(s.profile.accent, "violet");
    assert!(matches!(fx.as_slice(), [Effect::SaveProfile]));
}

#[test]
fn solo_avoids_the_last_twenty_songs() {
    let mut s = session(false);
    s.play_solo();
    let fx = s.handle_key(Key::Enter);
    assert!(matches!(fx.as_slice(), [Effect::LoadRound { avoid, .. }] if avoid.is_empty()));
    let mut last = Vec::new();
    for i in 0..25 {
        let answer = track(i, &format!("Song {i}"), "Band");
        s.handle_msg(Msg::RoundReady { answer, preview: vec![1], anime: None });
        s.tick_with(false, false, true);
        s.handle_key(Key::Tab);
        s.handle_key(Key::Tab);
        s.handle_key(Key::Tab);
        assert!(s.ui.screen == Screen::RoundEnd);
        last = s.handle_key(Key::Enter);
    }
    assert_eq!(s.tally.recent_songs.len(), 20);
    assert_eq!(s.tally.recent_songs[0], song_key(&track(5, "Song 5", "Band")));
    assert_eq!(s.tally.recent_songs[19], song_key(&track(24, "Song 24", "Band")));
    match last.as_slice() {
        [Effect::LoadRound { avoid, .. }] => assert_eq!(avoid, &s.tally.recent_songs),
        _ => panic!("expected the next round to load"),
    }
}

#[test]
fn fresh_picks_skip_recent_songs() {
    let ts = vec![track(1, "A", "X"), track(2, "B", "X"), track(3, "C", "X")];
    let avoid = vec![song_key(&ts[0]), song_key(&ts[2])];
    for _ in 0..20 {
        assert_eq!(take_fresh(ts.clone(), &avoid).map(|t| t.id), Some(2));
        assert_eq!(pick_fresh(&ts, &avoid).map(|t| t.id), Some(2));
    }
    let all: Vec<String> = ts.iter().map(song_key).collect();
    let t = take_fresh(ts.clone(), &all).expect("a fallback pick");
    assert!(ts.iter().any(|x| x.id == t.id));
    assert!(take_fresh(Vec::new(), &avoid).is_none());
    assert!(pick_fresh(&Vec::new(), &avoid).is_none());
}

#[test]
fn an_online_game_never_repeats_a_song() {
    let pool = vec![track(1, "One", "A"), track(2, "Two", "B"), track(3, "Three", "C")];
    let mut s = session(true);
    s.handle_msg(Msg::LobbyReady {
        code: "ABCDEF".into(),
        is_host: true,
        rounds: 3,
        mode: GameMode::Normal,
        category_label: "Rock".into(),
        category: Some(Category::chart("Rock", 152)),
    });
    s.handle_msg(Msg::LobbyPool(pool.clone()));
    let mut seen: Vec<i64> = Vec::new();
    let mut fx = s.handle_key(Key::Enter);
    for round in 1..=3u32 {
        let rs = fx
            .iter()
            .find_map(|e| match e {
                Effect::Broadcast(LobbyEvent::RoundStart(rs)) => Some(rs.clone()),
                _ => None,
            })
            .expect("a round start");
        assert_eq!(rs.round, round);
        assert!(!seen.contains(&rs.track_id));
        seen.push(rs.track_id);
        s.handle_rt_event(RtEvent::Broadcast(LobbyEvent::RoundStart(rs.clone())));
        let answer = pool.iter().find(|t| t.id == rs.track_id).unwrap().clone();
        s.handle_msg(Msg::LobbyRoundReady { round, answer, preview: vec![0] });
        s.handle_key(Key::Esc);
        fx = s.handle_key(Key::Enter);
    }
    seen.sort();
    assert_eq!(seen, vec![1, 2, 3]);
    assert!(matches!(fx.as_slice(), [Effect::Broadcast(LobbyEvent::GameOver), Effect::StopAudio]));
}

#[test]
fn fresh_choices_fall_back_to_every_song() {
    let ts = vec![track(1, "A", "X"), track(2, "B", "X"), track(3, "C", "X")];
    assert_eq!(fresh_indices(&ts, &vec![song_key(&ts[0])]), vec![1, 2]);
    assert_eq!(fresh_indices(&ts, &Vec::new()), vec![0, 1, 2]);
    let all: Vec<String> = ts.iter().map(song_key).collect();
    assert_eq!(fresh_indices(&ts, &all), vec![0, 1, 2]);
    let live = track(4, "A (Live)", "X");
    assert_eq!(fresh_indices(&vec![live, track(5, "D", "X")], &vec![song_key(&ts[0])]), vec![1]);
}

#[test]
fn rounds_open_with_a_countdown() {
    let mut s = session(false);
    s.play_solo();
    s.handle_key(Key::Enter);
    let fx = s.handle_msg(Msg::RoundReady { answer: track(1, "A", "B"), preview: vec![1], anime: None });
    assert!(fx.is_empty());
    assert_eq!(s.turn.countdown.map(|c| c.secs), Some(5));
    assert!(s.turn.play_started_at.is_none());
    // Guessing, skipping and replaying wait for the clip; typing does not.
    assert!(s.handle_key(Key::Tab).is_empty());
    assert!(s.handle_key(Key::Ctrl('r')).is_empty());
    assert_eq!(s.turn.round.as_ref().unwrap().level, 0);
    s.handle_key(Key::Char('a'));
    assert_eq!(s.turn.input, "a");
    // Before its time the lead-in keeps running.
    assert!(s.tick_with(false, false, false).is_empty());
    assert!(s.turn.countdown.is_some());
    let fx = s.tick_with(false, false, true);
    assert!(matches!(fx.as_slice(), [Effect::PlayClip { .. }]));
    assert!(s.turn.play_started_at.is_some());
    // Later rounds of the run get the short lead-in.
    s.handle_key(Key::Tab);
    s.handle_key(Key::Tab);
    s.handle_key(Key::Tab);
    s.handle_key(Key::Enter);
    s.handle_msg(Msg::RoundReady { answer: track(2, "C", "D"), preview: vec![1], anime: None });
    assert_eq!(s.turn.countdown.map(|c| c.secs), Some(3));
}

#[test]
fn the_lobby_clock_starts_with_the_clip() {
    let mut s = session(true);
    s.handle_msg(Msg::LobbyReady {
        code: "ABCDEF".into(),
        is_host: false,
        rounds: 3,
        mode: GameMode::Normal,
        category_label: "Pop".into(),
        category: None,
    });
    s.handle_rt_event(RtEvent::Broadcast(LobbyEvent::NewGame(NewGame {
        rounds: 3,
        mode: "normal".into(),
        category: "Pop".into(),
    })));
    s.handle_rt_event(RtEvent::Broadcast(LobbyEvent::RoundStart(hitair::lobby::RoundStart {
        round: 1,
        track_id: 5,
    })));
    s.handle_msg(Msg::LobbyRoundReady { round: 1, answer: track(5, "Song", "Band"), preview: vec![0] });
    assert!(s.lobby.as_ref().unwrap().round_started_at.is_none());
    assert_eq!(s.turn.countdown.map(|c| c.secs), Some(5));
    let fx = s.tick_with(false, false, true);
    assert!(matches!(fx.as_slice(), [Effect::PlayClip { .. }]));
    assert!(s.lobby.as_ref().unwrap().round_started_at.is_some());
}

#[test]
fn release_notes_open_from_settings_and_after_an_update() {
    let mut s = session(false);
    s.home_select(3);
    assert!(s.ui.screen == Screen::Settings);
    s.handle_key(Key::Char('w'));
    assert!(s.ui.screen == Screen::Whatsnew);
    s.handle_key(Key::Esc);
    assert!(s.ui.screen == Screen::Settings);
    let mut fresh = Session::new(
        schedule(),
        vec![],
        vec![],
        Profile::default(),
        "player".into(),
        70,
        "",
        true,
        false,
        true,
    );
    assert!(fresh.ui.screen == Screen::Whatsnew);
    fresh.handle_key(Key::Enter);
    assert!(fresh.ui.screen == Screen::Home);
}

#[test]
fn ticks_weigh_the_elapsed_times() {
    let mut s = session(false);
    s.play_solo();
    s.handle_key(Key::Enter);
    s.handle_msg(Msg::RoundReady { answer: track(1, "A", "B"), preview: vec![1], anime: None });
    assert_eq!(s.turn.countdown.map(|c| c.secs), Some(5));
    // The first lead-in lasts five seconds.
    assert!(s.tick_after(None, None, Some(4999)).is_empty());
    assert!(s.turn.countdown.is_some());
    let fx = s.tick_after(None, None, Some(5000));
    assert!(matches!(fx.as_slice(), [Effect::PlayClip { .. }]));
    assert!(s.turn.countdown.is_none());
    // A search waits for typing to settle.
    s.set_search("abc".into());
    assert!(s.tick_after(None, Some(249), None).is_empty());
    assert!(s.turn.pending_search_at.is_some());
    let fx = s.tick_after(None, Some(250), None);
    assert!(matches!(fx.as_slice(), [Effect::Search { query, .. }] if query == "abc"));
    assert!(s.turn.pending_search_at.is_none());
}

#[test]
fn a_status_message_lasts_its_time() {
    let mut s = session(false);
    s.play_solo();
    s.handle_key(Key::Enter);
    s.handle_msg(Msg::Error("Couldn't load".into()));
    assert!(s.ui.status.is_some());
    s.tick_after(Some(4000), None, None);
    assert_eq!(s.ui.status.as_deref(), Some("Couldn't load"));
    s.tick_after(Some(4001), None, None);
    assert!(s.ui.status.is_none());
}

#[test]
fn a_skip_runs_the_clip_on_only_while_it_plays() {
    let mut s = session(false);
    loaded(&mut s, track(1, "A", "B"));
    // 100 ms into a 1000 ms clip: it runs on to the next checkpoint.
    let fx = s.skip_after(Some(100));
    assert!(matches!(fx.as_slice(), [Effect::ExtendClip(d)] if *d == Duration::from_millis(2000)));
    // 1900 ms into a 2000 ms clip is too close to its end: it restarts.
    let fx = s.skip_after(Some(1900));
    assert!(matches!(fx.as_slice(), [Effect::PlayClip { clip, .. }] if *clip == Duration::from_millis(4000)));
}

#[test]
fn the_draw_decides_the_fresh_pick() {
    let ts = vec![track(1, "A", "X"), track(2, "B", "X"), track(3, "C", "X")];
    let avoid = vec![song_key(&ts[1])];
    // The fresh choices are the first and third songs.
    assert_eq!(pick_fresh_with(&ts, &avoid, 0).map(|t| t.id), Some(1));
    assert_eq!(pick_fresh_with(&ts, &avoid, 1).map(|t| t.id), Some(3));
    assert_eq!(pick_fresh_with(&ts, &avoid, 7).map(|t| t.id), Some(3));
    assert_eq!(take_fresh_with(ts.clone(), &avoid, 2).map(|t| t.id), Some(1));
    assert_eq!(take_fresh_with(ts.clone(), &avoid, 5).map(|t| t.id), Some(3));
    // With every song avoided, all of them are choices again.
    let all: Vec<String> = ts.iter().map(song_key).collect();
    assert_eq!(pick_fresh_with(&ts, &all, 4).map(|t| t.id), Some(2));
    assert_eq!(take_fresh_with(ts.clone(), &all, 5).map(|t| t.id), Some(3));
    assert!(pick_fresh_with(&Vec::new(), &all, 4).is_none());
    assert!(take_fresh_with(Vec::new(), &all, 4).is_none());
}
