//! Key handling for the solo screens: Home, Settings, Profile, the category
//! menu, Loading, Playing and the round result.

use vstd::prelude::*;

use crate::config::{Category, CategorySource};
use crate::game::{mode_label, names_anime, next_mode, prev_mode, GameMode};
use crate::session::control::{
    challenge_opened, clip_of, loading_round, loads, menu_opened, mode_set, profile_opened, quit_set,
    screen_set, single, with_clip_started, with_search_queued, with_status, with_turn_reset, Effect,
    Menu, Prefs, Session, Turn, Ui,
};
use crate::session::turns::{anime_step, finished_lobby, guess_step, skip_may_extend, skip_step};
use crate::session::{
    menu_rows_spec, signed_decimal, Key, MenuItem, PostAction, Screen, HOME_ACTIONS,
};
use crate::text::{chars_of, push_char, string_of, trim, trimmed};

verus! {

/// `s` without its last character (unchanged when empty), as `String::pop`
/// leaves it.
pub open spec fn without_last(s: Seq<char>) -> Seq<char> {
    if s.len() > 0 {
        s.drop_last()
    } else {
        s
    }
}

/// `s` without its last character.
pub(crate) fn pop_char(s: &String) -> (r: String)
    ensures
        r@ == without_last(s@),
{
    let mut cs = chars_of(s.as_str());
    if cs.len() > 0 {
        cs.pop();
    }
    string_of(&cs)
}

/// `s` with `c` appended.
pub(crate) fn pushed(s: &String, c: char) -> (r: String)
    ensures
        r@ == s@.push(c),
{
    let mut t = s.clone();
    push_char(&mut t, c);
    t
}

/// One step up a list (stopping at the top).
pub open spec fn up_from(i: usize) -> usize {
    if i == 0 {
        0
    } else {
        (i - 1) as usize
    }
}

/// One step down a list of `n` rows (stopping at the bottom).
pub open spec fn down_from(i: usize, n: nat) -> usize {
    if i + 1 < n {
        (i + 1) as usize
    } else {
        i
    }
}

/// The category a menu row plays: the listed one, or a "Playlist <id>"
/// category for a custom playlist.
pub open spec fn category_of_item(item: MenuItem, c: Category) -> bool {
    match item {
        MenuItem::Category(x) => c == x,
        MenuItem::CustomPlaylist(id) => c.name@ == "Playlist "@ + signed_decimal(id as int)
            && c.source == CategorySource::Playlist(id),
    }
}

/// `b` is `a` after choosing Home action `i` (0 solo · 1 online · 2 profile
/// · 3 settings; anything else does nothing).
#[verifier::opaque]
pub open spec fn home_selected(a: Session, b: Session, i: usize) -> bool {
    if i == 0 {
        menu_opened(a, b, false)
    } else if i == 1 {
        challenge_opened(a, b)
    } else if i == 2 {
        profile_opened(a, b)
    } else if i == 3 {
        screen_set(a, b, Screen::Settings)
    } else {
        b == a
    }
}

/// `b` is `a` after `key` on the Home screen.
#[verifier::opaque]
pub open spec fn home_key_step(a: Session, b: Session, key: Key) -> bool {
    match key {
        Key::Up => b == (Session { ui: Ui { home_index: up_from(a.ui.home_index), ..a.ui }, ..a }),
        Key::Down => b == (Session {
            ui: Ui { home_index: down_from(a.ui.home_index, HOME_ACTIONS as nat), ..a.ui },
            ..a
        }),
        Key::Enter => home_selected(a, b, a.ui.home_index),
        Key::Esc => quit_set(a, b),
        _ => b == a,
    }
}

/// `b` is `a` after `key` on the Settings screen, with effects `fx`.
#[verifier::opaque]
pub open spec fn settings_key_step(a: Session, b: Session, key: Key, fx: Seq<Effect>) -> bool {
    match key {
        Key::Esc => screen_set(a, b, Screen::Home) && fx.len() == 0,
        Key::Left => mode_set(a, b, prev_mode(a.prefs.game_mode)) && fx == seq![Effect::SaveProfile],
        Key::Right => mode_set(a, b, next_mode(a.prefs.game_mode)) && fx == seq![
            Effect::SaveProfile,
        ],
        Key::Char('w') => fx.len() == 0 && b == (Session {
            ui: Ui { screen: Screen::Whatsnew, notes_return: Screen::Settings, ..a.ui },
            ..a
        }),
        _ => b == a && fx.len() == 0,
    }
}

/// `b` is `a` after `key` on the release notes: Esc or Enter goes back where
/// they were opened from.
#[verifier::opaque]
pub open spec fn whatsnew_key_step(a: Session, b: Session, key: Key) -> bool {
    if key == Key::Esc || key == Key::Enter {
        screen_set(a, b, a.ui.notes_return)
    } else {
        b == a
    }
}

/// `b` is `a` after Esc on the Profile screen: back where it was opened from.
#[verifier::opaque]
pub open spec fn profile_key_step(a: Session, b: Session, key: Key) -> bool {
    if key == Key::Esc {
        screen_set(a, b, a.ui.profile_return)
    } else {
        b == a
    }
}

/// `b` is `a` with default effect `m`, announced in the status line.
#[verifier::opaque]
pub open spec fn mode_switched(a: Session, b: Session, m: GameMode) -> bool {
    with_status(
        Session { prefs: Prefs { game_mode: m, ..a.prefs }, ..a },
        b,
        "Game mode: "@ + mode_label(m),
    )
}

/// `b` is `a` after Enter on the category menu: the highlighted row's
/// category becomes the lobby's pool when picking one, else a round of it
/// starts loading; with no row highlighted nothing happens.
#[verifier::opaque]
pub open spec fn menu_enter_step(a: Session, b: Session, fx: Seq<Effect>) -> bool {
    let items = menu_rows_spec(a.menu.categories@, a.menu.menu_filter@);
    if a.menu.menu_index < items.len() {
        exists|c: Category|
            #[trigger] category_of_item(items[a.menu.menu_index as int], c) && if a.menu.host_selecting {
                b == (Session {
                    challenge: crate::session::control::Challenge {
                        host_category: Some(c),
                        ..a.challenge
                    },
                    menu: Menu { host_selecting: false, ..a.menu },
                    ui: Ui { screen: Screen::HostConfig, ..a.ui },
                    ..a
                }) && fx.len() == 0
            } else {
                loading_round(a, b, c) && loads(fx, c, a.tally.recent_songs@)
            }
    } else {
        b == a && fx.len() == 0
    }
}

/// `b` is `a` after Ctrl + `c` on the category menu: o opens Challenge, p
/// the profile, u asks for the update (when one is available), x the
/// uninstall confirmation.
#[verifier::opaque]
pub open spec fn menu_ctrl_step(a: Session, b: Session, c: char) -> bool {
    if c == 'o' {
        challenge_opened(a, b)
    } else if c == 'p' {
        profile_opened(a, b)
    } else if c == 'u' {
        if a.ui.update_available is Some {
            b == (Session {
                ui: Ui { post_action: Some(PostAction::Update), should_quit: true, ..a.ui },
                ..a
            })
        } else {
            with_status(a, b, "You're on the latest version."@)
        }
    } else if c == 'x' {
        b == (Session { ui: Ui { confirm_uninstall: true, ..a.ui }, ..a })
    } else {
        b == a
    }
}

/// `b` is `a` after Esc on the category menu: back to Challenge when picking
/// a pool, else Home when unfiltered, else the filter is cleared.
#[verifier::opaque]
pub open spec fn menu_esc_step(a: Session, b: Session) -> bool {
    if a.menu.host_selecting {
        b == (Session {
            menu: Menu { host_selecting: false, ..a.menu },
            ui: Ui { screen: Screen::ChallengeMenu, ..a.ui },
            ..a
        })
    } else if a.menu.menu_filter@.len() == 0 {
        screen_set(a, b, Screen::Home)
    } else {
        &&& b.menu.menu_filter@.len() == 0
        &&& b == (Session {
            menu: Menu { menu_filter: b.menu.menu_filter, menu_index: 0, ..a.menu },
            ..a
        })
    }
}

/// `b` is `a` with the menu filter now `filter` (from the first row).
pub open spec fn filter_edited(a: Session, b: Session, filter: Seq<char>) -> bool {
    &&& b.menu.menu_filter@ == filter
    &&& b == (Session {
        menu: Menu { menu_filter: b.menu.menu_filter, menu_index: 0, ..a.menu },
        ..a
    })
}

/// `b` is `a` after `key` on the category menu, with effects `fx`.
#[verifier::opaque]
pub open spec fn menu_key_step(a: Session, b: Session, key: Key, fx: Seq<Effect>) -> bool {
    let items = menu_rows_spec(a.menu.categories@, a.menu.menu_filter@);
    match key {
        Key::Up => fx.len() == 0 && b == (Session {
            menu: Menu { menu_index: up_from(a.menu.menu_index), ..a.menu },
            ..a
        }),
        Key::Down => fx.len() == 0 && b == (Session {
            menu: Menu { menu_index: down_from(a.menu.menu_index, items.len()), ..a.menu },
            ..a
        }),
        Key::Enter => menu_enter_step(a, b, fx),
        Key::Left => mode_switched(a, b, prev_mode(a.prefs.game_mode)) && fx == seq![
            Effect::SaveProfile,
        ],
        Key::Right => mode_switched(a, b, next_mode(a.prefs.game_mode)) && fx == seq![
            Effect::SaveProfile,
        ],
        Key::Ctrl(c) => fx.len() == 0 && menu_ctrl_step(a, b, c),
        Key::Backspace => fx.len() == 0 && filter_edited(a, b, without_last(a.menu.menu_filter@)),
        Key::Esc => fx.len() == 0 && menu_esc_step(a, b),
        Key::Char(c) => fx.len() == 0 && filter_edited(a, b, a.menu.menu_filter@.push(c)),
        _ => b == a && fx.len() == 0,
    }
}

/// `b` is `a` after Esc on the Loading screen: back to where loading began.
#[verifier::opaque]
pub open spec fn loading_key_step(a: Session, b: Session, key: Key) -> bool {
    if key == Key::Esc {
        screen_set(
            a,
            b,
            if a.challenge.loading_is_challenge {
                Screen::ChallengeMenu
            } else {
                Screen::Menu
            },
        )
    } else {
        b == a
    }
}

/// Whether the trimmed guess text names the anime of `a`'s round.
pub open spec fn anime_guessed(a: Session) -> bool {
    match a.turn.round {
        Some(r) => names_anime(r.anime, trimmed(a.turn.input@)),
        None => false,
    }
}

/// `b` is `a` after Esc while playing: a lobby round is forfeited; a solo
/// round is abandoned (audio stopped, back to the menu).
#[verifier::opaque]
pub open spec fn playing_esc_step(a: Session, b: Session, fx: Seq<Effect>) -> bool {
    if a.lobby is Some {
        finished_lobby(a, b, false, fx)
    } else {
        fx == seq![Effect::StopAudio] && with_turn_reset(
            Session {
                turn: Turn { round: None, ..a.turn },
                ui: Ui { screen: Screen::Menu, ..a.ui },
                ..a
            },
            b,
        )
    }
}

/// `b` is `a` after Enter while playing: typing the anime's name wins an
/// anime round; else the highlighted suggestion is the guess; with none,
/// nothing happens.
#[verifier::opaque]
pub open spec fn playing_enter_step(a: Session, b: Session, fx: Seq<Effect>) -> bool {
    if anime_guessed(a) {
        anime_step(a, b, fx)
    } else if a.turn.suggestion_index < a.turn.suggestions@.len() {
        guess_step(a, b, a.turn.suggestions@[a.turn.suggestion_index as int], fx)
    } else {
        b == a && fx.len() == 0
    }
}

/// `b` is `a` with the guess text now `text` and a search queued for it.
pub open spec fn input_edited(a: Session, b: Session, text: Seq<char>) -> bool {
    &&& b.turn.input@ == text
    &&& with_search_queued(Session { turn: Turn { input: b.turn.input, ..a.turn }, ..a }, b)
}

/// `b` is `a` after `key` on the Playing screen, with effects `fx`; `extend`
/// is whether a skip lets the playing clip run on.
#[verifier::opaque]
pub open spec fn playing_key_step(
    a: Session,
    b: Session,
    key: Key,
    extend: bool,
    fx: Seq<Effect>,
) -> bool {
    if waits_for_clip(key) && a.turn.countdown is Some {
        b == a && fx.len() == 0
    } else {
        match key {
            Key::Esc => playing_esc_step(a, b, fx),
            Key::Enter => playing_enter_step(a, b, fx),
            Key::Tab => skip_step(a, b, extend, fx),
            Key::Up => fx.len() == 0 && b == (Session {
                turn: Turn { suggestion_index: up_from(a.turn.suggestion_index), ..a.turn },
                ..a
            }),
            Key::Down => fx.len() == 0 && b == (Session {
                turn: Turn {
                    suggestion_index: down_from(a.turn.suggestion_index, a.turn.suggestions@.len()),
                    ..a.turn
                },
                ..a
            }),
            Key::Ctrl(c) => if c == 'r' || c == 'p' {
                fx == clip_of(a) && with_clip_started(a, b)
            } else {
                b == a && fx.len() == 0
            },
            Key::Backspace => fx.len() == 0 && input_edited(a, b, without_last(a.turn.input@)),
            Key::Char(c) => fx.len() == 0 && input_edited(a, b, a.turn.input@.push(c)),
            _ => b == a && fx.len() == 0,
        }
    }
}

/// The keys that wait for the round's clip: guessing, skipping and
/// replaying do nothing during the lead-in.
pub open spec fn waits_for_clip(key: Key) -> bool {
    key == Key::Enter || key == Key::Tab || key == Key::Ctrl('r') || key == Key::Ctrl('p')
}

/// `b` is `a` with the round dropped and the menu showing.
pub open spec fn round_dropped(a: Session, b: Session) -> bool {
    b == (Session {
        turn: Turn { round: None, ..a.turn },
        ui: Ui { screen: Screen::Menu, ..a.ui },
        ..a
    })
}

/// `b` is `a` after `key` on the round result, with effects `fx`.
#[verifier::opaque]
pub open spec fn roundend_key_step(a: Session, b: Session, key: Key, fx: Seq<Effect>) -> bool {
    match key {
        Key::Enter => match a.turn.last_category {
            Some(c) => loading_round(a, b, c) && loads(fx, c, a.tally.recent_songs@),
            None => b == a && fx.len() == 0,
        },
        Key::Esc => fx == seq![Effect::StopAudio] && round_dropped(a, b),
        Key::Char(c) => if c == 'm' {
            fx == seq![Effect::StopAudio] && round_dropped(a, b)
        } else if c == 'q' {
            quit_set(a, b) && fx.len() == 0
        } else {
            b == a && fx.len() == 0
        },
        _ => b == a && fx.len() == 0,
    }
}

impl Session {
    /// Run a Home action (0 solo · 1 online · 2 profile · 3 settings).
    pub fn home_select(&mut self, i: usize)
        ensures
            home_selected(*old(self), *final(self), i),
            old(self).wf() ==> final(self).wf(),
    {
        reveal(home_selected);
        if i == 0 {
            self.play_solo();
        } else if i == 1 {
            self.open_challenge();
        } else if i == 2 {
            self.open_profile();
        } else if i == 3 {
            self.open_settings();
        }
    }

    pub(crate) fn on_home_key(&mut self, key: Key)
        ensures
            home_key_step(*old(self), *final(self), key),
            old(self).wf() ==> final(self).wf(),
    {
        reveal(home_key_step);
        reveal(quit_set);
        match key {
            Key::Up => {
                if self.ui.home_index > 0 {
                    self.ui.home_index = self.ui.home_index - 1;
                }
            },
            Key::Down => {
                if self.ui.home_index < HOME_ACTIONS - 1 {
                    self.ui.home_index = self.ui.home_index + 1;
                }
            },
            Key::Enter => self.home_select(self.ui.home_index),
            Key::Esc => {
                self.ui.should_quit = true;
            },
            _ => {},
        }
    }

    pub(crate) fn on_settings_key(&mut self, key: Key) -> (fx: Vec<Effect>)
        ensures
            settings_key_step(*old(self), *final(self), key, fx@),
            old(self).wf() ==> final(self).wf(),
    {
        reveal(settings_key_step);
        reveal(screen_set);
        match key {
            Key::Esc => {
                self.ui.screen = Screen::Home;
                Vec::new()
            },
            Key::Left => {
                let m = self.prefs.game_mode.prev();
                self.set_default_mode(m)
            },
            Key::Right => {
                let m = self.prefs.game_mode.next();
                self.set_default_mode(m)
            },
            Key::Char('w') => {
                self.ui.notes_return = Screen::Settings;
                self.ui.screen = Screen::Whatsnew;
                Vec::new()
            },
            _ => Vec::new(),
        }
    }

    /// Leave the release notes on Esc or Enter.
    pub(crate) fn on_whatsnew_key(&mut self, key: Key)
        ensures
            whatsnew_key_step(*old(self), *final(self), key),
            old(self).wf() ==> final(self).wf(),
    {
        reveal(whatsnew_key_step);
        reveal(screen_set);
        if key == Key::Esc || key == Key::Enter {
            self.ui.screen = self.ui.notes_return;
        }
    }

    pub(crate) fn on_profile_key(&mut self, key: Key)
        ensures
            profile_key_step(*old(self), *final(self), key),
            old(self).wf() ==> final(self).wf(),
    {
        reveal(profile_key_step);
        reveal(screen_set);
        if key == Key::Esc {
            self.ui.screen = self.ui.profile_return;
        }
    }

    pub(crate) fn on_loading_key(&mut self, key: Key)
        ensures
            loading_key_step(*old(self), *final(self), key),
            old(self).wf() ==> final(self).wf(),
    {
        reveal(loading_key_step);
        reveal(screen_set);
        if key == Key::Esc {
            self.ui.screen = if self.challenge.loading_is_challenge {
                Screen::ChallengeMenu
            } else {
                Screen::Menu
            };
        }
    }

    /// Switch the default effect and say so.
    fn switch_mode(&mut self, mode: GameMode) -> (fx: Vec<Effect>)
        ensures
            mode_switched(*old(self), *final(self), mode),
            fx@ == seq![Effect::SaveProfile],
            old(self).wf() ==> final(self).wf(),
    {
        reveal(mode_switched);
        reveal(mode_set);
        let fx = self.set_default_mode(mode);
        let mut text = String::from_str("Game mode: ");
        text.append(mode.label());
        self.set_status(text);
        fx
    }

    /// The menu list for the current filter: an optional "custom playlist"
    /// entry (when the filter parses as a Deezer id/URL) followed by the
    /// matching categories.
    pub fn menu_items(&self) -> (r: Vec<MenuItem>)
        ensures
            r@ == menu_rows_spec(self.menu.categories@, self.menu.menu_filter@),
    {
        crate::session::menu_items(&self.menu.categories, self.menu.menu_filter.as_str())
    }

    fn menu_enter(&mut self) -> (fx: Vec<Effect>)
        ensures
            menu_enter_step(*old(self), *final(self), fx@),
            old(self).wf() ==> final(self).wf(),
    {
        reveal(menu_enter_step);
        let mut items = self.menu_items();
        let ghost rows = items@;
        if self.menu.menu_index < items.len() {
            let item = items.remove(self.menu.menu_index);
            let cat = item.into_category();
            assert(category_of_item(rows[self.menu.menu_index as int], cat));
            if self.menu.host_selecting {
                self.challenge.host_category = Some(cat);
                self.menu.host_selecting = false;
                self.ui.screen = Screen::HostConfig;
                Vec::new()
            } else {
                self.start_round(cat)
            }
        } else {
            Vec::new()
        }
    }

    fn menu_ctrl(&mut self, c: char)
        ensures
            menu_ctrl_step(*old(self), *final(self), c),
            old(self).wf() ==> final(self).wf(),
    {
        reveal(menu_ctrl_step);
        reveal(with_status);
        reveal(challenge_opened);
        reveal(profile_opened);
        if c == 'o' {
            self.open_challenge();
        } else if c == 'p' {
            self.open_profile();
        } else if c == 'u' {
            if self.ui.update_available.is_some() {
                self.ui.post_action = Some(PostAction::Update);
                self.ui.should_quit = true;
            } else {
                self.set_status(String::from_str("You're on the latest version."));
            }
        } else if c == 'x' {
            self.ui.confirm_uninstall = true;
        }
    }

    fn menu_esc(&mut self)
        ensures
            menu_esc_step(*old(self), *final(self)),
            old(self).wf() ==> final(self).wf(),
    {
        reveal(menu_esc_step);
        reveal(screen_set);
        if self.menu.host_selecting {
            self.menu.host_selecting = false;
            self.ui.screen = Screen::ChallengeMenu;
        } else if self.menu.menu_filter.as_str().is_empty() {
            self.ui.screen = Screen::Home;
        } else {
            self.menu.menu_filter = String::new();
            self.menu.menu_index = 0;
        }
    }

    pub(crate) fn on_menu_key(&mut self, key: Key) -> (fx: Vec<Effect>)
        ensures
            menu_key_step(*old(self), *final(self), key, fx@),
            old(self).wf() ==> final(self).wf(),
    {
        reveal(menu_key_step);
        match key {
            Key::Up => {
                if self.menu.menu_index > 0 {
                    self.menu.menu_index = self.menu.menu_index - 1;
                }
                Vec::new()
            },
            Key::Down => {
                let n = self.menu_items().len();
                if n > 0 && self.menu.menu_index < n - 1 {
                    self.menu.menu_index = self.menu.menu_index + 1;
                }
                Vec::new()
            },
            Key::Enter => self.menu_enter(),
            Key::Left => {
                let m = self.prefs.game_mode.prev();
                self.switch_mode(m)
            },
            Key::Right => {
                let m = self.prefs.game_mode.next();
                self.switch_mode(m)
            },
            Key::Ctrl(c) => {
                self.menu_ctrl(c);
                Vec::new()
            },
            Key::Backspace => {
                self.menu.menu_filter = pop_char(&self.menu.menu_filter);
                self.menu.menu_index = 0;
                Vec::new()
            },
            Key::Esc => {
                self.menu_esc();
                Vec::new()
            },
            Key::Char(c) => {
                self.menu.menu_filter = pushed(&self.menu.menu_filter, c);
                self.menu.menu_index = 0;
                Vec::new()
            },
            _ => Vec::new(),
        }
    }

    /// Whether the trimmed guess text names this round's anime.
    fn anime_guessed(&self) -> (r: bool)
        ensures
            r == anime_guessed(*self),
    {
        match &self.turn.round {
            Some(round) => {
                let guess = string_of(&trim(&chars_of(self.turn.input.as_str())));
                round.anime_named(guess.as_str())
            },
            None => false,
        }
    }

    fn playing_esc(&mut self) -> (fx: Vec<Effect>)
        requires
            old(self).wf(),
        ensures
            final(self).wf(),
            playing_esc_step(*old(self), *final(self), fx@),
    {
        reveal(playing_esc_step);
        if self.lobby.is_some() {
            self.finish_lobby_round(false)
        } else {
            self.turn.round = None;
            self.ui.screen = Screen::Menu;
            self.reset_turn();
            single(Effect::StopAudio)
        }
    }

    fn playing_enter(&mut self) -> (fx: Vec<Effect>)
        requires
            old(self).wf(),
        ensures
            final(self).wf(),
            playing_enter_step(*old(self), *final(self), fx@),
    {
        reveal(playing_enter_step);
        if self.anime_guessed() {
            self.win_anime_guess()
        } else if self.turn.suggestion_index < self.turn.suggestions.len() {
            let guess = self.turn.suggestions[self.turn.suggestion_index].clone();
            self.make_guess(guess)
        } else {
            Vec::new()
        }
    }

    pub(crate) fn on_playing_key(&mut self, key: Key) -> (fx: Vec<Effect>)
        requires
            old(self).wf(),
        ensures
            final(self).wf(),
            exists|extend: bool|
                #[trigger] playing_key_step(*old(self), *final(self), key, extend, fx@) && (
                extend ==> skip_may_extend(*old(self))),
    {
        reveal(playing_key_step);
        let waits = key == Key::Enter || key == Key::Tab || key == Key::Ctrl('r') || key
            == Key::Ctrl('p');
        if waits && self.turn.countdown.is_some() {
            let fx = Vec::new();
            assert(playing_key_step(*old(self), *self, key, false, fx@));
            return fx;
        }
        match key {
            Key::Esc => {
                let fx = self.playing_esc();
                assert(playing_key_step(*old(self), *self, key, false, fx@));
                fx
            },
            Key::Enter => {
                let fx = self.playing_enter();
                assert(playing_key_step(*old(self), *self, key, false, fx@));
                fx
            },
            Key::Tab => {
                let fx = self.skip();
                proof {
                    let e = choose|extend: bool|
                        #[trigger] skip_step(*old(self), *self, extend, fx@) && (extend
                            ==> skip_may_extend(*old(self)));
                    assert(playing_key_step(*old(self), *self, key, e, fx@));
                }
                fx
            },
            Key::Up => {
                if self.turn.suggestion_index > 0 {
                    self.turn.suggestion_index = self.turn.suggestion_index - 1;
                }
                assert(playing_key_step(*old(self), *self, key, false, Seq::empty()));
                Vec::new()
            },
            Key::Down => {
                if self.turn.suggestions.len() > 0 && self.turn.suggestion_index
                    < self.turn.suggestions.len() - 1 {
                    self.turn.suggestion_index = self.turn.suggestion_index + 1;
                }
                assert(playing_key_step(*old(self), *self, key, false, Seq::empty()));
                Vec::new()
            },
            Key::Ctrl(c) => {
                let fx = if c == 'r' || c == 'p' {
                    self.play_current_clip()
                } else {
                    Vec::new()
                };
                assert(playing_key_step(*old(self), *self, key, false, fx@));
                fx
            },
            Key::Backspace => {
                let text = pop_char(&self.turn.input);
                self.set_search(text);
                assert(playing_key_step(*old(self), *self, key, false, Seq::empty()));
                Vec::new()
            },
            Key::Char(c) => {
                let text = pushed(&self.turn.input, c);
                self.set_search(text);
                assert(playing_key_step(*old(self), *self, key, false, Seq::empty()));
                Vec::new()
            },
            _ => {
                assert(playing_key_step(*old(self), *self, key, false, Seq::empty()));
                Vec::new()
            },
        }
    }

    /// The category to play again, if any.
    fn replay_category(&self) -> (r: Option<Category>)
        ensures
            r == self.turn.last_category,
    {
        match &self.turn.last_category {
            Some(c) => Some(c.clone()),
            None => None,
        }
    }

    pub(crate) fn on_roundend_key(&mut self, key: Key) -> (fx: Vec<Effect>)
        ensures
            roundend_key_step(*old(self), *final(self), key, fx@),
            old(self).wf() ==> final(self).wf(),
    {
        reveal(roundend_key_step);
        reveal(quit_set);
        match key {
            Key::Enter => {
                let again = self.replay_category();
                match again {
                    Some(c) => self.start_round(c),
                    None => Vec::new(),
                }
            },
            Key::Esc => {
                self.turn.round = None;
                self.ui.screen = Screen::Menu;
                single(Effect::StopAudio)
            },
            Key::Char(c) => {
                if c == 'm' {
                    self.turn.round = None;
                    self.ui.screen = Screen::Menu;
                    single(Effect::StopAudio)
                } else {
                    if c == 'q' {
                        self.ui.should_quit = true;
                    }
                    Vec::new()
                }
            },
            _ => Vec::new(),
        }
    }
}

} // verus!
