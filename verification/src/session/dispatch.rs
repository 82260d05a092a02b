//! Routing input: a key press, or a click on a list row, goes to the screen
//! that shows, after the shortcuts that work everywhere.

use vstd::prelude::*;

use crate::session::control::{quit_set, volume_stepped, Challenge, Effect, Menu, Session, Turn, Ui};
use crate::session::keys::{
    home_key_step, loading_key_step, menu_key_step, playing_key_step, profile_key_step,
    roundend_key_step, settings_key_step, whatsnew_key_step,
};
use crate::session::lobby_flow::lobby_key_step;
use crate::session::online::{
    browse_key_step, challenge_key_step, host_key_step, join_key_step, CHALLENGE_ACTIONS,
};
use crate::session::turns::skip_may_extend;
use crate::session::{Key, PostAction, Screen};

verus! {

/// What a clickable button or row of a frontend stands for.
#[derive(Clone, Copy)]
pub enum ClickAction {
    Replay,
    Skip,
    VolumeUp,
    VolumeDown,
    /// A list row (its meaning depends on the current screen).
    ListItem(usize),
    NextRound,
    ResultToMenu,
    /// The host's primary lobby button (start / next round / new game).
    LobbyPrimary,
    /// Leave the current lobby.
    LobbyLeave,
}

/// The key a button stands in for (none for a list row).
pub open spec fn click_key(action: ClickAction) -> Option<Key> {
    match action {
        ClickAction::Replay => Some(Key::Ctrl('r')),
        ClickAction::Skip => Some(Key::Tab),
        ClickAction::VolumeUp => Some(Key::CtrlUp),
        ClickAction::VolumeDown => Some(Key::CtrlDown),
        ClickAction::ListItem(_) => None,
        ClickAction::NextRound => Some(Key::Enter),
        ClickAction::ResultToMenu => Some(Key::Char('m')),
        ClickAction::LobbyPrimary => Some(Key::Enter),
        ClickAction::LobbyLeave => Some(Key::Esc),
    }
}

/// `b` is `a` after `key` on the screen `a` shows, with effects `fx`
/// (`extend`: whether a skip lets the playing clip run on).
pub open spec fn screen_key_step(a: Session, b: Session, key: Key, extend: bool, fx: Seq<Effect>) -> bool {
    match a.ui.screen {
        Screen::Home => home_key_step(a, b, key) && fx.len() == 0,
        Screen::Settings => settings_key_step(a, b, key, fx),
        Screen::Menu => menu_key_step(a, b, key, fx),
        Screen::Loading => loading_key_step(a, b, key) && fx.len() == 0,
        Screen::Playing => playing_key_step(a, b, key, extend, fx),
        Screen::RoundEnd => roundend_key_step(a, b, key, fx),
        Screen::Profile => profile_key_step(a, b, key) && fx.len() == 0,
        Screen::ChallengeMenu => challenge_key_step(a, b, key, fx),
        Screen::HostConfig => host_key_step(a, b, key, fx),
        Screen::Browse => browse_key_step(a, b, key, fx),
        Screen::JoinCode => join_key_step(a, b, key, fx),
        Screen::Lobby => lobby_key_step(a, b, key, fx),
        Screen::Whatsnew => whatsnew_key_step(a, b, key) && fx.len() == 0,
    }
}

/// `b` is `a` after the key press `key`, with effects `fx`. Ctrl-C quits
/// and Ctrl+Up/Down set the volume anywhere; the uninstall confirmation
/// takes the next key (y or Y confirms); otherwise the shown screen handles
/// it.
#[verifier::opaque]
pub open spec fn key_step(a: Session, b: Session, key: Key, extend: bool, fx: Seq<Effect>) -> bool {
    if key == Key::Ctrl('c') {
        quit_set(a, b) && fx.len() == 0
    } else if key == Key::CtrlUp {
        volume_stepped(a, b, true, fx)
    } else if key == Key::CtrlDown {
        volume_stepped(a, b, false, fx)
    } else if a.ui.confirm_uninstall {
        fx.len() == 0 && if key == Key::Char('y') || key == Key::Char('Y') {
            b == (Session {
                ui: Ui { post_action: Some(PostAction::Uninstall), should_quit: true, ..a.ui },
                ..a
            })
        } else {
            b == (Session { ui: Ui { confirm_uninstall: false, ..a.ui }, ..a })
        }
    } else {
        screen_key_step(a, b, key, extend, fx)
    }
}

/// `b` is `a` after a click on list row `i` of the shown screen, with
/// effects `fx`: the row is selected, then Enter pressed (Challenge rows only
/// while not editing the name).
#[verifier::opaque]
pub open spec fn click_step(a: Session, b: Session, i: usize, fx: Seq<Effect>) -> bool {
    match a.ui.screen {
        Screen::Home => home_key_step(
            Session { ui: Ui { home_index: i, ..a.ui }, ..a },
            b,
            Key::Enter,
        ) && fx.len() == 0,
        Screen::Menu => menu_key_step(
            Session { menu: Menu { menu_index: i, ..a.menu }, ..a },
            b,
            Key::Enter,
            fx,
        ),
        Screen::Playing => playing_key_step(
            Session { turn: Turn { suggestion_index: i, ..a.turn }, ..a },
            b,
            Key::Enter,
            false,
            fx,
        ),
        Screen::ChallengeMenu => if !a.challenge.editing_name && i < CHALLENGE_ACTIONS {
            challenge_key_step(
                Session { challenge: Challenge { challenge_index: i, ..a.challenge }, ..a },
                b,
                Key::Enter,
                fx,
            )
        } else {
            b == a && fx.len() == 0
        },
        Screen::Browse => browse_key_step(
            Session { challenge: Challenge { browse_index: i, ..a.challenge }, ..a },
            b,
            Key::Enter,
            fx,
        ),
        _ => b == a && fx.len() == 0,
    }
}

impl Session {
    fn on_screen_key(&mut self, key: Key) -> (fx: Vec<Effect>)
        requires
            old(self).wf(),
        ensures
            final(self).wf(),
            exists|extend: bool|
                #[trigger] screen_key_step(*old(self), *final(self), key, extend, fx@) && (extend
                    ==> (old(self).ui.screen == Screen::Playing && skip_may_extend(*old(self)))),
    {
        match self.ui.screen {
            Screen::Home => {
                self.on_home_key(key);
                let fx = Vec::new();
                assert(screen_key_step(*old(self), *self, key, false, fx@));
                fx
            },
            Screen::Settings => {
                let fx = self.on_settings_key(key);
                assert(screen_key_step(*old(self), *self, key, false, fx@));
                fx
            },
            Screen::Menu => {
                let fx = self.on_menu_key(key);
                assert(screen_key_step(*old(self), *self, key, false, fx@));
                fx
            },
            Screen::Loading => {
                self.on_loading_key(key);
                let fx = Vec::new();
                assert(screen_key_step(*old(self), *self, key, false, fx@));
                fx
            },
            Screen::Playing => {
                let fx = self.on_playing_key(key);
                proof {
                    let e = choose|extend: bool|
                        #[trigger] playing_key_step(*old(self), *self, key, extend, fx@) && (extend
                            ==> skip_may_extend(*old(self)));
                    assert(screen_key_step(*old(self), *self, key, e, fx@));
                }
                fx
            },
            Screen::RoundEnd => {
                let fx = self.on_roundend_key(key);
                assert(screen_key_step(*old(self), *self, key, false, fx@));
                fx
            },
            Screen::Profile => {
                self.on_profile_key(key);
                let fx = Vec::new();
                assert(screen_key_step(*old(self), *self, key, false, fx@));
                fx
            },
            Screen::ChallengeMenu => {
                let fx = self.on_challenge_menu_key(key);
                assert(screen_key_step(*old(self), *self, key, false, fx@));
                fx
            },
            Screen::HostConfig => {
                let fx = self.on_host_config_key(key);
                assert(screen_key_step(*old(self), *self, key, false, fx@));
                fx
            },
            Screen::Browse => {
                let fx = self.on_browse_key(key);
                assert(screen_key_step(*old(self), *self, key, false, fx@));
                fx
            },
            Screen::JoinCode => {
                let fx = self.on_join_key(key);
                assert(screen_key_step(*old(self), *self, key, false, fx@));
                fx
            },
            Screen::Lobby => {
                let fx = self.on_lobby_key(key);
                assert(screen_key_step(*old(self), *self, key, false, fx@));
                fx
            },
            Screen::Whatsnew => {
                self.on_whatsnew_key(key);
                let fx = Vec::new();
                assert(screen_key_step(*old(self), *self, key, false, fx@));
                fx
            },
        }
    }

    /// Handle a frontend-agnostic key press: the shortcuts that work
    /// everywhere (quit, volume, the uninstall overlay) first, then the
    /// screen that shows.
    pub fn handle_key(&mut self, key: Key) -> (fx: Vec<Effect>)
        requires
            old(self).wf(),
        ensures
            final(self).wf(),
            exists|extend: bool|
                #[trigger] key_step(*old(self), *final(self), key, extend, fx@) && (extend ==> (
                old(self).ui.screen == Screen::Playing && skip_may_extend(*old(self)))),
    {
        reveal(key_step);
        reveal(quit_set);
        if key == Key::Ctrl('c') {
            self.ui.should_quit = true;
            let fx = Vec::new();
            assert(key_step(*old(self), *self, key, false, fx@));
            return fx;
        }
        if key == Key::CtrlUp {
            let fx = self.adjust_volume(true);
            assert(key_step(*old(self), *self, key, false, fx@));
            return fx;
        }
        if key == Key::CtrlDown {
            let fx = self.adjust_volume(false);
            assert(key_step(*old(self), *self, key, false, fx@));
            return fx;
        }
        if self.ui.confirm_uninstall {
            if key == Key::Char('y') || key == Key::Char('Y') {
                self.ui.post_action = Some(PostAction::Uninstall);
                self.ui.should_quit = true;
            } else {
                self.ui.confirm_uninstall = false;
            }
            let fx = Vec::new();
            assert(key_step(*old(self), *self, key, false, fx@));
            return fx;
        }
        let fx = self.on_screen_key(key);
        proof {
            let e = choose|extend: bool|
                #[trigger] screen_key_step(*old(self), *self, key, extend, fx@) && (extend ==> (
                old(self).ui.screen == Screen::Playing && skip_may_extend(*old(self))));
            assert(key_step(*old(self), *self, key, e, fx@));
        }
        fx
    }

    /// Route a click: a button acts as the key it stands in for, a list row
    /// as a click on that row.
    pub fn dispatch_click(&mut self, action: ClickAction) -> (fx: Vec<Effect>)
        requires
            old(self).wf(),
        ensures
            final(self).wf(),
            action is ListItem ==> click_step(*old(self), *final(self), action->ListItem_0, fx@),
            !(action is ListItem) ==> exists|extend: bool|
                #[trigger] key_step(*old(self), *final(self), click_key(action)->Some_0, extend, fx@)
                    && (extend ==> (old(self).ui.screen == Screen::Playing && skip_may_extend(
                    *old(self),
                ))),
    {
        let key = match action {
            ClickAction::ListItem(i) => return self.list_click(i),
            ClickAction::Replay => Key::Ctrl('r'),
            ClickAction::Skip => Key::Tab,
            ClickAction::VolumeUp => Key::CtrlUp,
            ClickAction::VolumeDown => Key::CtrlDown,
            ClickAction::NextRound => Key::Enter,
            ClickAction::ResultToMenu => Key::Char('m'),
            ClickAction::LobbyPrimary => Key::Enter,
            ClickAction::LobbyLeave => Key::Esc,
        };
        assert(click_key(action) == Some(key));
        let fx = self.handle_key(key);
        proof {
            let e = choose|extend: bool|
                #[trigger] key_step(*old(self), *self, key, extend, fx@) && (extend ==> (
                old(self).ui.screen == Screen::Playing && skip_may_extend(*old(self))));
            assert(key_step(*old(self), *self, click_key(action)->Some_0, e, fx@));
        }
        fx
    }

    /// Activate list row `i` on the current screen: select it, then Enter.
    pub fn list_click(&mut self, i: usize) -> (fx: Vec<Effect>)
        requires
            old(self).wf(),
        ensures
            final(self).wf(),
            click_step(*old(self), *final(self), i, fx@),
    {
        reveal(click_step);
        match self.ui.screen {
            Screen::Home => {
                self.ui.home_index = i;
                self.on_home_key(Key::Enter);
                Vec::new()
            },
            Screen::Menu => {
                self.menu.menu_index = i;
                self.on_menu_key(Key::Enter)
            },
            Screen::Playing => {
                self.turn.suggestion_index = i;
                let fx = self.on_playing_key(Key::Enter);
                proof {
                    reveal(playing_key_step);
                }
                fx
            },
            Screen::ChallengeMenu => {
                if !self.challenge.editing_name && i < CHALLENGE_ACTIONS {
                    self.challenge.challenge_index = i;
                    self.on_challenge_menu_key(Key::Enter)
                } else {
                    Vec::new()
                }
            },
            Screen::Browse => {
                self.challenge.browse_index = i;
                self.on_browse_key(Key::Enter)
            },
            _ => Vec::new(),
        }
    }
}

} // verus!
