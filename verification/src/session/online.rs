//! The online Challenge screens: the Challenge menu (with the display-name
//! editor), the host configuration, joining by code and browsing public
//! lobbies.

use vstd::prelude::*;

use crate::game::{next_mode, prev_mode};
use crate::session::control::{
    menu_opened, name_settled, screen_set, single, with_status, Challenge, Effect, Menu, Session,
    Ui, NAME_MAX,
};
use crate::session::keys::{down_from, pop_char, pushed, up_from, without_last};
use crate::session::{Key, Screen};
use crate::text::{
    ascii_letter_or_digit, ascii_upper, chars_of, is_ascii, string_of, trim, trimmed,
};

verus! {

/// The most characters a typed lobby code may have.
pub const CODE_MAX: usize = 12;

/// The rows of the Challenge menu: host, browse, join by code.
pub const CHALLENGE_ACTIONS: usize = 3;

/// The name the `str::to_uppercase` of a text gives.
pub uninterp spec fn uppercase(s: Seq<char>) -> Seq<char>;

/// Calls `str::to_uppercase`. Its result is named; of an all-ASCII text it is
/// stated as std documents it: each letter's case changed, nothing else.
#[verifier::external_body]
fn to_uppercase(s: &str) -> (r: String)
    ensures
        r@ == uppercase(s@),
        (forall|i: int| 0 <= i < s@.len() ==> is_ascii(#[trigger] s@[i])) ==> r@ == s@.map_values(
            |c: char| ascii_upper(c),
        ),
{
    s.to_uppercase()
}

fn is_ascii_alnum(c: char) -> (r: bool)
    ensures
        r == ascii_letter_or_digit(c),
{
    ('0' <= c && c <= '9') || ('a' <= c && c <= 'z') || ('A' <= c && c <= 'Z')
}

fn to_ascii_upper(c: char) -> (r: char)
    ensures
        r == ascii_upper(c),
{
    if 'a' <= c && c <= 'z' {
        ((c as u32 - 32) as u8) as char
    } else {
        c
    }
}

/// The lobby code typed into the Join screen: trimmed and uppercased.
pub open spec fn typed_code(s: Seq<char>) -> Seq<char> {
    uppercase(trimmed(s))
}

/// The effects that refresh the public lobby list (none offline).
pub open spec fn refresh_fx(a: Session) -> Seq<Effect> {
    if a.setup.online {
        seq![Effect::RefreshParties]
    } else {
        Seq::empty()
    }
}

/// `b` is `a` after asking to join the lobby `code`: offline, a status says
/// online play is unavailable; else the Loading screen shows (from
/// Challenge) while the join runs.
#[verifier::opaque]
pub open spec fn join_started(a: Session, b: Session, code: String, fx: Seq<Effect>) -> bool {
    if a.setup.online {
        &&& b == (Session {
            challenge: Challenge { loading_is_challenge: true, ..a.challenge },
            ui: Ui { screen: Screen::Loading, ..a.ui },
            ..a
        })
        &&& fx == seq![Effect::JoinLobby { code, name: a.challenge.player_name }]
    } else {
        with_status(a, b, "Online play is unavailable."@) && fx.len() == 0
    }
}

/// `b` is `a` after asking to host a lobby: without online play or a chosen
/// pool, a status says online play is unavailable; else the Loading screen
/// shows (from Challenge) while the lobby is advertised and connected with
/// the configured visibility, size, name, rounds, effect and pool.
#[verifier::opaque]
pub open spec fn host_started(a: Session, b: Session, fx: Seq<Effect>) -> bool {
    match a.challenge.host_category {
        Some(c) if a.setup.online => {
            &&& b == (Session {
                challenge: Challenge { loading_is_challenge: true, ..a.challenge },
                ui: Ui { screen: Screen::Loading, ..a.ui },
                ..a
            })
            &&& fx == seq![
                Effect::HostLobby {
                    public: a.challenge.host_public,
                    max_players: a.challenge.host_max,
                    host_name: a.challenge.player_name,
                    rounds: a.challenge.host_rounds,
                    mode: a.challenge.host_mode,
                    category: c,
                },
            ]
        },
        _ => with_status(a, b, "Online play is unavailable."@) && fx.len() == 0,
    }
}

/// `b` is `a` with the display name now `name`.
pub open spec fn name_edited(a: Session, b: Session, name: Seq<char>) -> bool {
    &&& b.challenge.player_name@ == name
    &&& b == (Session {
        challenge: Challenge { player_name: b.challenge.player_name, ..a.challenge },
        ..a
    })
}

/// `b` is `a` after `key` while the display name is being edited: Enter or
/// Esc settles it (a blank name falls back to the default) and saves the
/// profile; Backspace and typing edit it (at most `NAME_MAX` characters).
#[verifier::opaque]
pub open spec fn name_key_step(a: Session, b: Session, key: Key, fx: Seq<Effect>) -> bool {
    match key {
        Key::Enter | Key::Esc => fx == seq![Effect::SaveProfile] && name_settled(
            Session { challenge: Challenge { editing_name: false, ..a.challenge }, ..a },
            b,
        ),
        Key::Backspace => fx.len() == 0 && name_edited(
            a,
            b,
            without_last(a.challenge.player_name@),
        ),
        Key::Char(c) => fx.len() == 0 && if a.challenge.player_name@.len() < NAME_MAX {
            name_edited(a, b, a.challenge.player_name@.push(c))
        } else {
            b == a
        },
        _ => b == a && fx.len() == 0,
    }
}

/// `b` is `a` after Enter on Challenge menu row `i`: host (pick the song
/// pool), browse the public lobbies, or join by code.
#[verifier::opaque]
pub open spec fn challenge_chosen(a: Session, b: Session, i: usize, fx: Seq<Effect>) -> bool {
    if i == 0 {
        menu_opened(a, b, true) && fx.len() == 0
    } else if i == 1 {
        &&& b.challenge.browse@.len() == 0
        &&& b == (Session {
            challenge: Challenge { browse: b.challenge.browse, browse_index: 0, ..a.challenge },
            ui: Ui { screen: Screen::Browse, ..a.ui },
            ..a
        })
        &&& fx == refresh_fx(a)
    } else if i == 2 {
        &&& b.challenge.join_input@.len() == 0
        &&& b == (Session {
            challenge: Challenge { join_input: b.challenge.join_input, ..a.challenge },
            ui: Ui { screen: Screen::JoinCode, ..a.ui },
            ..a
        })
        &&& fx.len() == 0
    } else {
        b == a && fx.len() == 0
    }
}

/// `b` is `a` after `key` on the Challenge menu, with effects `fx`.
#[verifier::opaque]
pub open spec fn challenge_key_step(a: Session, b: Session, key: Key, fx: Seq<Effect>) -> bool {
    if a.challenge.editing_name {
        name_key_step(a, b, key, fx)
    } else {
        match key {
            Key::Up => fx.len() == 0 && b == (Session {
                challenge: Challenge {
                    challenge_index: up_from(a.challenge.challenge_index),
                    ..a.challenge
                },
                ..a
            }),
            Key::Down => fx.len() == 0 && b == (Session {
                challenge: Challenge {
                    challenge_index: down_from(
                        a.challenge.challenge_index,
                        CHALLENGE_ACTIONS as nat,
                    ),
                    ..a.challenge
                },
                ..a
            }),
            Key::Char(c) => fx.len() == 0 && if c == 'n' {
                b == (Session { challenge: Challenge { editing_name: true, ..a.challenge }, ..a })
            } else {
                b == a
            },
            Key::Enter => challenge_chosen(a, b, a.challenge.challenge_index, fx),
            Key::Esc => fx.len() == 0 && screen_set(a, b, Screen::Home),
            _ => b == a && fx.len() == 0,
        }
    }
}

/// `b` is `a` with the host configuration `c2` (an edit of `a`'s).
pub open spec fn host_edited(a: Session, b: Session, c2: Challenge) -> bool {
    b == (Session { challenge: c2, ..a })
}

/// `b` is `a` after `key` on the host configuration, with effects `fx`:
/// arrows cycle the effect and set the rounds (1..=20), v toggles the
/// visibility, + and - set the size (1..=64), c re-picks the pool, Enter
/// applies to the running lobby (when editing one) or hosts, Esc goes back.
#[verifier::opaque]
pub open spec fn host_key_step(a: Session, b: Session, key: Key, fx: Seq<Effect>) -> bool {
    let c = a.challenge;
    match key {
        Key::Left => fx.len() == 0 && host_edited(
            a,
            b,
            Challenge { host_mode: prev_mode(c.host_mode), ..c },
        ),
        Key::Right => fx.len() == 0 && host_edited(
            a,
            b,
            Challenge { host_mode: next_mode(c.host_mode), ..c },
        ),
        Key::Up => fx.len() == 0 && if c.host_rounds < 20 {
            host_edited(a, b, Challenge { host_rounds: (c.host_rounds + 1) as u32, ..c })
        } else {
            b == a
        },
        Key::Down => fx.len() == 0 && if c.host_rounds > 1 {
            host_edited(a, b, Challenge { host_rounds: (c.host_rounds - 1) as u32, ..c })
        } else {
            b == a
        },
        Key::Char(ch) => fx.len() == 0 && if ch == 'v' {
            host_edited(a, b, Challenge { host_public: !c.host_public, ..c })
        } else if (ch == '+' || ch == '=') && c.host_max < 64 {
            host_edited(a, b, Challenge { host_max: (c.host_max + 1) as u32, ..c })
        } else if (ch == '-' || ch == '_') && c.host_max > 1 {
            host_edited(a, b, Challenge { host_max: (c.host_max - 1) as u32, ..c })
        } else if ch == 'c' {
            menu_opened(a, b, true)
        } else {
            b == a
        },
        Key::Enter => if c.editing_lobby {
            crate::session::lobby_flow::settings_applied(a, b, fx)
        } else {
            host_started(a, b, fx)
        },
        Key::Esc => fx.len() == 0 && if c.editing_lobby {
            b == (Session {
                challenge: Challenge { editing_lobby: false, ..c },
                ui: Ui { screen: Screen::Lobby, ..a.ui },
                ..a
            })
        } else {
            b == (Session {
                menu: Menu { host_selecting: false, ..a.menu },
                ui: Ui { screen: Screen::ChallengeMenu, ..a.ui },
                ..a
            })
        },
        _ => b == a && fx.len() == 0,
    }
}

/// `b` is `a` with the typed lobby code now `code`.
pub open spec fn code_edited(a: Session, b: Session, code: Seq<char>) -> bool {
    &&& b.challenge.join_input@ == code
    &&& b == (Session {
        challenge: Challenge { join_input: b.challenge.join_input, ..a.challenge },
        ..a
    })
}

/// `b` is `a` after `key` on the Join screen, with effects `fx`: Enter joins
/// the typed code (trimmed, uppercased) unless it is empty; typing takes
/// ASCII letters and digits (uppercased, at most `CODE_MAX`).
#[verifier::opaque]
pub open spec fn join_key_step(a: Session, b: Session, key: Key, fx: Seq<Effect>) -> bool {
    match key {
        Key::Enter => if typed_code(a.challenge.join_input@).len() > 0 {
            exists|code: String|
                code@ == typed_code(a.challenge.join_input@) && #[trigger] join_started(
                    a,
                    b,
                    code,
                    fx,
                )
        } else {
            b == a && fx.len() == 0
        },
        Key::Backspace => fx.len() == 0 && code_edited(a, b, without_last(a.challenge.join_input@)),
        Key::Esc => fx.len() == 0 && screen_set(a, b, Screen::ChallengeMenu),
        Key::Char(c) => fx.len() == 0 && if ascii_letter_or_digit(c) && a.challenge.join_input@.len()
            < CODE_MAX {
            code_edited(a, b, a.challenge.join_input@.push(ascii_upper(c)))
        } else {
            b == a
        },
        _ => b == a && fx.len() == 0,
    }
}

/// `b` is `a` after `key` on the public lobby list, with effects `fx`: r
/// refreshes it, Enter joins the highlighted lobby.
#[verifier::opaque]
pub open spec fn browse_key_step(a: Session, b: Session, key: Key, fx: Seq<Effect>) -> bool {
    let c = a.challenge;
    match key {
        Key::Up => fx.len() == 0 && host_edited(
            a,
            b,
            Challenge { browse_index: up_from(c.browse_index), ..c },
        ),
        Key::Down => fx.len() == 0 && host_edited(
            a,
            b,
            Challenge { browse_index: down_from(c.browse_index, c.browse@.len()), ..c },
        ),
        Key::Char(ch) => if ch == 'r' {
            b == a && fx == refresh_fx(a)
        } else {
            b == a && fx.len() == 0
        },
        Key::Enter => if c.browse_index < c.browse@.len() {
            join_started(a, b, c.browse@[c.browse_index as int].code, fx)
        } else {
            b == a && fx.len() == 0
        },
        Key::Esc => fx.len() == 0 && screen_set(a, b, Screen::ChallengeMenu),
        _ => b == a && fx.len() == 0,
    }
}

impl Session {
    /// The effects that refresh the public lobby list.
    pub(crate) fn refresh_public_parties(&self) -> (fx: Vec<Effect>)
        ensures
            fx@ == refresh_fx(*self),
    {
        if self.setup.online {
            single(Effect::RefreshParties)
        } else {
            Vec::new()
        }
    }

    /// Join an existing lobby by its code (from Browse or typed in).
    pub(crate) fn join_lobby(&mut self, code: String) -> (fx: Vec<Effect>)
        ensures
            join_started(*old(self), *final(self), code, fx@),
            old(self).wf() ==> final(self).wf(),
    {
        reveal(join_started);
        reveal(with_status);
        if !self.setup.online {
            self.set_status(String::from_str("Online play is unavailable."));
            return Vec::new();
        }
        self.challenge.loading_is_challenge = true;
        self.ui.screen = Screen::Loading;
        let name = self.challenge.player_name.clone();
        single(Effect::JoinLobby { code, name })
    }

    /// Host: advertise a lobby and connect to it, with the configured pool.
    pub(crate) fn host_lobby(&mut self) -> (fx: Vec<Effect>)
        ensures
            host_started(*old(self), *final(self), fx@),
            old(self).wf() ==> final(self).wf(),
    {
        reveal(host_started);
        reveal(with_status);
        let category = match &self.challenge.host_category {
            Some(c) if self.setup.online => c.clone(),
            _ => {
                self.set_status(String::from_str("Online play is unavailable."));
                return Vec::new();
            },
        };
        self.challenge.loading_is_challenge = true;
        self.ui.screen = Screen::Loading;
        single(
            Effect::HostLobby {
                public: self.challenge.host_public,
                max_players: self.challenge.host_max,
                host_name: self.challenge.player_name.clone(),
                rounds: self.challenge.host_rounds,
                mode: self.challenge.host_mode,
                category,
            },
        )
    }

    fn on_name_key(&mut self, key: Key) -> (fx: Vec<Effect>)
        ensures
            name_key_step(*old(self), *final(self), key, fx@),
            old(self).wf() ==> final(self).wf(),
    {
        reveal(name_key_step);
        reveal(name_settled);
        match key {
            Key::Enter | Key::Esc => {
                self.challenge.editing_name = false;
                self.settle_name();
                single(Effect::SaveProfile)
            },
            Key::Backspace => {
                self.challenge.player_name = pop_char(&self.challenge.player_name);
                Vec::new()
            },
            Key::Char(c) => {
                if chars_of(self.challenge.player_name.as_str()).len() < NAME_MAX {
                    self.challenge.player_name = pushed(&self.challenge.player_name, c);
                }
                Vec::new()
            },
            _ => Vec::new(),
        }
    }

    fn challenge_choose(&mut self) -> (fx: Vec<Effect>)
        ensures
            challenge_chosen(*old(self), *final(self), old(self).challenge.challenge_index, fx@),
            old(self).wf() ==> final(self).wf(),
    {
        reveal(challenge_chosen);
        reveal(menu_opened);
        let i = self.challenge.challenge_index;
        if i == 0 {
            self.change_pool();
            Vec::new()
        } else if i == 1 {
            self.challenge.browse = Vec::new();
            self.challenge.browse_index = 0;
            self.ui.screen = Screen::Browse;
            self.refresh_public_parties()
        } else if i == 2 {
            self.challenge.join_input = String::new();
            self.ui.screen = Screen::JoinCode;
            Vec::new()
        } else {
            Vec::new()
        }
    }

    pub(crate) fn on_challenge_menu_key(&mut self, key: Key) -> (fx: Vec<Effect>)
        ensures
            challenge_key_step(*old(self), *final(self), key, fx@),
            old(self).wf() ==> final(self).wf(),
    {
        reveal(challenge_key_step);
        reveal(screen_set);
        if self.challenge.editing_name {
            return self.on_name_key(key);
        }
        match key {
            Key::Up => {
                if self.challenge.challenge_index > 0 {
                    self.challenge.challenge_index = self.challenge.challenge_index - 1;
                }
                Vec::new()
            },
            Key::Down => {
                if self.challenge.challenge_index < CHALLENGE_ACTIONS - 1 {
                    self.challenge.challenge_index = self.challenge.challenge_index + 1;
                }
                Vec::new()
            },
            Key::Char(c) => {
                if c == 'n' {
                    self.challenge.editing_name = true;
                }
                Vec::new()
            },
            Key::Enter => self.challenge_choose(),
            Key::Esc => {
                self.ui.screen = Screen::Home;
                Vec::new()
            },
            _ => Vec::new(),
        }
    }

    fn host_char(&mut self, ch: char)
        ensures
            host_key_step(*old(self), *final(self), Key::Char(ch), Seq::empty()),
            old(self).wf() ==> final(self).wf(),
    {
        reveal(host_key_step);
        reveal(menu_opened);
        if ch == 'v' {
            self.challenge.host_public = !self.challenge.host_public;
        } else if (ch == '+' || ch == '=') && self.challenge.host_max < 64 {
            self.challenge.host_max = self.challenge.host_max + 1;
        } else if (ch == '-' || ch == '_') && self.challenge.host_max > 1 {
            self.challenge.host_max = self.challenge.host_max - 1;
        } else if ch == 'c' {
            self.change_pool();
        }
    }

    pub(crate) fn on_host_config_key(&mut self, key: Key) -> (fx: Vec<Effect>)
        requires
            old(self).wf(),
        ensures
            host_key_step(*old(self), *final(self), key, fx@),
            final(self).wf(),
    {
        reveal(host_key_step);
        match key {
            Key::Left => {
                self.challenge.host_mode = self.challenge.host_mode.prev();
                Vec::new()
            },
            Key::Right => {
                self.challenge.host_mode = self.challenge.host_mode.next();
                Vec::new()
            },
            Key::Up => {
                if self.challenge.host_rounds < 20 {
                    self.challenge.host_rounds = self.challenge.host_rounds + 1;
                }
                Vec::new()
            },
            Key::Down => {
                if self.challenge.host_rounds > 1 {
                    self.challenge.host_rounds = self.challenge.host_rounds - 1;
                }
                Vec::new()
            },
            Key::Char(ch) => {
                self.host_char(ch);
                Vec::new()
            },
            Key::Enter => {
                if self.challenge.editing_lobby {
                    self.apply_lobby_settings()
                } else {
                    self.host_lobby()
                }
            },
            Key::Esc => {
                if self.challenge.editing_lobby {
                    self.challenge.editing_lobby = false;
                    self.ui.screen = Screen::Lobby;
                } else {
                    self.menu.host_selecting = false;
                    self.ui.screen = Screen::ChallengeMenu;
                }
                Vec::new()
            },
            _ => Vec::new(),
        }
    }

    fn join_enter(&mut self) -> (fx: Vec<Effect>)
        ensures
            join_key_step(*old(self), *final(self), Key::Enter, fx@),
            old(self).wf() ==> final(self).wf(),
    {
        reveal(join_key_step);
        let t = string_of(&trim(&chars_of(self.challenge.join_input.as_str())));
        let code = to_uppercase(t.as_str());
        if code.as_str().is_empty() {
            return Vec::new();
        }
        let ghost c = code;
        let fx = self.join_lobby(code);
        assert(join_started(*old(self), *self, c, fx@));
        fx
    }

    pub(crate) fn on_join_key(&mut self, key: Key) -> (fx: Vec<Effect>)
        ensures
            join_key_step(*old(self), *final(self), key, fx@),
            old(self).wf() ==> final(self).wf(),
    {
        reveal(join_key_step);
        reveal(screen_set);
        match key {
            Key::Enter => self.join_enter(),
            Key::Backspace => {
                self.challenge.join_input = pop_char(&self.challenge.join_input);
                Vec::new()
            },
            Key::Esc => {
                self.ui.screen = Screen::ChallengeMenu;
                Vec::new()
            },
            Key::Char(c) => {
                if is_ascii_alnum(c) && chars_of(self.challenge.join_input.as_str()).len()
                    < CODE_MAX {
                    self.challenge.join_input = pushed(&self.challenge.join_input, to_ascii_upper(c));
                }
                Vec::new()
            },
            _ => Vec::new(),
        }
    }

    pub(crate) fn on_browse_key(&mut self, key: Key) -> (fx: Vec<Effect>)
        ensures
            browse_key_step(*old(self), *final(self), key, fx@),
            old(self).wf() ==> final(self).wf(),
    {
        reveal(browse_key_step);
        reveal(screen_set);
        match key {
            Key::Up => {
                if self.challenge.browse_index > 0 {
                    self.challenge.browse_index = self.challenge.browse_index - 1;
                }
                Vec::new()
            },
            Key::Down => {
                if self.challenge.browse.len() > 0 && self.challenge.browse_index
                    < self.challenge.browse.len() - 1 {
                    self.challenge.browse_index = self.challenge.browse_index + 1;
                }
                Vec::new()
            },
            Key::Char(ch) => {
                if ch == 'r' {
                    self.refresh_public_parties()
                } else {
                    Vec::new()
                }
            },
            Key::Enter => {
                if self.challenge.browse_index < self.challenge.browse.len() {
                    let code = self.challenge.browse[self.challenge.browse_index].code.clone();
                    self.join_lobby(code)
                } else {
                    Vec::new()
                }
            },
            Key::Esc => {
                self.ui.screen = Screen::ChallengeMenu;
                Vec::new()
            },
            _ => Vec::new(),
        }
    }
}

} // verus!
