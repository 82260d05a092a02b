//! The frontend-agnostic pieces of the app controller: keys, screens, the
//! lobby state, and the category menu with its playlist-reference parsing.

use std::time::Instant;

use vstd::prelude::*;

pub mod control;
pub mod dispatch;
pub mod keys;
pub mod laws;
pub mod lobby_flow;
pub mod msgs;
pub mod online;
pub mod turns;

pub use self::control::{Effect, Session};

use crate::anime::{draw_index, index_of, random_u64};
use crate::config::Category;
use crate::deezer::Track;
use crate::game::{key_of, song_key, GameMode};
use crate::lobby::{in_board_order, Game, Standing};
use crate::text::{
    ascii_lower, chars_of, contains, contains_seq, find, is_ascii, seq_eq, string_of, trim, trimmed,
};
use crate::update::{digits_value, is_digit};

verus! {

/// `std::time::Instant`, carried through opaquely.
#[verifier::external_type_specification]
#[verifier::external_body]
pub struct ExInstant(Instant);

/// Home actions: Play solo, Play online, Profile, Settings.
pub const HOME_ACTIONS: usize = 4;

/// A frontend-agnostic key press.
#[derive(Clone, Copy, PartialEq, Eq, Structural)]
pub enum Key {
    Up,
    Down,
    Left,
    Right,
    Enter,
    Esc,
    Tab,
    Backspace,
    /// A plain character (no Ctrl).
    Char(char),
    /// Ctrl + a (lowercased) letter.
    Ctrl(char),
    /// Ctrl + arrows — reserved for volume.
    CtrlUp,
    CtrlDown,
}

/// The screens of the app.
#[derive(Clone, Copy, PartialEq, Eq, Structural)]
pub enum Screen {
    /// Landing screen: profile summary + the main entry points.
    Home,
    Menu,
    Loading,
    Playing,
    RoundEnd,
    /// Player profile: identity + lifetime stats + recent games.
    Profile,
    /// Preferences: default effect, volume, and maintenance.
    Settings,
    ChallengeMenu,
    HostConfig,
    Browse,
    JoinCode,
    /// Live multi-round lobby (waiting room / between rounds / game over).
    Lobby,
    /// The release notes of this and past versions.
    Whatsnew,
}

/// What the live lobby is showing between the actual rounds.
#[derive(Clone, Copy, PartialEq, Eq, Structural)]
pub enum LobbyPhase {
    /// Before the first round; players gather, host configures & starts.
    Waiting,
    /// A round just ended: reveal + running board while others finish.
    Between,
    /// Joined mid-game: watching, will play when the host starts the next game.
    Spectating,
    /// All rounds done: final standings; host can start a fresh game.
    GameOver,
}

/// An action to run after the frontend tears down.
#[derive(Clone, Copy, PartialEq, Eq, Structural)]
pub enum PostAction {
    Update,
    Uninstall,
}

/// State for a live multi-round lobby. All clients keep the same cumulative
/// `game`; only the host drives round progression.
pub struct LobbyState {
    pub code: String,
    pub is_host: bool,
    /// Active player names from presence.
    pub players: Vec<String>,
    /// Names of members waiting out a running game (late joiners).
    pub spectators: Vec<String>,
    pub game: Game,
    pub phase: LobbyPhase,
    pub rounds: u32,
    pub mode: GameMode,
    pub category_label: String,
    /// Host only: where round songs are drawn from, and the cached pool.
    pub category: Option<Category>,
    pub pool: Vec<Track>,
    /// The just-revealed song (shown between rounds / at game over).
    pub last_answer: Option<Track>,
    pub round_started_at: Option<Instant>,
    /// Whether we've already broadcast our result for the current round.
    pub my_result_sent: bool,
    /// True once we've received the `new_game` that started the current game.
    pub playing_this_game: bool,
    /// True while we're spectating a game we joined mid-way through.
    pub spectating: bool,
    /// Host only: the keys of the songs already played in this game.
    pub played: Vec<String>,
}

impl LobbyState {
    /// Best-first standings for display.
    pub fn board(&self) -> (r: Vec<Standing>)
        ensures
            r@.to_multiset() == self.game.standings.rows().to_multiset(),
            in_board_order(r@),
    {
        self.game.standings.ranked()
    }
}

/// The decimal digits of a number.
pub open spec fn decimal(n: nat) -> Seq<char>
    decreases n,
{
    if n < 10 {
        seq![('0' as nat + n) as char]
    } else {
        decimal(n / 10).push(('0' as nat + n % 10) as char)
    }
}

/// A signed number in decimal, `-` first when negative.
pub open spec fn signed_decimal(n: int) -> Seq<char> {
    if n < 0 {
        seq!['-'] + decimal((-n) as nat)
    } else {
        decimal(n as nat)
    }
}

fn digits_of(n: u64) -> (r: Vec<char>)
    ensures
        r@ == decimal(n as nat),
    decreases n,
{
    if n < 10 {
        let c = ((n as u32) + ('0' as u32)) as u8 as char;
        let v = vec![c];
        assert(v@ =~= decimal(n as nat));
        v
    } else {
        let mut v = digits_of(n / 10);
        let c = (((n % 10) as u32) + ('0' as u32)) as u8 as char;
        v.push(c);
        v
    }
}

/// A number in decimal, as `format!("{n}")` writes it.
pub fn number_text(n: i64) -> (r: String)
    ensures
        r@ == signed_decimal(n as int),
{
    if n < 0 {
        let m: u64 = if n == i64::MIN {
            9223372036854775808u64
        } else {
            (-n) as u64
        };
        let d = digits_of(m);
        let mut v: Vec<char> = vec!['-'];
        let mut i: usize = 0;
        while i < d.len()
            invariant
                i <= d.len(),
                v@ =~= seq!['-'] + d@.take(i as int),
            decreases d.len() - i,
        {
            v.push(d[i]);
            i = i + 1;
        }
        assert(d@.take(d.len() as int) =~= d@);
        string_of(&v)
    } else {
        string_of(&digits_of(n as u64))
    }
}

/// A row on the menu: either a known category or a custom playlist parsed from
/// the filter text.
pub enum MenuItem {
    Category(Category),
    CustomPlaylist(i64),
}

impl MenuItem {
    /// The row's text: the category name, or an offer to play the playlist.
    pub fn label(&self) -> (r: String)
        ensures
            match self {
                MenuItem::Category(c) => r@ == c.name@,
                MenuItem::CustomPlaylist(id) => r@ == "▶ Play Deezer playlist "@ + signed_decimal(
                    *id as int,
                ),
            },
    {
        match self {
            MenuItem::Category(c) => c.name.clone(),
            MenuItem::CustomPlaylist(id) => {
                let mut s = String::from_str("▶ Play Deezer playlist ");
                let n = number_text(*id);
                s.append(n.as_str());
                s
            },
        }
    }

    /// The category to play: the listed one, or a "Playlist <id>" category.
    pub fn into_category(self) -> (r: Category)
        ensures
            match self {
                MenuItem::Category(c) => r == c,
                MenuItem::CustomPlaylist(id) => r.name@ == "Playlist "@ + signed_decimal(
                    id as int,
                ) && r.source == crate::config::CategorySource::Playlist(id),
            },
    {
        match self {
            MenuItem::Category(c) => c,
            MenuItem::CustomPlaylist(id) => {
                let mut s = String::from_str("Playlist ");
                let n = number_text(id);
                s.append(n.as_str());
                Category::playlist(s.as_str(), id)
            },
        }
    }
}

/// What `str::parse::<i64>` gives for a text of ASCII digits only.
pub open spec fn parse_digits_i64(s: Seq<char>) -> Option<i64> {
    if s.len() > 0 && (forall|i: int| 0 <= i < s.len() ==> is_digit(#[trigger] s[i]))
        && digits_value(s) <= i64::MAX {
        Some(digits_value(s) as i64)
    } else {
        None
    }
}

/// The longest prefix of `s` made of ASCII digits.
pub open spec fn leading_digits(s: Seq<char>) -> Seq<char>
    decreases s.len(),
{
    if s.len() > 0 && is_digit(s[0]) {
        seq![s[0]] + leading_digits(s.drop_first())
    } else {
        Seq::empty()
    }
}

/// The marker before a playlist id in a Deezer URL.
pub open spec fn playlist_marker() -> Seq<char> {
    seq!['p', 'l', 'a', 'y', 'l', 'i', 's', 't', '/']
}

/// A Deezer playlist reference in filter text: after the first `playlist/`,
/// the digits that follow (when there are any); otherwise a bare all-digit id
/// of at least 6 digits. Everything is read from the trimmed text.
pub open spec fn playlist_ref(s: Seq<char>) -> Option<i64> {
    let t = trimmed(s);
    let m = playlist_marker();
    let url_digits = if contains_seq(t, m) {
        leading_digits(t.skip(crate::game::first_at(t, m) + m.len()))
    } else {
        Seq::empty()
    };
    if url_digits.len() > 0 {
        parse_digits_i64(url_digits)
    } else if t.len() >= 6 && (forall|i: int| 0 <= i < t.len() ==> is_digit(#[trigger] t[i])) {
        parse_digits_i64(t)
    } else {
        None
    }
}

proof fn lemma_digits_value_grows(t: Seq<char>, k: int)
    requires
        0 <= k <= t.len(),
        forall|i: int| 0 <= i < t.len() ==> is_digit(#[trigger] t[i]),
    ensures
        digits_value(t.take(k)) <= digits_value(t),
    decreases t.len() - k,
{
    if k < t.len() {
        assert(t.take(k + 1).drop_last() =~= t.take(k));
        assert(is_digit(t[k]));
        lemma_digits_value_grows(t, k + 1);
    } else {
        assert(t.take(k) =~= t);
    }
}

fn parse_i64_digits(s: &Vec<char>) -> (r: Option<i64>)
    requires
        forall|i: int| 0 <= i < s@.len() ==> is_digit(#[trigger] s@[i]),
    ensures
        r == parse_digits_i64(s@),
{
    if s.len() == 0 {
        return None;
    }
    let mut val: i64 = 0;
    let mut j: usize = 0;
    assert(s@.take(0) =~= Seq::<char>::empty());
    while j < s.len()
        invariant
            j <= s.len(),
            forall|i: int| 0 <= i < s@.len() ==> is_digit(#[trigger] s@[i]),
            0 <= val,
            val == digits_value(s@.take(j as int)),
        decreases s.len() - j,
    {
        let c = s[j];
        assert(is_digit(s@[j as int]));
        let d = (c as u32 - '0' as u32) as i64;
        assert(s@.take(j + 1).drop_last() =~= s@.take(j as int));
        assert(digits_value(s@.take(j + 1)) == val * 10 + d);
        if val > (i64::MAX - d) / 10 {
            proof {
                lemma_digits_value_grows(s@, j + 1);
                assert(val * 10 + d > i64::MAX) by (nonlinear_arith)
                    requires
                        val > (i64::MAX - d) / 10,
                        0 <= d <= 9,
                ;
            }
            return None;
        }
        val = val * 10 + d;
        j = j + 1;
    }
    assert(s@.take(s.len() as int) =~= s@);
    Some(val)
}

fn take_digits(s: &Vec<char>, start: usize) -> (r: Vec<char>)
    requires
        start <= s.len(),
    ensures
        r@ == leading_digits(s@.skip(start as int)),
        forall|i: int| 0 <= i < r@.len() ==> is_digit(#[trigger] r@[i]),
{
    let mut out: Vec<char> = Vec::new();
    let mut i: usize = start;
    while i < s.len() && s[i] >= '0' && s[i] <= '9'
        invariant
            start <= i <= s.len(),
            out@ + leading_digits(s@.skip(i as int)) == leading_digits(s@.skip(start as int)),
            forall|k: int| 0 <= k < out@.len() ==> is_digit(#[trigger] out@[k]),
        decreases s.len() - i,
    {
        assert(s@.skip(i as int)[0] == s@[i as int]);
        assert(s@.skip(i as int).drop_first() =~= s@.skip(i + 1));
        let ghost b = out@;
        out.push(s[i]);
        assert(b.push(s@[i as int]) + leading_digits(s@.skip(i + 1)) =~= b + (seq![s@[i as int]]
            + leading_digits(s@.skip(i + 1))));
        i = i + 1;
    }
    if i < s.len() {
        assert(s@.skip(i as int)[0] == s@[i as int]);
    }
    assert(leading_digits(s@.skip(i as int)) =~= Seq::<char>::empty());
    assert(out@ + Seq::<char>::empty() =~= out@);
    out
}

fn all_digits(t: &Vec<char>) -> (r: bool)
    ensures
        r == forall|i: int| 0 <= i < t@.len() ==> is_digit(#[trigger] t@[i]),
{
    let mut k: usize = 0;
    while k < t.len()
        invariant
            k <= t.len(),
            forall|i: int| 0 <= i < k ==> is_digit(#[trigger] t@[i]),
        decreases t.len() - k,
    {
        if !(t[k] >= '0' && t[k] <= '9') {
            assert(!is_digit(t@[k as int]));
            return false;
        }
        k = k + 1;
    }
    true
}

/// Parse a Deezer playlist reference from filter text: a `playlist/<id>` URL,
/// or a bare numeric id (at least 6 digits, so short filter words aren't
/// misread as ids).
pub fn parse_playlist_ref(s: &str) -> (r: Option<i64>)
    ensures
        r == playlist_ref(s@),
{
    let t = trim(&chars_of(s));
    let m: Vec<char> = vec!['p', 'l', 'a', 'y', 'l', 'i', 's', 't', '/'];
    assert(m@ =~= playlist_marker());
    let url_digits = match find(&t, &m) {
        Some(pos) => {
            proof {
                crate::game::lemma_first_at_unique(t@, m@, pos as int);
            }
            take_digits(&t, pos + 9)
        },
        None => Vec::new(),
    };
    if url_digits.len() > 0 {
        return parse_i64_digits(&url_digits);
    }
    proof {
        if !contains_seq(t@, m@) {
            assert(url_digits@ =~= Seq::<char>::empty());
        }
    }
    if t.len() >= 6 && all_digits(&t) {
        return parse_i64_digits(&t);
    }
    None
}

/// The name the `str::to_lowercase` of a text gives.
pub uninterp spec fn lowercase(s: Seq<char>) -> Seq<char>;

/// Calls `str::to_lowercase`. Its result is named; of an all-ASCII text it is
/// stated as std documents it: each letter's case changed, nothing else.
#[verifier::external_body]
fn to_lowercase(s: &str) -> (r: String)
    ensures
        r@ == lowercase(s@),
        (forall|i: int| 0 <= i < s@.len() ==> is_ascii(#[trigger] s@[i])) ==> r@ == s@.map_values(
            |c: char| ascii_lower(c),
        ),
{
    s.to_lowercase()
}

/// Whether a category is listed under a (trimmed, lowercased) filter: an empty
/// filter lists everything, else the lowercased name must contain it.
pub open spec fn listed(c: Category, needle: Seq<char>) -> bool {
    needle.len() == 0 || contains_seq(lowercase(c.name@), needle)
}

/// The menu rows for filter text: a custom-playlist row first when the filter
/// is a playlist reference, then every listed category, in order.
#[verifier::opaque]
pub open spec fn menu_rows_spec(categories: Seq<Category>, filter: Seq<char>) -> Seq<MenuItem> {
    let needle = lowercase(trimmed(filter));
    let custom: Seq<MenuItem> = match playlist_ref(filter) {
        Some(id) => seq![MenuItem::CustomPlaylist(id)],
        None => Seq::empty(),
    };
    custom + categories.filter(|c: Category| listed(c, needle)).map_values(
        |c: Category| MenuItem::Category(c),
    )
}

/// The menu list for a filter: an optional "custom playlist" entry (when the
/// filter parses as a Deezer id/URL) followed by matching categories.
pub fn menu_items(categories: &Vec<Category>, filter: &str) -> (r: Vec<MenuItem>)
    ensures
        r@ == menu_rows_spec(categories@, filter@),
{
    reveal(menu_rows_spec);
    let mut items: Vec<MenuItem> = Vec::new();
    match parse_playlist_ref(filter) {
        Some(id) => items.push(MenuItem::CustomPlaylist(id)),
        None => {},
    }
    let ghost head = items@;
    let trimmed_filter = string_of(&trim(&chars_of(filter)));
    let needle = to_lowercase(trimmed_filter.as_str());
    let nd = chars_of(needle.as_str());
    let ghost keep = |c: Category| listed(c, needle@);
    let mut i: usize = 0;
    assert(categories@.take(0).filter(keep) =~= Seq::<Category>::empty());
    while i < categories.len()
        invariant
            i <= categories.len(),
            nd@ == needle@,
            needle@ == lowercase(trimmed(filter@)),
            keep == (|c: Category| listed(c, needle@)),
            items@ == head + categories@.take(i as int).filter(keep).map_values(
                |c: Category| MenuItem::Category(c),
            ),
        decreases categories.len() - i,
    {
        let c = &categories[i];
        let name = to_lowercase(c.name.as_str());
        let ok = nd.len() == 0 || contains(&chars_of(name.as_str()), &nd);
        assert(categories@.take(i + 1).drop_last() =~= categories@.take(i as int));
        reveal_with_fuel(Seq::filter, 1);
        if ok {
            items.push(MenuItem::Category(c.clone()));
            assert(items@ =~= head + categories@.take(i + 1).filter(keep).map_values(
                |c: Category| MenuItem::Category(c),
            ));
        } else {
            assert(items@ =~= head + categories@.take(i + 1).filter(keep).map_values(
                |c: Category| MenuItem::Category(c),
            ));
        }
        i = i + 1;
    }
    assert(categories@.take(categories.len() as int) =~= categories@);
    items
}


/// Whether a track has a preview clip.
pub open spec fn playable(t: Track) -> bool {
    t.preview@.len() > 0
}

/// The tracks that have a preview, in order.
pub fn playable_tracks(tracks: Vec<Track>) -> (r: Vec<Track>)
    ensures
        r@ == tracks@.filter(|t: Track| playable(t)),
{
    let mut out: Vec<Track> = Vec::new();
    let mut i: usize = 0;
    assert(tracks@.take(0).filter(|t: Track| playable(t)) =~= Seq::<Track>::empty());
    while i < tracks.len()
        invariant
            i <= tracks.len(),
            out@ == tracks@.take(i as int).filter(|t: Track| playable(t)),
        decreases tracks.len() - i,
    {
        assert(tracks@.take(i + 1).drop_last() =~= tracks@.take(i as int));
        reveal_with_fuel(Seq::filter, 1);
        if tracks[i].has_preview() {
            out.push(tracks[i].clone());
        }
        assert(out@ =~= tracks@.take(i + 1).filter(|t: Track| playable(t)));
        i = i + 1;
    }
    assert(tracks@.take(tracks.len() as int) =~= tracks@);
    out
}

/// A list of song keys by their characters.
pub open spec fn key_views(v: Seq<String>) -> Seq<Seq<char>> {
    v.map_values(|k: String| k@)
}

/// Whether `t` is a different song from every one of the keys `avoid`.
pub open spec fn fresh(t: Track, avoid: Seq<Seq<char>>) -> bool {
    !avoid.contains(key_of(t))
}

/// The indices below `n` of the songs of `ts` that are fresh, in order.
pub open spec fn fresh_below(ts: Seq<Track>, avoid: Seq<Seq<char>>, n: nat) -> Seq<int>
    decreases n,
{
    if n == 0 {
        Seq::empty()
    } else {
        let r = fresh_below(ts, avoid, (n - 1) as nat);
        if fresh(ts[n - 1], avoid) {
            r.push(n - 1)
        } else {
            r
        }
    }
}

/// Where a fresh pick is drawn from: the fresh songs of `ts`, or all of them
/// when none is fresh.
pub open spec fn fresh_choices(ts: Seq<Track>, avoid: Seq<Seq<char>>) -> Seq<int> {
    let f = fresh_below(ts, avoid, ts.len());
    if f.len() > 0 {
        f
    } else {
        Seq::new(ts.len(), |i: int| i)
    }
}

/// Every index of `fresh_below` is a fresh song's, and any fresh song below
/// `n` puts at least one there.
proof fn lemma_fresh_below(ts: Seq<Track>, avoid: Seq<Seq<char>>, n: nat)
    requires
        n <= ts.len(),
    ensures
        forall|k: int|
            0 <= k < fresh_below(ts, avoid, n).len() ==> 0 <= #[trigger] fresh_below(ts, avoid, n)[k]
                < n && fresh(ts[fresh_below(ts, avoid, n)[k]], avoid),
        (exists|j: int| 0 <= j < n && fresh(#[trigger] ts[j], avoid)) ==> fresh_below(
            ts,
            avoid,
            n,
        ).len() > 0,
    decreases n,
{
    if n > 0 {
        lemma_fresh_below(ts, avoid, (n - 1) as nat);
        let r = fresh_below(ts, avoid, (n - 1) as nat);
        let f = fresh_below(ts, avoid, n);
        assert forall|k: int| 0 <= k < f.len() implies 0 <= #[trigger] f[k] < n && fresh(
            ts[f[k]],
            avoid,
        ) by {
            if k < r.len() {
                assert(f[k] == r[k]);
            }
        }
        if exists|j: int| 0 <= j < n && fresh(#[trigger] ts[j], avoid) {
            let j = choose|j: int| 0 <= j < n && fresh(#[trigger] ts[j], avoid);
            if j < n - 1 {
                assert(0 <= j < n - 1 && fresh(ts[j], avoid));
            }
        }
    }
}

/// Whether the key `k` is one of `avoid`.
fn key_in(k: &Vec<char>, avoid: &Vec<String>) -> (r: bool)
    ensures
        r == key_views(avoid@).contains(k@),
{
    let mut i: usize = 0;
    while i < avoid.len()
        invariant
            i <= avoid.len(),
            forall|j: int| 0 <= j < i ==> key_views(avoid@)[j] != k@,
        decreases avoid.len() - i,
    {
        if seq_eq(&chars_of(avoid[i].as_str()), k) {
            assert(key_views(avoid@)[i as int] == k@);
            return true;
        }
        i = i + 1;
    }
    proof {
        if key_views(avoid@).contains(k@) {
            let j = choose|j: int| 0 <= j < key_views(avoid@).len() && key_views(avoid@)[j] == k@;
            assert(key_views(avoid@)[j] != k@);
        }
    }
    false
}

/// The indices a fresh pick from `ts` is drawn from (see `fresh_choices`).
pub fn fresh_indices(ts: &Vec<Track>, avoid: &Vec<String>) -> (r: Vec<usize>)
    ensures
        r@.map_values(|i: usize| i as int) == fresh_choices(ts@, key_views(avoid@)),
{
    let ghost keys = key_views(avoid@);
    let mut r: Vec<usize> = Vec::new();
    let mut i: usize = 0;
    while i < ts.len()
        invariant
            i <= ts.len(),
            keys == key_views(avoid@),
            r@.map_values(|x: usize| x as int) == fresh_below(ts@, keys, i as nat),
        decreases ts.len() - i,
    {
        let k = chars_of(song_key(&ts[i]).as_str());
        if !key_in(&k, avoid) {
            r.push(i);
            assert(r@.map_values(|x: usize| x as int) =~= fresh_below(ts@, keys, i as nat).push(i as int));
        }
        i = i + 1;
    }
    if r.len() == 0 {
        let mut all: Vec<usize> = Vec::new();
        let mut j: usize = 0;
        while j < ts.len()
            invariant
                j <= ts.len(),
                all@.len() == j,
                forall|x: int| 0 <= x < j ==> all@[x] == x,
            decreases ts.len() - j,
        {
            all.push(j);
            j = j + 1;
        }
        assert(all@.map_values(|x: usize| x as int) =~= Seq::new(ts@.len(), |x: int| x));
        all
    } else {
        r
    }
}

/// The index of the song that the draw `draw` picks from `ts` while avoiding
/// the keys `avoid`: the fresh choice at the draw's remainder by their number.
pub open spec fn fresh_pick(ts: Seq<Track>, avoid: Seq<Seq<char>>, draw: u64) -> int {
    let c = fresh_choices(ts, avoid);
    c[index_of(draw, c.len() as usize) as int]
}

/// The song of `pool` that the random value `draw` picks among those that
/// differ from every key of `avoid` (among all songs when none does), or
/// `None` when `pool` is empty.
pub fn pick_fresh_with<'a>(pool: &'a Vec<Track>, avoid: &Vec<String>, draw: u64) -> (r: Option<
    &'a Track,
>)
    ensures
        match r {
            Some(t) => {
                &&& 0 <= fresh_pick(pool@, key_views(avoid@), draw) < pool@.len()
                &&& *t == pool@[fresh_pick(pool@, key_views(avoid@), draw)]
                &&& fresh(*t, key_views(avoid@)) || forall|i: int|
                    0 <= i < pool@.len() ==> !fresh(#[trigger] pool@[i], key_views(avoid@))
            },
            None => pool@.len() == 0,
        },
{
    if pool.len() == 0 {
        return None;
    }
    let choices = fresh_indices(pool, avoid);
    proof {
        lemma_fresh_below(pool@, key_views(avoid@), pool@.len());
    }
    assert(choices@.map_values(|x: usize| x as int).len() == choices@.len());
    let k = draw_index(draw, choices.len());
    let i = choices[k];
    assert(choices@.map_values(|x: usize| x as int)[k as int] == i as int);
    Some(&pool[i])
}

/// A random song of `pool` that differs from every key of `avoid` (any song
/// of `pool` when none does), or `None` when `pool` is empty: the pick of
/// `pick_fresh_with` for a random draw.
pub fn pick_fresh<'a>(pool: &'a Vec<Track>, avoid: &Vec<String>) -> (r: Option<&'a Track>)
    ensures
        r is None <==> pool@.len() == 0,
        exists|draw: u64|
            r matches Some(t) ==> *t == pool@[#[trigger] fresh_pick(pool@, key_views(avoid@), draw)]
                && 0 <= fresh_pick(pool@, key_views(avoid@), draw) < pool@.len(),
        match r {
            Some(t) => fresh(*t, key_views(avoid@)) || forall|i: int|
                0 <= i < pool@.len() ==> !fresh(#[trigger] pool@[i], key_views(avoid@)),
            None => true,
        },
{
    let draw = random_u64();
    pick_fresh_with(pool, avoid, draw)
}

/// Take out of `tracks` the song that the random value `draw` picks among
/// those that differ from every key of `avoid` (among all songs when none
/// does); `None` when `tracks` is empty.
pub fn take_fresh_with(tracks: Vec<Track>, avoid: &Vec<String>, draw: u64) -> (r: Option<Track>)
    ensures
        match r {
            Some(t) => {
                &&& 0 <= fresh_pick(tracks@, key_views(avoid@), draw) < tracks@.len()
                &&& t == tracks@[fresh_pick(tracks@, key_views(avoid@), draw)]
                &&& fresh(t, key_views(avoid@)) || forall|i: int|
                    0 <= i < tracks@.len() ==> !fresh(#[trigger] tracks@[i], key_views(avoid@))
            },
            None => tracks@.len() == 0,
        },
{
    if tracks.len() == 0 {
        return None;
    }
    let ghost all = tracks@;
    let choices = fresh_indices(&tracks, avoid);
    proof {
        lemma_fresh_below(tracks@, key_views(avoid@), tracks@.len());
    }
    assert(choices@.map_values(|x: usize| x as int).len() == choices@.len());
    let k = draw_index(draw, choices.len());
    let i = choices[k];
    assert(choices@.map_values(|x: usize| x as int)[k as int] == i as int);
    let mut tracks = tracks;
    let t = tracks.swap_remove(i);
    assert(all[i as int] == t);
    Some(t)
}

/// Take a random song out of `tracks` that differs from every key of `avoid`
/// (any song when none does); `None` when `tracks` is empty: the song of
/// `take_fresh_with` for a random draw.
pub fn take_fresh(tracks: Vec<Track>, avoid: &Vec<String>) -> (r: Option<Track>)
    ensures
        r is None <==> tracks@.len() == 0,
        exists|draw: u64|
            r matches Some(t) ==> t == tracks@[#[trigger] fresh_pick(tracks@, key_views(avoid@), draw)]
                && 0 <= fresh_pick(tracks@, key_views(avoid@), draw) < tracks@.len(),
        match r {
            Some(t) => fresh(t, key_views(avoid@)) || forall|i: int|
                0 <= i < tracks@.len() ==> !fresh(#[trigger] tracks@[i], key_views(avoid@)),
            None => true,
        },
{
    let draw = random_u64();
    take_fresh_with(tracks, avoid, draw)
}

} // verus!
