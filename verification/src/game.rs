//! Round state and guess evaluation.
//!
//! A correct guess is normally an exact track-id match; a normalized
//! title+artist fallback lets a remaster or re-release (same song, different
//! id) still count.

use std::sync::Arc;
use std::time::Duration;

use vstd::prelude::*;

use crate::anime::AnimeTag;
use crate::deezer::{display_text, Track};
use crate::text::{
    chars_of, contains, contains_folded, contains_seq, find, find_folded, normalize,
    normalized, occurs_at, occurs_folded_at, seq_eq, similar as similar_chars, similar_spec,
    starts_with, starts_with_seq, string_of,
};

verus! {

/// Where a round stands.
#[derive(Debug, Clone, Copy, PartialEq, Eq, Structural)]
pub enum Outcome {
    Playing,
    Won,
    Lost,
}

/// How the clip is transformed while you guess. The reveal always plays normally.
#[derive(Debug, Clone, Copy, PartialEq, Eq, Structural)]
pub enum GameMode {
    Normal,
    /// 2× speed (higher pitch).
    Fast,
    /// 0.5× speed (lower pitch).
    Slow,
    /// Clip played backward.
    Reverse,
    /// Muffled, as if underwater (low-pass).
    Muffled,
}

impl Default for GameMode {
    fn default() -> (r: Self)
        ensures
            r == GameMode::Normal,
    {
        GameMode::Normal
    }
}

/// Position of a mode in the cycling order Normal, Fast, Slow, Reverse, Muffled.
pub open spec fn mode_index(m: GameMode) -> nat {
    match m {
        GameMode::Normal => 0,
        GameMode::Fast => 1,
        GameMode::Slow => 2,
        GameMode::Reverse => 3,
        GameMode::Muffled => 4,
    }
}

/// The mode at a position of the cycling order.
pub open spec fn mode_at(i: nat) -> GameMode {
    if i == 0 {
        GameMode::Normal
    } else if i == 1 {
        GameMode::Fast
    } else if i == 2 {
        GameMode::Slow
    } else if i == 3 {
        GameMode::Reverse
    } else {
        GameMode::Muffled
    }
}

/// The mode after `m` in the cycling order, wrapping around.
pub open spec fn next_mode(m: GameMode) -> GameMode {
    match m {
        GameMode::Normal => GameMode::Fast,
        GameMode::Fast => GameMode::Slow,
        GameMode::Slow => GameMode::Reverse,
        GameMode::Reverse => GameMode::Muffled,
        GameMode::Muffled => GameMode::Normal,
    }
}

/// The mode before `m` in the cycling order, wrapping around.
pub open spec fn prev_mode(m: GameMode) -> GameMode {
    match m {
        GameMode::Normal => GameMode::Muffled,
        GameMode::Fast => GameMode::Normal,
        GameMode::Slow => GameMode::Fast,
        GameMode::Reverse => GameMode::Slow,
        GameMode::Muffled => GameMode::Reverse,
    }
}

/// The display label of a mode.
pub open spec fn mode_label(m: GameMode) -> Seq<char> {
    match m {
        GameMode::Normal => "Normal"@,
        GameMode::Fast => "2× Nightcore"@,
        GameMode::Slow => "0.5× Slowed"@,
        GameMode::Reverse => "Reversed"@,
        GameMode::Muffled => "Muffled"@,
    }
}

/// The stable wire tag of a mode.
pub open spec fn mode_tag(m: GameMode) -> Seq<char> {
    match m {
        GameMode::Normal => "normal"@,
        GameMode::Fast => "fast"@,
        GameMode::Slow => "slow"@,
        GameMode::Reverse => "reverse"@,
        GameMode::Muffled => "muffled"@,
    }
}

/// The mode a wire tag names; anything unknown is `Normal`.
pub open spec fn mode_of_tag(s: Seq<char>) -> GameMode {
    if s == "fast"@ {
        GameMode::Fast
    } else if s == "slow"@ {
        GameMode::Slow
    } else if s == "reverse"@ {
        GameMode::Reverse
    } else if s == "muffled"@ {
        GameMode::Muffled
    } else {
        GameMode::Normal
    }
}

impl GameMode {
    /// Every mode, in cycling order.
    pub fn all() -> (r: [GameMode; 5])
        ensures
            forall|i: int| 0 <= i < 5 ==> r[i] == mode_at(i as nat),
    {
        [GameMode::Normal, GameMode::Fast, GameMode::Slow, GameMode::Reverse, GameMode::Muffled]
    }

    pub fn label(self) -> (r: &'static str)
        ensures
            r@ == mode_label(self),
    {
        match self {
            GameMode::Normal => "Normal",
            GameMode::Fast => "2× Nightcore",
            GameMode::Slow => "0.5× Slowed",
            GameMode::Reverse => "Reversed",
            GameMode::Muffled => "Muffled",
        }
    }

    /// Stable wire tag for online lobbies.
    pub fn tag(self) -> (r: &'static str)
        ensures
            r@ == mode_tag(self),
    {
        match self {
            GameMode::Normal => "normal",
            GameMode::Fast => "fast",
            GameMode::Slow => "slow",
            GameMode::Reverse => "reverse",
            GameMode::Muffled => "muffled",
        }
    }

    /// Parse a wire tag back to a mode (unknown ⇒ Normal).
    pub fn from_tag(s: &str) -> (r: GameMode)
        ensures
            r == mode_of_tag(s@),
    {
        let cs = chars_of(s);
        if seq_eq(&cs, &chars_of("fast")) {
            GameMode::Fast
        } else if seq_eq(&cs, &chars_of("slow")) {
            GameMode::Slow
        } else if seq_eq(&cs, &chars_of("reverse")) {
            GameMode::Reverse
        } else if seq_eq(&cs, &chars_of("muffled")) {
            GameMode::Muffled
        } else {
            GameMode::Normal
        }
    }

    /// Position in the cycling order.
    pub fn index(self) -> (r: usize)
        ensures
            r == mode_index(self),
    {
        match self {
            GameMode::Normal => 0,
            GameMode::Fast => 1,
            GameMode::Slow => 2,
            GameMode::Reverse => 3,
            GameMode::Muffled => 4,
        }
    }

    /// The following mode, wrapping around.
    pub fn next(self) -> (r: GameMode)
        ensures
            r == next_mode(self),
    {
        let all = GameMode::all();
        all[(self.index() + 1) % 5]
    }

    /// The preceding mode, wrapping around.
    pub fn prev(self) -> (r: GameMode)
        ensures
            r == prev_mode(self),
    {
        let all = GameMode::all();
        all[(self.index() + 5 - 1) % 5]
    }
}

/// One entry of the guess log, as the contracts see it.
pub enum GuessEntry {
    Wrong(Seq<char>),
    WrongRightArtist(Seq<char>),
    Skipped,
}

/// One entry per wrong guess or skip, for display.
#[derive(Debug, Clone)]
pub enum GuessLog {
    Wrong(String),
    /// Wrong song, but the right artist — worth a partial hint + consolation.
    WrongRightArtist(String),
    Skipped,
}

impl View for GuessLog {
    type V = GuessEntry;

    open spec fn view(&self) -> GuessEntry {
        match self {
            GuessLog::Wrong(s) => GuessEntry::Wrong(s@),
            GuessLog::WrongRightArtist(s) => GuessEntry::WrongRightArtist(s@),
            GuessLog::Skipped => GuessEntry::Skipped,
        }
    }
}

/// The guess log as a sequence of entries.
pub open spec fn log_view(s: Seq<GuessLog>) -> Seq<GuessEntry> {
    s.map_values(|g: GuessLog| g@)
}

// ---------------------------------------------------------------------------
// Text matching.

/// Characters that open a bracketed group.
pub open spec fn opens_group(c: char) -> bool {
    c == '(' || c == '[' || c == '{'
}

/// Characters that close a bracketed group.
pub open spec fn closes_group(c: char) -> bool {
    c == ')' || c == ']' || c == '}'
}

/// `s` without bracketed groups, given the current nesting depth. An unmatched
/// closing bracket never takes the depth below zero.
pub open spec fn strip_groups(s: Seq<char>, depth: nat) -> Seq<char>
    decreases s.len(),
{
    if s.len() == 0 {
        Seq::empty()
    } else {
        let c = s[0];
        let rest = s.drop_first();
        if opens_group(c) {
            strip_groups(rest, depth + 1)
        } else if closes_group(c) {
            strip_groups(rest, if depth == 0 { 0 } else { (depth - 1) as nat })
        } else if depth == 0 {
            seq![c] + strip_groups(rest, 0)
        } else {
            strip_groups(rest, depth)
        }
    }
}

/// The first position at which `p` occurs in `s`.
pub open spec fn first_at(s: Seq<char>, p: Seq<char>) -> int {
    choose|i: int| occurs_at(s, p, i) && forall|j: int| 0 <= j < i ==> !occurs_at(s, p, j)
}

/// The first position at which `p` occurs in `s`, ignoring ASCII case in `s`.
pub open spec fn first_folded_at(s: Seq<char>, p: Seq<char>) -> int {
    choose|i: int|
        occurs_folded_at(s, p, i) && forall|j: int| 0 <= j < i ==> !occurs_folded_at(s, p, j)
}

/// `s` cut before the first `" - "` (a trailing version tag), if any.
pub open spec fn cut_version_tag(s: Seq<char>) -> Seq<char> {
    if contains_seq(s, seq![' ', '-', ' ']) {
        s.take(first_at(s, seq![' ', '-', ' ']))
    } else {
        s
    }
}

/// The collaborator markers, in the order they are tried.
pub open spec fn feat_markers() -> Seq<Seq<char>> {
    seq![
        seq![' ', 'f', 'e', 'a', 't', '.'],
        seq![' ', 'f', 'e', 'a', 't', ' '],
        seq![' ', 'f', 't', '.'],
        seq![' ', 'f', 't', ' '],
        seq![' ', 'f', 'e', 'a', 't', 'u', 'r', 'i', 'n', 'g', ' '],
    ]
}

/// `s` cut before the first marker (from position `k` of the marker list on)
/// that occurs in it, ignoring ASCII case.
pub open spec fn cut_feat_from(s: Seq<char>, k: nat) -> Seq<char>
    decreases 5 - k,
{
    if k >= 5 {
        s
    } else if contains_folded(s, feat_markers()[k as int]) {
        s.take(first_folded_at(s, feat_markers()[k as int]))
    } else {
        cut_feat_from(s, k + 1)
    }
}

/// A title with its version noise removed and then normalized.
pub open spec fn title_key(s: Seq<char>) -> Seq<char> {
    normalized(cut_feat_from(cut_version_tag(strip_groups(s, 0)), 0))
}

/// Two titles name the same song: their keys are at least 90% alike.
pub open spec fn titles_match(a: Seq<char>, b: Seq<char>) -> bool {
    similar_spec(title_key(a), title_key(b), 90)
}

/// Two artist names refer to the same act: both normalized names non-empty and
/// equal, one containing the other, or at least 85% alike.
pub open spec fn artists_match(a: Seq<char>, b: Seq<char>) -> bool {
    let (x, y) = (normalized(a), normalized(b));
    x.len() > 0 && y.len() > 0 && (x == y || contains_seq(x, y) || contains_seq(y, x)
        || similar_spec(x, y, 85))
}

/// `guess` is the same song as `answer`.
pub open spec fn correct(guess: Track, answer: Track) -> bool {
    guess.id == answer.id || (titles_match(guess.title@, answer.title@) && artists_match(
        guess.artist.name@,
        answer.artist.name@,
    ))
}

/// A song's identity: normalized title, a `\u{1}` separator, normalized artist.
pub open spec fn key_of(t: Track) -> Seq<char> {
    title_key(t.title@) + seq!['\u{1}'] + normalized(t.artist.name@)
}

/// The first occurrence is unique: any occurrence with none before it is it.
pub proof fn lemma_first_at_unique(s: Seq<char>, p: Seq<char>, i: int)
    requires
        occurs_at(s, p, i),
        forall|j: int| 0 <= j < i ==> !occurs_at(s, p, j),
    ensures
        first_at(s, p) == i,
{
    let f = first_at(s, p);
    assert(occurs_at(s, p, f) && forall|j: int| 0 <= j < f ==> !occurs_at(s, p, j));
    if f < i {
        assert(!occurs_at(s, p, f));
    }
    if i < f {
        assert(!occurs_at(s, p, i));
    }
}

proof fn lemma_first_folded_unique(s: Seq<char>, p: Seq<char>, i: int)
    requires
        occurs_folded_at(s, p, i),
        forall|j: int| 0 <= j < i ==> !occurs_folded_at(s, p, j),
    ensures
        first_folded_at(s, p) == i,
{
    let f = first_folded_at(s, p);
    assert(occurs_folded_at(s, p, f) && forall|j: int| 0 <= j < f ==> !occurs_folded_at(s, p, j));
    if f < i {
        assert(!occurs_folded_at(s, p, f));
    }
    if i < f {
        assert(!occurs_folded_at(s, p, i));
    }
}

fn prefix(s: &Vec<char>, n: usize) -> (r: Vec<char>)
    requires
        n <= s.len(),
    ensures
        r@ == s@.take(n as int),
{
    let mut r: Vec<char> = Vec::new();
    let mut i: usize = 0;
    while i < n
        invariant
            i <= n <= s.len(),
            r@ =~= s@.take(i as int),
        decreases n - i,
    {
        r.push(s[i]);
        i = i + 1;
    }
    r
}

fn strip_bracketed(s: &Vec<char>) -> (r: Vec<char>)
    ensures
        r@ == strip_groups(s@, 0),
{
    let mut out: Vec<char> = Vec::new();
    let mut depth: u64 = 0;
    let mut i: usize = 0;
    assert(s@.skip(0) =~= s@);
    while i < s.len()
        invariant
            i <= s.len(),
            depth <= i,
            out@ + strip_groups(s@.skip(i as int), depth as nat) == strip_groups(s@, 0),
        decreases s.len() - i,
    {
        let ch = s[i];
        assert(s@.skip(i as int).drop_first() =~= s@.skip(i + 1));
        let ghost base = out@;
        if ch == '(' || ch == '[' || ch == '{' {
            depth = depth + 1;
        } else if ch == ')' || ch == ']' || ch == '}' {
            if depth > 0 {
                depth = depth - 1;
            }
        } else if depth == 0 {
            out.push(ch);
            assert(out@ + strip_groups(s@.skip(i + 1), 0) =~= base + (seq![ch] + strip_groups(
                s@.skip(i + 1),
                0,
            )));
        }
        i = i + 1;
    }
    assert(s@.skip(i as int) =~= Seq::<char>::empty());
    assert(out@ + Seq::<char>::empty() =~= out@);
    out
}

fn cut_at_version_tag(s: Vec<char>) -> (r: Vec<char>)
    ensures
        r@ == cut_version_tag(s@),
{
    let dash: Vec<char> = vec![' ', '-', ' '];
    assert(dash@ =~= seq![' ', '-', ' ']);
    match find(&s, &dash) {
        Some(i) => {
            proof {
                lemma_first_at_unique(s@, dash@, i as int);
            }
            prefix(&s, i)
        },
        None => s,
    }
}

fn marker(k: usize) -> (r: Vec<char>)
    requires
        k < 5,
    ensures
        r@ == feat_markers()[k as int],
{
    let r = if k == 0 {
        vec![' ', 'f', 'e', 'a', 't', '.']
    } else if k == 1 {
        vec![' ', 'f', 'e', 'a', 't', ' ']
    } else if k == 2 {
        vec![' ', 'f', 't', '.']
    } else if k == 3 {
        vec![' ', 'f', 't', ' ']
    } else {
        vec![' ', 'f', 'e', 'a', 't', 'u', 'r', 'i', 'n', 'g', ' ']
    };
    assert(r@ =~= feat_markers()[k as int]);
    r
}

fn cut_at_feat(s: Vec<char>) -> (r: Vec<char>)
    ensures
        r@ == cut_feat_from(s@, 0),
{
    let mut k: usize = 0;
    while k < 5
        invariant
            k <= 5,
            cut_feat_from(s@, 0) == cut_feat_from(s@, k as nat),
        decreases 5 - k,
    {
        let m = marker(k);
        match find_folded(&s, &m) {
            Some(i) => {
                proof {
                    lemma_first_folded_unique(s@, m@, i as int);
                }
                return prefix(&s, i);
            },
            None => {},
        }
        k = k + 1;
    }
    s
}

/// Normalize a title, first stripping version noise: bracketed groups
/// (`(feat. X)`, `(Live)`, `[Remix]`), a trailing `" - ..."` version tag
/// (`- Remastered 2011`), and `feat.`/`ft.` collaborator suffixes.
pub fn title_key_chars(s: &Vec<char>) -> (r: Vec<char>)
    ensures
        r@ == title_key(s@),
{
    let a = strip_bracketed(s);
    let b = cut_at_version_tag(a);
    let c = cut_at_feat(b);
    normalize(&c)
}

/// Lowercase, keep alphanumerics, collapse runs of separators to single
/// spaces, trim.
pub fn normalize_text(s: &str) -> (r: String)
    ensures
        r@ == normalized(s@),
{
    let n = normalize(&chars_of(s));
    string_of(&n)
}

/// A title normalized after its version noise is removed.
pub fn normalize_title(s: &str) -> (r: String)
    ensures
        r@ == title_key(s@),
{
    let k = title_key_chars(&chars_of(s));
    string_of(&k)
}

/// Whether two strings are at least `percent`% alike (normalized edit distance).
pub fn similar(a: &str, b: &str, percent: u64) -> (r: bool)
    requires
        percent <= 100,
    ensures
        r == similar_spec(a@, b@, percent as nat),
{
    similar_chars(&chars_of(a), &chars_of(b), percent)
}

/// Whether two titles name the same song.
pub fn title_matches(a: &str, b: &str) -> (r: bool)
    ensures
        r == titles_match(a@, b@),
{
    let x = title_key_chars(&chars_of(a));
    let y = title_key_chars(&chars_of(b));
    similar_chars(&x, &y, 90)
}

/// Whether two artist names refer to the same act. Artists collaborate under
/// many spellings, so containment or a close match counts.
pub fn artist_matches(a: &str, b: &str) -> (r: bool)
    ensures
        r == artists_match(a@, b@),
{
    let x = normalize(&chars_of(a));
    let y = normalize(&chars_of(b));
    if x.len() == 0 || y.len() == 0 {
        return false;
    }
    seq_eq(&x, &y) || contains(&x, &y) || contains(&y, &x) || similar_chars(&x, &y, 85)
}

/// Is `guess` the same song as `answer`?
pub fn is_correct(guess: &Track, answer: &Track) -> (r: bool)
    ensures
        r == correct(*guess, *answer),
{
    if guess.id == answer.id {
        return true;
    }
    title_matches(guess.title.as_str(), answer.title.as_str()) && artist_matches(
        guess.artist_name(),
        answer.artist_name(),
    )
}

fn key_chars(t: &Track) -> (r: Vec<char>)
    ensures
        r@ == key_of(*t),
{
    let mut k = title_key_chars(&chars_of(t.title.as_str()));
    let ghost tk = k@;
    k.push('\u{1}');
    let a = normalize(&chars_of(t.artist_name()));
    let mut i: usize = 0;
    let ghost head = k@;
    while i < a.len()
        invariant
            i <= a.len(),
            head == tk + seq!['\u{1}'],
            k@ == head + a@.take(i as int),
        decreases a.len() - i,
    {
        k.push(a[i]);
        assert(head + a@.take(i + 1) =~= (head + a@.take(i as int)).push(a@[i as int]));
        i = i + 1;
    }
    assert(a@.take(a.len() as int) =~= a@);
    k
}

/// A song's identity for de-dup and repeat-avoidance: normalized title and
/// artist, so an album cut, a single and a "(Live)" version share one key.
pub fn song_key(track: &Track) -> (r: String)
    ensures
        r@ == key_of(*track),
{
    let k = key_chars(track);
    string_of(&k)
}


// ---------------------------------------------------------------------------
// Rounds.

/// One song to guess: the hidden answer, its preview audio, and progress.
pub struct Round {
    pub answer: Track,
    /// If this is an anime round, the anime the song is from — naming it counts.
    pub anime: Option<AnimeTag>,
    pub preview: Arc<Vec<u8>>,
    /// Clip length per level, ascending.
    pub schedule: Vec<Duration>,
    /// Current 0-based level (clip index). Higher == more audio revealed.
    pub level: usize,
    /// One entry per wrong guess or skip, for display.
    pub guesses: Vec<GuessLog>,
    /// Consolation points banked for naming the right artist (0 if none yet).
    /// Captured once, at the level of the first right-artist guess.
    pub artist_bonus: u32,
    pub outcome: Outcome,
}

/// Points banked for naming the right artist at a level worth `value`: half of
/// it, at least one.
pub open spec fn consolation(value: u32) -> u32 {
    if value / 2 >= 1 {
        (value / 2) as u32
    } else {
        1
    }
}

/// Points a round earns: its solve value if won, else nothing, but never
/// below the banked consolation.
pub open spec fn awarded(r: Round) -> u32 {
    let solve = if r.outcome == Outcome::Won {
        r.value()
    } else {
        0
    };
    if solve >= r.artist_bonus {
        solve
    } else {
        r.artist_bonus
    }
}

/// The state after revealing the next clip: one level further, or lost when
/// no clip remains.
pub open spec fn advanced(old: Round, new: Round) -> bool {
    if old.level + 1 >= old.levels() {
        new.outcome == Outcome::Lost && new.level == old.level
    } else {
        new.outcome == old.outcome && new.level == old.level + 1
    }
}

/// What a round keeps across guesses: its answer, anime tag, audio and schedule.
pub open spec fn same_song(old: Round, new: Round) -> bool {
    &&& new.answer == old.answer
    &&& new.anime == old.anime
    &&& new.preview == old.preview
    &&& new.schedule_view() == old.schedule_view()
}

/// `new` is round `old` after the guess `guess`: a correct guess wins at the
/// same level; a wrong one is logged (as right-artist when the artists match,
/// banking the consolation once) and reveals the next clip.
pub open spec fn guess_applied(old: Round, new: Round, guess: Track) -> bool {
    let right = correct(guess, old.answer);
    &&& new.wf()
    &&& same_song(old, new)
    &&& right ==> {
        &&& new.outcome == Outcome::Won
        &&& new.level == old.level
        &&& new.guesses == old.guesses
        &&& new.artist_bonus == old.artist_bonus
    }
    &&& !right ==> {
        let right_artist = artists_match(guess.artist.name@, old.answer.artist.name@);
        &&& new.artist_bonus == (if right_artist && old.artist_bonus == 0 {
            consolation(old.value())
        } else {
            old.artist_bonus
        })
        &&& log_view(new.guesses@) == log_view(old.guesses@).push(
            if right_artist {
                GuessEntry::WrongRightArtist(display_text(guess))
            } else {
                GuessEntry::Wrong(display_text(guess))
            },
        )
        &&& advanced(old, new)
    }
}

/// `new` is round `old` after a skip: logged, and the next clip revealed.
pub open spec fn skip_applied(old: Round, new: Round) -> bool {
    &&& new.wf()
    &&& same_song(old, new)
    &&& new.artist_bonus == old.artist_bonus
    &&& log_view(new.guesses@) == log_view(old.guesses@).push(GuessEntry::Skipped)
    &&& advanced(old, new)
}


/// Whether a typed guess names one of the anime's titles: the guess, once
/// normalized, has at least 3 characters, and some non-empty normalized title
/// equals it, is contained in it, is started by it (for guesses of 5 or more
/// characters), or is at least 90% alike.
#[verifier::opaque]
pub open spec fn names_anime(anime: Option<AnimeTag>, guess: Seq<char>) -> bool {
    match anime {
        None => false,
        Some(tag) => {
            let g = normalized(guess);
            g.len() >= 3 && exists|i: int|
                0 <= i < tag.titles@.len() && #[trigger] title_accepts(
                    normalized(tag.titles@[i]@),
                    g,
                )
        },
    }
}

/// A normalized title accepts a normalized guess.
pub open spec fn title_accepts(t: Seq<char>, g: Seq<char>) -> bool {
    t.len() > 0 && (t == g || contains_seq(g, t) || (g.len() >= 5 && starts_with_seq(t, g))
        || similar_spec(t, g, 90))
}

impl Round {
    /// The number of levels (clips) of the schedule.
    pub open spec fn levels(&self) -> nat {
        self.schedule@.len()
    }

    /// The clip lengths, level by level.
    pub open spec fn schedule_view(&self) -> Seq<Duration> {
        self.schedule@
    }

    /// A round is well formed: at least one level, and the current one exists.
    pub open spec fn wf(&self) -> bool {
        self.levels() > 0 && self.level < self.levels()
    }

    /// The solve value at the current level: more for fewer clips.
    pub open spec fn value(&self) -> u32 {
        (self.levels() - self.level) as u32
    }

    /// A fresh round at level 0 with nothing guessed yet.
    pub fn new(answer: Track, preview: Vec<u8>, schedule: Vec<Duration>) -> (r: Round)
        requires
            schedule.len() > 0,
        ensures
            r.wf(),
            r.answer == answer,
            r.anime is None,
            *r.preview == preview,
            r.schedule_view() == schedule@,
            r.level == 0,
            r.guesses@.len() == 0,
            r.artist_bonus == 0,
            r.outcome == Outcome::Playing,
    {
        Round {
            answer,
            anime: None,
            preview: Arc::new(preview),
            schedule,
            level: 0,
            guesses: Vec::new(),
            artist_bonus: 0,
            outcome: Outcome::Playing,
        }
    }

    /// Does the free-text `guess` name the anime this song is from? Accepts any
    /// of the anime's titles/aliases: exact, a close typo, a solid prefix, or the
    /// guess containing the full title.
    pub fn anime_named(&self, guess: &str) -> (r: bool)
        ensures
            r == names_anime(self.anime, guess@),
    {
        reveal(names_anime);
        let tag = match &self.anime {
            Some(t) => t,
            None => return false,
        };
        let g = normalize(&chars_of(guess));
        if g.len() < 3 {
            return false;
        }
        let mut i: usize = 0;
        while i < tag.titles.len()
            invariant
                i <= tag.titles@.len(),
                self.anime == Some(*tag),
                g@ == normalized(guess@),
                g@.len() >= 3,
                forall|j: int|
                    0 <= j < i ==> !#[trigger] title_accepts(normalized(tag.titles@[j]@), g@),
            decreases tag.titles.len() - i,
        {
            let t = normalize(&chars_of(tag.titles[i].as_str()));
            if t.len() > 0 && (seq_eq(&t, &g) || contains(&g, &t) || (g.len() >= 5 && starts_with(
                &t,
                &g,
            )) || similar_chars(&t, &g, 90)) {
                let ghost tg = self.anime->Some_0;
                assert(tg == *tag);
                assert(title_accepts(normalized(tg.titles@[i as int]@), normalized(guess@)));
                reveal(names_anime);
                assert(names_anime(self.anime, guess@));
                return true;
            }
            i = i + 1;
        }
        false
    }

    /// Clip length currently unlocked.
    pub fn current_clip(&self) -> (r: Duration)
        requires
            self.wf(),
        ensures
            r == self.schedule_view()[self.level as int],
    {
        self.schedule[self.level]
    }

    /// Number of levels in the schedule.
    pub fn total_levels(&self) -> (r: usize)
        ensures
            r == self.levels(),
    {
        self.schedule.len()
    }

    /// 1-based guess number shown to the player.
    pub fn guess_number(&self) -> (r: usize)
        requires
            self.wf(),
        ensures
            r == self.level + 1,
    {
        let n = self.schedule.len();
        assert(self.level < n);
        self.level + 1
    }

    /// Score awarded for winning at the current level: more for fewer clips.
    pub fn score_value(&self) -> (r: u32)
        requires
            self.wf(),
        ensures
            r == self.value(),
    {
        (self.schedule.len() - self.level) as u32
    }

    /// Reveal the next clip; if none remain, the round is lost.
    fn advance(&mut self)
        requires
            old(self).wf(),
        ensures
            final(self).wf(),
            advanced(*old(self), *final(self)),
            same_song(*old(self), *final(self)),
            final(self).guesses == old(self).guesses,
            final(self).artist_bonus == old(self).artist_bonus,
    {
        let n = self.schedule.len();
        assert(self.level < n);
        if self.level + 1 >= n {
            self.outcome = Outcome::Lost;
        } else {
            self.level = self.level + 1;
        }
    }

    /// Submit a selected track as a guess. Returns `true` if it was correct.
    /// A wrong guess by the right artist banks a consolation (once per round)
    /// and is logged as such; any wrong guess reveals the next clip.
    pub fn submit_guess(&mut self, guess: &Track) -> (r: bool)
        requires
            old(self).wf(),
        ensures
            r == correct(*guess, old(self).answer),
            guess_applied(*old(self), *final(self), *guess),
    {
        if is_correct(guess, &self.answer) {
            self.outcome = Outcome::Won;
            return true;
        }
        let ghost before = self.guesses@;
        if artist_matches(guess.artist_name(), self.answer.artist_name()) {
            if self.artist_bonus == 0 {
                let half = self.score_value() / 2;
                self.artist_bonus = if half >= 1 {
                    half
                } else {
                    1
                };
            }
            self.guesses.push(GuessLog::WrongRightArtist(guess.display()));
        } else {
            self.guesses.push(GuessLog::Wrong(guess.display()));
        }
        assert(log_view(self.guesses@) =~= log_view(before).push(self.guesses@.last()@));
        self.advance();
        false
    }

    /// Points earned this round: the solve value if won, else nothing — but
    /// never below the right-artist consolation.
    pub fn awarded_points(&self) -> (r: u32)
        requires
            self.wf(),
        ensures
            r == awarded(*self),
    {
        let solve = if self.outcome == Outcome::Won {
            self.score_value()
        } else {
            0
        };
        if solve >= self.artist_bonus {
            solve
        } else {
            self.artist_bonus
        }
    }

    /// Give up this clip and reveal the next one.
    pub fn skip(&mut self)
        requires
            old(self).wf(),
        ensures
            skip_applied(*old(self), *final(self)),
    {
        let ghost before = self.guesses@;
        self.guesses.push(GuessLog::Skipped);
        assert(log_view(self.guesses@) =~= log_view(before).push(GuessEntry::Skipped));
        self.advance();
    }
}


// ---------------------------------------------------------------------------
// De-duplication.

/// Search results with songs already seen (same id or same song key) and
/// untitled songs dropped, first occurrence kept, order preserved.
pub open spec fn dedupe_from(ts: Seq<Track>, ids: Set<i64>, keys: Set<Seq<char>>) -> Seq<Track>
    decreases ts.len(),
{
    if ts.len() == 0 {
        Seq::empty()
    } else {
        let t = ts[0];
        let rest = ts.drop_first();
        if title_key(t.title@).len() == 0 {
            dedupe_from(rest, ids, keys)
        } else if ids.contains(t.id) || keys.contains(key_of(t)) {
            dedupe_from(rest, ids, keys)
        } else {
            seq![t] + dedupe_from(rest, ids.insert(t.id), keys.insert(key_of(t)))
        }
    }
}

/// The de-duplicated search results.
pub open spec fn deduped(ts: Seq<Track>) -> Seq<Track> {
    dedupe_from(ts, Set::empty(), Set::empty())
}

fn has_id(ids: &Vec<i64>, id: i64) -> (r: bool)
    ensures
        r == ids@.contains(id),
{
    let mut i: usize = 0;
    while i < ids.len()
        invariant
            i <= ids.len(),
            forall|j: int| 0 <= j < i ==> ids@[j] != id,
        decreases ids.len() - i,
    {
        if ids[i] == id {
            assert(ids@[i as int] == id);
            return true;
        }
        i = i + 1;
    }
    false
}

fn has_key(keys: &Vec<Vec<char>>, key: &Vec<char>) -> (r: bool)
    ensures
        r == exists|j: int| 0 <= j < keys@.len() && #[trigger] keys@[j]@ == key@,
{
    let mut i: usize = 0;
    while i < keys.len()
        invariant
            i <= keys.len(),
            forall|j: int| 0 <= j < i ==> #[trigger] keys@[j]@ != key@,
        decreases keys.len() - i,
    {
        if seq_eq(&keys[i], key) {
            return true;
        }
        i = i + 1;
    }
    false
}

/// Collapse search results that are the same song (same title and artist once
/// normalized) or a repeated id, keeping the first of each; untitled results
/// are dropped. Order is preserved.
pub fn dedupe_songs(tracks: Vec<Track>) -> (r: Vec<Track>)
    ensures
        r@ == deduped(tracks@),
{
    let mut ids: Vec<i64> = Vec::new();
    let mut keys: Vec<Vec<char>> = Vec::new();
    let ghost mut id_set: Set<i64> = Set::empty();
    let ghost mut key_set: Set<Seq<char>> = Set::empty();
    let mut out: Vec<Track> = Vec::new();
    let mut i: usize = 0;
    assert(tracks@.skip(0) =~= tracks@);
    while i < tracks.len()
        invariant
            i <= tracks.len(),
            forall|x: i64| id_set.contains(x) <==> ids@.contains(x),
            forall|k: Seq<char>|
                key_set.contains(k) <==> exists|j: int| 0 <= j < keys@.len() && #[trigger] keys@[j]@ == k,
            out@ + dedupe_from(tracks@.skip(i as int), id_set, key_set) == deduped(tracks@),
        decreases tracks.len() - i,
    {
        let t = &tracks[i];
        assert(tracks@.skip(i as int)[0] == tracks@[i as int]);
        assert(tracks@.skip(i as int).drop_first() =~= tracks@.skip(i + 1));
        let ntitle = title_key_chars(&chars_of(t.title.as_str()));
        if ntitle.len() == 0 {
            i = i + 1;
            continue;
        }
        let key = key_chars(t);
        if has_id(&ids, t.id) || has_key(&keys, &key) {
            i = i + 1;
            continue;
        }
        let ghost base = out@;
        let ghost old_keys = keys@;
        let ghost old_set = key_set;
        let ghost old_ids = ids@;
        ids.push(t.id);
        assert forall|x: i64| id_set.insert(t.id).contains(x) <==> ids@.contains(x) by {
            if old_ids.contains(x) {
                let j0 = choose|j: int| 0 <= j < old_ids.len() && old_ids[j] == x;
                assert(ids@[j0] == x);
            }
            if x == t.id {
                assert(ids@[old_ids.len() as int] == x);
            }
            if ids@.contains(x) {
                let j0 = choose|j: int| 0 <= j < ids@.len() && ids@[j] == x;
                if j0 < old_ids.len() {
                    assert(old_ids[j0] == x);
                }
            }
        }
        proof {
            id_set = id_set.insert(t.id);
            key_set = key_set.insert(key@);
        }
        let ghost kv = key@;
        keys.push(key);
        assert(keys@ == old_keys.push(keys@[old_keys.len() as int]));
        assert forall|k: Seq<char>|
            key_set.contains(k) <==> exists|j: int| 0 <= j < keys@.len() && #[trigger] keys@[j]@ == k by {
            if old_set.contains(k) {
                let j0 = choose|j: int| 0 <= j < old_keys.len() && #[trigger] old_keys[j]@ == k;
                assert(keys@[j0]@ == k);
            }
            if k == kv {
                assert(keys@[old_keys.len() as int]@ == k);
            }
            if exists|j: int| 0 <= j < keys@.len() && #[trigger] keys@[j]@ == k {
                let j0 = choose|j: int| 0 <= j < keys@.len() && #[trigger] keys@[j]@ == k;
                if j0 < old_keys.len() {
                    assert(old_keys[j0]@ == k);
                }
            }
        }
        out.push(t.clone());
        assert(out@ + dedupe_from(tracks@.skip(i + 1), id_set, key_set) =~= base + (seq![
            tracks@[i as int],
        ] + dedupe_from(tracks@.skip(i + 1), id_set, key_set)));
        i = i + 1;
    }
    assert(tracks@.skip(i as int) =~= Seq::<Track>::empty());
    assert(out@ + Seq::<Track>::empty() =~= out@);
    out
}

/// What de-duplication keeps: every kept song comes from the input, has a
/// title, and shares neither its id nor its song key with any other kept song
/// or with anything already seen.
pub proof fn lemma_dedupe_distinct(ts: Seq<Track>, ids: Set<i64>, keys: Set<Seq<char>>)
    ensures
        forall|i: int|
            0 <= i < dedupe_from(ts, ids, keys).len() ==> {
                let t = #[trigger] dedupe_from(ts, ids, keys)[i];
                &&& ts.contains(t)
                &&& title_key(t.title@).len() > 0
                &&& !ids.contains(t.id)
                &&& !keys.contains(key_of(t))
            },
        forall|i: int, j: int|
            0 <= i < j < dedupe_from(ts, ids, keys).len() ==> {
                &&& (#[trigger] dedupe_from(ts, ids, keys)[i]).id != (#[trigger] dedupe_from(
                    ts,
                    ids,
                    keys,
                )[j]).id
                &&& key_of(dedupe_from(ts, ids, keys)[i]) != key_of(dedupe_from(ts, ids, keys)[j])
            },
    decreases ts.len(),
{
    if ts.len() > 0 {
        let t = ts[0];
        let rest = ts.drop_first();
        assert forall|x: Track| rest.contains(x) implies ts.contains(x) by {
            let k = choose|k: int| 0 <= k < rest.len() && rest[k] == x;
            assert(ts[k + 1] == x);
        }
        if title_key(t.title@).len() == 0 || ids.contains(t.id) || keys.contains(key_of(t)) {
            lemma_dedupe_distinct(rest, ids, keys);
        } else {
            let ids2 = ids.insert(t.id);
            let keys2 = keys.insert(key_of(t));
            lemma_dedupe_distinct(rest, ids2, keys2);
            let o = dedupe_from(ts, ids, keys);
            let o2 = dedupe_from(rest, ids2, keys2);
            assert(o == seq![t] + o2);
            assert(ts.contains(t)) by {
                assert(ts[0] == t);
            }
            assert forall|i: int, j: int| 0 <= i < j < o.len() implies {
                &&& (#[trigger] o[i]).id != (#[trigger] o[j]).id
                &&& key_of(o[i]) != key_of(o[j])
            } by {
                assert(o[j] == o2[j - 1]);
                if i > 0 {
                    assert(o[i] == o2[i - 1]);
                }
            }
            assert forall|i: int| 0 <= i < o.len() implies {
                let u = #[trigger] o[i];
                &&& ts.contains(u)
                &&& title_key(u.title@).len() > 0
                &&& !ids.contains(u.id)
                &&& !keys.contains(key_of(u))
            } by {
                if i > 0 {
                    assert(o[i] == o2[i - 1]);
                }
            }
        }
    }
}

/// De-duplicated results never repeat an id or a song key, and each comes
/// from the input.
pub proof fn lemma_deduped_distinct(ts: Seq<Track>)
    ensures
        forall|i: int|
            0 <= i < deduped(ts).len() ==> ts.contains(#[trigger] deduped(ts)[i]) && title_key(
                deduped(ts)[i].title@,
            ).len() > 0,
        forall|i: int, j: int|
            0 <= i < j < deduped(ts).len() ==> (#[trigger] deduped(ts)[i]).id != (
            #[trigger] deduped(ts)[j]).id && key_of(deduped(ts)[i]) != key_of(deduped(ts)[j]),
{
    lemma_dedupe_distinct(ts, Set::empty(), Set::empty());
}

/// Where each de-duplicated song sits in the input: the kept songs are input
/// songs in input order, and every titled input song left out was already
/// seen (its id in `ids`, its key in `keys`) or shares its id or its song
/// key with a song kept before it.
proof fn dedupe_positions(ts: Seq<Track>, ids: Set<i64>, keys: Set<Seq<char>>) -> (idx: Seq<int>)
    ensures
        idx.len() == dedupe_from(ts, ids, keys).len(),
        forall|k: int|
            0 <= k < idx.len() ==> 0 <= #[trigger] idx[k] < ts.len() && dedupe_from(ts, ids, keys)[k]
                == ts[idx[k]],
        forall|k1: int, k2: int| 0 <= k1 < k2 < idx.len() ==> #[trigger] idx[k1] < #[trigger] idx[k2],
        forall|j: int|
            0 <= j < ts.len() && title_key((#[trigger] ts[j]).title@).len() > 0 && (forall|k: int|
                0 <= k < idx.len() ==> idx[k] != j) ==> ids.contains(ts[j].id) || keys.contains(
                key_of(ts[j]),
            ) || exists|k: int|
                0 <= k < idx.len() && idx[k] < j && ((#[trigger] dedupe_from(ts, ids, keys)[k]).id
                    == ts[j].id || key_of(dedupe_from(ts, ids, keys)[k]) == key_of(ts[j])),
    decreases ts.len(),
{
    if ts.len() == 0 {
        Seq::empty()
    } else {
        let t = ts[0];
        let rest = ts.drop_first();
        let o = dedupe_from(ts, ids, keys);
        if title_key(t.title@).len() == 0 || ids.contains(t.id) || keys.contains(key_of(t)) {
            let idx2 = dedupe_positions(rest, ids, keys);
            let o2 = dedupe_from(rest, ids, keys);
            assert(o == o2);
            let idx = idx2.map_values(|x: int| x + 1);
            assert forall|k: int| 0 <= k < idx.len() implies 0 <= #[trigger] idx[k] < ts.len()
                && o[k] == ts[idx[k]] by {
                assert(rest[idx2[k]] == ts[idx2[k] + 1]);
            }
            assert forall|k1: int, k2: int| 0 <= k1 < k2 < idx.len() implies #[trigger] idx[k1]
                < #[trigger] idx[k2] by {
                assert(idx2[k1] < idx2[k2]);
            }
            assert forall|j: int|
                0 <= j < ts.len() && title_key((#[trigger] ts[j]).title@).len() > 0 && (forall|k: int|
                    0 <= k < idx.len() ==> idx[k] != j) implies ids.contains(ts[j].id)
                || keys.contains(key_of(ts[j])) || exists|k: int|
                0 <= k < idx.len() && idx[k] < j && ((#[trigger] o[k]).id == ts[j].id || key_of(o[k])
                    == key_of(ts[j])) by {
                if j > 0 {
                    assert(rest[j - 1] == ts[j]);
                    assert forall|k: int| 0 <= k < idx2.len() implies idx2[k] != j - 1 by {
                        assert(idx[k] != j);
                    }
                    if exists|k: int|
                        0 <= k < idx2.len() && idx2[k] < j - 1 && ((#[trigger] o2[k]).id == rest[j
                            - 1].id || key_of(o2[k]) == key_of(rest[j - 1])) {
                        let k = choose|k: int|
                            0 <= k < idx2.len() && idx2[k] < j - 1 && ((#[trigger] o2[k]).id
                                == rest[j - 1].id || key_of(o2[k]) == key_of(rest[j - 1]));
                        assert(idx[k] < j && o[k] == o2[k]);
                    }
                }
            }
            idx
        } else {
            let ids2 = ids.insert(t.id);
            let keys2 = keys.insert(key_of(t));
            let idx2 = dedupe_positions(rest, ids2, keys2);
            let o2 = dedupe_from(rest, ids2, keys2);
            assert(o == seq![t] + o2);
            let idx = seq![0int] + idx2.map_values(|x: int| x + 1);
            assert forall|k: int| 0 <= k < idx.len() implies 0 <= #[trigger] idx[k] < ts.len()
                && o[k] == ts[idx[k]] by {
                if k > 0 {
                    assert(idx[k] == idx2[k - 1] + 1);
                    assert(o[k] == o2[k - 1]);
                    assert(rest[idx2[k - 1]] == ts[idx2[k - 1] + 1]);
                }
            }
            assert forall|k1: int, k2: int| 0 <= k1 < k2 < idx.len() implies #[trigger] idx[k1]
                < #[trigger] idx[k2] by {
                assert(idx[k2] == idx2[k2 - 1] + 1);
                if k1 > 0 {
                    assert(idx[k1] == idx2[k1 - 1] + 1);
                    assert(idx2[k1 - 1] < idx2[k2 - 1]);
                }
            }
            assert forall|j: int|
                0 <= j < ts.len() && title_key((#[trigger] ts[j]).title@).len() > 0 && (forall|k: int|
                    0 <= k < idx.len() ==> idx[k] != j) implies ids.contains(ts[j].id)
                || keys.contains(key_of(ts[j])) || exists|k: int|
                0 <= k < idx.len() && idx[k] < j && ((#[trigger] o[k]).id == ts[j].id || key_of(o[k])
                    == key_of(ts[j])) by {
                assert(idx[0] == 0);
                assert(j != 0);
                assert(rest[j - 1] == ts[j]);
                assert forall|k: int| 0 <= k < idx2.len() implies idx2[k] != j - 1 by {
                    assert(idx[k + 1] == idx2[k] + 1);
                    assert(idx[k + 1] != j);
                }
                assert(o[0] == t);
                if exists|k: int|
                    0 <= k < idx2.len() && idx2[k] < j - 1 && ((#[trigger] o2[k]).id == rest[j
                        - 1].id || key_of(o2[k]) == key_of(rest[j - 1])) {
                    let k = choose|k: int|
                        0 <= k < idx2.len() && idx2[k] < j - 1 && ((#[trigger] o2[k]).id == rest[j
                            - 1].id || key_of(o2[k]) == key_of(rest[j - 1]));
                    assert(idx[k + 1] == idx2[k] + 1);
                    assert(o[k + 1] == o2[k]);
                } else if ids2.contains(ts[j].id) && !ids.contains(ts[j].id) {
                    assert(o[0].id == ts[j].id);
                } else if keys2.contains(key_of(ts[j])) && !keys.contains(key_of(ts[j])) {
                    assert(key_of(o[0]) == key_of(ts[j]));
                }
            }
            idx
        }
    }
}

/// De-duplicating keeps the first (most relevant) of each song, in input
/// order: the kept songs are titled input songs in their input order, no two
/// share an id or a song key, and every titled input song left out shares
/// its id or its song key with a song kept before it.
pub proof fn lemma_dedupe_keeps_first_of_each(ts: Seq<Track>)
    ensures
        exists|idx: Seq<int>|
            #![trigger idx.len()]
            {
                &&& idx.len() == deduped(ts).len()
                &&& forall|k: int|
                    0 <= k < idx.len() ==> 0 <= #[trigger] idx[k] < ts.len() && deduped(ts)[k]
                        == ts[idx[k]] && title_key(ts[idx[k]].title@).len() > 0
                &&& forall|k1: int, k2: int|
                    0 <= k1 < k2 < idx.len() ==> #[trigger] idx[k1] < #[trigger] idx[k2]
                &&& forall|k1: int, k2: int|
                    0 <= k1 < k2 < idx.len() ==> (#[trigger] deduped(ts)[k1]).id != (
                    #[trigger] deduped(ts)[k2]).id && key_of(deduped(ts)[k1]) != key_of(
                        deduped(ts)[k2],
                    )
                &&& forall|j: int|
                    0 <= j < ts.len() && title_key((#[trigger] ts[j]).title@).len() > 0 && (
                    forall|k: int| 0 <= k < idx.len() ==> idx[k] != j) ==> exists|k: int|
                        0 <= k < idx.len() && idx[k] < j && ((#[trigger] deduped(ts)[k]).id
                            == ts[j].id || key_of(deduped(ts)[k]) == key_of(ts[j]))
            },
{
    let idx = dedupe_positions(ts, Set::empty(), Set::empty());
    lemma_deduped_distinct(ts);
    assert forall|k: int| 0 <= k < idx.len() implies 0 <= #[trigger] idx[k] < ts.len()
        && deduped(ts)[k] == ts[idx[k]] && title_key(ts[idx[k]].title@).len() > 0 by {
        assert(title_key(deduped(ts)[k].title@).len() > 0);
    }
}

// ---------------------------------------------------------------------------
// Laws.

/// Cycling forward then back (or back then forward) returns to the same mode,
/// and five steps forward come full circle.
pub proof fn lemma_mode_cycle(m: GameMode)
    ensures
        prev_mode(next_mode(m)) == m,
        next_mode(prev_mode(m)) == m,
        next_mode(next_mode(next_mode(next_mode(next_mode(m))))) == m,
{
}

/// A mode's wire tag parses back to the same mode.
pub proof fn lemma_tag_round_trip(m: GameMode)
    ensures
        mode_of_tag(mode_tag(m)) == m,
{
    reveal_strlit("normal");
    reveal_strlit("fast");
    reveal_strlit("slow");
    reveal_strlit("reverse");
    reveal_strlit("muffled");
    assert("normal"@.len() == 6 && "fast"@.len() == 4 && "slow"@.len() == 4);
    assert("reverse"@.len() == 7 && "muffled"@.len() == 7);
    assert("normal"@[0] == 'n' && "fast"@[0] == 'f' && "slow"@[0] == 's');
    assert("reverse"@[0] == 'r' && "muffled"@[0] == 'm');
    assert("normal"@ != "fast"@ && "normal"@ != "slow"@ && "normal"@ != "reverse"@);
    assert("normal"@ != "muffled"@ && "slow"@ != "fast"@);
    assert("reverse"@ != "fast"@ && "reverse"@ != "slow"@);
    assert("muffled"@ != "fast"@ && "muffled"@ != "slow"@ && "muffled"@ != "reverse"@);
}

/// An exact track-id match is correct whatever the text says; in particular
/// every track is a correct guess for itself.
pub proof fn lemma_same_id_is_correct(guess: Track, answer: Track)
    requires
        guess.id == answer.id,
    ensures
        correct(guess, answer),
        correct(answer, answer),
{
}

/// Correctness does not depend on which track is the guess: `is_correct`
/// gives the same answer with the two tracks swapped.
pub proof fn lemma_correct_symmetric(a: Track, b: Track)
    ensures
        correct(a, b) == correct(b, a),
{
    crate::text::lemma_similar_symmetric(title_key(a.title@), title_key(b.title@), 90);
    crate::text::lemma_similar_symmetric(normalized(a.artist.name@), normalized(b.artist.name@), 85);
}

/// Artist names whose normalized forms are at least 85% alike (edit
/// distance at most 15% of the longer) refer to the same act, as do names
/// whose normalized forms are equal or contain one another; blank names
/// never match.
pub proof fn lemma_close_artists_match(a: Seq<char>, b: Seq<char>)
    ensures
        ({
            let (x, y) = (normalized(a), normalized(b));
            x.len() > 0 && y.len() > 0 && 100 * crate::text::edit_distance(x, y) <= 15 * (if x.len()
                >= y.len() {
                x.len()
            } else {
                y.len()
            }) ==> artists_match(a, b)
        }),
        normalized(a).len() > 0 && normalized(a) == normalized(b) ==> artists_match(a, b),
        normalized(a).len() == 0 ==> !artists_match(a, b) && !artists_match(b, a),
{
}

/// A one-letter slip in an artist name of seven or more characters (after
/// normalizing) still names the same act, so a guess by that artist is
/// right when its title matches.
pub proof fn lemma_artist_typo_matches(a: Seq<char>, b: Seq<char>, i: int, c: char)
    requires
        normalized(a).len() >= 7,
        0 <= i < normalized(a).len(),
        normalized(b) == normalized(a).update(i, c),
    ensures
        artists_match(a, b),
        artists_match(b, a),
{
    crate::text::lemma_edit_distance_one_change(normalized(a), i, c);
    crate::text::lemma_edit_distance_symmetric(normalized(a), normalized(b));
}

/// Every title matches itself.
pub proof fn lemma_title_matches_itself(t: Seq<char>)
    ensures
        titles_match(t, t),
{
    crate::text::lemma_edit_distance_self(title_key(t));
}

/// Fewer clips, more points: a round's solve value lies between 1 and the
/// number of levels, and drops by one with each level revealed.
pub proof fn lemma_value_rewards_fewer_clips(r: Round, later: Round)
    requires
        r.wf(),
        later.wf(),
        r.levels() <= u32::MAX,
        later.levels() == r.levels(),
        r.level < later.level,
    ensures
        1 <= r.value() <= r.levels(),
        later.value() < r.value(),
        r.value() == r.levels() - r.level,
{
}

/// Each level advance costs exactly one point of solve value: a wrong guess
/// or a skip that reveals another clip lowers the value by one, and it stays
/// at least one; one at the last clip ends the round lost at that level.
pub proof fn lemma_advance_costs_one_point(old: Round, new: Round, guess: Track)
    requires
        old.wf(),
        old.levels() <= u32::MAX,
        (guess_applied(old, new, guess) && !correct(guess, old.answer)) || skip_applied(
            old,
            new,
        ),
    ensures
        old.value() == old.levels() - old.level,
        old.level + 1 < old.levels() ==> new.value() == old.value() - 1 && new.value() >= 1
            && new.outcome == old.outcome,
        old.level + 1 >= old.levels() ==> new.outcome == Outcome::Lost && new.value()
            == old.value(),
{
}

/// The right-artist consolation is half the solve value, at least one, and
/// never more than the solve value itself.
pub proof fn lemma_consolation_bounds(value: u32)
    requires
        value >= 1,
    ensures
        1 <= consolation(value) <= value,
        consolation(value) == (if value >= 2 { value / 2 } else { 1 }),
{
}

/// Naming the right artist floors a round's score, and a solve earns at least
/// its solve value.
pub proof fn lemma_awarded_floor(r: Round)
    ensures
        awarded(r) >= r.artist_bonus,
        r.outcome == Outcome::Won ==> awarded(r) >= r.value(),
        r.outcome != Outcome::Won ==> awarded(r) == r.artist_bonus,
{
}

} // verus!
