//! Anime rounds: what a song is from, and the small text rules used when
//! matching AnimeThemes data against Deezer results.

use vstd::prelude::*;

use crate::deezer::Track;
use crate::game::{key_of, song_key};
use crate::text::{
    alnum, chars_of, contains, contains_seq, find, is_alphanumeric_char, lower_of,
    lowercase_char, occurs_at, seq_eq, starts_with, starts_with_seq, string_of, trim, trimmed,
};

verus! {

/// Anime metadata attached to a round: what the song is from.
#[derive(Debug, Clone)]
pub struct AnimeTag {
    /// Preferred display name (English if known, else romaji).
    pub anime: String,
    /// Every acceptable title/alias, for matching a typed guess.
    pub titles: Vec<String>,
    /// Human theme label, e.g. "Opening 1".
    pub theme: String,
}

/// The part of a theme slug before its first `-`.
pub open spec fn slug_base(s: Seq<char>) -> Seq<char> {
    if contains_seq(s, seq!['-']) {
        s.take(choose|i: int| occurs_at(s, seq!['-'], i) && forall|j: int| 0 <= j < i ==> !occurs_at(s, seq!['-'], j))
    } else {
        s
    }
}

/// `kind` alone, or `kind` and the number separated by a space.
pub open spec fn kind_label(kind: Seq<char>, num: Seq<char>) -> Seq<char> {
    if num.len() == 0 {
        kind
    } else {
        kind + seq![' '] + num
    }
}

/// "OP1" → "Opening 1", "ED2" → "Ending 2", ignoring any `-Suffix`; other slugs
/// are returned as their base.
pub open spec fn theme_label_of(s: Seq<char>) -> Seq<char> {
    let b = slug_base(s);
    if starts_with_seq(b, seq!['O', 'P']) {
        kind_label("Opening"@, b.skip(2))
    } else if starts_with_seq(b, seq!['E', 'D']) {
        kind_label("Ending"@, b.skip(2))
    } else {
        b
    }
}

fn take_prefix(s: &Vec<char>, n: usize) -> (r: Vec<char>)
    requires
        n <= s.len(),
    ensures
        r@ == s@.take(n as int),
{
    let mut r: Vec<char> = Vec::new();
    let mut i: usize = 0;
    while i < n
        invariant
            i <= n <= s.len(),
            r@ =~= s@.take(i as int),
        decreases n - i,
    {
        r.push(s[i]);
        i = i + 1;
    }
    r
}

fn skip_prefix(s: &Vec<char>, n: usize) -> (r: Vec<char>)
    requires
        n <= s.len(),
    ensures
        r@ == s@.skip(n as int),
{
    let mut r: Vec<char> = Vec::new();
    let mut i: usize = n;
    while i < s.len()
        invariant
            n <= i <= s.len(),
            r@ =~= s@.subrange(n as int, i as int),
        decreases s.len() - i,
    {
        r.push(s[i]);
        i = i + 1;
    }
    r
}

/// The human label of an AnimeThemes slug: "OP1" → "Opening 1", "ED2" →
/// "Ending 2", "OP1-AdventPremium" → "Opening 1", "OP" → "Opening".
pub fn theme_label(slug: &str) -> (r: String)
    ensures
        r@ == theme_label_of(slug@),
{
    let s = chars_of(slug);
    let dash: Vec<char> = vec!['-'];
    let base = match find(&s, &dash) {
        Some(i) => {
            assert(dash@ =~= seq!['-']);
            take_prefix(&s, i)
        },
        None => {
            assert(dash@ =~= seq!['-']);
            skip_prefix(&s, 0)
        },
    };
    proof {
        assert(s@.skip(0) =~= s@);
        if contains_seq(s@, seq!['-']) {
            let i = choose|i: int|
                occurs_at(s@, seq!['-'], i) && forall|j: int|
                    0 <= j < i ==> !occurs_at(s@, seq!['-'], j);
            let k = choose|k: int| occurs_at(s@, seq!['-'], k);
            assert(occurs_at(s@, seq!['-'], k));
            assert(base@ == s@.take(i));
        }
    }
    let op: Vec<char> = vec!['O', 'P'];
    let ed: Vec<char> = vec!['E', 'D'];
    assert(op@ =~= seq!['O', 'P']);
    assert(ed@ =~= seq!['E', 'D']);
    let kind;
    if starts_with(&base, &op) {
        kind = String::from_str("Opening");
    } else if starts_with(&base, &ed) {
        kind = String::from_str("Ending");
    } else {
        return string_of(&base);
    }
    let num = skip_prefix(&base, 2);
    if num.len() == 0 {
        kind
    } else {
        let mut out = kind;
        out.append(" ");
        let tail = string_of(&num);
        out.append(tail.as_str());
        assert(" "@ =~= seq![' ']) by {
            reveal_strlit(" ");
        }
        out
    }
}

/// The alphanumeric characters of `s`, each lowercased.
pub open spec fn squashed(s: Seq<char>) -> Seq<char>
    decreases s.len(),
{
    if s.len() == 0 {
        Seq::empty()
    } else {
        (if alnum(s[0]) {
            lower_of(s[0])
        } else {
            Seq::empty()
        }) + squashed(s.drop_first())
    }
}

/// Keep only alphanumerics, lowercased (no separators kept).
pub fn norm(s: &str) -> (r: Vec<char>)
    ensures
        r@ == squashed(s@),
{
    let cs = chars_of(s);
    let mut out: Vec<char> = Vec::new();
    let mut i: usize = 0;
    assert(cs@.skip(0) =~= cs@);
    while i < cs.len()
        invariant
            i <= cs.len(),
            cs@ == s@,
            out@ + squashed(cs@.skip(i as int)) == squashed(cs@),
        decreases cs.len() - i,
    {
        let ch = cs[i];
        assert(cs@.skip(i as int).drop_first() =~= cs@.skip(i + 1));
        let ghost base = out@;
        if is_alphanumeric_char(ch) {
            let lc = lowercase_char(ch);
            let mut k: usize = 0;
            while k < lc.len()
                invariant
                    k <= lc.len(),
                    out@ == base + lc@.take(k as int),
                decreases lc.len() - k,
            {
                out.push(lc[k]);
                assert(base + lc@.take(k + 1) =~= (base + lc@.take(k as int)).push(lc@[k as int]));
                k = k + 1;
            }
            assert(lc@.take(lc.len() as int) =~= lc@);
            assert(out@ + squashed(cs@.skip(i + 1)) =~= base + (lc@ + squashed(cs@.skip(i + 1))));
        } else {
            assert(Seq::<char>::empty() + squashed(cs@.skip(i + 1)) =~= squashed(cs@.skip(i + 1)));
        }
        i = i + 1;
    }
    assert(cs@.skip(i as int) =~= Seq::<char>::empty());
    assert(out@ + Seq::<char>::empty() =~= out@);
    out
}

/// Two artist names refer to the same act: both non-empty after `squashed`,
/// and equal or one containing the other.
pub open spec fn same_act(a: Seq<char>, b: Seq<char>) -> bool {
    let (x, y) = (squashed(a), squashed(b));
    x.len() > 0 && y.len() > 0 && (x == y || contains_seq(x, y) || contains_seq(y, x))
}

/// Do two artist names refer to the same act? Alphanumerics-only, case-folded,
/// accepting containment. Empty means unknown, which never matches.
pub fn artist_matches(a: &str, b: &str) -> (r: bool)
    ensures
        r == same_act(a@, b@),
{
    let x = norm(a);
    let y = norm(b);
    if x.len() == 0 || y.len() == 0 {
        return false;
    }
    contains(&x, &y) || contains(&y, &x) || {
        let eq = seq_eq(&x, &y);
        eq
    }
}


// ---------------------------------------------------------------------------
// The popular-anime pool and theme songs.

/// The titles of a ranked anime, as the ranking service returns them.
pub struct MediaTitle {
    pub romaji: Option<String>,
    pub english: Option<String>,
    pub native: Option<String>,
}

/// One ranked anime: its titles and synonyms.
pub struct Media {
    pub title: MediaTitle,
    pub synonyms: Vec<String>,
}

/// One popular anime: how to look it up on AnimeThemes and its accepted titles.
#[derive(Debug)]
pub struct AnimeEntry {
    /// AnimeThemes lookup key (the romaji name).
    pub lookup: String,
    pub display: String,
    pub titles: Vec<String>,
}

/// The text of an optional title, as a sequence of zero or one texts.
pub open spec fn opt_text(o: Option<String>) -> Seq<Seq<char>> {
    match o {
        Some(s) => seq![s@],
        None => Seq::empty(),
    }
}

/// The texts of a list of strings.
pub open spec fn texts(v: Seq<String>) -> Seq<Seq<char>> {
    v.map_values(|s: String| s@)
}

/// An anime entry as the contracts see it: lookup key, display name, titles.
pub open spec fn entry_view(e: AnimeEntry) -> (Seq<char>, Seq<char>, Seq<Seq<char>>) {
    (e.lookup@, e.display@, texts(e.titles@))
}

/// The pool entry for a ranked anime, if it has a romaji title: looked up by
/// romaji, displayed by its English title when known, accepting the romaji,
/// English and native titles (those present) and then every synonym.
pub open spec fn entry_of(m: Media) -> Option<(Seq<char>, Seq<char>, Seq<Seq<char>>)> {
    match m.title.romaji {
        None => None,
        Some(r) => Some(
            (
                r@,
                match m.title.english {
                    Some(e) => e@,
                    None => r@,
                },
                opt_text(m.title.romaji) + opt_text(m.title.english) + opt_text(m.title.native)
                    + texts(m.synonyms@),
            ),
        ),
    }
}

/// The pool built from a ranking: one entry per anime with a romaji title, in
/// ranking order.
pub open spec fn pool_of(media: Seq<Media>) -> Seq<(Seq<char>, Seq<char>, Seq<Seq<char>>)>
    decreases media.len(),
{
    if media.len() == 0 {
        Seq::empty()
    } else {
        let rest = pool_of(media.drop_last());
        match entry_of(media.last()) {
            Some(e) => rest.push(e),
            None => rest,
        }
    }
}

fn push_text(v: &mut Vec<String>, s: &String)
    ensures
        texts(final(v)@) == texts(old(v)@).push(s@),
{
    let ghost before = texts(v@);
    v.push(s.clone());
    assert(texts(v@) =~= before.push(s@));
}

fn entry_from(m: &Media) -> (r: Option<AnimeEntry>)
    ensures
        match r {
            Some(e) => entry_of(*m) == Some(entry_view(e)),
            None => entry_of(*m) is None,
        },
{
    let romaji = match &m.title.romaji {
        Some(r) => r,
        None => return None,
    };
    let mut titles: Vec<String> = Vec::new();
    assert(texts(titles@) =~= Seq::<Seq<char>>::empty());
    push_text(&mut titles, romaji);
    match &m.title.english {
        Some(e) => push_text(&mut titles, e),
        None => {},
    }
    match &m.title.native {
        Some(n) => push_text(&mut titles, n),
        None => {},
    }
    let ghost head = texts(titles@);
    assert(head == opt_text(m.title.romaji) + opt_text(m.title.english) + opt_text(m.title.native));
    let mut i: usize = 0;
    while i < m.synonyms.len()
        invariant
            i <= m.synonyms.len(),
            texts(titles@) == head + texts(m.synonyms@.take(i as int)),
        decreases m.synonyms.len() - i,
    {
        push_text(&mut titles, &m.synonyms[i]);
        assert(texts(m.synonyms@.take(i + 1)) =~= texts(m.synonyms@.take(i as int)).push(
            m.synonyms@[i as int]@,
        ));
        i = i + 1;
    }
    assert(m.synonyms@.take(m.synonyms.len() as int) =~= m.synonyms@);
    let display = match &m.title.english {
        Some(e) => e.clone(),
        None => romaji.clone(),
    };
    Some(AnimeEntry { lookup: romaji.clone(), display, titles })
}

/// The popular-anime pool from a ranking: one entry per anime that has a
/// romaji title, in order; `None` when no anime qualifies.
pub fn pool_from_media(media: &Vec<Media>) -> (r: Option<Vec<AnimeEntry>>)
    ensures
        match r {
            Some(v) => v@.len() > 0 && v@.map_values(|e: AnimeEntry| entry_view(e)) == pool_of(
                media@,
            ),
            None => pool_of(media@).len() == 0,
        },
{
    let mut out: Vec<AnimeEntry> = Vec::new();
    let mut i: usize = 0;
    assert(media@.take(0) =~= Seq::<Media>::empty());
    while i < media.len()
        invariant
            i <= media.len(),
            out@.map_values(|e: AnimeEntry| entry_view(e)) == pool_of(media@.take(i as int)),
        decreases media.len() - i,
    {
        assert(media@.take(i + 1).drop_last() =~= media@.take(i as int));
        let ghost before = out@.map_values(|e: AnimeEntry| entry_view(e));
        match entry_from(&media[i]) {
            Some(e) => {
                out.push(e);
                assert(out@.map_values(|e: AnimeEntry| entry_view(e)) =~= before.push(
                    entry_view(out@.last()),
                ));
            },
            None => {},
        }
        i = i + 1;
    }
    assert(media@.take(media.len() as int) =~= media@);
    if out.len() == 0 {
        None
    } else {
        Some(out)
    }
}

/// A song credited on AnimeThemes: its title (if known) and artist names.
pub struct SongRow {
    pub title: Option<String>,
    pub artists: Vec<String>,
}

/// One theme row of an anime on AnimeThemes.
pub struct ThemeRow {
    pub slug: String,
    pub song: Option<SongRow>,
}

/// One anime row on AnimeThemes with its themes.
pub struct AnimeRow {
    pub animethemes: Vec<ThemeRow>,
}

/// One theme of an anime: its slug (OP1/ED2…), song title and first artist.
pub struct ThemeSong {
    pub slug: String,
    pub song: String,
    pub artist: String,
}

/// A theme song as the contracts see it: slug, song title, artist.
pub open spec fn theme_view(t: ThemeSong) -> (Seq<char>, Seq<char>, Seq<char>) {
    (t.slug@, t.song@, t.artist@)
}

/// The theme song of a row: present when the row has a song with a title; its
/// artist is the first credited name, or empty.
pub open spec fn theme_of(t: ThemeRow) -> Option<(Seq<char>, Seq<char>, Seq<char>)> {
    match t.song {
        Some(song) => match song.title {
            Some(title) => Some(
                (
                    t.slug@,
                    title@,
                    if song.artists@.len() > 0 {
                        song.artists@[0]@
                    } else {
                        Seq::empty()
                    },
                ),
            ),
            None => None,
        },
        None => None,
    }
}

/// The theme songs of a list of theme rows, in order.
pub open spec fn themes_of_rows(ts: Seq<ThemeRow>) -> Seq<(Seq<char>, Seq<char>, Seq<char>)>
    decreases ts.len(),
{
    if ts.len() == 0 {
        Seq::empty()
    } else {
        let rest = themes_of_rows(ts.drop_last());
        match theme_of(ts.last()) {
            Some(t) => rest.push(t),
            None => rest,
        }
    }
}

/// The theme songs of every anime row, in order.
pub open spec fn themes_of(rows: Seq<AnimeRow>) -> Seq<(Seq<char>, Seq<char>, Seq<char>)>
    decreases rows.len(),
{
    if rows.len() == 0 {
        Seq::empty()
    } else {
        themes_of(rows.drop_last()) + themes_of_rows(rows.last().animethemes@)
    }
}

fn theme_from(t: &ThemeRow) -> (r: Option<ThemeSong>)
    ensures
        match r {
            Some(s) => theme_of(*t) == Some(theme_view(s)),
            None => theme_of(*t) is None,
        },
{
    match &t.song {
        Some(song) => match &song.title {
            Some(title) => {
                let artist = if song.artists.len() > 0 {
                    song.artists[0].clone()
                } else {
                    String::new()
                };
                Some(ThemeSong { slug: t.slug.clone(), song: title.clone(), artist })
            },
            None => None,
        },
        None => None,
    }
}

/// The theme songs listed for an anime: every theme whose song has a title,
/// with its first credited artist (empty if none), in order.
pub fn themes_from_rows(rows: &Vec<AnimeRow>) -> (r: Vec<ThemeSong>)
    ensures
        r@.map_values(|t: ThemeSong| theme_view(t)) == themes_of(rows@),
{
    let mut out: Vec<ThemeSong> = Vec::new();
    let mut i: usize = 0;
    assert(rows@.take(0) =~= Seq::<AnimeRow>::empty());
    assert(out@.map_values(|t: ThemeSong| theme_view(t)) =~= Seq::<(Seq<char>, Seq<char>, Seq<char>)>::empty());
    while i < rows.len()
        invariant
            i <= rows.len(),
            out@.map_values(|t: ThemeSong| theme_view(t)) == themes_of(rows@.take(i as int)),
        decreases rows.len() - i,
    {
        assert(rows@.take(i + 1).drop_last() =~= rows@.take(i as int));
        let ts = &rows[i].animethemes;
        let ghost base = out@.map_values(|t: ThemeSong| theme_view(t));
        let mut j: usize = 0;
        assert(ts@.take(0) =~= Seq::<ThemeRow>::empty());
        assert(base + themes_of_rows(ts@.take(0)) =~= base);
        while j < ts.len()
            invariant
                j <= ts.len(),
                out@.map_values(|t: ThemeSong| theme_view(t)) == base + themes_of_rows(
                    ts@.take(j as int),
                ),
            decreases ts.len() - j,
        {
            assert(ts@.take(j + 1).drop_last() =~= ts@.take(j as int));
            let ghost before = out@.map_values(|t: ThemeSong| theme_view(t));
            match theme_from(&ts[j]) {
                Some(t) => {
                    out.push(t);
                    assert(out@.map_values(|t: ThemeSong| theme_view(t)) =~= before.push(
                        theme_view(out@.last()),
                    ));
                },
                None => {},
            }
            j = j + 1;
        }
        assert(ts@.take(ts.len() as int) =~= ts@);
        i = i + 1;
    }
    assert(rows@.take(rows.len() as int) =~= rows@);
    out
}

/// The Deezer search text for a theme: song title and artist, trimmed.
pub fn theme_query(song: &str, artist: &str) -> (r: String)
    ensures
        r@ == trimmed(song@ + seq![' '] + artist@),
{
    let mut s = String::from_str(song);
    s.append(" ");
    s.append(artist);
    assert(" "@ =~= seq![' ']) by {
        reveal_strlit(" ");
    }
    let t = trim(&chars_of(s.as_str()));
    string_of(&t)
}

/// Whether a search result can stand for a theme song: it has a preview, and
/// when the theme's artist is known, the artists match.
pub open spec fn fits_theme(t: Track, artist: Seq<char>) -> bool {
    t.preview@.len() > 0 && (trimmed(artist).len() == 0 || same_act(t.artist.name@, artist))
}

/// The position of the first search result that fits the theme, or -1.
pub open spec fn first_fit(results: Seq<Track>, artist: Seq<char>) -> int
    decreases results.len(),
{
    if results.len() == 0 {
        -1
    } else {
        let k = first_fit(results.drop_last(), artist);
        if k >= 0 {
            k
        } else if fits_theme(results.last(), artist) {
            results.len() - 1
        } else {
            -1
        }
    }
}

/// The track to play for a theme: the first result that fits it, unless that
/// song was played recently (its song key is in `avoid`).
pub open spec fn theme_pick(results: Seq<Track>, artist: Seq<char>, avoid: Seq<Seq<char>>) -> int {
    let k = first_fit(results, artist);
    if k >= 0 && !avoid.contains(key_of(results[k])) {
        k
    } else {
        -1
    }
}

proof fn lemma_first_fit(results: Seq<Track>, artist: Seq<char>)
    ensures
        -1 <= first_fit(results, artist) < results.len(),
        first_fit(results, artist) >= 0 ==> fits_theme(results[first_fit(results, artist)], artist),
        forall|j: int|
            0 <= j < results.len() && (first_fit(results, artist) < 0 || j < first_fit(
                results,
                artist,
            )) ==> !fits_theme(#[trigger] results[j], artist),
    decreases results.len(),
{
    if results.len() > 0 {
        lemma_first_fit(results.drop_last(), artist);
        assert forall|j: int|
            0 <= j < results.len() && (first_fit(results, artist) < 0 || j < first_fit(
                results,
                artist,
            )) implies !fits_theme(#[trigger] results[j], artist) by {
            if j < results.len() - 1 {
                assert(results.drop_last()[j] == results[j]);
            }
        }
    }
}

/// The track played for a theme has a preview and, when the theme's artist
/// is known (not blank), is by that artist; no earlier result qualifies, and
/// the pick is not a song played recently. When no result has a preview by
/// the theme's artist, nothing is picked.
pub proof fn lemma_theme_pick_law(results: Seq<Track>, artist: Seq<char>, avoid: Seq<Seq<char>>)
    ensures
        ({
            let k = theme_pick(results, artist, avoid);
            &&& -1 <= k < results.len()
            &&& k >= 0 ==> {
                &&& results[k].preview@.len() > 0
                &&& trimmed(artist).len() > 0 ==> same_act(results[k].artist.name@, artist)
                &&& !avoid.contains(key_of(results[k]))
                &&& forall|j: int|
                    0 <= j < k ==> (#[trigger] results[j]).preview@.len() == 0 || (trimmed(
                        artist,
                    ).len() > 0 && !same_act(results[j].artist.name@, artist))
            }
        }),
        (forall|j: int|
            0 <= j < results.len() ==> (#[trigger] results[j]).preview@.len() == 0 || (trimmed(
                artist,
            ).len() > 0 && !same_act(results[j].artist.name@, artist))) ==> theme_pick(
            results,
            artist,
            avoid,
        ) == -1,
{
    lemma_first_fit(results, artist);
    let k = first_fit(results, artist);
    if k >= 0 {
        assert(fits_theme(results[k], artist));
    }
}

/// Two artist names whose letters and digits (case folded) differ, neither
/// containing the other, never refer to the same act; nor does a name
/// without letters or digits.
pub proof fn lemma_different_acts(a: Seq<char>, b: Seq<char>)
    ensures
        !contains_seq(squashed(a), squashed(b)) && !contains_seq(squashed(b), squashed(a))
            ==> !same_act(a, b),
        squashed(a).len() == 0 ==> !same_act(a, b) && !same_act(b, a),
        same_act(a, b) == same_act(b, a),
{
    if squashed(a) == squashed(b) {
        assert(occurs_at(squashed(a), squashed(b), 0)) by {
            assert(squashed(a).subrange(0, squashed(b).len() as int) =~= squashed(b));
        }
    }
}

/// Choose the search result to play for a theme whose first artist is
/// `artist`: the first result with a preview (and, when the artist is known,
/// by the same act), unless its song key is among `avoid`.
pub fn pick_theme_track(results: &Vec<Track>, artist: &str, avoid: &Vec<String>) -> (r: Option<usize>)
    ensures
        match r {
            Some(k) => theme_pick(results@, artist@, texts(avoid@)) == k as int,
            None => theme_pick(results@, artist@, texts(avoid@)) == -1,
        },
        r matches Some(k) ==> k < results@.len() && results@[k as int].preview@.len() > 0 && (
        trimmed(artist@).len() > 0 ==> same_act(results@[k as int].artist.name@, artist@)),
{
    proof {
        lemma_theme_pick_law(results@, artist@, texts(avoid@));
    }
    let unknown = trim(&chars_of(artist)).len() == 0;
    let mut found: Option<usize> = None;
    let mut i: usize = 0;
    assert(results@.take(0) =~= Seq::<Track>::empty());
    while i < results.len()
        invariant
            i <= results.len(),
            unknown == (trimmed(artist@).len() == 0),
            match found {
                Some(k) => first_fit(results@.take(i as int), artist@) == k as int && k < i,
                None => first_fit(results@.take(i as int), artist@) == -1,
            },
        decreases results.len() - i,
    {
        assert(results@.take(i + 1).drop_last() =~= results@.take(i as int));
        if found.is_none() {
            let t = &results[i];
            if t.has_preview() && (unknown || artist_matches(t.artist_name(), artist)) {
                found = Some(i);
            }
        }
        i = i + 1;
    }
    assert(results@.take(results.len() as int) =~= results@);
    proof {
        lemma_first_fit(results@, artist@);
    }
    match found {
        Some(k) => {
            let key = song_key(&results[k]);
            let mut j: usize = 0;
            while j < avoid.len()
                invariant
                    j <= avoid.len(),
                    k < results.len(),
                    first_fit(results@, artist@) == k as int,
                    key@ == key_of(results@[k as int]),
                    forall|m: int| 0 <= m < j ==> #[trigger] texts(avoid@)[m] != key@,
                decreases avoid.len() - j,
            {
                if seq_eq(&chars_of(avoid[j].as_str()), &chars_of(key.as_str())) {
                    assert(texts(avoid@)[j as int] == key@);
                    assert(texts(avoid@).contains(key_of(results@[k as int])));
                    return None;
                }
                j = j + 1;
            }
            assert(!texts(avoid@).contains(key@));
            Some(k)
        },
        None => None,
    }
}

/// The tag of a round drawn from `entry`'s theme `slug`.
pub fn tag_for(entry: &AnimeEntry, slug: &str) -> (r: AnimeTag)
    ensures
        r.anime@ == entry.display@,
        texts(r.titles@) == texts(entry.titles@),
        r.theme@ == theme_label_of(slug@),
{
    let mut titles: Vec<String> = Vec::new();
    let mut i: usize = 0;
    while i < entry.titles.len()
        invariant
            i <= entry.titles.len(),
            texts(titles@) == texts(entry.titles@.take(i as int)),
        decreases entry.titles.len() - i,
    {
        push_text(&mut titles, &entry.titles[i]);
        assert(texts(entry.titles@.take(i + 1)) =~= texts(entry.titles@.take(i as int)).push(
            entry.titles@[i as int]@,
        ));
        i = i + 1;
    }
    assert(entry.titles@.take(entry.titles.len() as int) =~= entry.titles@);
    AnimeTag { anime: entry.display.clone(), titles, theme: theme_label(slug) }
}

/// Calls `rand::random::<u64>()`; nothing is promised of the value.
#[verifier::external_body]
pub(crate) fn random_u64() -> (r: u64) {
    rand::random::<u64>()
}

/// The index a draw `draw` picks below `len`: `draw` modulo `len` (0 when
/// `len` is 0).
pub open spec fn index_of(draw: u64, len: usize) -> usize {
    if len > 0 {
        (draw % (len as u64)) as usize
    } else {
        0
    }
}

/// The index the random value `draw` picks below `len` (see `index_of`).
pub fn draw_index(draw: u64, len: usize) -> (r: usize)
    ensures
        r == index_of(draw, len),
        len > 0 ==> r < len,
{
    if len > 0 {
        (draw % (len as u64)) as usize
    } else {
        0
    }
}

/// A random index below `len` (0 when `len` is 0): a fresh random `u64`
/// modulo `len`.
pub fn rand_index(len: usize) -> (r: usize)
    ensures
        len > 0 ==> r < len,
        len == 0 ==> r == 0,
        exists|draw: u64| r == index_of(draw, len),
{
    let draw = random_u64();
    draw_index(draw, len)
}

} // verus!
