//! Local player profile: identity plus lifetime and per-category stats and a
//! recent-games log. Entirely offline.

use vstd::prelude::*;

use crate::text::{chars_of, trim, trimmed};

verus! {

/// How many recent rounds to keep in the history log.
pub const MAX_RECENT: usize = 40;

/// Minimum rounds in a category before it's eligible as "best category".
pub const BEST_CATEGORY_MIN: u32 = 3;

/// One finished round handed to the profile to fold into the stats + history.
pub struct RoundRecord {
    pub title: String,
    pub artist: String,
    pub category: String,
    pub won: bool,
    pub clips: u32,
    pub points: u32,
}

/// A single played round, newest kept first in `Stats::recent`.
#[derive(Clone, Debug, PartialEq, Eq)]
pub struct RecentGame {
    pub title: String,
    pub artist: String,
    pub category: String,
    pub won: bool,
    pub clips: u32,
    pub points: u32,
    /// Unix seconds when it was played (0 if the clock was unavailable).
    pub at: u64,
}

/// Aggregate record for one category.
#[derive(Clone, Copy, Debug, PartialEq, Eq, Structural)]
pub struct CategoryStat {
    pub rounds: u32,
    pub wins: u32,
    pub points: u64,
}

/// Lifetime stats across every round the player has finished.
#[derive(Clone, Debug)]
pub struct Stats {
    pub rounds: u32,
    pub wins: u32,
    pub total_points: u64,
    pub best_streak: u32,
    pub current_streak: u32,
    /// Per-category aggregates, one entry per category name, in the order the
    /// categories were first played.
    pub by_category: Vec<(String, CategoryStat)>,
    /// Most recent rounds, newest first.
    pub recent: Vec<RecentGame>,
}

/// The player's local profile.
#[derive(Clone, Debug)]
pub struct Profile {
    pub name: String,
    /// Accent-colour key the frontend maps to a colour.
    pub accent: String,
    pub stats: Stats,
}

/// The position of the entry for category `name`, or -1 if there is none.
pub open spec fn cat_index(cats: Seq<(String, CategoryStat)>, name: Seq<char>) -> int
    decreases cats.len(),
{
    if cats.len() == 0 {
        -1
    } else if cats.last().0@ == name {
        cats.len() - 1
    } else {
        cat_index(cats.drop_last(), name)
    }
}

/// The aggregate for category `name` (all zero if it was never played).
pub open spec fn cat_stat(cats: Seq<(String, CategoryStat)>, name: Seq<char>) -> CategoryStat {
    let i = cat_index(cats, name);
    if i >= 0 {
        cats[i].1
    } else {
        CategoryStat { rounds: 0, wins: 0, points: 0 }
    }
}

/// A category aggregate with one more round folded in.
pub open spec fn bump(c: CategoryStat, won: bool, points: u32) -> CategoryStat {
    CategoryStat {
        rounds: (c.rounds + 1) as u32,
        wins: (if won {
            c.wins + 1
        } else {
            c.wins as int
        }) as u32,
        points: (c.points + points) as u64,
    }
}

/// The per-category list after one more round in `r.category`: its entry is
/// bumped, or a new entry is appended.
pub open spec fn record_cats(cats: Seq<(String, CategoryStat)>, r: RoundRecord) -> Seq<
    (String, CategoryStat),
> {
    let i = cat_index(cats, r.category@);
    if i >= 0 {
        cats.update(i, (cats[i].0, bump(cats[i].1, r.won, r.points)))
    } else {
        cats.push((r.category, bump(CategoryStat { rounds: 0, wins: 0, points: 0 }, r.won, r.points)))
    }
}

/// The history entry for a round played at `at`.
pub open spec fn recent_entry(r: RoundRecord, at: u64) -> RecentGame {
    RecentGame {
        title: r.title,
        artist: r.artist,
        category: r.category,
        won: r.won,
        clips: r.clips,
        points: r.points,
        at,
    }
}

/// The stats after folding in one finished round played at `at`.
pub open spec fn recorded(s: Stats, r: RoundRecord, at: u64) -> Stats {
    let streak: u32 = if r.won {
        (s.current_streak + 1) as u32
    } else {
        0
    };
    Stats {
        rounds: (s.rounds + 1) as u32,
        wins: (if r.won {
            s.wins + 1
        } else {
            s.wins as int
        }) as u32,
        total_points: (s.total_points + r.points) as u64,
        best_streak: if s.best_streak >= streak {
            s.best_streak
        } else {
            streak
        },
        current_streak: streak,
        by_category: s.by_category,
        recent: s.recent,
    }
}

/// Folding in `r` overflows no counter.
pub open spec fn can_record(s: Stats, r: RoundRecord) -> bool {
    let c = cat_stat(s.by_category@, r.category@);
    &&& s.rounds < u32::MAX
    &&& s.total_points + r.points <= u64::MAX
    &&& (r.won ==> s.wins < u32::MAX && s.current_streak < u32::MAX)
    &&& c.rounds < u32::MAX
    &&& c.points + r.points <= u64::MAX
    &&& (r.won ==> c.wins < u32::MAX)
}

/// The newest-first history after a round played at `at`, capped.
pub open spec fn recorded_recent(s: Stats, r: RoundRecord, at: u64) -> Seq<RecentGame> {
    let history = seq![recent_entry(r, at)] + s.recent@;
    if history.len() > MAX_RECENT {
        history.take(MAX_RECENT as int)
    } else {
        history
    }
}

/// The stats agree with themselves: each category has no more rounds, wins or
/// points than the totals, nobody wins more rounds than they play, the current
/// streak is a run of wins within the best streak, category names are
/// distinct, and the history is capped.
pub open spec fn consistent(s: Stats) -> bool {
    &&& s.wins <= s.rounds
    &&& s.current_streak <= s.best_streak
    &&& s.current_streak <= s.wins
    &&& s.recent@.len() <= MAX_RECENT
    &&& forall|i: int|
        0 <= i < s.by_category@.len() ==> {
            let c = (#[trigger] s.by_category@[i]).1;
            c.rounds <= s.rounds && c.wins <= s.wins && c.wins <= c.rounds && c.points
                <= s.total_points
        }
    &&& forall|i: int, j: int|
        0 <= i < j < s.by_category@.len() ==> (#[trigger] s.by_category@[i]).0@ != (
        #[trigger] s.by_category@[j]).0@
}

/// `b` is profile `a` with the round `r` folded in, played at some instant
/// (the first history entry's stamp): same name and accent, the totals, the
/// streaks, the per-category entry and the capped history all updated.
pub open spec fn profile_recorded(a: Profile, b: Profile, r: RoundRecord) -> bool {
    let at = b.stats.recent@[0].at;
    let s = recorded(a.stats, r, at);
    &&& b.name == a.name
    &&& b.accent == a.accent
    &&& b.stats.recent@.len() > 0
    &&& b.stats.rounds == s.rounds
    &&& b.stats.wins == s.wins
    &&& b.stats.total_points == s.total_points
    &&& b.stats.best_streak == s.best_streak
    &&& b.stats.current_streak == s.current_streak
    &&& b.stats.by_category@ == record_cats(a.stats.by_category@, r)
    &&& b.stats.recent@ == recorded_recent(a.stats, r, at)
}

/// Calls `SystemTime::now` and measures it from the Unix epoch in whole
/// seconds, 0 if the clock is before the epoch. Nothing is promised of the value.
#[verifier::external_body]
fn now_secs() -> (r: u64) {
    std::time::SystemTime::now().duration_since(std::time::UNIX_EPOCH).map(|d| d.as_secs()).unwrap_or(0)
}

/// The name a fresh profile gets from the OS user: `user` (the `USER`
/// variable) where it is set, else `username` (`USERNAME`), as long as the
/// one taken is not blank; "player" otherwise.
pub open spec fn default_name_spec(user: Option<Seq<char>>, username: Option<Seq<char>>) -> Seq<
    char,
> {
    let v = match user {
        Some(u) => Some(u),
        None => username,
    };
    match v {
        Some(n) => if trimmed(n).len() > 0 {
            n
        } else {
            "player"@
        },
        None => "player"@,
    }
}

/// A friendly default name from the OS user's `USER` and `USERNAME`
/// variables (none where unset): see `default_name_spec`.
pub fn default_name_from(user: Option<String>, username: Option<String>) -> (r: String)
    ensures
        r@ == default_name_spec(
            match user {
                Some(u) => Some(u@),
                None => None,
            },
            match username {
                Some(u) => Some(u@),
                None => None,
            },
        ),
{
    proof {
        reveal_strlit("player");
    }
    let v = match user {
        Some(u) => Some(u),
        None => username,
    };
    match v {
        Some(n) => {
            let cs = chars_of(n.as_str());
            let t = trim(&cs);
            if t.len() > 0 {
                n
            } else {
                String::from_str("player")
            }
        },
        None => String::from_str("player"),
    }
}

/// The accent a new profile starts with.
pub fn default_accent() -> (r: String)
    ensures
        r@ == "coral"@,
{
    String::from_str("coral")
}

proof fn lemma_cat_index(cats: Seq<(String, CategoryStat)>, name: Seq<char>)
    ensures
        -1 <= cat_index(cats, name) < cats.len(),
        cat_index(cats, name) >= 0 ==> cats[cat_index(cats, name)].0@ == name,
        cat_index(cats, name) < 0 ==> forall|k: int| 0 <= k < cats.len() ==> cats[k].0@ != name,
    decreases cats.len(),
{
    if cats.len() > 0 {
        lemma_cat_index(cats.drop_last(), name);
        assert(forall|k: int| 0 <= k < cats.len() - 1 ==> cats.drop_last()[k] == cats[k]);
    }
}

fn find_category(cats: &Vec<(String, CategoryStat)>, name: &String) -> (r: Option<usize>)
    ensures
        match r {
            Some(k) => cat_index(cats@, name@) == k as int,
            None => cat_index(cats@, name@) == -1,
        },
{
    let mut last: Option<usize> = None;
    let mut j: usize = 0;
    assert(cats@.take(0) =~= Seq::<(String, CategoryStat)>::empty());
    while j < cats.len()
        invariant
            j <= cats.len(),
            match last {
                Some(k) => cat_index(cats@.take(j as int), name@) == k as int,
                None => cat_index(cats@.take(j as int), name@) == -1,
            },
        decreases cats.len() - j,
    {
        assert(cats@.take(j + 1).drop_last() =~= cats@.take(j as int));
        if cats[j].0 == *name {
            last = Some(j);
        }
        j = j + 1;
    }
    assert(cats@.take(cats.len() as int) =~= cats@);
    last
}

/// Category `a` has a strictly higher win rate than `b` (compared exactly,
/// as fractions).
pub open spec fn rate_above(a: CategoryStat, b: CategoryStat) -> bool {
    a.wins * b.rounds > b.wins * a.rounds
}

/// Category `a` outranks `b` as "best": higher win rate, or the same win rate
/// over more rounds.
pub open spec fn outranks(a: CategoryStat, b: CategoryStat) -> bool {
    rate_above(a, b) || (!rate_above(b, a) && a.rounds > b.rounds)
}

/// A category has enough rounds to be eligible as "best".
pub open spec fn eligible(c: CategoryStat) -> bool {
    c.rounds >= BEST_CATEGORY_MIN
}

/// Where two category lists name the same categories in the same places, a
/// name is found at the same place in both.
proof fn lemma_cat_index_by_names(
    a: Seq<(String, CategoryStat)>,
    b: Seq<(String, CategoryStat)>,
    name: Seq<char>,
)
    requires
        a.len() == b.len(),
        forall|k: int| 0 <= k < a.len() ==> (#[trigger] a[k]).0@ == b[k].0@,
    ensures
        cat_index(a, name) == cat_index(b, name),
    decreases a.len(),
{
    if a.len() > 0 {
        assert(a.last().0@ == b.last().0@);
        lemma_cat_index_by_names(a.drop_last(), b.drop_last(), name);
    }
}

/// Recording a round in category `r.category` bumps that category's
/// aggregate (from all zero if it was never played) and leaves every other
/// category's aggregate as it was.
pub proof fn lemma_record_cats_lookup(
    cats: Seq<(String, CategoryStat)>,
    r: RoundRecord,
    name: Seq<char>,
)
    ensures
        cat_stat(record_cats(cats, r), r.category@) == bump(
            cat_stat(cats, r.category@),
            r.won,
            r.points,
        ),
        name != r.category@ ==> cat_stat(record_cats(cats, r), name) == cat_stat(cats, name),
{
    let i = cat_index(cats, r.category@);
    lemma_cat_index(cats, r.category@);
    lemma_cat_index(cats, name);
    let n = record_cats(cats, r);
    if i >= 0 {
        assert forall|k: int| 0 <= k < n.len() implies (#[trigger] n[k]).0@ == cats[k].0@ by {}
        lemma_cat_index_by_names(n, cats, r.category@);
        lemma_cat_index_by_names(n, cats, name);
    } else {
        assert(n.drop_last() =~= cats);
    }
}

/// The history after recording a round: the round comes first, followed by
/// the earlier history cut to `MAX_RECENT - 1` entries.
pub proof fn lemma_recorded_recent_shape(s: Stats, r: RoundRecord, at: u64)
    ensures
        recorded_recent(s, r, at)[0] == recent_entry(r, at),
        recorded_recent(s, r, at).skip(1) == s.recent@.take(
            if s.recent@.len() < MAX_RECENT - 1 {
                s.recent@.len() as int
            } else {
                MAX_RECENT - 1
            },
        ),
{
    let h = seq![recent_entry(r, at)] + s.recent@;
    assert(h[0] == recent_entry(r, at));
    if h.len() > MAX_RECENT {
        assert(h.take(MAX_RECENT as int).skip(1) =~= s.recent@.take(MAX_RECENT - 1));
    } else {
        assert(h.skip(1) =~= s.recent@);
        assert(s.recent@.take(s.recent@.len() as int) =~= s.recent@);
    }
}

/// What recording a round does to a profile, entry by entry: the round's
/// category gains a round, a win if it was won and its points, every other
/// category stays as it was, and the history starts with the round, followed
/// by the earlier history cut to `MAX_RECENT - 1` entries.
pub proof fn lemma_record_round_law(a: Profile, b: Profile, r: RoundRecord, name: Seq<char>)
    requires
        profile_recorded(a, b, r),
    ensures
        cat_stat(b.stats.by_category@, r.category@) == bump(
            cat_stat(a.stats.by_category@, r.category@),
            r.won,
            r.points,
        ),
        name != r.category@ ==> cat_stat(b.stats.by_category@, name) == cat_stat(
            a.stats.by_category@,
            name,
        ),
        b.stats.recent@[0] == recent_entry(r, b.stats.recent@[0].at),
        b.stats.recent@.skip(1) == a.stats.recent@.take(
            if a.stats.recent@.len() < MAX_RECENT - 1 {
                a.stats.recent@.len() as int
            } else {
                MAX_RECENT - 1
            },
        ),
{
    lemma_record_cats_lookup(a.stats.by_category@, r, name);
    lemma_recorded_recent_shape(a.stats, r, b.stats.recent@[0].at);
}

proof fn lemma_rate_order(a: CategoryStat, b: CategoryStat, c: CategoryStat)
    requires
        a.rounds > 0,
        b.rounds > 0,
        c.rounds > 0,
    ensures
        !rate_above(a, b) && !rate_above(b, c) ==> !rate_above(a, c),
        rate_above(a, b) && rate_above(b, c) ==> rate_above(a, c),
        rate_above(a, b) && !rate_above(c, b) ==> rate_above(a, c),
        !rate_above(b, a) && rate_above(b, c) ==> rate_above(a, c),
{
    let (aw, ar, bw, br, cw, cr) = (a.wins as int, a.rounds as int, b.wins as int, b.rounds as int, c.wins as int, c.rounds as int);
    assert(aw * br <= bw * ar && bw * cr <= cw * br ==> aw * cr <= cw * ar) by (nonlinear_arith)
        requires
            ar > 0,
            br > 0,
            cr > 0,
            aw >= 0,
            bw >= 0,
            cw >= 0,
    {
        if aw * br <= bw * ar && bw * cr <= cw * br {
            assert(aw * br * cr <= bw * ar * cr);
            assert(bw * cr * ar <= cw * br * ar);
            assert(aw * cr * br <= cw * ar * br);
        }
    }
    assert(aw * br > bw * ar && bw * cr >= cw * br ==> aw * cr > cw * ar) by (nonlinear_arith)
        requires
            ar > 0,
            br > 0,
            cr > 0,
            aw >= 0,
            bw >= 0,
            cw >= 0,
    {
        if aw * br > bw * ar && bw * cr >= cw * br {
            assert(aw * br * cr > bw * ar * cr);
            assert(bw * cr * ar >= cw * br * ar);
            assert(aw * cr * br > cw * ar * br);
        }
    }
    assert(aw * br >= bw * ar && bw * cr > cw * br ==> aw * cr > cw * ar) by (nonlinear_arith)
        requires
            ar > 0,
            br > 0,
            cr > 0,
            aw >= 0,
            bw >= 0,
            cw >= 0,
    {
        if aw * br >= bw * ar && bw * cr > cw * br {
            assert(aw * br * cr >= bw * ar * cr);
            assert(bw * cr * ar > cw * br * ar);
            assert(aw * cr * br > cw * ar * br);
        }
    }
}

/// "Not outranked" is transitive among played categories, so a running best
/// stays unbeaten by everything seen before it.
pub proof fn lemma_outranks_order(a: CategoryStat, b: CategoryStat, c: CategoryStat)
    requires
        a.rounds > 0,
        b.rounds > 0,
        c.rounds > 0,
    ensures
        !outranks(a, a),
        !outranks(a, b) && !outranks(b, c) ==> !outranks(a, c),
        outranks(a, b) && !outranks(c, b) ==> outranks(a, c),
{
    lemma_rate_order(a, b, c);
    lemma_rate_order(c, b, a);
    lemma_rate_order(b, a, c);
    lemma_rate_order(a, c, b);
    lemma_rate_order(c, a, b);
    lemma_rate_order(b, c, a);
}

fn rate_higher(a: &CategoryStat, b: &CategoryStat) -> (r: bool)
    ensures
        r == rate_above(*a, *b),
{
    let (aw, br, bw, ar) = (a.wins as u64, b.rounds as u64, b.wins as u64, a.rounds as u64);
    assert(aw * br <= 0xffff_ffff * 0xffff_ffff) by (nonlinear_arith)
        requires
            aw <= 0xffff_ffff,
            br <= 0xffff_ffff,
    ;
    assert(bw * ar <= 0xffff_ffff * 0xffff_ffff) by (nonlinear_arith)
        requires
            bw <= 0xffff_ffff,
            ar <= 0xffff_ffff,
    ;
    aw * br > bw * ar
}

impl Stats {
    /// The category the player does best at — highest win rate, then most
    /// played — among those with at least `BEST_CATEGORY_MIN` rounds.
    pub fn best_category(&self) -> (r: Option<(&str, &CategoryStat)>)
        ensures
            match r {
                None => forall|i: int|
                    0 <= i < self.by_category@.len() ==> !eligible(
                        #[trigger] self.by_category@[i].1,
                    ),
                Some((n, c)) => {
                    &&& exists|i: int|
                        0 <= i < self.by_category@.len() && #[trigger] self.by_category@[i].0@
                            == n@ && self.by_category@[i].1 == *c
                    &&& eligible(*c)
                    &&& forall|j: int|
                        0 <= j < self.by_category@.len() && eligible(
                            #[trigger] self.by_category@[j].1,
                        ) ==> !outranks(self.by_category@[j].1, *c)
                },
            },
    {
        let cats = &self.by_category;
        let mut best: Option<usize> = None;
        let mut i: usize = 0;
        while i < cats.len()
            invariant
                i <= cats.len(),
                match best {
                    None => forall|j: int| 0 <= j < i ==> !eligible(#[trigger] cats@[j].1),
                    Some(b) => b < i && eligible(cats@[b as int].1) && forall|j: int|
                        0 <= j < i && eligible(#[trigger] cats@[j].1) ==> !outranks(
                            cats@[j].1,
                            cats@[b as int].1,
                        ),
                },
            decreases cats.len() - i,
        {
            let c = &cats[i].1;
            if c.rounds >= BEST_CATEGORY_MIN {
                match best {
                    None => {
                        proof {
                            lemma_outranks_order(*c, *c, *c);
                        }
                        best = Some(i);
                    },
                    Some(b) => {
                        let cur = &cats[b].1;
                        let up = rate_higher(c, cur) || (!rate_higher(cur, c) && c.rounds
                            > cur.rounds);
                        if up {
                            proof {
                                assert forall|j: int|
                                    0 <= j < i + 1 && eligible(#[trigger] cats@[j].1) implies !outranks(
                                    cats@[j].1,
                                    *c,
                                ) by {
                                    lemma_outranks_order(cats@[j].1, *cur, *c);
                                    lemma_outranks_order(*c, *c, *c);
                                    lemma_outranks_order(*c, *cur, cats@[j].1);
                                }
                            }
                            best = Some(i);
                        }
                    },
                }
            }
            i = i + 1;
        }
        match best {
            None => None,
            Some(b) => Some((cats[b].0.as_str(), &cats[b].1)),
        }
    }

    /// No rounds played yet.
    pub fn new() -> (r: Stats)
        ensures
            r.rounds == 0 && r.wins == 0 && r.total_points == 0,
            r.best_streak == 0 && r.current_streak == 0,
            r.by_category@.len() == 0,
            r.recent@.len() == 0,
            consistent(r),
    {
        Stats {
            rounds: 0,
            wins: 0,
            total_points: 0,
            best_streak: 0,
            current_streak: 0,
            by_category: Vec::new(),
            recent: Vec::new(),
        }
    }

    /// Whether folding in `r` would overflow no counter.
    pub fn fits_round(&self, r: &RoundRecord) -> (ok: bool)
        ensures
            ok == can_record(*self, *r),
    {
        proof {
            lemma_cat_index(self.by_category@, r.category@);
        }
        let (c_rounds, c_wins, c_points) = match find_category(&self.by_category, &r.category) {
            Some(k) => (self.by_category[k].1.rounds, self.by_category[k].1.wins, self.by_category[k].1.points),
            None => (0u32, 0u32, 0u64),
        };
        self.rounds < u32::MAX && self.total_points <= u64::MAX - r.points as u64 && (!r.won || (
        self.wins < u32::MAX && self.current_streak < u32::MAX)) && c_rounds < u32::MAX
            && c_points <= u64::MAX - r.points as u64 && (!r.won || c_wins < u32::MAX)
    }

    /// The aggregate for a category, if it was ever played.
    pub fn category(&self, name: &str) -> (r: Option<&CategoryStat>)
        ensures
            match r {
                Some(c) => cat_index(self.by_category@, name@) >= 0 && *c == cat_stat(
                    self.by_category@,
                    name@,
                ),
                None => cat_index(self.by_category@, name@) == -1,
            },
    {
        let key = String::from_str(name);
        proof {
            lemma_cat_index(self.by_category@, name@);
        }
        match find_category(&self.by_category, &key) {
            Some(k) => Some(&self.by_category[k].1),
            None => None,
        }
    }
}

impl Default for Stats {
    fn default() -> (r: Stats)
        ensures
            r.rounds == 0 && r.wins == 0 && r.total_points == 0,
            r.best_streak == 0 && r.current_streak == 0,
            r.by_category@.len() == 0,
            r.recent@.len() == 0,
    {
        Stats::new()
    }
}

impl Profile {
    /// A fresh profile for a player called `name`, with the default accent
    /// and no rounds played.
    pub fn with_name(name: String) -> (r: Profile)
        ensures
            r.name == name,
            r.accent@ == "coral"@,
            r.stats.rounds == 0 && r.stats.wins == 0 && r.stats.total_points == 0,
            r.stats.best_streak == 0 && r.stats.current_streak == 0,
            r.stats.by_category@.len() == 0 && r.stats.recent@.len() == 0,
            consistent(r.stats),
    {
        Profile { name, accent: default_accent(), stats: Stats::new() }
    }

    /// Fold a finished round, played at Unix time `at`, into the lifetime and
    /// per-category stats and the newest-first history (capped at
    /// `MAX_RECENT`).
    pub fn record_round_at(&mut self, r: RoundRecord, at: u64)
        requires
            can_record(old(self).stats, r),
        ensures
            final(self).name == old(self).name,
            final(self).accent == old(self).accent,
            final(self).stats.rounds == recorded(old(self).stats, r, at).rounds,
            final(self).stats.wins == recorded(old(self).stats, r, at).wins,
            final(self).stats.total_points == recorded(old(self).stats, r, at).total_points,
            final(self).stats.best_streak == recorded(old(self).stats, r, at).best_streak,
            final(self).stats.current_streak == recorded(old(self).stats, r, at).current_streak,
            final(self).stats.by_category@ == record_cats(old(self).stats.by_category@, r),
            final(self).stats.recent@ == recorded_recent(old(self).stats, r, at),
            consistent(old(self).stats) ==> consistent(final(self).stats),
    {
        let ghost old_stats = self.stats;
        let ghost rec = r;
        proof {
            lemma_cat_index(self.stats.by_category@, r.category@);
        }
        self.stats.rounds = self.stats.rounds + 1;
        self.stats.total_points = self.stats.total_points + r.points as u64;
        if r.won {
            self.stats.wins = self.stats.wins + 1;
            self.stats.current_streak = self.stats.current_streak + 1;
        } else {
            self.stats.current_streak = 0;
        }
        if self.stats.current_streak > self.stats.best_streak {
            self.stats.best_streak = self.stats.current_streak;
        }
        match find_category(&self.stats.by_category, &r.category) {
            Some(k) => {
                let name = self.stats.by_category[k].0.clone();
                let c = self.stats.by_category[k].1;
                let bumped = CategoryStat {
                    rounds: c.rounds + 1,
                    wins: if r.won {
                        c.wins + 1
                    } else {
                        c.wins
                    },
                    points: c.points + r.points as u64,
                };
                self.stats.by_category.set(k, (name, bumped));
            },
            None => {
                let bumped = CategoryStat {
                    rounds: 1,
                    wins: if r.won {
                        1
                    } else {
                        0
                    },
                    points: r.points as u64,
                };
                self.stats.by_category.push((r.category.clone(), bumped));
            },
        }
        let entry = RecentGame {
            title: r.title,
            artist: r.artist,
            category: r.category,
            won: r.won,
            clips: r.clips,
            points: r.points,
            at,
        };
        let ghost old_recent = self.stats.recent@;
        self.stats.recent.insert(0, entry);
        assert(self.stats.recent@ =~= seq![recent_entry(rec, at)] + old_recent);
        self.stats.recent.truncate(MAX_RECENT);
        proof {
            let cats = self.stats.by_category@;
            let ocats = old_stats.by_category@;
            if consistent(old_stats) {
                assert forall|i: int| 0 <= i < cats.len() implies {
                    let c = (#[trigger] cats[i]).1;
                    c.rounds <= self.stats.rounds && c.wins <= self.stats.wins && c.wins
                        <= c.rounds && c.points <= self.stats.total_points
                } by {
                    if i < ocats.len() {
                        let oc = ocats[i].1;
                        assert(oc.rounds <= old_stats.rounds && oc.wins <= old_stats.wins);
                    }
                }
                assert forall|i: int, j: int| 0 <= i < j < cats.len() implies (
                #[trigger] cats[i]).0@ != (#[trigger] cats[j]).0@ by {
                    if j < ocats.len() {
                        assert(ocats[i].0@ != ocats[j].0@);
                    } else {
                        assert(ocats[i].0@ != rec.category@);
                    }
                }
            }
        }
    }

    /// Fold a finished round into the stats and history, stamped with the
    /// current time.
    pub fn record_round(&mut self, r: RoundRecord)
        requires
            can_record(old(self).stats, r),
        ensures
            profile_recorded(*old(self), *final(self), r),
            final(self).stats.rounds == old(self).stats.rounds + 1,
            final(self).stats.wins == old(self).stats.wins + (if r.won { 1int } else { 0 }),
            final(self).stats.total_points == old(self).stats.total_points + r.points,
            final(self).stats.current_streak == (if r.won {
                old(self).stats.current_streak + 1
            } else {
                0
            }),
            consistent(old(self).stats) ==> consistent(final(self).stats),
    {
        let at = now_secs();
        self.record_round_at(r, at);
    }
}

impl Default for Profile {
    /// A fresh profile with the default accent and no rounds played, named
    /// as `default_name_from` names a player of whom nothing is known
    /// ("player"); callers that know the OS user name the profile with
    /// `with_name(default_name_from(..))`.
    fn default() -> (r: Profile)
        ensures
            r.name@ == "player"@,
            r.accent@ == "coral"@,
            r.stats.rounds == 0 && r.stats.wins == 0 && r.stats.total_points == 0,
            r.stats.best_streak == 0 && r.stats.current_streak == 0,
            r.stats.by_category@.len() == 0 && r.stats.recent@.len() == 0,
            consistent(r.stats),
    {
        Profile::with_name(String::from_str("player"))
    }
}

} // verus!
