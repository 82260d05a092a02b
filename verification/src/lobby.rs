//! Live multi-round Challenge lobby: the broadcast game protocol's messages and
//! the cumulative scoring every client runs over the same broadcast stream, so
//! all clients agree on the standings without a central authority.

use vstd::prelude::*;

use crate::text::chars_of;

verus! {

broadcast use vstd::seq_lib::group_to_multiset_ensures;

/// Broadcast event: a round begins.
pub const EV_ROUND_START: &'static str = "round_start";

/// Broadcast event: a player's result.
pub const EV_RESULT: &'static str = "result";

/// Broadcast event: a round is over.
pub const EV_ROUND_OVER: &'static str = "round_over";

/// Broadcast event: the game is over.
pub const EV_GAME_OVER: &'static str = "game_over";

/// Broadcast event: a fresh game starts in the same lobby.
pub const EV_NEW_GAME: &'static str = "new_game";

/// Host → all: begin round `round` with this song.
#[derive(Clone, Debug)]
pub struct RoundStart {
    pub round: u32,
    pub track_id: i64,
}

/// A player → all: how they did this round.
#[derive(Clone, Debug, PartialEq, Eq)]
pub struct RoundResult {
    pub round: u32,
    pub name: String,
    pub solved: bool,
    /// Clips revealed before the correct guess (1 = got it on the first clip).
    pub clips: u32,
    pub time_ms: u32,
    pub mistakes: u32,
    /// The consolation banked for naming the right artist with the wrong
    /// song (0 if none).
    pub artist_bonus: u32,
}

/// Host → all: start a fresh game in the same lobby.
#[derive(Clone, Debug)]
pub struct NewGame {
    pub rounds: u32,
    pub mode: String,
    pub category: String,
}

/// `a - b`, or zero when `b` is larger.
pub open spec fn sat_sub(a: u32, b: u32) -> u32 {
    if a >= b {
        (a - b) as u32
    } else {
        0
    }
}

/// Points for solving on clip `clips` of `max_clips`: none if unsolved, else
/// `max_clips - (clips - 1)` (saturating), at least one.
pub open spec fn points_for(solved: bool, clips: u32, max_clips: u32) -> u32 {
    if !solved {
        0
    } else {
        let p = sat_sub(max_clips, sat_sub(clips, 1));
        if p >= 1 {
            p
        } else {
            1
        }
    }
}

/// Points for solving on clip `clips` of `max_clips` (fewer clips ⇒ more points).
pub fn round_points(solved: bool, clips: u32, max_clips: u32) -> (r: u32)
    ensures
        r == points_for(solved, clips, max_clips),
{
    if !solved {
        return 0;
    }
    let used = if clips >= 1 {
        clips - 1
    } else {
        0
    };
    let p = if max_clips >= used {
        max_clips - used
    } else {
        0
    };
    if p >= 1 {
        p
    } else {
        1
    }
}

/// What a result scores on the board: its solve points, or its right-artist
/// consolation when that is more.
pub open spec fn result_points(r: RoundResult, max_clips: u32) -> u32 {
    let p = points_for(r.solved, r.clips, max_clips);
    if r.artist_bonus > p {
        r.artist_bonus
    } else {
        p
    }
}

/// The points a result scores on the board (see `result_points`).
pub fn result_score(r: &RoundResult, max_clips: u32) -> (p: u32)
    ensures
        p == result_points(*r, max_clips),
{
    let p = round_points(r.solved, r.clips, max_clips);
    if r.artist_bonus > p {
        r.artist_bonus
    } else {
        p
    }
}

/// One row of the leaderboard.
#[derive(Clone, Debug, PartialEq, Eq)]
pub struct Standing {
    pub name: String,
    pub points: u32,
    pub time_ms: u64,
    pub solves: u32,
}

/// Cumulative standings aggregated from every `RoundResult` seen: one row per
/// player name.
pub struct Standings {
    entries: Vec<Standing>,
}

/// The position of the row for `name`, or -1 if there is none.
pub open spec fn row_of(rows: Seq<Standing>, name: Seq<char>) -> int
    decreases rows.len(),
{
    if rows.len() == 0 {
        -1
    } else if rows.last().name@ == name {
        rows.len() - 1
    } else {
        row_of(rows.drop_last(), name)
    }
}

/// No two rows share a name.
pub open spec fn distinct_names(rows: Seq<Standing>) -> bool {
    forall|i: int, j: int|
        0 <= i < j < rows.len() ==> (#[trigger] rows[i]).name@ != (#[trigger] rows[j]).name@
}

/// The rows after folding in one result: the player's row gains the points,
/// time and (if solved) a solve; a new player gets a fresh row at the end.
pub open spec fn record_rows(rows: Seq<Standing>, r: RoundResult, max_clips: u32) -> Seq<
    Standing,
> {
    let i = row_of(rows, r.name@);
    let pts = result_points(r, max_clips);
    let solve: u32 = if r.solved {
        1
    } else {
        0
    };
    if i >= 0 {
        let old = rows[i];
        rows.update(
            i,
            Standing {
                name: old.name,
                points: (old.points + pts) as u32,
                time_ms: (old.time_ms + r.time_ms) as u64,
                solves: (old.solves + solve) as u32,
            },
        )
    } else {
        rows.push(Standing { name: r.name, points: pts, time_ms: r.time_ms as u64, solves: solve })
    }
}

/// Folding in `r` overflows none of the player's running totals.
pub open spec fn fits(rows: Seq<Standing>, r: RoundResult, max_clips: u32) -> bool {
    let i = row_of(rows, r.name@);
    i >= 0 ==> {
        &&& rows[i].points + result_points(r, max_clips) <= u32::MAX
        &&& rows[i].time_ms + r.time_ms <= u64::MAX
        &&& rows[i].solves + 1 <= u32::MAX
    }
}

/// Whether a sorts strictly before b by character code.
pub open spec fn name_lt(a: Seq<char>, b: Seq<char>) -> bool
    decreases a.len(),
{
    if a.len() == 0 {
        b.len() > 0
    } else if b.len() == 0 {
        false
    } else if a[0] != b[0] {
        a[0] < b[0]
    } else {
        name_lt(a.drop_first(), b.drop_first())
    }
}

/// Board order: most points, then least total time, then name.
pub open spec fn ranks_before(a: Standing, b: Standing) -> bool {
    a.points > b.points || (a.points == b.points && (a.time_ms < b.time_ms || (a.time_ms
        == b.time_ms && name_lt(a.name@, b.name@))))
}

/// A board in strict order: each row ranks before every later one.
pub open spec fn in_strict_board_order(v: Seq<Standing>) -> bool {
    forall|i: int, j: int| 0 <= i < j < v.len() ==> ranks_before(#[trigger] v[i], #[trigger] v[j])
}

/// A board is in order: no row ranks before an earlier one.
pub open spec fn in_board_order(v: Seq<Standing>) -> bool {
    forall|i: int, j: int|
        0 <= i < j < v.len() ==> !ranks_before(#[trigger] v[j], #[trigger] v[i])
}

proof fn lemma_row_of(rows: Seq<Standing>, name: Seq<char>)
    ensures
        -1 <= row_of(rows, name) < rows.len(),
        row_of(rows, name) >= 0 ==> rows[row_of(rows, name)].name@ == name,
        row_of(rows, name) < 0 ==> forall|k: int| 0 <= k < rows.len() ==> rows[k].name@ != name,
    decreases rows.len(),
{
    if rows.len() > 0 {
        lemma_row_of(rows.drop_last(), name);
        assert(forall|k: int| 0 <= k < rows.len() - 1 ==> rows.drop_last()[k] == rows[k]);
    }
}

/// Where two boards name the same players in the same places, a name is
/// found at the same place in both.
proof fn lemma_row_of_by_names(a: Seq<Standing>, b: Seq<Standing>, name: Seq<char>)
    requires
        a.len() == b.len(),
        forall|k: int| 0 <= k < a.len() ==> (#[trigger] a[k]).name@ == b[k].name@,
    ensures
        row_of(a, name) == row_of(b, name),
    decreases a.len(),
{
    if a.len() > 0 {
        assert(a.last().name@ == b.last().name@);
        lemma_row_of_by_names(a.drop_last(), b.drop_last(), name);
    }
}

/// What one accepted result does to the board: the player's row (a fresh
/// one for a new player) gains the result's board points, its time and a
/// solve if it solved; every other player's row stays as it was.
pub proof fn lemma_result_updates_one_row(
    rows: Seq<Standing>,
    r: RoundResult,
    max_clips: u32,
    name: Seq<char>,
)
    requires
        fits(rows, r, max_clips),
    ensures
        ({
            let after = record_rows(rows, r, max_clips);
            let i = row_of(rows, r.name@);
            let j = row_of(after, r.name@);
            &&& 0 <= j < after.len()
            &&& after[j].name@ == r.name@
            &&& after[j].points == (if i >= 0 {
                rows[i].points as int
            } else {
                0
            }) + result_points(r, max_clips)
            &&& after[j].time_ms == (if i >= 0 {
                rows[i].time_ms as int
            } else {
                0
            }) + r.time_ms
            &&& after[j].solves == (if i >= 0 {
                rows[i].solves as int
            } else {
                0
            }) + (if r.solved {
                1int
            } else {
                0
            })
        }),
        name != r.name@ ==> row_of(record_rows(rows, r, max_clips), name) == row_of(rows, name),
        name != r.name@ && row_of(rows, name) >= 0 ==> record_rows(rows, r, max_clips)[row_of(
            rows,
            name,
        )] == rows[row_of(rows, name)],
{
    let after = record_rows(rows, r, max_clips);
    let i = row_of(rows, r.name@);
    lemma_row_of(rows, r.name@);
    lemma_row_of(rows, name);
    if i >= 0 {
        assert forall|k: int| 0 <= k < after.len() implies (#[trigger] after[k]).name@
            == rows[k].name@ by {}
        lemma_row_of_by_names(after, rows, r.name@);
        lemma_row_of_by_names(after, rows, name);
    } else {
        assert(after.drop_last() =~= rows);
    }
}

/// Name order is transitive.
pub proof fn lemma_name_lt_transitive(a: Seq<char>, b: Seq<char>, c: Seq<char>)
    requires
        name_lt(a, b),
        name_lt(b, c),
    ensures
        name_lt(a, c),
    decreases a.len(),
{
    if a.len() > 0 && b.len() > 0 && c.len() > 0 && a[0] == b[0] && b[0] == c[0] {
        lemma_name_lt_transitive(a.drop_first(), b.drop_first(), c.drop_first());
    }
}

/// Name order is irreflexive.
pub proof fn lemma_name_lt_irreflexive(a: Seq<char>)
    ensures
        !name_lt(a, a),
    decreases a.len(),
{
    if a.len() > 0 {
        lemma_name_lt_irreflexive(a.drop_first());
    }
}

/// Two different names are ordered one way or the other.
pub proof fn lemma_name_lt_total(a: Seq<char>, b: Seq<char>)
    requires
        a != b,
    ensures
        name_lt(a, b) || name_lt(b, a),
    decreases a.len(),
{
    if a.len() > 0 && b.len() > 0 && a[0] == b[0] {
        if a.drop_first() == b.drop_first() {
            assert(a.drop_first().len() == b.drop_first().len());
            assert(a.len() == b.len());
            assert forall|i: int| 0 <= i < a.len() implies a[i] == b[i] by {
                if i > 0 {
                    assert(a[i] == a.drop_first()[i - 1]);
                    assert(b[i] == b.drop_first()[i - 1]);
                }
            }
            assert(a =~= b);
        } else {
            lemma_name_lt_total(a.drop_first(), b.drop_first());
        }
    } else if a.len() == 0 && b.len() == 0 {
        assert(a =~= b);
    }
}

/// Board order is a strict order.
pub proof fn lemma_ranks_before_strict(a: Standing, b: Standing, c: Standing)
    ensures
        !ranks_before(a, a),
        ranks_before(a, b) && ranks_before(b, c) ==> ranks_before(a, c),
{
    lemma_name_lt_irreflexive(a.name@);
    if ranks_before(a, b) && ranks_before(b, c) && a.points == b.points && b.points == c.points
        && a.time_ms == b.time_ms && b.time_ms == c.time_ms {
        lemma_name_lt_transitive(a.name@, b.name@, c.name@);
    }
}

fn name_less(a: &String, b: &String) -> (r: bool)
    ensures
        r == name_lt(a@, b@),
{
    let x = chars_of(a.as_str());
    let y = chars_of(b.as_str());
    let mut i: usize = 0;
    assert(x@.skip(0) =~= x@);
    assert(y@.skip(0) =~= y@);
    while i < x.len() && i < y.len()
        invariant
            i <= x.len(),
            i <= y.len(),
            name_lt(a@, b@) == name_lt(x@.skip(i as int), y@.skip(i as int)),
            x@ == a@,
            y@ == b@,
        decreases x.len() - i,
    {
        if x[i] != y[i] {
            return x[i] < y[i];
        }
        assert(x@.skip(i as int).drop_first() =~= x@.skip(i + 1));
        assert(y@.skip(i as int).drop_first() =~= y@.skip(i + 1));
        i = i + 1;
    }
    i == x.len() && i < y.len()
}

fn before(a: &Standing, b: &Standing) -> (r: bool)
    ensures
        r == ranks_before(*a, *b),
{
    a.points > b.points || (a.points == b.points && (a.time_ms < b.time_ms || (a.time_ms
        == b.time_ms && name_less(&a.name, &b.name))))
}

fn copy_standing(s: &Standing) -> (r: Standing)
    ensures
        r == *s,
{
    Standing { name: s.name.clone(), points: s.points, time_ms: s.time_ms, solves: s.solves }
}

fn find_row(entries: &Vec<Standing>, name: &String) -> (r: Option<usize>)
    ensures
        match r {
            Some(k) => row_of(entries@, name@) == k as int,
            None => row_of(entries@, name@) == -1,
        },
{
    let mut last: Option<usize> = None;
    let mut j: usize = 0;
    assert(entries@.take(0) =~= Seq::<Standing>::empty());
    while j < entries.len()
        invariant
            j <= entries.len(),
            match last {
                Some(k) => row_of(entries@.take(j as int), name@) == k as int,
                None => row_of(entries@.take(j as int), name@) == -1,
            },
        decreases entries.len() - j,
    {
        assert(entries@.take(j + 1).drop_last() =~= entries@.take(j as int));
        if entries[j].name == *name {
            last = Some(j);
        }
        j = j + 1;
    }
    assert(entries@.take(entries.len() as int) =~= entries@);
    last
}

impl Standings {
    /// The rows, in the order players first appeared.
    pub closed spec fn rows(&self) -> Seq<Standing> {
        self.entries@
    }

    /// No player has more than one row.
    pub closed spec fn wf(&self) -> bool {
        distinct_names(self.entries@)
    }

    /// No results yet.
    pub fn new() -> (r: Standings)
        ensures
            r.wf(),
            r.rows().len() == 0,
    {
        Standings { entries: Vec::new() }
    }

    /// Whether folding in `r` overflows none of the player's running totals.
    pub fn fits(&self, r: &RoundResult, max_clips: u32) -> (ok: bool)
        ensures
            ok == fits(self.rows(), *r, max_clips),
    {
        proof {
            lemma_row_of(self.entries@, r.name@);
        }
        match find_row(&self.entries, &r.name) {
            Some(k) => {
                let pts = result_score(r, max_clips);
                let row = &self.entries[k];
                row.points <= u32::MAX - pts && row.time_ms <= u64::MAX - r.time_ms as u64
                    && row.solves < u32::MAX
            },
            None => true,
        }
    }

    /// Fold one result into the player's running totals.
    fn record(&mut self, r: &RoundResult, max_clips: u32)
        requires
            old(self).wf(),
            fits(old(self).rows(), *r, max_clips),
        ensures
            final(self).wf(),
            final(self).rows() == record_rows(old(self).rows(), *r, max_clips),
    {
        proof {
            lemma_row_of(self.entries@, r.name@);
        }
        let pts = result_score(r, max_clips);
        let solve: u32 = if r.solved {
            1
        } else {
            0
        };
        match find_row(&self.entries, &r.name) {
            Some(k) => {
            proof {
                lemma_row_of(self.entries@, r.name@);
            }
            let old_row = copy_standing(&self.entries[k]);
            let row = Standing {
                name: old_row.name,
                points: old_row.points + pts,
                time_ms: old_row.time_ms + r.time_ms as u64,
                solves: old_row.solves + solve,
            };
            let ghost before = self.entries@;
            self.entries.set(k, row);
            assert forall|a: int, b: int|
                0 <= a < b < self.entries@.len() implies (#[trigger] self.entries@[a]).name@
                != (#[trigger] self.entries@[b]).name@ by {
                assert(before[a].name@ != before[b].name@);
            }
            },
            None => {
            proof {
                lemma_row_of(self.entries@, r.name@);
            }
            let ghost before = self.entries@;
            self.entries.push(
                Standing {
                    name: r.name.clone(),
                    points: pts,
                    time_ms: r.time_ms as u64,
                    solves: solve,
                },
            );
            assert forall|a: int, b: int|
                0 <= a < b < self.entries@.len() implies (#[trigger] self.entries@[a]).name@
                != (#[trigger] self.entries@[b]).name@ by {
                if b < before.len() {
                    assert(before[a].name@ != before[b].name@);
                }
            }
            },
        }
    }

    /// The rows of well-formed standings name each player once.
    pub proof fn lemma_rows_distinct(&self)
        requires
            self.wf(),
        ensures
            distinct_names(self.rows()),
    {
    }

    /// Best first: most points, then least total time, then name. With one
    /// row per player the board is strictly ordered, so it depends on the
    /// rows alone, never on the order in which they were recorded.
    pub fn ranked(&self) -> (r: Vec<Standing>)
        ensures
            r@.to_multiset() == self.rows().to_multiset(),
            in_board_order(r@),
            self.wf() ==> distinct_names(r@),
            self.wf() ==> in_strict_board_order(r@),
    {
        let mut out: Vec<Standing> = Vec::new();
        let mut i: usize = 0;
        while i < self.entries.len()
            invariant
                i <= self.entries.len(),
                out@.to_multiset() == self.entries@.take(i as int).to_multiset(),
                in_board_order(out@),
                self.wf() ==> distinct_names(out@),
                self.wf() ==> forall|q: int|
                    #![trigger out@[q]]
                    0 <= q < out@.len() ==> exists|k: int|
                        0 <= k < i && #[trigger] self.entries@[k].name@ == out@[q].name@,
            decreases self.entries.len() - i,
        {
            let x = copy_standing(&self.entries[i]);
            let mut p: usize = 0;
            while p < out.len() && !before(&x, &out[p])
                invariant
                    p <= out.len(),
                    forall|q: int| 0 <= q < p ==> !ranks_before(x, #[trigger] out@[q]),
                decreases out.len() - p,
            {
                p = p + 1;
            }
            let ghost old_out = out@;
            proof {
                old_out.insert_ensures(p as int, x);
            }
            out.insert(p, x);
            assert forall|a: int, b: int| 0 <= a < b < out@.len() implies !ranks_before(
                #[trigger] out@[b],
                #[trigger] out@[a],
            ) by {
                if b < p as int {
                } else if a < p as int && b == p as int {
                } else if a < p as int && b > p as int {
                    assert(out@[b] == old_out[b - 1]);
                } else if a == p as int {
                    assert(out@[b] == old_out[b - 1]);
                    assert(p < old_out.len());
                    assert(ranks_before(x, old_out[p as int]));
                    if b - 1 > p as int {
                        assert(!ranks_before(old_out[b - 1], old_out[p as int]));
                    }
                    lemma_ranks_before_strict(old_out[b - 1], x, old_out[p as int]);
                    lemma_ranks_before_strict(old_out[p as int], x, old_out[p as int]);
                } else {
                    assert(out@[b] == old_out[b - 1]);
                    assert(out@[a] == old_out[a - 1]);
                }
            }
            proof {
                if self.wf() {
                    assert forall|q: int|
                        #![trigger out@[q]]
                        0 <= q < out@.len() implies exists|k: int|
                            0 <= k < i + 1 && #[trigger] self.entries@[k].name@ == out@[q].name@ by {
                        if q < p as int {
                            assert(out@[q] == old_out[q]);
                            let k = choose|k: int|
                                0 <= k < i && #[trigger] self.entries@[k].name@ == old_out[q].name@;
                            assert(self.entries@[k].name@ == out@[q].name@);
                        } else if q == p as int {
                            assert(self.entries@[i as int].name@ == out@[q].name@);
                        } else {
                            assert(out@[q] == old_out[q - 1]);
                            let k = choose|k: int|
                                0 <= k < i && #[trigger] self.entries@[k].name@ == old_out[q
                                    - 1].name@;
                            assert(self.entries@[k].name@ == out@[q].name@);
                        }
                    }
                    assert forall|a: int, b: int|
                        0 <= a < b < out@.len() implies (#[trigger] out@[a]).name@
                        != (#[trigger] out@[b]).name@ by {
                        if a != p as int && b != p as int {
                            let a0 = if a < p as int { a } else { a - 1 };
                            let b0 = if b < p as int { b } else { b - 1 };
                            assert(out@[a] == old_out[a0]);
                            assert(out@[b] == old_out[b0]);
                            assert(old_out[a0].name@ != old_out[b0].name@);
                        } else {
                            let m = if a == p as int { b } else { a };
                            let m0 = if m < p as int { m } else { m - 1 };
                            assert(out@[m] == old_out[m0]);
                            let k = choose|k: int|
                                0 <= k < i && #[trigger] self.entries@[k].name@ == old_out[m0].name@;
                            assert(self.entries@[k].name@ != self.entries@[i as int].name@);
                        }
                    }
                }
            }
            assert(self.entries@.take(i + 1) =~= self.entries@.take(i as int).push(
                self.entries@[i as int],
            ));
            i = i + 1;
        }
        assert(self.entries@.take(self.entries.len() as int) =~= self.entries@);
        proof {
            if self.wf() {
                assert forall|a: int, b: int| 0 <= a < b < out@.len() implies ranks_before(
                    #[trigger] out@[a],
                    #[trigger] out@[b],
                ) by {
                    assert(!ranks_before(out@[b], out@[a]));
                    assert(out@[a].name@ != out@[b].name@);
                    lemma_name_lt_total(out@[a].name@, out@[b].name@);
                }
            }
        }
        out
    }
}

impl Default for Standings {
    fn default() -> (r: Standings)
        ensures
            r.wf(),
            r.rows().len() == 0,
    {
        Standings::new()
    }
}


/// The shared game state each client maintains from the broadcast stream.
pub struct Game {
    pub rounds: u32,
    pub max_clips: u32,
    /// Current round (1-based); 0 before the first `round_start`.
    pub round: u32,
    pub standings: Standings,
    /// Names that have submitted a result for the current round.
    pub submitted: Vec<String>,
}

fn contains_name(names: &Vec<String>, name: &String) -> (r: bool)
    ensures
        r == exists|k: int| 0 <= k < names@.len() && #[trigger] names@[k]@ == name@,
{
    let mut i: usize = 0;
    while i < names.len()
        invariant
            i <= names.len(),
            forall|k: int| 0 <= k < i ==> #[trigger] names@[k]@ != name@,
        decreases names.len() - i,
    {
        if names[i] == *name {
            return true;
        }
        i = i + 1;
    }
    false
}

impl Game {
    /// The names that have submitted a result for the current round.
    pub open spec fn submitted_names(&self) -> Seq<Seq<char>> {
        self.submitted@.map_values(|n: String| n@)
    }

    /// A fresh game of `rounds` rounds, each with `max_clips` clips (both at
    /// least one).
    pub fn new(rounds: u32, max_clips: u32) -> (r: Game)
        ensures
            r.rounds == (if rounds >= 1 { rounds } else { 1 }),
            r.max_clips == (if max_clips >= 1 { max_clips } else { 1 }),
            r.round == 0,
            r.standings.wf(),
            r.standings.rows().len() == 0,
            r.submitted_names().len() == 0,
    {
        let g = Game {
            rounds: if rounds >= 1 {
                rounds
            } else {
                1
            },
            max_clips: if max_clips >= 1 {
                max_clips
            } else {
                1
            },
            round: 0,
            standings: Standings::new(),
            submitted: Vec::new(),
        };
        assert(g.submitted_names() =~= Seq::<Seq<char>>::empty());
        g
    }

    /// Begin round `round`: nobody has submitted for it yet.
    pub fn start_round(&mut self, round: u32)
        ensures
            final(self).round == round,
            final(self).submitted_names().len() == 0,
            final(self).rounds == old(self).rounds,
            final(self).max_clips == old(self).max_clips,
            final(self).standings == old(self).standings,
    {
        self.round = round;
        self.submitted.clear();
        assert(self.submitted_names() =~= Seq::<Seq<char>>::empty());
    }

    /// Record a result for the current round. Returns true if it was new: a
    /// result for another round, or a second one from the same player, is
    /// ignored.
    pub fn on_result(&mut self, r: &RoundResult) -> (accepted: bool)
        requires
            old(self).standings.wf(),
            (r.round == old(self).round && !old(self).submitted_names().contains(r.name@)) ==> fits(
                old(self).standings.rows(),
                *r,
                old(self).max_clips,
            ),
        ensures
            final(self).standings.wf(),
            accepted == (r.round == old(self).round && !old(self).submitted_names().contains(
                r.name@,
            )),
            accepted ==> {
                &&& final(self).submitted_names() == old(self).submitted_names().push(r.name@)
                &&& final(self).standings.rows() == record_rows(
                    old(self).standings.rows(),
                    *r,
                    old(self).max_clips,
                )
            },
            !accepted ==> {
                &&& final(self).submitted_names() == old(self).submitted_names()
                &&& final(self).standings == old(self).standings
            },
            final(self).submitted_names().contains(r.name@) || r.round != old(self).round,
            final(self).round == old(self).round,
            final(self).rounds == old(self).rounds,
            final(self).max_clips == old(self).max_clips,
    {
        let ghost names = self.submitted_names();
        if r.round != self.round {
            return false;
        }
        let dup = contains_name(&self.submitted, &r.name);
        assert(dup == names.contains(r.name@)) by {
            if dup {
                let k = choose|k: int| 0 <= k < self.submitted@.len() && #[trigger] self.submitted@[k]@ == r.name@;
                assert(names[k] == r.name@);
            }
            if names.contains(r.name@) {
                let k = choose|k: int| 0 <= k < names.len() && names[k] == r.name@;
                assert(self.submitted@[k]@ == r.name@);
            }
        }
        if dup {
            return false;
        }
        self.submitted.push(r.name.clone());
        assert(self.submitted_names() =~= names.push(r.name@));
        assert(self.submitted_names()[names.len() as int] == r.name@);
        self.standings.record(r, self.max_clips);
        true
    }

    /// Has `name` submitted a result for the current round?
    pub fn has_submitted(&self, name: &String) -> (r: bool)
        ensures
            r == self.submitted_names().contains(name@),
    {
        let found = contains_name(&self.submitted, name);
        proof {
            let names = self.submitted_names();
            if found {
                let k = choose|k: int| 0 <= k < self.submitted@.len() && #[trigger] self.submitted@[k]@ == name@;
                assert(names[k] == name@);
            }
            if names.contains(name@) {
                let k = choose|k: int| 0 <= k < names.len() && names[k] == name@;
                assert(self.submitted@[k]@ == name@);
            }
        }
        found
    }

    /// Have all `player_count` players submitted for the current round?
    pub fn round_complete(&self, player_count: usize) -> (r: bool)
        ensures
            r == (self.submitted_names().len() >= player_count),
    {
        self.submitted.len() >= player_count
    }

    /// How many players have submitted a result for the current round.
    pub fn submitted_count(&self) -> (r: usize)
        ensures
            r == self.submitted_names().len(),
    {
        self.submitted.len()
    }

    /// Is the current round the last one?
    pub fn is_final_round(&self) -> (r: bool)
        ensures
            r == (self.round >= self.rounds),
    {
        self.round >= self.rounds
    }
}

/// Fewer clips, more points: an unsolved round earns nothing; a solve earns at
/// least one point, exactly `max_clips - clips + 1` for clips `1..=max_clips`,
/// and never more for a later clip than for an earlier one.
pub proof fn lemma_points_reward_fewer_clips(c1: u32, c2: u32, max_clips: u32)
    requires
        1 <= c1 <= c2,
    ensures
        points_for(false, c1, max_clips) == 0,
        points_for(true, c1, max_clips) >= 1,
        max_clips >= 1 ==> points_for(true, c1, max_clips) <= max_clips,
        c1 <= max_clips ==> points_for(true, c1, max_clips) == max_clips - c1 + 1,
        points_for(true, c2, max_clips) <= points_for(true, c1, max_clips),
{
}

/// Solo scoring and lobby scoring agree: solving a round at its current level
/// earns the round's solve value on either scale, and a round's own result
/// (solved at its level, or not; with its right-artist consolation) scores on
/// the board what the round awards solo.
pub proof fn lemma_solo_and_lobby_agree(r: crate::game::Round, res: RoundResult)
    requires
        r.wf(),
        r.levels() <= u32::MAX,
        res.solved == (r.outcome == crate::game::Outcome::Won),
        res.clips == if res.solved {
            (r.level + 1) as u32
        } else {
            r.levels() as u32
        },
        res.artist_bonus == r.artist_bonus,
    ensures
        points_for(true, (r.level + 1) as u32, r.levels() as u32) == r.value(),
        result_points(res, r.levels() as u32) == crate::game::awarded(r),
{
}

/// A player's later result in the same round never counts twice: once a
/// result is accepted, the same name is refused until the next round starts.
pub proof fn lemma_one_result_per_round(g: Game, r: RoundResult)
    requires
        g.submitted_names().contains(r.name@),
    ensures
        !(r.round == g.round && !g.submitted_names().contains(r.name@)),
{
}

} // verus!
