//! The lobby channel's roster: who is present, kept in presence-key order as
//! the channel's presence state and presence diff messages arrive.

use vstd::prelude::*;

use crate::lobby::{lemma_name_lt_irreflexive, lemma_name_lt_total, lemma_name_lt_transitive, name_lt};
use crate::session::control::LobbyEvent;
use crate::session::lobby_flow::{PresenceEntry, RtEvent};
use crate::text::{chars_of, seq_eq};

verus! {

/// Whether key `a` comes before key `b` (keys order as names do: character
/// by character, a proper prefix first).
fn key_before(a: &Vec<char>, b: &Vec<char>) -> (r: bool)
    ensures
        r == name_lt(a@, b@),
{
    let mut i: usize = 0;
    assert(a@.skip(0) =~= a@);
    assert(b@.skip(0) =~= b@);
    while i < a.len() && i < b.len() && a[i] == b[i]
        invariant
            i <= a.len(),
            i <= b.len(),
            name_lt(a@, b@) == name_lt(a@.skip(i as int), b@.skip(i as int)),
        decreases a.len() - i,
    {
        assert(a@.skip(i as int).drop_first() =~= a@.skip(i + 1));
        assert(b@.skip(i as int).drop_first() =~= b@.skip(i + 1));
        i = i + 1;
    }
    if i == b.len() {
        false
    } else if i == a.len() {
        true
    } else {
        assert(a@.skip(i as int)[0] == a@[i as int]);
        assert(b@.skip(i as int)[0] == b@[i as int]);
        a[i] < b[i]
    }
}

/// A member of the roster: its presence key, name, and whether it spectates.
pub struct RosterMember {
    pub key: String,
    pub name: String,
    pub spectating: bool,
}

/// A roster member by its key, name and spectating flag.
pub open spec fn member_view(m: RosterMember) -> (Seq<char>, Seq<char>, bool) {
    (m.key@, m.name@, m.spectating)
}

/// Who is on the lobby channel, one member per presence key, in key order.
pub struct Roster {
    pub members: Vec<RosterMember>,
}

impl View for Roster {
    type V = Seq<(Seq<char>, Seq<char>, bool)>;

    open spec fn view(&self) -> Seq<(Seq<char>, Seq<char>, bool)> {
        self.members@.map_values(|m: RosterMember| member_view(m))
    }
}

/// The keys of `s` strictly increase.
pub open spec fn keys_sorted(s: Seq<(Seq<char>, Seq<char>, bool)>) -> bool {
    forall|i: int, j: int| 0 <= i < j < s.len() ==> name_lt(#[trigger] s[i].0, #[trigger] s[j].0)
}

/// How many leading entries of `s` have a key before `k`.
pub open spec fn below(s: Seq<(Seq<char>, Seq<char>, bool)>, k: Seq<char>) -> nat
    decreases s.len(),
{
    if s.len() > 0 && name_lt(s[0].0, k) {
        1 + below(s.drop_first(), k)
    } else {
        0
    }
}

/// `s` with key `k` mapped to `name` and `spectating`: the entry of key `k`
/// replaced, or a new entry placed before the first later key.
pub open spec fn with_member(
    s: Seq<(Seq<char>, Seq<char>, bool)>,
    k: Seq<char>,
    name: Seq<char>,
    spectating: bool,
) -> Seq<(Seq<char>, Seq<char>, bool)> {
    let p = below(s, k) as int;
    if p < s.len() && s[p].0 == k {
        s.update(p, (k, name, spectating))
    } else {
        s.insert(p, (k, name, spectating))
    }
}

/// `s` without the entry of key `k`.
pub open spec fn without_member(s: Seq<(Seq<char>, Seq<char>, bool)>, k: Seq<char>) -> Seq<
    (Seq<char>, Seq<char>, bool),
> {
    let p = below(s, k) as int;
    if p < s.len() && s[p].0 == k {
        s.remove(p)
    } else {
        s
    }
}

/// A presence entry as the channel reports it: its key, the `name` of its
/// newest meta (none where that is missing or not a string), and whether that
/// meta marks it spectating.
pub struct PresenceJoin {
    pub key: String,
    pub name: Option<String>,
    pub spectating: bool,
}

/// One meta of a presence entry as the channel sends it: its `name` (none
/// where missing or not a string) and its `spectating` flag (none where
/// missing or not a boolean).
pub struct PresenceMeta {
    pub name: Option<String>,
    pub spectating: Option<bool>,
}

/// The entry reported under `key` with the metas `metas` (oldest first): the
/// newest meta gives the name and whether the member spectates (not
/// spectating when unsaid); with no meta there is no name.
pub open spec fn join_of_metas(key: Seq<char>, metas: Seq<PresenceMeta>) -> (
    Seq<char>,
    Option<Seq<char>>,
    bool,
) {
    if metas.len() == 0 {
        (key, None, false)
    } else {
        let m = metas.last();
        (
            key,
            match m.name {
                Some(n) => Some(n@),
                None => None,
            },
            m.spectating == Some(true),
        )
    }
}

impl PresenceJoin {
    /// The entry reported under `key` with the metas `metas`, oldest first
    /// (see `join_of_metas`).
    pub fn from_metas(key: String, metas: Vec<PresenceMeta>) -> (r: PresenceJoin)
        ensures
            join_view(r) == join_of_metas(key@, metas@),
    {
        let mut metas = metas;
        match metas.pop() {
            Some(m) => {
                let spectating = match m.spectating {
                    Some(b) => b,
                    None => false,
                };
                PresenceJoin { key, name: m.name, spectating }
            },
            None => PresenceJoin { key, name: None, spectating: false },
        }
    }
}

/// A reported presence entry by its key, name and spectating flag.
pub open spec fn join_view(j: PresenceJoin) -> (Seq<char>, Option<Seq<char>>, bool) {
    (
        j.key@,
        match j.name {
            Some(n) => Some(n@),
            None => None,
        },
        j.spectating,
    )
}

/// `s` after the reported entries `js` in order: each one that names a
/// player is recorded under its key; the others are passed over.
pub open spec fn with_joins(
    s: Seq<(Seq<char>, Seq<char>, bool)>,
    js: Seq<(Seq<char>, Option<Seq<char>>, bool)>,
) -> Seq<(Seq<char>, Seq<char>, bool)>
    decreases js.len(),
{
    if js.len() == 0 {
        s
    } else {
        let t = with_joins(s, js.drop_last());
        let j = js.last();
        match j.1 {
            Some(n) => with_member(t, j.0, n, j.2),
            None => t,
        }
    }
}

/// `s` without the entries of the keys `ks`.
pub open spec fn without_keys(s: Seq<(Seq<char>, Seq<char>, bool)>, ks: Seq<Seq<char>>) -> Seq<
    (Seq<char>, Seq<char>, bool),
>
    decreases ks.len(),
{
    if ks.len() == 0 {
        s
    } else {
        without_member(without_keys(s, ks.drop_last()), ks.last())
    }
}

/// A message of the lobby channel, as far as the roster is concerned.
pub enum ChannelMessage {
    /// The whole presence state.
    PresenceState(Vec<PresenceJoin>),
    /// Who left (by key) and who joined (reported entries): the leaves are
    /// applied first, so a member that re-tracks keeps its key under the new name.
    PresenceDiff { joins: Vec<PresenceJoin>, leaves: Vec<String> },
    /// A game event.
    Broadcast(LobbyEvent),
}

/// A lobby member as the session sees it: its name and spectating flag.
pub open spec fn entry_view(e: PresenceEntry) -> (Seq<char>, bool) {
    (e.name@, e.spectating)
}

/// The session's view of roster entries `s`, in order.
pub open spec fn entries_of(s: Seq<(Seq<char>, Seq<char>, bool)>) -> Seq<(Seq<char>, bool)> {
    s.map_values(|m: (Seq<char>, Seq<char>, bool)| (m.1, m.2))
}

/// The number of leading entries below `k` is `p` when exactly the first `p`
/// keys come before `k`.
proof fn lemma_below_is(s: Seq<(Seq<char>, Seq<char>, bool)>, k: Seq<char>, p: int)
    requires
        0 <= p <= s.len(),
        forall|i: int| 0 <= i < p ==> name_lt(#[trigger] s[i].0, k),
        p < s.len() ==> !name_lt(s[p].0, k),
    ensures
        below(s, k) == p,
    decreases p,
{
    if p > 0 {
        assert(name_lt(s[0].0, k));
        let t = s.drop_first();
        assert forall|i: int| 0 <= i < p - 1 implies name_lt(#[trigger] t[i].0, k) by {
            assert(t[i] == s[i + 1]);
        }
        if p - 1 < t.len() {
            assert(t[p - 1] == s[p]);
        }
        lemma_below_is(t, k, p - 1);
    }
}

/// In a sorted roster, the keys before position `below(s, k)` come before
/// `k`, and the key at that position, if any, does not.
proof fn lemma_below_splits(s: Seq<(Seq<char>, Seq<char>, bool)>, k: Seq<char>)
    requires
        keys_sorted(s),
    ensures
        below(s, k) <= s.len(),
        forall|i: int| 0 <= i < below(s, k) ==> name_lt(#[trigger] s[i].0, k),
        below(s, k) < s.len() ==> !name_lt(s[below(s, k) as int].0, k),
        forall|i: int| below(s, k) <= i < s.len() ==> !name_lt(#[trigger] s[i].0, k),
    decreases s.len(),
{
    if s.len() > 0 && name_lt(s[0].0, k) {
        let t = s.drop_first();
        assert forall|i: int, j: int| 0 <= i < j < t.len() implies name_lt(
            #[trigger] t[i].0,
            #[trigger] t[j].0,
        ) by {
            assert(t[i] == s[i + 1] && t[j] == s[j + 1]);
        }
        lemma_below_splits(t, k);
        assert forall|i: int| 0 <= i < below(s, k) implies name_lt(#[trigger] s[i].0, k) by {
            if i > 0 {
                assert(s[i] == t[i - 1]);
            }
        }
        assert forall|i: int| below(s, k) <= i < s.len() implies !name_lt(#[trigger] s[i].0, k) by {
            assert(s[i] == t[i - 1]);
        }
    } else if s.len() > 0 {
        assert forall|i: int| 0 <= i < s.len() implies !name_lt(#[trigger] s[i].0, k) by {
            if i > 0 && name_lt(s[i].0, k) {
                lemma_name_lt_transitive(s[0].0, s[i].0, k);
            }
        }
    }
}

/// Recording a member keeps the keys sorted.
pub proof fn lemma_with_member_sorted(
    s: Seq<(Seq<char>, Seq<char>, bool)>,
    k: Seq<char>,
    name: Seq<char>,
    spectating: bool,
)
    requires
        keys_sorted(s),
    ensures
        keys_sorted(with_member(s, k, name, spectating)),
{
    lemma_below_splits(s, k);
    let p = below(s, k) as int;
    let t = with_member(s, k, name, spectating);
    if p < s.len() && s[p].0 == k {
        assert forall|i: int, j: int| 0 <= i < j < t.len() implies name_lt(
            #[trigger] t[i].0,
            #[trigger] t[j].0,
        ) by {
            assert(t[i].0 == s[i].0 && t[j].0 == s[j].0);
        }
    } else {
        if p < s.len() {
            lemma_name_lt_total(s[p].0, k);
        }
        assert forall|i: int, j: int| 0 <= i < j < t.len() implies name_lt(
            #[trigger] t[i].0,
            #[trigger] t[j].0,
        ) by {
            if j < p {
                assert(t[i] == s[i] && t[j] == s[j]);
            } else if j == p {
                assert(t[i] == s[i]);
            } else if i == p {
                assert(t[j] == s[j - 1]);
                if j - 1 > p {
                    lemma_name_lt_transitive(k, s[p].0, s[j - 1].0);
                }
            } else if i < p {
                assert(t[i] == s[i] && t[j] == s[j - 1]);
                if j - 1 >= p {
                    assert(name_lt(s[i].0, k));
                    if j - 1 > p {
                        lemma_name_lt_transitive(k, s[p].0, s[j - 1].0);
                    }
                    lemma_name_lt_transitive(s[i].0, k, s[j - 1].0);
                }
            } else {
                assert(t[i] == s[i - 1] && t[j] == s[j - 1]);
            }
        }
    }
}

/// Removing a member keeps the keys sorted.
pub proof fn lemma_without_member_sorted(s: Seq<(Seq<char>, Seq<char>, bool)>, k: Seq<char>)
    requires
        keys_sorted(s),
    ensures
        keys_sorted(without_member(s, k)),
{
    let p = below(s, k) as int;
    let t = without_member(s, k);
    if p < s.len() && s[p].0 == k {
        assert forall|i: int, j: int| 0 <= i < j < t.len() implies name_lt(
            #[trigger] t[i].0,
            #[trigger] t[j].0,
        ) by {
            let a = if i < p { i } else { i + 1 };
            let b = if j < p { j } else { j + 1 };
            assert(t[i] == s[a] && t[j] == s[b]);
        }
    }
}

/// What a roster holds under key `k`: the name and spectating flag of an
/// entry of that key, if there is one.
pub open spec fn lookup(s: Seq<(Seq<char>, Seq<char>, bool)>, k: Seq<char>) -> Option<
    (Seq<char>, bool),
> {
    if exists|i: int| 0 <= i < s.len() && #[trigger] s[i].0 == k {
        let i = choose|i: int| 0 <= i < s.len() && #[trigger] s[i].0 == k;
        Some((s[i].1, s[i].2))
    } else {
        None
    }
}

/// In a sorted roster, an entry's key finds that entry.
proof fn lemma_lookup_at(s: Seq<(Seq<char>, Seq<char>, bool)>, i: int)
    requires
        keys_sorted(s),
        0 <= i < s.len(),
    ensures
        lookup(s, s[i].0) == Some((s[i].1, s[i].2)),
{
    let k = s[i].0;
    assert(0 <= i < s.len() && s[i].0 == k);
    assert(exists|c: int| 0 <= c < s.len() && #[trigger] s[c].0 == k);
    let c = choose|c: int| 0 <= c < s.len() && #[trigger] s[c].0 == k;
    lemma_name_lt_irreflexive(k);
    if c < i {
        assert(name_lt(s[c].0, s[i].0));
    } else if c > i {
        assert(name_lt(s[i].0, s[c].0));
    }
    assert(c == i);
    assert(lookup(s, k) == Some((s[c].1, s[c].2)));
}

/// After recording `k` as (`name`, `spectating`), looking up `k` gives that,
/// and every other key gives what it gave before.
pub proof fn lemma_lookup_with_member(
    s: Seq<(Seq<char>, Seq<char>, bool)>,
    k: Seq<char>,
    name: Seq<char>,
    spectating: bool,
    q: Seq<char>,
)
    requires
        keys_sorted(s),
    ensures
        lookup(with_member(s, k, name, spectating), q) == if q == k {
            Some((name, spectating))
        } else {
            lookup(s, q)
        },
{
    lemma_below_splits(s, k);
    lemma_with_member_sorted(s, k, name, spectating);
    let p = below(s, k) as int;
    let t = with_member(s, k, name, spectating);
    let found = p < s.len() && s[p].0 == k;
    if q == k {
        assert(t[p].0 == k);
        lemma_lookup_at(t, p);
    } else {
        if exists|i: int| 0 <= i < s.len() && #[trigger] s[i].0 == q {
            let i = choose|i: int| 0 <= i < s.len() && #[trigger] s[i].0 == q;
            lemma_lookup_at(s, i);
            let j = if found || i < p { i } else { i + 1 };
            assert(t[j] == s[i]);
            lemma_lookup_at(t, j);
        } else {
            assert forall|j: int| 0 <= j < t.len() implies #[trigger] t[j].0 != q by {
                if j == p {
                    assert(t[j].0 == k);
                } else {
                    let i = if found || j < p { j } else { j - 1 };
                    assert(t[j] == s[i]);
                    assert(!(0 <= i < s.len() && s[i].0 == q));
                }
            }
            assert(!exists|j: int| 0 <= j < t.len() && #[trigger] t[j].0 == q);
        }
    }
}

/// After removing `k`, looking up `k` gives nothing, and every other key
/// gives what it gave before.
pub proof fn lemma_lookup_without_member(
    s: Seq<(Seq<char>, Seq<char>, bool)>,
    k: Seq<char>,
    q: Seq<char>,
)
    requires
        keys_sorted(s),
    ensures
        lookup(without_member(s, k), q) == if q == k {
            None
        } else {
            lookup(s, q)
        },
{
    lemma_below_splits(s, k);
    lemma_without_member_sorted(s, k);
    let p = below(s, k) as int;
    let t = without_member(s, k);
    let found = p < s.len() && s[p].0 == k;
    if !found {
        if q == k {
            assert(t == s);
            assert forall|j: int| 0 <= j < t.len() implies #[trigger] t[j].0 != q by {
                lemma_name_lt_irreflexive(k);
                if j < p {
                    assert(name_lt(s[j].0, k));
                } else if j > p {
                    lemma_name_lt_total(s[p].0, k);
                    assert(name_lt(s[p].0, s[j].0));
                    lemma_name_lt_transitive(k, s[p].0, s[j].0);
                }
            }
        }
    } else {
        if q == k {
            assert forall|j: int| 0 <= j < t.len() implies #[trigger] t[j].0 != q by {
                let i = if j < p { j } else { j + 1 };
                assert(t[j] == s[i]);
                if t[j].0 == k {
                    lemma_name_lt_irreflexive(k);
                }
            }
        } else if exists|i: int| 0 <= i < s.len() && #[trigger] s[i].0 == q {
            let i = choose|i: int| 0 <= i < s.len() && #[trigger] s[i].0 == q;
            lemma_lookup_at(s, i);
            let j = if i < p { i } else { i - 1 };
            assert(t[j] == s[i]);
            lemma_lookup_at(t, j);
        } else {
            assert forall|j: int| 0 <= j < t.len() implies #[trigger] t[j].0 != q by {
                let i = if j < p { j } else { j + 1 };
                assert(t[j] == s[i]);
            }
        }
    }
}

/// What the last entry of `js` reported under key `q` with a player's name
/// says (name and spectating flag), if any does.
pub open spec fn last_named(js: Seq<(Seq<char>, Option<Seq<char>>, bool)>, q: Seq<char>) -> Option<
    (Seq<char>, bool),
>
    decreases js.len(),
{
    if js.len() == 0 {
        None
    } else {
        let j = js.last();
        match j.1 {
            Some(n) => if j.0 == q {
                Some((n, j.2))
            } else {
                last_named(js.drop_last(), q)
            },
            None => last_named(js.drop_last(), q),
        }
    }
}

/// After the reported entries `js`, the roster stays sorted, and each key
/// holds what the last entry naming a player under it says, or else what it
/// held before.
pub proof fn lemma_lookup_with_joins(
    s: Seq<(Seq<char>, Seq<char>, bool)>,
    js: Seq<(Seq<char>, Option<Seq<char>>, bool)>,
    q: Seq<char>,
)
    requires
        keys_sorted(s),
    ensures
        keys_sorted(with_joins(s, js)),
        lookup(with_joins(s, js), q) == match last_named(js, q) {
            Some(v) => Some(v),
            None => lookup(s, q),
        },
    decreases js.len(),
{
    if js.len() > 0 {
        let t = with_joins(s, js.drop_last());
        lemma_lookup_with_joins(s, js.drop_last(), q);
        let j = js.last();
        match j.1 {
            Some(n) => {
                lemma_with_member_sorted(t, j.0, n, j.2);
                lemma_lookup_with_member(t, j.0, n, j.2, q);
            },
            None => {},
        }
    }
}

/// After dropping the keys `ks`, the roster stays sorted, those keys hold
/// nothing, and every other key holds what it held before.
pub proof fn lemma_lookup_without_keys(
    s: Seq<(Seq<char>, Seq<char>, bool)>,
    ks: Seq<Seq<char>>,
    q: Seq<char>,
)
    requires
        keys_sorted(s),
    ensures
        keys_sorted(without_keys(s, ks)),
        lookup(without_keys(s, ks), q) == if ks.contains(q) {
            None
        } else {
            lookup(s, q)
        },
    decreases ks.len(),
{
    if ks.len() > 0 {
        let t = without_keys(s, ks.drop_last());
        lemma_lookup_without_keys(s, ks.drop_last(), q);
        lemma_without_member_sorted(t, ks.last());
        lemma_lookup_without_member(t, ks.last(), q);
        if ks.contains(q) && ks.last() != q {
            let i = choose|i: int| 0 <= i < ks.len() && ks[i] == q;
            assert(ks.drop_last()[i] == q);
        }
        if ks.drop_last().contains(q) {
            let i = choose|i: int| 0 <= i < ks.drop_last().len() && ks.drop_last()[i] == q;
            assert(ks[i] == q);
        }
        if ks.last() == q {
            assert(ks[ks.len() - 1] == q);
        }
    }
}

/// After a presence diff (the keys `ks` leave, then the entries `js` join),
/// the roster stays sorted and each key holds what the last entry naming a
/// player under it says; a key that no join names is gone if it left, and
/// otherwise holds what it held before. So a member that leaves and joins in
/// one diff stays, under its new name.
pub proof fn lemma_lookup_after_diff(
    s: Seq<(Seq<char>, Seq<char>, bool)>,
    ks: Seq<Seq<char>>,
    js: Seq<(Seq<char>, Option<Seq<char>>, bool)>,
    q: Seq<char>,
)
    requires
        keys_sorted(s),
    ensures
        keys_sorted(with_joins(without_keys(s, ks), js)),
        lookup(with_joins(without_keys(s, ks), js), q) == match last_named(js, q) {
            Some(v) => Some(v),
            None => if ks.contains(q) {
                None
            } else {
                lookup(s, q)
            },
        },
{
    lemma_lookup_without_keys(s, ks, q);
    lemma_lookup_with_joins(without_keys(s, ks), js, q);
}

impl Roster {
    /// Whether the roster's keys strictly increase.
    pub open spec fn wf(&self) -> bool {
        keys_sorted(self@)
    }

    /// An empty roster.
    pub fn new() -> (r: Roster)
        ensures
            r@ == Seq::<(Seq<char>, Seq<char>, bool)>::empty(),
            r.wf(),
    {
        Roster { members: Vec::new() }
    }

    /// The position of the first member whose key does not come before `k`.
    fn position(&self, k: &Vec<char>) -> (p: usize)
        requires
            self.wf(),
        ensures
            p == below(self@, k@),
            p <= self@.len(),
    {
        proof {
            lemma_below_splits(self@, k@);
        }
        let mut p: usize = 0;
        while p < self.members.len() && key_before(&chars_of(self.members[p].key.as_str()), k)
            invariant
                p <= self.members.len(),
                self.wf(),
                below(self@, k@) <= self@.len(),
                forall|i: int| below(self@, k@) <= i < self@.len() ==> !name_lt(
                    #[trigger] self@[i].0,
                    k@,
                ),
                forall|i: int| 0 <= i < p ==> name_lt(#[trigger] self@[i].0, k@),
            decreases self.members.len() - p,
        {
            assert(self@[p as int].0 == self.members@[p as int].key@);
            p = p + 1;
        }
        if p < self.members.len() {
            assert(self@[p as int].0 == self.members@[p as int].key@);
        }
        proof {
            lemma_below_is(self@, k@, p as int);
        }
        p
    }

    /// Record `key` as a member named `name`, replacing any member of that key.
    pub fn record(&mut self, key: String, name: String, spectating: bool)
        requires
            old(self).wf(),
        ensures
            final(self)@ == with_member(old(self)@, key@, name@, spectating),
            final(self).wf(),
    {
        proof {
            lemma_with_member_sorted(self@, key@, name@, spectating);
        }
        let k = chars_of(key.as_str());
        let p = self.position(&k);
        let ghost s = self@;
        let ghost nm = name@;
        let same = if p < self.members.len() {
            let c = chars_of(self.members[p].key.as_str());
            seq_eq(&c, &k)
        } else {
            false
        };
        let m = RosterMember { key, name, spectating };
        assert(member_view(m) == (k@, nm, spectating));
        assert(same == (p < s.len() && s[p as int].0 == k@));
        if same {
            self.members.set(p, m);
        } else {
            self.members.insert(p, m);
        }
        assert(self@ =~= with_member(s, k@, nm, spectating));
    }

    /// Drop the member of key `key`, if there is one.
    pub fn forget(&mut self, key: &str)
        requires
            old(self).wf(),
        ensures
            final(self)@ == without_member(old(self)@, key@),
            final(self).wf(),
    {
        proof {
            lemma_without_member_sorted(self@, key@);
        }
        let k = chars_of(key);
        let p = self.position(&k);
        let ghost s = self@;
        if p < self.members.len() {
            let c = chars_of(self.members[p].key.as_str());
            if seq_eq(&c, &k) {
                self.members.remove(p);
            }
        }
        assert(self@ =~= without_member(s, k@));
    }

    /// Apply the reported entries `joins` in order.
    fn record_all(&mut self, joins: &Vec<PresenceJoin>)
        requires
            old(self).wf(),
        ensures
            final(self)@ == with_joins(old(self)@, joins@.map_values(|j: PresenceJoin| join_view(j))),
            final(self).wf(),
    {
        let ghost s0 = self@;
        let ghost js = joins@.map_values(|j: PresenceJoin| join_view(j));
        assert(js.take(0) =~= Seq::<(Seq<char>, Option<Seq<char>>, bool)>::empty());
        let mut i: usize = 0;
        while i < joins.len()
            invariant
                self.wf(),
                i <= joins.len(),
                js == joins@.map_values(|j: PresenceJoin| join_view(j)),
                self@ == with_joins(s0, js.take(i as int)),
            decreases joins.len() - i,
        {
            assert(js.take(i + 1).drop_last() =~= js.take(i as int));
            assert(js.take(i + 1).last() == join_view(joins@[i as int]));
            let j = &joins[i];
            match &j.name {
                Some(name) => self.record(j.key.clone(), name.clone(), j.spectating),
                None => {},
            }
            i = i + 1;
        }
        assert(js.take(joins.len() as int) =~= js);
    }

    /// Drop the members of the keys `leaves`, in order.
    fn forget_all(&mut self, leaves: &Vec<String>)
        requires
            old(self).wf(),
        ensures
            final(self)@ == without_keys(old(self)@, leaves@.map_values(|k: String| k@)),
            final(self).wf(),
    {
        let ghost s0 = self@;
        let ghost ks = leaves@.map_values(|k: String| k@);
        assert(ks.take(0) =~= Seq::<Seq<char>>::empty());
        let mut i: usize = 0;
        while i < leaves.len()
            invariant
                self.wf(),
                i <= leaves.len(),
                ks == leaves@.map_values(|k: String| k@),
                self@ == without_keys(s0, ks.take(i as int)),
            decreases leaves.len() - i,
        {
            assert(ks.take(i + 1).drop_last() =~= ks.take(i as int));
            self.forget(leaves[i].as_str());
            i = i + 1;
        }
        assert(ks.take(leaves.len() as int) =~= ks);
    }

    /// The members as the session sees them, in key order.
    pub fn entries(&self) -> (r: Vec<PresenceEntry>)
        ensures
            r@.map_values(|e: PresenceEntry| entry_view(e)) == entries_of(self@),
    {
        let mut r: Vec<PresenceEntry> = Vec::new();
        let mut i: usize = 0;
        while i < self.members.len()
            invariant
                i <= self.members.len(),
                r@.map_values(|e: PresenceEntry| entry_view(e)) =~= entries_of(self@).take(i as int),
            decreases self.members.len() - i,
        {
            let m = &self.members[i];
            r.push(PresenceEntry { name: m.name.clone(), spectating: m.spectating });
            proof {
                assert(entries_of(self@).take(i + 1) =~= entries_of(self@).take(i as int).push(
                    entries_of(self@)[i as int],
                ));
            }
            i = i + 1;
        }
        assert(entries_of(self@).take(self.members.len() as int) =~= entries_of(self@));
        r
    }

    /// Take in a channel message and say what the session is told: the new
    /// roster after a presence message, the game event of a broadcast.
    pub fn on_message(&mut self, msg: ChannelMessage) -> (evt: RtEvent)
        requires
            old(self).wf(),
        ensures
            final(self).wf(),
            match msg {
                ChannelMessage::PresenceState(joins) => final(self)@ == with_joins(
                    Seq::empty(),
                    joins@.map_values(|j: PresenceJoin| join_view(j)),
                ),
                ChannelMessage::PresenceDiff { joins, leaves } => final(self)@ == with_joins(
                    without_keys(old(self)@, leaves@.map_values(|k: String| k@)),
                    joins@.map_values(|j: PresenceJoin| join_view(j)),
                ),
                ChannelMessage::Broadcast(_) => final(self)@ == old(self)@,
            },
            match msg {
                ChannelMessage::Broadcast(e) => evt == RtEvent::Broadcast(e),
                _ => evt matches RtEvent::Presence(es) && es@.map_values(
                    |e: PresenceEntry| entry_view(e),
                ) == entries_of(final(self)@),
            },
    {
        match msg {
            ChannelMessage::PresenceState(joins) => {
                self.members = Vec::new();
                assert(self@ =~= Seq::<(Seq<char>, Seq<char>, bool)>::empty());
                self.record_all(&joins);
                RtEvent::Presence(self.entries())
            },
            ChannelMessage::PresenceDiff { joins, leaves } => {
                self.forget_all(&leaves);
                self.record_all(&joins);
                RtEvent::Presence(self.entries())
            },
            ChannelMessage::Broadcast(e) => RtEvent::Broadcast(e),
        }
    }
}

} // verus!
