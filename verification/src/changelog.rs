//! The changelog, parsed into per-version sections so players can see what is
//! new: the whole history, and the newest section right after an update.

use vstd::prelude::*;

use crate::changelog_text::RAW;
use crate::text::{chars_of, starts_with_seq, string_of, trim, trimmed};

verus! {

/// One released version's notes.
#[derive(Debug)]
pub struct Release {
    pub version: String,
    pub date: String,
    /// The section body (kept as `### Heading` / `- bullet` lines; `**` stripped).
    pub body: String,
}

impl Clone for Release {
    fn clone(&self) -> (r: Self)
        ensures
            r == *self,
    {
        Release { version: self.version.clone(), date: self.date.clone(), body: self.body.clone() }
    }
}

/// The view of a section being read: version, date and body so far.
pub open spec fn cur_view(cur: Option<(Vec<char>, Vec<char>, Vec<char>)>) -> Option<ReleaseView> {
    match cur {
        Some(c) => Some(ReleaseView { version: c.0@, date: c.1@, body: c.2@ }),
        None => None,
    }
}

/// A release as the contracts see it.
pub struct ReleaseView {
    pub version: Seq<char>,
    pub date: Seq<char>,
    pub body: Seq<char>,
}

impl View for Release {
    type V = ReleaseView;

    open spec fn view(&self) -> ReleaseView {
        ReleaseView { version: self.version@, date: self.date@, body: self.body@ }
    }
}

/// `cur` without one trailing carriage return.
pub open spec fn strip_cr(cur: Seq<char>) -> Seq<char> {
    if cur.len() > 0 && cur.last() == '\r' {
        cur.drop_last()
    } else {
        cur
    }
}

/// The lines of `rest`, continuing a line `cur` already begun, as
/// `str::lines` yields them: split after each `\n`, a `\r` before the `\n`
/// dropped, and no empty line after a final `\n`.
pub open spec fn line_split(cur: Seq<char>, rest: Seq<char>) -> Seq<Seq<char>>
    decreases rest.len(),
{
    if rest.len() == 0 {
        if cur.len() == 0 {
            Seq::empty()
        } else {
            seq![cur]
        }
    } else if rest[0] == '\n' {
        seq![strip_cr(cur)] + line_split(Seq::empty(), rest.drop_first())
    } else {
        line_split(cur.push(rest[0]), rest.drop_first())
    }
}

/// The lines of a text.
pub open spec fn lines_of(s: Seq<char>) -> Seq<Seq<char>> {
    line_split(Seq::empty(), s)
}

/// `l` with every `**` removed, scanning left to right (`str::replace`).
pub open spec fn strip_bold(l: Seq<char>) -> Seq<char>
    decreases l.len(),
{
    if l.len() == 0 {
        Seq::empty()
    } else if l.len() >= 2 && l[0] == '*' && l[1] == '*' {
        strip_bold(l.skip(2))
    } else {
        seq![l[0]] + strip_bold(l.drop_first())
    }
}

/// `s` without leading spaces and dashes.
pub open spec fn trim_dash_space(s: Seq<char>) -> Seq<char>
    decreases s.len(),
{
    if s.len() > 0 && (s[0] == ' ' || s[0] == '-') {
        trim_dash_space(s.drop_first())
    } else {
        s
    }
}

/// The position of the first `]` in `s`, or -1.
pub open spec fn close_index(s: Seq<char>) -> int
    decreases s.len(),
{
    if s.len() == 0 {
        -1
    } else if s[0] == ']' {
        0
    } else {
        let k = close_index(s.drop_first());
        if k < 0 {
            -1
        } else {
            k + 1
        }
    }
}

/// Version and date from the text after `## [`: the version runs up to the
/// first `]`, the date is what follows, less leading spaces and dashes,
/// trimmed. Without a `]` the whole text is the version and the date is empty.
pub open spec fn header_fields(rest: Seq<char>) -> (Seq<char>, Seq<char>) {
    let k = close_index(rest);
    if k >= 0 {
        (rest.take(k), trimmed(trim_dash_space(rest.skip(k + 1))))
    } else {
        (rest, Seq::empty())
    }
}

/// The line prefix that opens a version section.
pub open spec fn section_prefix() -> Seq<char> {
    seq!['#', '#', ' ', '[']
}

/// Two characters are equal ignoring ASCII case.
pub open spec fn ascii_ci_char(a: char, b: char) -> bool {
    a == b || ('A' <= a && a <= 'Z' && a as u32 + 32 == b as u32) || ('A' <= b && b <= 'Z'
        && b as u32 + 32 == a as u32)
}

/// Two texts are equal ignoring ASCII case (`eq_ignore_ascii_case`).
pub open spec fn ascii_ci_eq(a: Seq<char>, b: Seq<char>) -> bool {
    a.len() == b.len() && forall|i: int| 0 <= i < a.len() ==> ascii_ci_char(#[trigger] a[i], b[i])
}

/// The name of the placeholder section for changes not yet released.
pub open spec fn unreleased_name() -> Seq<char> {
    seq!['u', 'n', 'r', 'e', 'l', 'e', 'a', 's', 'e', 'd']
}

/// A finished section is kept: it is not the placeholder and has a body.
pub open spec fn keeps(r: ReleaseView) -> bool {
    !ascii_ci_eq(r.version, unreleased_name()) && trimmed(r.body).len() > 0
}

/// `out` with the finished section `cur` appended if it is kept.
pub open spec fn flushed(out: Seq<ReleaseView>, cur: Option<ReleaseView>) -> Seq<ReleaseView> {
    match cur {
        Some(r) => if keeps(r) {
            out.push(r)
        } else {
            out
        },
        None => out,
    }
}

/// The sections of the remaining `lines`, given those already finished and
/// the one being read.
pub open spec fn parse_from(
    out: Seq<ReleaseView>,
    cur: Option<ReleaseView>,
    lines: Seq<Seq<char>>,
) -> Seq<ReleaseView>
    decreases lines.len(),
{
    if lines.len() == 0 {
        flushed(out, cur)
    } else {
        let l = lines[0];
        let rest = lines.drop_first();
        if starts_with_seq(l, section_prefix()) {
            let (v, d) = header_fields(l.skip(4));
            parse_from(
                flushed(out, cur),
                Some(ReleaseView { version: v, date: d, body: Seq::empty() }),
                rest,
            )
        } else {
            match cur {
                Some(r) => parse_from(
                    out,
                    Some(
                        ReleaseView {
                            version: r.version,
                            date: r.date,
                            body: r.body + strip_bold(l) + seq!['\n'],
                        },
                    ),
                    rest,
                ),
                None => parse_from(out, None, rest),
            }
        }
    }
}

/// The released sections of a changelog, in file order.
pub open spec fn releases_of(raw: Seq<char>) -> Seq<ReleaseView> {
    parse_from(Seq::empty(), None, lines_of(raw))
}

/// The views of a list of releases.
pub open spec fn views(v: Seq<Release>) -> Seq<ReleaseView> {
    v.map_values(|r: Release| r@)
}

fn split_lines(s: &Vec<char>) -> (r: Vec<Vec<char>>)
    ensures
        r@.map_values(|l: Vec<char>| l@) == lines_of(s@),
{
    let mut out: Vec<Vec<char>> = Vec::new();
    let mut cur: Vec<char> = Vec::new();
    let mut i: usize = 0;
    assert(s@.skip(0) =~= s@);
    while i < s.len()
        invariant
            i <= s.len(),
            out@.map_values(|l: Vec<char>| l@) + line_split(cur@, s@.skip(i as int)) == lines_of(
                s@,
            ),
        decreases s.len() - i,
    {
        assert(s@.skip(i as int)[0] == s@[i as int]);
        assert(s@.skip(i as int).drop_first() =~= s@.skip(i + 1));
        let ghost before = out@.map_values(|l: Vec<char>| l@);
        if s[i] == '\n' {
            let mut done = cur;
            cur = Vec::new();
            if done.len() > 0 && done[done.len() - 1] == '\r' {
                done.pop();
            }
            let ghost d = done@;
            out.push(done);
            assert(out@.map_values(|l: Vec<char>| l@) =~= before.push(d));
            assert(before.push(d) + line_split(cur@, s@.skip(i + 1)) =~= before + (seq![d]
                + line_split(Seq::empty(), s@.skip(i + 1))));
        } else {
            cur.push(s[i]);
        }
        i = i + 1;
    }
    assert(s@.skip(i as int) =~= Seq::<char>::empty());
    if cur.len() > 0 {
        let ghost before = out@.map_values(|l: Vec<char>| l@);
        let ghost c = cur@;
        out.push(cur);
        assert(out@.map_values(|l: Vec<char>| l@) =~= before.push(c));
        assert(before + seq![c] =~= before.push(c));
    } else {
        assert(out@.map_values(|l: Vec<char>| l@) + Seq::<Seq<char>>::empty() =~= out@.map_values(
            |l: Vec<char>| l@,
        ));
    }
    out
}

fn push_without_bold(body: &mut Vec<char>, l: &Vec<char>)
    ensures
        final(body)@ == old(body)@ + strip_bold(l@),
{
    let mut i: usize = 0;
    let ghost start = body@;
    assert(l@.skip(0) =~= l@);
    while i < l.len()
        invariant
            i <= l.len(),
            body@ + strip_bold(l@.skip(i as int)) == start + strip_bold(l@),
        decreases l.len() - i,
    {
        if i + 1 < l.len() && l[i] == '*' && l[i + 1] == '*' {
            assert(l@.skip(i as int).skip(2) =~= l@.skip(i + 2));
            i = i + 2;
        } else {
            let ghost b = body@;
            body.push(l[i]);
            assert(l@.skip(i as int).drop_first() =~= l@.skip(i + 1));
            assert(b.push(l@[i as int]) + strip_bold(l@.skip(i + 1)) =~= b + (seq![l@[i as int]]
                + strip_bold(l@.skip(i + 1))));
            i = i + 1;
        }
    }
    assert(l@.skip(i as int) =~= Seq::<char>::empty());
    assert(body@ + Seq::<char>::empty() =~= body@);
}

fn skip_from(s: &Vec<char>, n: usize) -> (r: Vec<char>)
    requires
        n <= s.len(),
    ensures
        r@ == s@.skip(n as int),
{
    let mut r: Vec<char> = Vec::new();
    let mut i: usize = n;
    while i < s.len()
        invariant
            n <= i <= s.len(),
            r@ =~= s@.subrange(n as int, i as int),
        decreases s.len() - i,
    {
        r.push(s[i]);
        i = i + 1;
    }
    r
}

fn header(rest: &Vec<char>) -> (r: (Vec<char>, Vec<char>))
    ensures
        (r.0@, r.1@) == header_fields(rest@),
{
    let mut k: usize = 0;
    assert(rest@.skip(0) =~= rest@);
    while k < rest.len() && rest[k] != ']'
        invariant
            k <= rest.len(),
            forall|j: int| 0 <= j < k ==> rest@[j] != ']',
            close_index(rest@) == (if close_index(rest@.skip(k as int)) < 0 {
                -1
            } else {
                close_index(rest@.skip(k as int)) + k
            }),
        decreases rest.len() - k,
    {
        assert(rest@.skip(k as int).drop_first() =~= rest@.skip(k + 1));
        k = k + 1;
    }
    if k == rest.len() {
        assert(rest@.skip(k as int) =~= Seq::<char>::empty());
        let v = skip_from(rest, 0);
        assert(rest@.skip(0) =~= rest@);
        return (v, Vec::new());
    }
    let mut v: Vec<char> = Vec::new();
    let mut i: usize = 0;
    while i < k
        invariant
            i <= k < rest.len(),
            v@ =~= rest@.take(i as int),
        decreases k - i,
    {
        v.push(rest[i]);
        i = i + 1;
    }
    let tail = skip_from(rest, k + 1);
    let mut j: usize = 0;
    assert(tail@.skip(0) =~= tail@);
    while j < tail.len() && (tail[j] == ' ' || tail[j] == '-')
        invariant
            j <= tail.len(),
            trim_dash_space(tail@) == trim_dash_space(tail@.skip(j as int)),
        decreases tail.len() - j,
    {
        assert(tail@.skip(j as int).drop_first() =~= tail@.skip(j + 1));
        j = j + 1;
    }
    let rest_date = skip_from(&tail, j);
    let date = trim(&rest_date);
    (v, date)
}

fn is_unreleased(v: &Vec<char>) -> (r: bool)
    ensures
        r == ascii_ci_eq(v@, unreleased_name()),
{
    let target: Vec<char> = vec!['u', 'n', 'r', 'e', 'l', 'e', 'a', 's', 'e', 'd'];
    assert(target@ =~= unreleased_name());
    if v.len() != target.len() {
        return false;
    }
    let mut i: usize = 0;
    while i < v.len()
        invariant
            i <= v.len(),
            v.len() == target.len(),
            target@ == unreleased_name(),
            forall|k: int| 0 <= k < i ==> ascii_ci_char(#[trigger] v@[k], target@[k]),
        decreases v.len() - i,
    {
        let a = v[i];
        let b = target[i];
        let same = a == b || ('A' <= a && a <= 'Z' && (a as u32) + 32 == b as u32) || ('A' <= b
            && b <= 'Z' && (b as u32) + 32 == a as u32);
        if !same {
            return false;
        }
        i = i + 1;
    }
    true
}

fn flush(out: &mut Vec<Release>, cur: Option<(Vec<char>, Vec<char>, Vec<char>)>)
    ensures
        views(final(out)@) == flushed(views(old(out)@), cur_view(cur)),
{
    match cur {
        Some(c) => {
            let keep = !is_unreleased(&c.0) && trim(&c.2).len() > 0;
            if keep {
                let ghost before = views(out@);
                out.push(Release { version: string_of(&c.0), date: string_of(&c.1), body: string_of(&c.2) });
                assert(views(out@) =~= before.push(ReleaseView { version: c.0@, date: c.1@, body: c.2@ }));
            }
        },
        None => {},
    }
}

/// The released sections of a changelog text, in file order: the empty
/// `[Unreleased]` placeholder and any bodyless sections are skipped.
pub fn releases_from(raw: &str) -> (r: Vec<Release>)
    ensures
        views(r@) == releases_of(raw@),
{
    let lines = split_lines(&chars_of(raw));
    let ghost ls = lines@.map_values(|l: Vec<char>| l@);
    let mut out: Vec<Release> = Vec::new();
    let mut cur: Option<(Vec<char>, Vec<char>, Vec<char>)> = None;
    let mut i: usize = 0;
    assert(ls.skip(0) =~= ls);
    assert(views(out@) =~= Seq::<ReleaseView>::empty());
    while i < lines.len()
        invariant
            i <= lines.len(),
            ls == lines@.map_values(|l: Vec<char>| l@),
            ls == lines_of(raw@),
            parse_from(views(out@), cur_view(cur), ls.skip(i as int)) == releases_of(raw@),
        decreases lines.len() - i,
    {
        let l = &lines[i];
        assert(ls.skip(i as int)[0] == l@);
        assert(ls.skip(i as int).drop_first() =~= ls.skip(i + 1));
        let is_header = l.len() >= 4 && l[0] == '#' && l[1] == '#' && l[2] == ' ' && l[3] == '[';
        assert(is_header == starts_with_seq(l@, section_prefix())) by {
            if is_header {
                assert(l@.subrange(0, 4) =~= section_prefix());
            }
            if starts_with_seq(l@, section_prefix()) {
                assert(l@.subrange(0, 4)[0] == '#');
                assert(l@.subrange(0, 4)[1] == '#');
                assert(l@.subrange(0, 4)[2] == ' ');
                assert(l@.subrange(0, 4)[3] == '[');
            }
        }
        let ghost old_out = views(out@);
        let ghost old_cur = cur_view(cur);
        if is_header {
            let taken = cur;
            cur = None;
            flush(&mut out, taken);
            let rest = skip_from(l, 4);
            let (v, d) = header(&rest);
            cur = Some((v, d, Vec::new()));
            assert(cur_view(cur) == Some(
                ReleaseView {
                    version: header_fields(l@.skip(4)).0,
                    date: header_fields(l@.skip(4)).1,
                    body: Seq::<char>::empty(),
                },
            )) by {
                assert(cur_view(cur)->Some_0.body =~= Seq::<char>::empty());
            }
        } else {
            match cur {
                Some(c) => {
                    let (v, d, mut body) = c;
                    let ghost b0 = body@;
                    push_without_bold(&mut body, l);
                    body.push('\n');
                    assert(body@ =~= b0 + strip_bold(l@) + seq!['\n']);
                    cur = Some((v, d, body));
                },
                None => {
                    cur = None;
                },
            }
        }
        i = i + 1;
    }
    assert(ls.skip(i as int) =~= Seq::<Seq<char>>::empty());
    flush(&mut out, cur);
    out
}

/// Released sections of this project's changelog, newest first.
pub fn releases() -> (r: Vec<Release>)
    ensures
        views(r@) == releases_of(RAW@),
{
    releases_from(RAW)
}

/// The notes for one specific version, if present: the first section whose
/// version is exactly `version`.
pub fn for_version(version: &str) -> (r: Option<Release>)
    ensures
        match r {
            Some(rel) => exists|i: int|
                0 <= i < releases_of(RAW@).len() && releases_of(RAW@)[i] == rel@ && rel@.version
                    == version@ && forall|j: int|
                    0 <= j < i ==> #[trigger] releases_of(RAW@)[j].version != version@,
            None => forall|i: int|
                0 <= i < releases_of(RAW@).len() ==> #[trigger] releases_of(RAW@)[i].version
                    != version@,
        },
{
    let rels = releases();
    let mut i: usize = 0;
    while i < rels.len()
        invariant
            i <= rels.len(),
            views(rels@) == releases_of(RAW@),
            forall|j: int| 0 <= j < i ==> #[trigger] releases_of(RAW@)[j].version != version@,
        decreases rels.len() - i,
    {
        assert(views(rels@)[i as int] == rels@[i as int]@);
        if crate::text::seq_eq(&chars_of(rels[i].version.as_str()), &chars_of(version)) {
            let rel = rels[i].clone();
            assert(releases_of(RAW@)[i as int] == rel@);
            return Some(rel);
        }
        i = i + 1;
    }
    None
}

} // verus!
