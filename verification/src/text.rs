//! Character-level text handling shared by the guess matcher, the menu filter
//! and the version parser.

use vstd::prelude::*;

verus! {

broadcast use vstd::string::group_string_axioms;

/// What `char::is_alphanumeric` answers for a character.
pub uninterp spec fn alphanumeric(c: char) -> bool;

/// The characters that `char::to_lowercase` yields for a character.
pub uninterp spec fn lower_char(c: char) -> Seq<char>;

/// Whether `c` is an ASCII character.
pub open spec fn is_ascii(c: char) -> bool {
    (c as u32) < 128
}

/// Whether `c` is an ASCII letter or digit.
pub open spec fn ascii_letter_or_digit(c: char) -> bool {
    ('0' <= c && c <= '9') || ('a' <= c && c <= 'z') || ('A' <= c && c <= 'Z')
}

/// `c` with an ASCII capital turned into its small letter.
pub open spec fn ascii_lower(c: char) -> char {
    if 'A' <= c && c <= 'Z' {
        ((c as u32) + 32) as char
    } else {
        c
    }
}

/// `c` with an ASCII small letter turned into its capital.
pub open spec fn ascii_upper(c: char) -> char {
    if 'a' <= c && c <= 'z' {
        ((c as u32) - 32) as char
    } else {
        c
    }
}

/// Whether `c` counts as a letter or digit: as std documents it for ASCII,
/// else as `char::is_alphanumeric` answers.
pub open spec fn alnum(c: char) -> bool {
    if is_ascii(c) {
        ascii_letter_or_digit(c)
    } else {
        alphanumeric(c)
    }
}

/// The lowercase of `c`: as std documents it for ASCII, else as
/// `char::to_lowercase` yields it.
pub open spec fn lower_of(c: char) -> Seq<char> {
    if is_ascii(c) {
        seq![ascii_lower(c)]
    } else {
        lower_char(c)
    }
}

/// Calls `char::is_alphanumeric`. Its result is named; of an ASCII character
/// it is stated as std documents it: true exactly for letters and digits.
#[verifier::external_body]
pub fn is_alphanumeric_char(c: char) -> (r: bool)
    ensures
        r == alphanumeric(c),
        is_ascii(c) ==> (r <==> ascii_letter_or_digit(c)),
{
    c.is_alphanumeric()
}

/// Calls `char::to_lowercase` and collects what it yields. Its result is
/// named; of an ASCII character it is stated as std documents it: one
/// character, the small letter for a capital, else the character itself.
#[verifier::external_body]
pub fn lowercase_char(c: char) -> (r: Vec<char>)
    ensures
        r@ == lower_char(c),
        is_ascii(c) ==> r@ == seq![ascii_lower(c)],
{
    c.to_lowercase().collect()
}

/// Calls `String::push`: appends one character.
#[verifier::external_body]
pub(crate) fn push_char(s: &mut String, c: char)
    ensures
        final(s)@ == old(s)@.push(c),
{
    s.push(c)
}

/// The characters of a string slice, in order.
pub fn chars_of(s: &str) -> (r: Vec<char>)
    ensures
        r@ == s@,
{
    let mut v: Vec<char> = Vec::new();
    for c in it: s.chars()
        invariant
            v@ == it.seq().take(it.index() as int),
            it.seq() == s@,
    {
        v.push(c);
    }
    v
}

/// A `String` holding exactly the given characters.
pub fn string_of(cs: &Vec<char>) -> (r: String)
    ensures
        r@ == cs@,
{
    let mut s = String::new();
    let mut i: usize = 0;
    while i < cs.len()
        invariant
            i <= cs.len(),
            s@ == cs@.take(i as int),
        decreases cs.len() - i,
    {
        push_char(&mut s, cs[i]);
        assert(cs@.take(i as int).push(cs@[i as int]) =~= cs@.take(i + 1));
        i = i + 1;
    }
    assert(cs@.take(cs.len() as int) =~= cs@);
    s
}


/// Unicode `White_Space`, the set `char::is_whitespace` and `str::trim` use.
pub open spec fn whitespace(c: char) -> bool {
    let u = c as u32;
    (0x9 <= u && u <= 0xd) || u == 0x20 || u == 0x85 || u == 0xa0 || u == 0x1680
        || (0x2000 <= u && u <= 0x200a) || u == 0x2028 || u == 0x2029 || u == 0x202f
        || u == 0x205f || u == 0x3000
}

/// Whether `c` is Unicode white space.
pub fn is_whitespace(c: char) -> (r: bool)
    ensures
        r == whitespace(c),
{
    let u = c as u32;
    (0x9 <= u && u <= 0xd) || u == 0x20 || u == 0x85 || u == 0xa0 || u == 0x1680
        || (0x2000 <= u && u <= 0x200a) || u == 0x2028 || u == 0x2029 || u == 0x202f
        || u == 0x205f || u == 0x3000
}

/// `s` without its leading white space.
pub open spec fn trim_start(s: Seq<char>) -> Seq<char>
    decreases s.len(),
{
    if s.len() > 0 && whitespace(s[0]) {
        trim_start(s.drop_first())
    } else {
        s
    }
}

/// `s` without its trailing white space.
pub open spec fn trim_end(s: Seq<char>) -> Seq<char>
    decreases s.len(),
{
    if s.len() > 0 && whitespace(s.last()) {
        trim_end(s.drop_last())
    } else {
        s
    }
}

/// `s` without leading and trailing white space, as `str::trim` gives it.
pub open spec fn trimmed(s: Seq<char>) -> Seq<char> {
    trim_end(trim_start(s))
}

/// The characters of `s` with white space removed at both ends.
pub fn trim(s: &Vec<char>) -> (r: Vec<char>)
    ensures
        r@ == trimmed(s@),
{
    let n = s.len();
    let mut i: usize = 0;
    assert(s@.skip(0) =~= s@);
    while i < n && is_whitespace(s[i])
        invariant
            i <= n,
            n == s@.len(),
            trim_start(s@) == trim_start(s@.skip(i as int)),
        decreases n - i,
    {
        assert(s@.skip(i as int).drop_first() =~= s@.skip(i + 1));
        i = i + 1;
    }
    assert(trim_start(s@.skip(i as int)) == s@.skip(i as int));
    let mut j: usize = n;
    assert(s@.skip(i as int) =~= s@.subrange(i as int, j as int));
    while j > i && is_whitespace(s[j - 1])
        invariant
            i <= j <= n,
            n == s@.len(),
            trim_start(s@) == s@.skip(i as int),
            trim_end(s@.skip(i as int)) == trim_end(s@.subrange(i as int, j as int)),
        decreases j,
    {
        assert(s@.subrange(i as int, j as int).drop_last() =~= s@.subrange(i as int, j - 1));
        j = j - 1;
    }
    let mut r: Vec<char> = Vec::new();
    let mut k: usize = i;
    while k < j
        invariant
            i <= k <= j <= n,
            n == s@.len(),
            r@ =~= s@.subrange(i as int, k as int),
        decreases j - k,
    {
        r.push(s[k]);
        k = k + 1;
    }
    r
}

/// Whether `p` occurs in `s` starting at position `i`.
pub open spec fn occurs_at(s: Seq<char>, p: Seq<char>, i: int) -> bool {
    0 <= i && i + p.len() <= s.len() && s.subrange(i, i + p.len()) == p
}

/// Whether `p` occurs anywhere in `s` (`str::contains`).
pub open spec fn contains_seq(s: Seq<char>, p: Seq<char>) -> bool {
    exists|i: int| occurs_at(s, p, i)
}

/// Whether `s` begins with `p` (`str::starts_with`).
pub open spec fn starts_with_seq(s: Seq<char>, p: Seq<char>) -> bool {
    occurs_at(s, p, 0)
}

/// Whether `p` occurs in `s` at position `i`.
pub fn matches_at(s: &Vec<char>, p: &Vec<char>, i: usize) -> (r: bool)
    ensures
        r == occurs_at(s@, p@, i as int),
{
    if i > s.len() || p.len() > s.len() - i {
        return false;
    }
    let mut k: usize = 0;
    while k < p.len()
        invariant
            k <= p.len(),
            i + p.len() <= s.len(),
            forall|m: int| 0 <= m < k ==> s@[i + m] == p@[m],
        decreases p.len() - k,
    {
        if s[i + k] != p[k] {
            assert(s@.subrange(i as int, i + p.len())[k as int] != p@[k as int]);
            return false;
        }
        k = k + 1;
    }
    assert(s@.subrange(i as int, i + p.len()) =~= p@);
    true
}

/// The first position at which `p` occurs in `s` (`str::find`, counted in characters).
pub fn find(s: &Vec<char>, p: &Vec<char>) -> (r: Option<usize>)
    ensures
        match r {
            Some(i) => occurs_at(s@, p@, i as int) && forall|j: int|
                0 <= j < i ==> !occurs_at(s@, p@, j),
            None => !contains_seq(s@, p@),
        },
{
    let mut i: usize = 0;
    while i < s.len()
        invariant
            i <= s.len(),
            forall|j: int| 0 <= j < i ==> !occurs_at(s@, p@, j),
        decreases s.len() - i,
    {
        if matches_at(s, p, i) {
            return Some(i);
        }
        i = i + 1;
    }
    if matches_at(s, p, i) {
        return Some(i);
    }
    assert forall|j: int| !occurs_at(s@, p@, j) by {
        if 0 <= j && j < i {
        }
    }
    None
}

/// Whether `p` occurs in `s`.
pub fn contains(s: &Vec<char>, p: &Vec<char>) -> (r: bool)
    ensures
        r == contains_seq(s@, p@),
{
    match find(s, p) {
        Some(_) => true,
        None => false,
    }
}

/// Whether `s` begins with `p`.
pub fn starts_with(s: &Vec<char>, p: &Vec<char>) -> (r: bool)
    ensures
        r == starts_with_seq(s@, p@),
{
    matches_at(s, p, 0)
}


/// The words of `s` before trimming: each alphanumeric character lowercased,
/// every run of other characters collapsed into one space.
pub open spec fn fold_words(s: Seq<char>, prev_space: bool) -> Seq<char>
    decreases s.len(),
{
    if s.len() == 0 {
        Seq::empty()
    } else if alnum(s[0]) {
        lower_of(s[0]) + fold_words(s.drop_first(), false)
    } else if !prev_space {
        seq![' '] + fold_words(s.drop_first(), true)
    } else {
        fold_words(s.drop_first(), true)
    }
}

/// Lowercased alphanumerics, separators collapsed to single spaces, trimmed.
pub open spec fn normalized(s: Seq<char>) -> Seq<char> {
    trimmed(fold_words(s, false))
}

/// Lowercase, keep alphanumerics, collapse runs of separators to single
/// spaces, then trim.
pub fn normalize(s: &Vec<char>) -> (r: Vec<char>)
    ensures
        r@ == normalized(s@),
{
    let mut out: Vec<char> = Vec::new();
    let mut prev_space = false;
    let mut i: usize = 0;
    assert(s@.skip(0) =~= s@);
    while i < s.len()
        invariant
            i <= s.len(),
            out@ + fold_words(s@.skip(i as int), prev_space) == fold_words(s@, false),
        decreases s.len() - i,
    {
        let ch = s[i];
        let ghost rest = s@.skip(i as int);
        assert(rest[0] == ch);
        assert(rest.drop_first() =~= s@.skip(i + 1));
        if is_alphanumeric_char(ch) {
            let lc = lowercase_char(ch);
            let mut k: usize = 0;
            let ghost base = out@;
            while k < lc.len()
                invariant
                    k <= lc.len(),
                    out@ == base + lc@.take(k as int),
                decreases lc.len() - k,
            {
                out.push(lc[k]);
                assert(lc@.take(k as int).push(lc@[k as int]) =~= lc@.take(k + 1));
                assert(base + lc@.take(k as int).push(lc@[k as int]) =~= (base + lc@.take(
                    k as int,
                )).push(lc@[k as int]));
                k = k + 1;
            }
            assert(lc@.take(lc.len() as int) =~= lc@);
            assert(out@ + fold_words(s@.skip(i + 1), false) =~= base + (lc@ + fold_words(
                s@.skip(i + 1),
                false,
            )));
            prev_space = false;
        } else if !prev_space {
            let ghost base = out@;
            out.push(' ');
            assert(out@ + fold_words(s@.skip(i + 1), true) =~= base + (seq![' '] + fold_words(
                s@.skip(i + 1),
                true,
            )));
            prev_space = true;
        }
        i = i + 1;
    }
    assert(s@.skip(i as int) =~= Seq::<char>::empty());
    assert(out@ + Seq::<char>::empty() =~= out@);
    trim(&out)
}

/// ASCII letters compare case-insensitively against a lowercase pattern.
pub open spec fn folds_to(c: char, m: char) -> bool {
    c == m || ('a' <= m && m <= 'z' && c as u32 + 32 == m as u32)
}

/// Whether `p` (lowercase) occurs in `s` at `i`, ignoring ASCII case in `s`.
pub open spec fn occurs_folded_at(s: Seq<char>, p: Seq<char>, i: int) -> bool {
    0 <= i && i + p.len() <= s.len() && forall|k: int| 0 <= k < p.len() ==> folds_to(s[i + k], p[k])
}

/// Whether `p` occurs anywhere in `s`, ignoring ASCII case in `s`.
pub open spec fn contains_folded(s: Seq<char>, p: Seq<char>) -> bool {
    exists|i: int| occurs_folded_at(s, p, i)
}

fn fold_match(c: char, m: char) -> (r: bool)
    ensures
        r == folds_to(c, m),
{
    c == m || ('a' <= m && m <= 'z' && (c as u32) + 32 == m as u32)
}

fn matches_folded_at(s: &Vec<char>, p: &Vec<char>, i: usize) -> (r: bool)
    ensures
        r == occurs_folded_at(s@, p@, i as int),
{
    if i > s.len() || p.len() > s.len() - i {
        return false;
    }
    let mut k: usize = 0;
    while k < p.len()
        invariant
            k <= p.len(),
            i + p.len() <= s.len(),
            forall|m: int| 0 <= m < k ==> folds_to(s@[i + m], p@[m]),
        decreases p.len() - k,
    {
        if !fold_match(s[i + k], p[k]) {
            return false;
        }
        k = k + 1;
    }
    true
}

/// The first position at which `p` occurs in `s`, ignoring ASCII case in `s`.
pub fn find_folded(s: &Vec<char>, p: &Vec<char>) -> (r: Option<usize>)
    ensures
        match r {
            Some(i) => occurs_folded_at(s@, p@, i as int) && forall|j: int|
                0 <= j < i ==> !occurs_folded_at(s@, p@, j),
            None => !contains_folded(s@, p@),
        },
{
    let mut i: usize = 0;
    while i < s.len()
        invariant
            i <= s.len(),
            forall|j: int| 0 <= j < i ==> !occurs_folded_at(s@, p@, j),
        decreases s.len() - i,
    {
        if matches_folded_at(s, p, i) {
            return Some(i);
        }
        i = i + 1;
    }
    if matches_folded_at(s, p, i) {
        return Some(i);
    }
    assert forall|j: int| !occurs_folded_at(s@, p@, j) by {
        if 0 <= j && j < i {
        }
    }
    None
}

/// The classic edit distance: fewest single-character insertions, deletions and
/// substitutions turning `a` into `b`.
pub open spec fn edit_distance(a: Seq<char>, b: Seq<char>) -> nat
    decreases a.len() + b.len(),
{
    if a.len() == 0 {
        b.len()
    } else if b.len() == 0 {
        a.len()
    } else {
        let del = edit_distance(a.drop_last(), b) + 1;
        let ins = edit_distance(a, b.drop_last()) + 1;
        let sub = edit_distance(a.drop_last(), b.drop_last()) + (if a.last() == b.last() {
            0nat
        } else {
            1nat
        });
        if del <= ins && del <= sub {
            del
        } else if ins <= sub {
            ins
        } else {
            sub
        }
    }
}

/// A sequence is at distance zero from itself.
pub proof fn lemma_edit_distance_self(a: Seq<char>)
    ensures
        edit_distance(a, a) == 0,
    decreases a.len(),
{
    if a.len() > 0 {
        lemma_edit_distance_self(a.drop_last());
    }
}

/// The edit distance is the same both ways.
pub proof fn lemma_edit_distance_symmetric(a: Seq<char>, b: Seq<char>)
    ensures
        edit_distance(a, b) == edit_distance(b, a),
    decreases a.len() + b.len(),
{
    if a.len() > 0 && b.len() > 0 {
        lemma_edit_distance_symmetric(a.drop_last(), b);
        lemma_edit_distance_symmetric(a, b.drop_last());
        lemma_edit_distance_symmetric(a.drop_last(), b.drop_last());
    }
}

/// Changing one character of a text puts it at edit distance at most one.
pub proof fn lemma_edit_distance_one_change(s: Seq<char>, i: int, c: char)
    requires
        0 <= i < s.len(),
    ensures
        edit_distance(s.update(i, c), s) <= 1,
    decreases s.len(),
{
    let t = s.update(i, c);
    if i == s.len() - 1 {
        assert(t.drop_last() =~= s.drop_last());
        lemma_edit_distance_self(s.drop_last());
    } else {
        assert(t.drop_last() =~= s.drop_last().update(i, c));
        assert(t.last() == s.last());
        lemma_edit_distance_one_change(s.drop_last(), i, c);
    }
}

/// Likeness is the same both ways.
pub proof fn lemma_similar_symmetric(a: Seq<char>, b: Seq<char>, percent: nat)
    ensures
        similar_spec(a, b, percent) == similar_spec(b, a, percent),
{
    lemma_edit_distance_symmetric(a, b);
}

/// Calls `strsim::levenshtein`, which computes the edit distance between the
/// two strings' character sequences.
#[verifier::external_body]
fn levenshtein(a: &str, b: &str) -> (r: usize)
    ensures
        r == edit_distance(a@, b@),
{
    strsim::levenshtein(a, b)
}

/// The larger of two lengths.
pub open spec fn max_len(a: Seq<char>, b: Seq<char>) -> nat {
    if a.len() >= b.len() {
        a.len()
    } else {
        b.len()
    }
}

/// Two strings are at least `percent`% alike: equal when either is empty, else
/// `1 - distance / longer length >= percent / 100`.
pub open spec fn similar_spec(a: Seq<char>, b: Seq<char>, percent: nat) -> bool {
    if a.len() == 0 || b.len() == 0 {
        a == b
    } else {
        100 * edit_distance(a, b) <= (100 - percent) * max_len(a, b)
    }
}

/// Whether two strings are at least `percent`% alike by normalized edit distance.
pub fn similar(a: &Vec<char>, b: &Vec<char>, percent: u64) -> (r: bool)
    requires
        percent <= 100,
    ensures
        r == similar_spec(a@, b@, percent as nat),
{
    if a.len() == 0 || b.len() == 0 {
        if a.len() == 0 && b.len() == 0 {
            assert(a@ =~= b@);
            return true;
        }
        return false;
    }
    let sa = string_of(a);
    let sb = string_of(b);
    let d = levenshtein(sa.as_str(), sb.as_str());
    let m: usize = if a.len() >= b.len() {
        a.len()
    } else {
        b.len()
    };
    let f = (100 - percent) as u128;
    let mm = m as u128;
    assert(f * mm <= 100 * 0xffff_ffff_ffff_ffffu128) by (nonlinear_arith)
        requires
            f <= 100,
            mm <= 0xffff_ffff_ffff_ffffu128,
    ;
    (d as u128) * 100 <= f * mm
}


/// Whether two character vectors hold the same characters.
pub fn seq_eq(a: &Vec<char>, b: &Vec<char>) -> (r: bool)
    ensures
        r == (a@ == b@),
{
    if a.len() != b.len() {
        return false;
    }
    let mut i: usize = 0;
    while i < a.len()
        invariant
            i <= a.len(),
            a.len() == b.len(),
            forall|k: int| 0 <= k < i ==> a@[k] == b@[k],
        decreases a.len() - i,
    {
        if a[i] != b[i] {
            return false;
        }
        i = i + 1;
    }
    assert(a@ =~= b@);
    true
}

} // verus!
