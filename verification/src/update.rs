//! Release bookkeeping for self-update: version comparison and the names of
//! the published release assets.

use vstd::prelude::*;

use crate::text::{chars_of, seq_eq, trim, trimmed};

verus! {

/// The version of this build.
pub const CURRENT_VERSION: &'static str = "0.14.0";

/// What an update attempt did.
pub enum Outcome {
    /// Already on the latest build.
    UpToDate,
    /// Updated the running binary to `version`.
    Updated { version: String },
}

/// `s` split at every `.`, continuing a field `cur` already begun.
pub open spec fn split_from(cur: Seq<char>, rest: Seq<char>) -> Seq<Seq<char>>
    decreases rest.len(),
{
    if rest.len() == 0 {
        seq![cur]
    } else if rest[0] == '.' {
        seq![cur] + split_from(Seq::empty(), rest.drop_first())
    } else {
        split_from(cur.push(rest[0]), rest.drop_first())
    }
}

/// The `.`-separated fields of `s` (`str::split('.')`).
pub open spec fn dot_fields(s: Seq<char>) -> Seq<Seq<char>> {
    split_from(Seq::empty(), s)
}

/// Whether `c` is an ASCII digit.
pub open spec fn is_digit(c: char) -> bool {
    '0' <= c && c <= '9'
}

/// The number an all-digit string spells in base 10.
pub open spec fn digits_value(s: Seq<char>) -> nat
    decreases s.len(),
{
    if s.len() == 0 {
        0
    } else {
        digits_value(s.drop_last()) * 10 + (s.last() as nat - '0' as nat) as nat
    }
}

/// The digits of a `u64` literal: an optional leading `+` dropped.
pub open spec fn unsigned_digits(s: Seq<char>) -> Seq<char> {
    if s.len() > 0 && s[0] == '+' {
        s.drop_first()
    } else {
        s
    }
}

/// What `str::parse::<u64>` gives: an optional `+` then one or more ASCII
/// digits whose value fits in 64 bits; anything else is an error.
pub open spec fn parse_u64(s: Seq<char>) -> Option<u64> {
    let t = unsigned_digits(s);
    if t.len() > 0 && (forall|i: int| 0 <= i < t.len() ==> is_digit(#[trigger] t[i]))
        && digits_value(t) <= u64::MAX {
        Some(digits_value(t) as u64)
    } else {
        None
    }
}

/// One version field: its trimmed text parsed as a number, 0 when that fails.
pub open spec fn field_value(p: Seq<char>) -> u64 {
    match parse_u64(trimmed(p)) {
        Some(n) => n,
        None => 0,
    }
}

/// Field `i` of a version's `.`-separated fields, 0 when missing.
pub open spec fn version_field(v: Seq<char>, i: int) -> u64 {
    if i < dot_fields(v).len() {
        field_value(dot_fields(v)[i])
    } else {
        0
    }
}

/// The `(major, minor, patch)` triple of a version string.
pub open spec fn semver(v: Seq<char>) -> (u64, u64, u64) {
    (version_field(v, 0), version_field(v, 1), version_field(v, 2))
}

/// Strict lexicographic order on version triples.
pub open spec fn triple_lt(a: (u64, u64, u64), b: (u64, u64, u64)) -> bool {
    a.0 < b.0 || (a.0 == b.0 && (a.1 < b.1 || (a.1 == b.1 && a.2 < b.2)))
}

/// `other` is a newer version than `current`.
pub open spec fn newer(current: Seq<char>, other: Seq<char>) -> bool {
    triple_lt(semver(current), semver(other))
}

fn split_dots(s: &Vec<char>) -> (r: Vec<Vec<char>>)
    ensures
        r@.map_values(|p: Vec<char>| p@) == dot_fields(s@),
{
    let mut parts: Vec<Vec<char>> = Vec::new();
    let mut cur: Vec<char> = Vec::new();
    let mut i: usize = 0;
    assert(s@.skip(0) =~= s@);
    while i < s.len()
        invariant
            i <= s.len(),
            parts@.map_values(|p: Vec<char>| p@) + split_from(cur@, s@.skip(i as int)) == dot_fields(
                s@,
            ),
        decreases s.len() - i,
    {
        assert(s@.skip(i as int)[0] == s@[i as int]);
        assert(s@.skip(i as int).drop_first() =~= s@.skip(i + 1));
        let ghost before = parts@.map_values(|p: Vec<char>| p@);
        if s[i] == '.' {
            let done = cur;
            cur = Vec::new();
            let ghost d = done@;
            parts.push(done);
            assert(parts@.map_values(|p: Vec<char>| p@) =~= before.push(d));
            assert(before.push(d) + split_from(cur@, s@.skip(i + 1)) =~= before + (seq![d]
                + split_from(Seq::empty(), s@.skip(i + 1))));
        } else {
            cur.push(s[i]);
        }
        i = i + 1;
    }
    assert(s@.skip(i as int) =~= Seq::<char>::empty());
    let ghost before = parts@.map_values(|p: Vec<char>| p@);
    let ghost c = cur@;
    parts.push(cur);
    assert(parts@.map_values(|p: Vec<char>| p@) =~= before.push(c));
    assert(before + seq![c] =~= before.push(c));
    parts
}

proof fn lemma_digits_value_grows(t: Seq<char>, k: int)
    requires
        0 <= k <= t.len(),
        forall|i: int| 0 <= i < t.len() ==> is_digit(#[trigger] t[i]),
    ensures
        digits_value(t.take(k)) <= digits_value(t),
    decreases t.len() - k,
{
    if k < t.len() {
        let u = t.take(k + 1);
        assert(u.drop_last() =~= t.take(k));
        assert(is_digit(t[k]));
        lemma_digits_value_grows(t, k + 1);
    } else {
        assert(t.take(k) =~= t);
    }
}

/// Parse a `u64` the way `str::parse` does (`None` on any error).
pub fn parse_u64_exec(s: &Vec<char>) -> (r: Option<u64>)
    ensures
        r == parse_u64(s@),
{
    let start: usize = if s.len() > 0 && s[0] == '+' {
        1
    } else {
        0
    };
    let ghost t = unsigned_digits(s@);
    assert(t =~= s@.skip(start as int));
    if start >= s.len() {
        assert(t.len() == 0);
        return None;
    }
    let mut k: usize = start;
    while k < s.len()
        invariant
            start <= k <= s.len(),
            t =~= s@.skip(start as int),
            t == unsigned_digits(s@),
            forall|i: int| 0 <= i < k - start ==> is_digit(#[trigger] t[i]),
        decreases s.len() - k,
    {
        if !(s[k] >= '0' && s[k] <= '9') {
            assert(!is_digit(t[k - start]));
            assert(!(forall|i: int| 0 <= i < t.len() ==> is_digit(#[trigger] t[i])));
            assert(unsigned_digits(s@) == t);
            return None;
        }
        k = k + 1;
    }
    let mut val: u64 = 0;
    let mut j: usize = start;
    assert(t.take(0) =~= Seq::<char>::empty());
    while j < s.len()
        invariant
            start <= j <= s.len(),
            t =~= s@.skip(start as int),
            t == unsigned_digits(s@),
            forall|i: int| 0 <= i < t.len() ==> is_digit(#[trigger] t[i]),
            val == digits_value(t.take(j - start)),
        decreases s.len() - j,
    {
        assert(t[j - start] == s@[j as int]);
        assert(is_digit(t[j - start]));
        let c = s[j];
        let d = (c as u32 - '0' as u32) as u64;
        assert(t.take(j - start + 1).drop_last() =~= t.take(j - start));
        assert(t.take(j - start + 1).last() == c);
        assert(digits_value(t.take(j - start + 1)) == val * 10 + d);
        if val > (u64::MAX - d) / 10 {
            proof {
                lemma_digits_value_grows(t, j - start + 1);
                assert(val * 10 + d > u64::MAX) by (nonlinear_arith)
                    requires
                        val > (u64::MAX - d) / 10,
                        d <= 9,
                ;
                assert(digits_value(t) > u64::MAX);
                assert(unsigned_digits(s@) == t);
            }
            return None;
        }
        val = val * 10 + d;
        j = j + 1;
    }
    assert(t.take(t.len() as int) =~= t);
    Some(val)
}

fn field_number(p: &Vec<char>) -> (r: u64)
    ensures
        r == field_value(p@),
{
    let t = trim(p);
    match parse_u64_exec(&t) {
        Some(n) => n,
        None => 0,
    }
}

/// The `(major, minor, patch)` of a version string; missing or unparsable
/// fields count as 0.
pub fn semver_tuple(v: &str) -> (r: (u64, u64, u64))
    ensures
        r == semver(v@),
{
    let parts = split_dots(&chars_of(v));
    let ghost fs = parts@.map_values(|p: Vec<char>| p@);
    let a = if parts.len() > 0 {
        field_number(&parts[0])
    } else {
        0
    };
    let b = if parts.len() > 1 {
        field_number(&parts[1])
    } else {
        0
    };
    let c = if parts.len() > 2 {
        field_number(&parts[2])
    } else {
        0
    };
    (a, b, c)
}

/// Is `other` a newer version than `current`?
pub fn is_newer(current: &str, other: &str) -> (r: bool)
    ensures
        r == newer(current@, other@),
{
    let a = semver_tuple(current);
    let b = semver_tuple(other);
    a.0 < b.0 || (a.0 == b.0 && (a.1 < b.1 || (a.1 == b.1 && a.2 < b.2)))
}

/// Being newer is a strict order: no version is newer than itself, two
/// versions are never each newer than the other, and newer-than chains.
pub proof fn lemma_newer_is_strict_order(a: Seq<char>, b: Seq<char>, c: Seq<char>)
    ensures
        !newer(a, a),
        newer(a, b) ==> !newer(b, a),
        newer(a, b) && newer(b, c) ==> newer(a, c),
{
}

/// The decimal digit character for `d` (below 10).
pub open spec fn digit_char(d: nat) -> char {
    if d == 0 {
        '0'
    } else if d == 1 {
        '1'
    } else if d == 2 {
        '2'
    } else if d == 3 {
        '3'
    } else if d == 4 {
        '4'
    } else if d == 5 {
        '5'
    } else if d == 6 {
        '6'
    } else if d == 7 {
        '7'
    } else if d == 8 {
        '8'
    } else {
        '9'
    }
}

/// How `n` is written in base 10, without leading zeros.
pub open spec fn decimal(n: nat) -> Seq<char>
    decreases n,
{
    if n < 10 {
        seq![digit_char(n)]
    } else {
        decimal(n / 10).push(digit_char(n % 10))
    }
}

/// The version text `major.minor.patch` written in base 10, as releases are
/// tagged (such as `0.14.10`).
pub open spec fn version_text(major: nat, minor: nat, patch: nat) -> Seq<char> {
    decimal(major) + seq!['.'] + decimal(minor) + seq!['.'] + decimal(patch)
}

proof fn lemma_digit_char(d: nat)
    requires
        d < 10,
    ensures
        is_digit(digit_char(d)),
        digit_char(d) as nat - '0' as nat == d,
        digit_char(d) != '.',
        digit_char(d) != '+',
        !crate::text::whitespace(digit_char(d)),
{
}

/// A number's decimal text is a non-empty run of digits that spells it.
proof fn lemma_decimal(n: nat)
    ensures
        decimal(n).len() > 0,
        forall|i: int| 0 <= i < decimal(n).len() ==> is_digit(#[trigger] decimal(n)[i]),
        forall|i: int| 0 <= i < decimal(n).len() ==> #[trigger] decimal(n)[i] != '.',
        forall|i: int| 0 <= i < decimal(n).len() ==> !crate::text::whitespace(#[trigger] decimal(n)[i]),
        digits_value(decimal(n)) == n,
    decreases n,
{
    if n < 10 {
        lemma_digit_char(n);
        assert(decimal(n).drop_last() =~= Seq::<char>::empty());
        assert(digits_value(Seq::<char>::empty()) == 0);
        assert(digits_value(decimal(n)) == n);
    } else {
        lemma_decimal(n / 10);
        lemma_digit_char(n % 10);
        let s = decimal(n / 10);
        assert(decimal(n).drop_last() =~= s);
        assert(decimal(n).last() == digit_char(n % 10));
        assert(digits_value(decimal(n)) == digits_value(s) * 10 + (digit_char(n % 10) as nat
            - '0' as nat) as nat);
        assert((n / 10) * 10 + n % 10 == n) by (nonlinear_arith);
        assert(digits_value(s) == n / 10);
        assert(digits_value(decimal(n)) == n);
        assert forall|i: int| 0 <= i < decimal(n).len() implies is_digit(#[trigger] decimal(n)[i])
            && decimal(n)[i] != '.' && !crate::text::whitespace(decimal(n)[i]) by {
            if i < s.len() {
                assert(decimal(n)[i] == s[i]);
            }
        }
    }
}

/// The field that a number's decimal text gives is that number.
proof fn lemma_field_of_decimal(n: nat)
    requires
        n <= u64::MAX,
    ensures
        field_value(decimal(n)) == n,
{
    lemma_decimal(n);
    let d = decimal(n);
    assert(!crate::text::whitespace(d[0]));
    assert(crate::text::trim_start(d) == d);
    assert(!crate::text::whitespace(d.last()));
    assert(crate::text::trim_end(d) == d);
    assert(is_digit(d[0]));
    assert(unsigned_digits(d) == d);
}

/// Splitting at dots passes over a dot-free stretch `s` by adding it to the
/// field being built.
proof fn lemma_split_dot_free(cur: Seq<char>, s: Seq<char>, r: Seq<char>)
    requires
        forall|i: int| 0 <= i < s.len() ==> #[trigger] s[i] != '.',
    ensures
        split_from(cur, s + r) == split_from(cur + s, r),
    decreases s.len(),
{
    if s.len() == 0 {
        assert(s + r =~= r);
        assert(cur + s =~= cur);
    } else {
        assert((s + r)[0] == s[0]);
        assert((s + r).drop_first() =~= s.drop_first() + r);
        assert(cur.push(s[0]) + s.drop_first() =~= cur + s);
        lemma_split_dot_free(cur.push(s[0]), s.drop_first(), r);
    }
}

/// A version text splits at its dots into the three numbers' texts.
proof fn lemma_version_text_fields(a: nat, b: nat, c: nat)
    ensures
        dot_fields(version_text(a, b, c)) == seq![decimal(a), decimal(b), decimal(c)],
{
    lemma_decimal(a);
    lemma_decimal(b);
    lemma_decimal(c);
    let (da, db, dc) = (decimal(a), decimal(b), decimal(c));
    let e = Seq::<char>::empty();
    let tail_c = seq!['.'] + dc;
    let tail_b = seq!['.'] + (db + tail_c);
    assert(version_text(a, b, c) =~= da + tail_b);
    lemma_split_dot_free(e, da, tail_b);
    assert(e + da =~= da);
    assert(tail_b.drop_first() =~= db + tail_c);
    lemma_split_dot_free(e, db, tail_c);
    assert(e + db =~= db);
    assert(tail_c.drop_first() =~= dc);
    lemma_split_dot_free(e, dc, e);
    assert(e + dc =~= dc);
    assert(dc + e =~= dc);
    assert(split_from(da, tail_b) == seq![da] + split_from(e, db + tail_c));
    assert(split_from(db, tail_c) == seq![db] + split_from(e, dc));
    assert(split_from(dc, e) == seq![dc]);
    assert(seq![da] + (seq![db] + seq![dc]) =~= seq![da, db, dc]);
}

/// The `(major, minor, patch)` triple read from a version text is the three
/// numbers it was written from.
pub proof fn lemma_semver_reads_numbers(a: nat, b: nat, c: nat)
    requires
        a <= u64::MAX,
        b <= u64::MAX,
        c <= u64::MAX,
    ensures
        semver(version_text(a, b, c)) == (a as u64, b as u64, c as u64),
{
    lemma_version_text_fields(a, b, c);
    lemma_field_of_decimal(a);
    lemma_field_of_decimal(b);
    lemma_field_of_decimal(c);
}

/// Missing fields count as zero: `a.b` reads as `a.b.0`, and `a` as `a.0.0`,
/// so `1.2` and `1.2.0` are the same version and `1.2.1` is newer than both.
pub proof fn lemma_missing_fields_are_zero(a: nat, b: nat)
    requires
        a <= u64::MAX,
        b <= u64::MAX,
    ensures
        semver(decimal(a) + seq!['.'] + decimal(b)) == (a as u64, b as u64, 0u64),
        semver(decimal(a)) == (a as u64, 0u64, 0u64),
{
    lemma_decimal(a);
    lemma_decimal(b);
    lemma_field_of_decimal(a);
    lemma_field_of_decimal(b);
    let (da, db) = (decimal(a), decimal(b));
    let e = Seq::<char>::empty();
    let tail_b = seq!['.'] + db;
    assert(da + seq!['.'] + db =~= da + tail_b);
    lemma_split_dot_free(e, da, tail_b);
    assert(e + da =~= da);
    assert(tail_b.drop_first() =~= db);
    lemma_split_dot_free(e, db, e);
    assert(e + db =~= db);
    assert(db + e =~= db);
    assert(split_from(da, tail_b) == seq![da] + split_from(e, db));
    assert(split_from(db, e) == seq![db]);
    assert(dot_fields(da + tail_b) =~= seq![da, db]);
    lemma_split_dot_free(e, da, e);
    assert(da + e =~= da);
    assert(split_from(da, e) == seq![da]);
    assert(dot_fields(da) =~= seq![da]);
}

/// Versions compare by their numbers, field by field, not as text: release
/// `x.y.z` is newer than `a.b.c` exactly when its major number is larger, or
/// the majors agree and its minor number is larger, or both agree and its
/// patch number is larger. So `0.14.10` is newer than `0.14.9`, and `0.10.0`
/// newer than `0.9.0`.
pub proof fn lemma_newer_compares_numbers(a: nat, b: nat, c: nat, x: nat, y: nat, z: nat)
    requires
        a <= u64::MAX,
        b <= u64::MAX,
        c <= u64::MAX,
        x <= u64::MAX,
        y <= u64::MAX,
        z <= u64::MAX,
    ensures
        newer(version_text(a, b, c), version_text(x, y, z)) <==> (a < x || (a == x && (b < y || (
        b == y && c < z)))),
{
    lemma_semver_reads_numbers(a, b, c);
    lemma_semver_reads_numbers(x, y, z);
}

/// The release-asset slug for a platform, matching the published file names;
/// `None` where no binary is published.
pub open spec fn slug_for(os: Seq<char>, arch: Seq<char>) -> Option<Seq<char>> {
    if os == "linux"@ && arch == "x86_64"@ {
        Some("linux-x86_64"@)
    } else if os == "linux"@ && arch == "aarch64"@ {
        Some("linux-aarch64"@)
    } else if os == "macos"@ && arch == "aarch64"@ {
        Some("macos-arm64"@)
    } else if os == "macos"@ && arch == "x86_64"@ {
        Some("macos-x86_64"@)
    } else if os == "windows"@ && arch == "x86_64"@ {
        Some("windows-x86_64"@)
    } else {
        None
    }
}

/// Release-asset slug for the platform `os`/`arch` (as `std::env::consts`
/// names them), e.g. `linux-x86_64`; `None` if no binary is published for it.
pub fn asset_slug_for(os: &str, arch: &str) -> (r: Option<&'static str>)
    ensures
        match r {
            Some(s) => slug_for(os@, arch@) == Some(s@),
            None => slug_for(os@, arch@) is None,
        },
{
    let o = chars_of(os);
    let a = chars_of(arch);
    let linux = seq_eq(&o, &chars_of("linux"));
    let macos = seq_eq(&o, &chars_of("macos"));
    let windows = seq_eq(&o, &chars_of("windows"));
    let x86 = seq_eq(&a, &chars_of("x86_64"));
    let arm = seq_eq(&a, &chars_of("aarch64"));
    if linux && x86 {
        Some("linux-x86_64")
    } else if linux && arm {
        Some("linux-aarch64")
    } else if macos && arm {
        Some("macos-arm64")
    } else if macos && x86 {
        Some("macos-x86_64")
    } else if windows && x86 {
        Some("windows-x86_64")
    } else {
        None
    }
}

/// `(release asset, binary name inside the archive)` for binary `name` on
/// platform `slug`: a zip holding `name.exe` on Windows, else a gzipped tar
/// holding `name`.
pub fn asset_for(name: &str, slug: &str, windows: bool) -> (r: (String, String))
    ensures
        windows ==> r.0@ == name@ + "-"@ + slug@ + ".zip"@ && r.1@ == name@ + ".exe"@,
        !windows ==> r.0@ == name@ + "-"@ + slug@ + ".tar.gz"@ && r.1@ == name@,
{
    let mut asset = String::from_str(name);
    asset.append("-");
    asset.append(slug);
    if windows {
        asset.append(".zip");
        let mut bin = String::from_str(name);
        bin.append(".exe");
        (asset, bin)
    } else {
        asset.append(".tar.gz");
        (asset, String::from_str(name))
    }
}

/// Why a release archive gave no binary.
#[derive(Clone, Copy, Debug, PartialEq, Eq, Structural)]
pub enum ExtractError {
    /// The archive could not be read: not of the expected format, or damaged.
    Unreadable,
    /// The archive holds no file of the wanted name.
    Missing,
}

/// The entries of a gzipped tar archive, as read in archive order: each one's
/// file name (`None` where its path ends in no UTF-8 file name) and contents.
pub struct TarListing {
    pub names: Vec<Option<String>>,
    pub contents: Vec<Vec<u8>>,
    /// Whether reading reached the end of the archive; false where it stopped
    /// at an entry that could not be read.
    pub complete: bool,
}

/// An optional string by its characters.
pub open spec fn opt_chars(n: Option<String>) -> Option<Seq<char>> {
    match n {
        Some(s) => Some(s@),
        None => None,
    }
}

impl View for TarListing {
    type V = (Seq<Option<Seq<char>>>, Seq<Seq<u8>>, bool);

    open spec fn view(&self) -> (Seq<Option<Seq<char>>>, Seq<Seq<u8>>, bool) {
        (
            self.names@.map_values(|n: Option<String>| opt_chars(n)),
            self.contents@.map_values(|c: Vec<u8>| c@),
            self.complete,
        )
    }
}

/// What reading the gzipped tar archive `bytes` entry by entry yields (the
/// `tar` crate over `flate2`'s decoder): names, contents, and whether the end
/// was reached.
pub uninterp spec fn tar_gz_entries(bytes: Seq<u8>) -> (Seq<Option<Seq<char>>>, Seq<Seq<u8>>, bool);

/// What the `zip` crate gives for the member `name` of the zip archive `bytes`.
pub uninterp spec fn zip_member(bytes: Seq<u8>, name: Seq<char>) -> Result<Seq<u8>, ExtractError>;

/// A byte-vector result by its bytes.
pub open spec fn bytes_result(r: Result<Vec<u8>, ExtractError>) -> Result<Seq<u8>, ExtractError> {
    match r {
        Ok(v) => Ok(v@),
        Err(e) => Err(e),
    }
}

/// The contents of the first entry named `name` in a listing; where none is,
/// `Missing` if the whole archive was read, else `Unreadable`.
pub open spec fn tar_member(
    names: Seq<Option<Seq<char>>>,
    contents: Seq<Seq<u8>>,
    complete: bool,
    name: Seq<char>,
) -> Result<Seq<u8>, ExtractError>
    decreases names.len(),
{
    if names.len() == 0 {
        if complete {
            Err(ExtractError::Missing)
        } else {
            Err(ExtractError::Unreadable)
        }
    } else if names[0] == Some(name) {
        Ok(contents[0])
    } else {
        tar_member(names.drop_first(), contents.drop_first(), complete, name)
    }
}

/// Reads every entry of the gzipped tar archive `bytes` with `tar::Archive`
/// over `flate2::read::GzDecoder`, in order, until the end or the first entry
/// whose header, path or contents cannot be read. The contract names the
/// listing; it states nothing of what the crates decode.
#[verifier::external_body]
fn tar_gz_listing(bytes: &[u8]) -> (r: TarListing)
    ensures
        r@ == tar_gz_entries(bytes@),
        r.names@.len() == r.contents@.len(),
{
    let mut archive = tar::Archive::new(flate2::read::GzDecoder::new(bytes));
    let mut out = TarListing { names: Vec::new(), contents: Vec::new(), complete: false };
    let Ok(entries) = archive.entries() else { return out };
    for entry in entries {
        let Ok(mut entry) = entry else { return out };
        let Ok(name) = entry.path().map(|p| p.file_name().and_then(|n| n.to_str()).map(String::from)) else { return out };
        let mut data = Vec::new();
        let Ok(_) = std::io::Read::read_to_end(&mut entry, &mut data) else { return out };
        out.names.push(name);
        out.contents.push(data);
    }
    out.complete = true;
    out
}

/// Opens `bytes` with `zip::ZipArchive` and reads its member `name`
/// (`ZipArchive::by_name`): `Missing` where the crate reports no such file,
/// `Unreadable` on any other error. The contract names the result.
#[verifier::external_body]
fn zip_listed_member(bytes: &[u8], name: &str) -> (r: Result<Vec<u8>, ExtractError>)
    ensures
        bytes_result(r) == zip_member(bytes@, name@),
{
    let Ok(mut archive) = zip::ZipArchive::new(std::io::Cursor::new(bytes)) else {
        return Err(ExtractError::Unreadable);
    };
    let mut file = match archive.by_name(name) {
        Ok(f) => f,
        Err(zip::result::ZipError::FileNotFound) => return Err(ExtractError::Missing),
        Err(_) => return Err(ExtractError::Unreadable),
    };
    let mut data = Vec::new();
    match std::io::Read::read_to_end(&mut file, &mut data) {
        Ok(_) => Ok(data),
        Err(_) => Err(ExtractError::Unreadable),
    }
}

/// The member `name` of a tar listing: the contents of its first entry named
/// `name`; where none is, `Missing` if the whole archive was read, else
/// `Unreadable`.
pub fn member_of(listing: TarListing, name: &str) -> (r: Result<Vec<u8>, ExtractError>)
    requires
        listing.names@.len() == listing.contents@.len(),
    ensures
        bytes_result(r) == tar_member(listing@.0, listing@.1, listing@.2, name@),
{
    let ghost names = listing@.0;
    let ghost contents = listing@.1;
    let want = chars_of(name);
    let TarListing { names: entry_names, contents: mut entry_contents, complete } = listing;
    let mut i: usize = 0;
    assert(names.skip(0) =~= names);
    assert(contents.skip(0) =~= contents);
    while i < entry_names.len()
        invariant
            i <= entry_names.len(),
            entry_names.len() == entry_contents.len(),
            want@ == name@,
            names == listing@.0,
            contents == listing@.1,
            complete == listing@.2,
            names == entry_names@.map_values(|n: Option<String>| opt_chars(n)),
            contents == entry_contents@.map_values(|c: Vec<u8>| c@),
            tar_member(names, contents, complete, name@) == tar_member(
                names.skip(i as int),
                contents.skip(i as int),
                complete,
                name@,
            ),
        decreases entry_names.len() - i,
    {
        let hit = match &entry_names[i] {
            Some(n) => seq_eq(&chars_of(n.as_str()), &want),
            None => false,
        };
        assert(names.skip(i as int)[0] == names[i as int]);
        assert(names[i as int] == opt_chars(entry_names@[i as int]));
        if hit {
            assert(names.skip(i as int)[0] == Some(name@));
            assert(contents.skip(i as int)[0] == entry_contents@[i as int]@);
            let data = entry_contents.remove(i);
            assert(bytes_result(Ok(data)) == tar_member(
                names.skip(i as int),
                contents.skip(i as int),
                complete,
                name@,
            ));
            return Ok(data);
        }
        assert(names.skip(i as int).drop_first() =~= names.skip(i + 1));
        assert(contents.skip(i as int).drop_first() =~= contents.skip(i + 1));
        i = i + 1;
    }
    if complete {
        Err(ExtractError::Missing)
    } else {
        Err(ExtractError::Unreadable)
    }
}

/// The binary `name` out of a downloaded release archive: on Windows the
/// member `name` of a zip, elsewhere the first entry named `name` of a
/// gzipped tar.
pub fn extract(bytes: &[u8], name: &str, windows: bool) -> (r: Result<Vec<u8>, ExtractError>)
    ensures
        windows ==> bytes_result(r) == zip_member(bytes@, name@),
        !windows ==> bytes_result(r) == {
            let l = tar_gz_entries(bytes@);
            tar_member(l.0, l.1, l.2, name@)
        },
{
    if windows {
        zip_listed_member(bytes, name)
    } else {
        member_of(tar_gz_listing(bytes), name)
    }
}

} // verus!
