//! Docmost server versions and the capabilities gated on them.
//!
//! The server version decides whether a REST page-body update is applied:
//! Docmost added it in v0.70.0. An unknown version yields the conservative
//! capability set, so no tool claims a capability the server may lack.

use vstd::prelude::*;
use crate::text::{chars_of, find_in, find_char, trim_range, trim, trim_start, trim_end, strip_leading,
    strip_trailing, decimal, digit_char, is_ws};

verus! {

/// A parsed `major.minor.patch` Docmost server version.
#[derive(Debug, Clone, Copy, PartialEq, Eq, PartialOrd, Ord, Hash)]
pub struct ServerVersion {
    pub major: u32,
    pub minor: u32,
    pub patch: u32,
}

/// Version-gated server capabilities.
#[derive(Debug, Clone, Copy, PartialEq, Eq)]
pub struct Capabilities {
    /// Whether `POST /api/pages/update` with a `content` body persists the body.
    pub rest_page_body_update: bool,
}

/// The `{ currentVersion }` payload of `POST /api/version`.
#[derive(Debug, Clone, PartialEq, Eq)]
pub struct VersionResponse {
    pub current_version: Option<String>,
}

/// Numeric, component-wise ordering of versions (`a <= b`).
pub open spec fn version_le(a: ServerVersion, b: ServerVersion) -> bool {
    ||| a.major < b.major
    ||| a.major == b.major && a.minor < b.minor
    ||| a.major == b.major && a.minor == b.minor && a.patch <= b.patch
}

/// The first version with REST page-body updates: 0.70.0.
pub open spec fn spec_rest_page_body_update_min() -> ServerVersion {
    ServerVersion { major: 0, minor: 70, patch: 0 }
}

/// The oldest version this project targets: 0.22.0.
pub open spec fn spec_min_supported_version() -> ServerVersion {
    ServerVersion { major: 0, minor: 22, patch: 0 }
}

pub open spec fn is_ascii_digit(c: char) -> bool {
    '0' <= c <= '9'
}

pub open spec fn digits_value(s: Seq<char>) -> nat
    decreases s.len(),
{
    if s.len() == 0 {
        0
    } else {
        digits_value(s.drop_last()) * 10 + ((s.last() as u32) - 48) as nat
    }
}

pub open spec fn all_digits(t: Seq<char>) -> bool {
    forall|i: int| 0 <= i < t.len() ==> is_ascii_digit(#[trigger] t[i])
}

/// What `str::parse::<u32>` returns (as an `Option`): an optional `+`, then one
/// or more ASCII digits whose value fits in 32 bits.
pub open spec fn parse_u32(s: Seq<char>) -> Option<u32> {
    let t = if s.len() > 0 && s[0] == '+' {
        s.drop_first()
    } else {
        s
    };
    if t.len() > 0 && all_digits(t) && digits_value(t) <= u32::MAX {
        Some(digits_value(t) as u32)
    } else {
        None
    }
}

/// Index of the first `-` or `+` in `s`, or `s.len()`.
pub open spec fn find_sign(s: Seq<char>) -> int
    decreases s.len(),
{
    if s.len() == 0 {
        0
    } else if s[0] == '-' || s[0] == '+' {
        0
    } else {
        1 + find_sign(s.drop_first())
    }
}

/// The `n`-th `.`-separated field of `s`, if `s` has that many.
pub open spec fn dot_field(s: Seq<char>, n: nat) -> Option<Seq<char>>
    decreases s.len(), n,
{
    let k = find_char(s, '.');
    if n == 0 {
        Some(s.take(k))
    } else if 0 <= k < s.len() {
        dot_field(s.skip(k + 1), (n - 1) as nat)
    } else {
        None
    }
}

/// The version text that is split into fields: trimmed, leading `v`s dropped,
/// cut at the first `-` or `+`, and stripped of surrounding `"`.
pub open spec fn version_core(raw: Seq<char>) -> Seq<char> {
    let s = strip_leading(trim(raw), 'v');
    strip_trailing(strip_leading(s.take(find_sign(s)), '"'), '"')
}

/// The parse of `raw`: major and minor must parse; a missing or unreadable
/// patch is 0.
pub open spec fn spec_parse_version(raw: Seq<char>) -> Option<ServerVersion> {
    let core = version_core(raw);
    let major = dot_field(core, 0).unwrap();
    match (parse_u32(major), dot_field(core, 1)) {
        (Some(ma), Some(minor)) => match parse_u32(minor) {
            Some(mi) => Some(
                ServerVersion {
                    major: ma,
                    minor: mi,
                    patch: match dot_field(core, 2) {
                        Some(p) => match parse_u32(p) {
                            Some(pa) => pa,
                            None => 0,
                        },
                        None => 0,
                    },
                },
            ),
            None => None,
        },
        _ => None,
    }
}

pub proof fn lemma_find_sign_bounds(s: Seq<char>)
    ensures
        0 <= find_sign(s) <= s.len(),
    decreases s.len(),
{
    if s.len() > 0 && s[0] != '-' && s[0] != '+' {
        lemma_find_sign_bounds(s.drop_first());
    }
}

fn find_sign_in(v: &Vec<char>, from: usize, to: usize) -> (k: usize)
    requires
        from <= to <= v@.len(),
    ensures
        from <= k <= to,
        k == from + find_sign(v@.subrange(from as int, to as int)),
{
    let mut k = from;
    while k < to && v[k] != '-' && v[k] != '+'
        invariant
            from <= k <= to <= v@.len(),
            find_sign(v@.subrange(from as int, to as int)) == (k - from) + find_sign(
                v@.subrange(k as int, to as int),
            ),
        decreases to - k,
    {
        assert(v@.subrange(k as int, to as int).drop_first() == v@.subrange(k + 1, to as int));
        k += 1;
    }
    if k < to {
        assert(v@.subrange(k as int, to as int)[0] == v@[k as int]);
    }
    k
}

proof fn lemma_digits_value_push(s: Seq<char>, c: char)
    ensures
        digits_value(s.push(c)) == digits_value(s) * 10 + ((c as u32) - 48) as nat,
{
    assert(s.push(c).drop_last() == s);
}

/// `v[from..to].parse::<u32>().ok()`.
pub(crate) fn parse_u32_range(v: &Vec<char>, from: usize, to: usize) -> (r: Option<u32>)
    requires
        from <= to <= v@.len(),
    ensures
        r == parse_u32(v@.subrange(from as int, to as int)),
{
    let ghost s = v@.subrange(from as int, to as int);
    let mut a = from;
    if a < to && v[a] == '+' {
        a += 1;
        assert(s.drop_first() == v@.subrange(a as int, to as int));
    }
    let ghost t = v@.subrange(a as int, to as int);
    assert(t == (if s.len() > 0 && s[0] == '+' { s.drop_first() } else { s }));
    if a == to {
        return None;
    }
    let mut value: u32 = 0;
    let mut i = a;
    while i < to
        invariant
            a <= i <= to <= v@.len(),
            a < to,
            t == v@.subrange(a as int, to as int),
            s == v@.subrange(from as int, to as int),
            t == (if s.len() > 0 && s[0] == '+' { s.drop_first() } else { s }),
            forall|j: int| 0 <= j < i - a ==> is_ascii_digit(#[trigger] t[j]),
            value as nat == digits_value(t.take(i - a)),
            value <= u32::MAX,
            value as nat == digits_value(t.take(i - a)),
        decreases to - i,
    {
        let c = v[i];
        if !('0' <= c && c <= '9') {
            assert(!is_ascii_digit(t[i - a]));
            assert(!all_digits(t));
            return None;
        }
        let d: u32 = (c as u32) - 48;
        proof {
            assert(t.take(i - a + 1) == t.take(i - a).push(c));
            lemma_digits_value_push(t.take(i - a), c);
        }
        match value.checked_mul(10) {
            Some(m) => match m.checked_add(d) {
                Some(n) => {
                    value = n;
                },
                None => {
                    proof { if all_digits(t) { lemma_digits_monotone(t, i - a + 1); } }
                    return None;
                },
            },
            None => {
                proof { if all_digits(t) { lemma_digits_monotone(t, i - a + 1); } }
                return None;
            },
        }
        i += 1;
    }
    assert(t.take(t.len() as int) == t);
    Some(value)
}

/// Digit values only grow as more digits are read.
proof fn lemma_digits_monotone(t: Seq<char>, n: int)
    requires
        0 <= n <= t.len(),
        all_digits(t),
    ensures
        digits_value(t.take(n)) <= digits_value(t),
    decreases t.len() - n,
{
    if n < t.len() {
        lemma_digits_monotone(t, n + 1);
        assert(t.take(n + 1).drop_last() == t.take(n));
        assert(is_ascii_digit(t[n]));
    } else {
        assert(t.take(n) == t);
    }
}

impl ServerVersion {
    pub fn new(major: u32, minor: u32, patch: u32) -> (v: Self)
        ensures
            v == (ServerVersion { major, minor, patch }),
    {
        ServerVersion { major, minor, patch }
    }

    /// Parses `"0.25.3"`, ignoring surrounding whitespace, leading `v`s, quotes
    /// and any pre-release or build suffix; `None` when major or minor is
    /// unreadable.
    pub fn parse(raw: &str) -> (r: Option<Self>)
        ensures
            r == spec_parse_version(raw@),
    {
        let v = chars_of(raw);
        let (a0, b) = trim_range(&v, 0, v.len());
        assert(v@.subrange(0, v@.len() as int) == v@);
        let mut a = a0;
        while a < b && v[a] == 'v'
            invariant
                a0 <= a <= b <= v@.len(),
                strip_leading(trim(raw@), 'v') == strip_leading(
                    v@.subrange(a as int, b as int),
                    'v',
                ),
            decreases b - a,
        {
            assert(v@.subrange(a as int, b as int).drop_first() == v@.subrange(a + 1, b as int));
            a += 1;
        }
        proof {
            if a < b {
                assert(v@.subrange(a as int, b as int)[0] == v@[a as int]);
            }
        }
        let ghost s = v@.subrange(a as int, b as int);
        assert(s == strip_leading(trim(raw@), 'v'));
        let e0 = find_sign_in(&v, a, b);
        proof {
            lemma_find_sign_bounds(s);
            assert(s.take(find_sign(s)) == v@.subrange(a as int, e0 as int));
        }
        let a1 = a;
        while a < e0 && v[a] == '"'
            invariant
                a1 <= a <= e0 <= b,
                b <= v@.len(),
                strip_leading(s.take(find_sign(s)), '"') == strip_leading(
                    v@.subrange(a as int, e0 as int),
                    '"',
                ),
            decreases e0 - a,
        {
            assert(v@.subrange(a as int, e0 as int).drop_first() == v@.subrange(a + 1, e0 as int));
            a += 1;
        }
        proof {
            if a < e0 {
                assert(v@.subrange(a as int, e0 as int)[0] == v@[a as int]);
            }
        }
        let mut e = e0;
        while e > a && v[e - 1] == '"'
            invariant
                a <= e <= e0 <= b,
                b <= v@.len(),
                strip_leading(s.take(find_sign(s)), '"') == v@.subrange(a as int, e0 as int) || v@[a as int] != '"' || a == e0,
                strip_trailing(v@.subrange(a as int, e0 as int), '"') == strip_trailing(
                    v@.subrange(a as int, e as int),
                    '"',
                ),
            decreases e - a,
        {
            assert(v@.subrange(a as int, e as int).drop_last() == v@.subrange(a as int, e - 1));
            e -= 1;
        }
        proof {
            if e > a {
                assert(v@.subrange(a as int, e as int).last() == v@[e - 1]);
            }
        }
        let ghost core = v@.subrange(a as int, e as int);
        assert(core == version_core(raw@));
        self::parse_fields(&v, a, e)
    }

    /// `major.minor.patch`, as `Display` writes it.
    pub fn to_version_string(&self) -> (s: String)
        ensures
            s@ == crate::text::decimal(self.major as nat) + seq!['.'] + crate::text::decimal(
                self.minor as nat,
            ) + seq!['.'] + crate::text::decimal(self.patch as nat),
    {
        let mut s = crate::text::decimal_string(self.major as u64);
        crate::text::push_char(&mut s, '.');
        let m = crate::text::decimal_string(self.minor as u64);
        s.append(m.as_str());
        crate::text::push_char(&mut s, '.');
        let p = crate::text::decimal_string(self.patch as u64);
        s.append(p.as_str());
        s
    }
}

proof fn lemma_dot_field_step(s: Seq<char>, n: nat)
    requires
        n > 0,
    ensures
        dot_field(s, n) == (if find_char(s, '.') < s.len() {
            dot_field(s.skip(find_char(s, '.') + 1), (n - 1) as nat)
        } else {
            None
        }),
{
    crate::text::lemma_find_char_bounds(s, '.');
}

fn parse_fields(v: &Vec<char>, a: usize, e: usize) -> (r: Option<ServerVersion>)
    requires
        a <= e <= v@.len(),
    ensures
        r == spec_parse_version_fields(v@.subrange(a as int, e as int)),
{
    let ghost core = v@.subrange(a as int, e as int);
    let d1 = find_in(v, a, e, '.');
    proof {
        crate::text::lemma_find_char_bounds(core, '.');
        assert(core.take(find_char(core, '.')) == v@.subrange(a as int, d1 as int));
    }
    let major = parse_u32_range(v, a, d1);
    if d1 == e {
        proof { lemma_dot_field_step(core, 1); }
        return None;
    }
    let ghost rest1 = core.skip(d1 - a + 1);
    assert(rest1 == v@.subrange(d1 + 1, e as int));
    proof { lemma_dot_field_step(core, 1); lemma_dot_field_step(core, 2); }
    let d2 = find_in(v, d1 + 1, e, '.');
    proof {
        crate::text::lemma_find_char_bounds(rest1, '.');
        assert(rest1.take(find_char(rest1, '.')) == v@.subrange(d1 + 1, d2 as int));
    }
    let minor = parse_u32_range(v, d1 + 1, d2);
    let patch: u32 = if d2 == e {
        0
    } else {
        let ghost rest2 = rest1.skip(d2 - d1);
        assert(rest2 == v@.subrange(d2 + 1, e as int));
        proof { lemma_dot_field_step(rest1, 1); }
        let d3 = find_in(v, d2 + 1, e, '.');
        proof {
            crate::text::lemma_find_char_bounds(rest2, '.');
            assert(rest2.take(find_char(rest2, '.')) == v@.subrange(d2 + 1, d3 as int));
        }
        match parse_u32_range(v, d2 + 1, d3) {
            Some(p) => p,
            None => 0,
        }
    };
    match (major, minor) {
        (Some(ma), Some(mi)) => Some(ServerVersion { major: ma, minor: mi, patch }),
        _ => None,
    }
}

/// `spec_parse_version` once the core text is known.
pub open spec fn spec_parse_version_fields(core: Seq<char>) -> Option<ServerVersion> {
    let major = dot_field(core, 0).unwrap();
    match (parse_u32(major), dot_field(core, 1)) {
        (Some(ma), Some(minor)) => match parse_u32(minor) {
            Some(mi) => Some(
                ServerVersion {
                    major: ma,
                    minor: mi,
                    patch: match dot_field(core, 2) {
                        Some(p) => match parse_u32(p) {
                            Some(pa) => pa,
                            None => 0,
                        },
                        None => 0,
                    },
                },
            ),
            None => None,
        },
        _ => None,
    }
}

impl Capabilities {
    /// Capabilities of a detected version; an unknown version gets none.
    pub fn for_version(version: Option<ServerVersion>) -> (c: Self)
        ensures
            c.rest_page_body_update == (version is Some && version_le(
                spec_rest_page_body_update_min(),
                version.unwrap(),
            )),
    {
        let min = rest_page_body_update_min();
        let ok = match version {
            Some(v) => version_at_least(v, min),
            None => false,
        };
        Capabilities { rest_page_body_update: ok }
    }
}

/// The first version with REST page-body updates: 0.70.0.
pub fn rest_page_body_update_min() -> (v: ServerVersion)
    ensures
        v == spec_rest_page_body_update_min(),
{
    ServerVersion { major: 0, minor: 70, patch: 0 }
}

/// The oldest version this project targets: 0.22.0.
pub fn min_supported_version() -> (v: ServerVersion)
    ensures
        v == spec_min_supported_version(),
{
    ServerVersion { major: 0, minor: 22, patch: 0 }
}

/// `v >= min`, comparing components numerically.
pub fn version_at_least(v: ServerVersion, min: ServerVersion) -> (b: bool)
    ensures
        b == version_le(min, v),
{
    if v.major != min.major {
        v.major > min.major
    } else if v.minor != min.minor {
        v.minor > min.minor
    } else {
        v.patch >= min.patch
    }
}

/// Decimal digits are ASCII digits, at least one, and read back as the
/// number.
proof fn lemma_decimal_reads_back(n: nat)
    ensures
        decimal(n).len() >= 1,
        all_digits(decimal(n)),
        digits_value(decimal(n)) == n,
    decreases n,
{
    if n < 10 {
        lemma_digits_value_push(Seq::<char>::empty(), digit_char(n));
        assert(Seq::<char>::empty().push(digit_char(n)) =~= seq![digit_char(n)]);
        assert(digits_value(Seq::<char>::empty()) == 0);
    } else {
        lemma_decimal_reads_back(n / 10);
        let d = decimal(n / 10);
        lemma_digits_value_push(d, digit_char(n % 10));
        assert forall|i: int| 0 <= i < decimal(n).len() implies is_ascii_digit(
            #[trigger] decimal(n)[i],
        ) by {
            if i < d.len() {
                assert(decimal(n)[i] == d[i]);
            }
        }
    }
}

/// Finding `c` past a stretch without it.
proof fn lemma_find_char_past(s: Seq<char>, t: Seq<char>, c: char)
    requires
        forall|i: int| 0 <= i < s.len() ==> s[i] != c,
    ensures
        find_char(s + t, c) == s.len() + find_char(t, c),
    decreases s.len(),
{
    if s.len() > 0 {
        assert((s + t).drop_first() =~= s.drop_first() + t);
        lemma_find_char_past(s.drop_first(), t, c);
    } else {
        assert(s + t =~= t);
    }
}

/// A text without `-` or `+` has no sign to cut at.
proof fn lemma_no_sign(s: Seq<char>)
    requires
        forall|i: int| 0 <= i < s.len() ==> s[i] != '-' && s[i] != '+',
    ensures
        find_sign(s) == s.len(),
    decreases s.len(),
{
    if s.len() > 0 {
        lemma_no_sign(s.drop_first());
    }
}

/// The field after the first `.` of `a.rest`, when `a` has no `.`.
proof fn lemma_dot_fields(a: Seq<char>, rest: Seq<char>, n: nat)
    requires
        forall|i: int| 0 <= i < a.len() ==> a[i] != '.',
    ensures
        dot_field(a + seq!['.'] + rest, 0) == Some(a),
        dot_field(a + seq!['.'] + rest, n + 1) == dot_field(rest, n),
{
    let t = a + seq!['.'] + rest;
    lemma_find_char_past(a, seq!['.'] + rest, '.');
    assert(t =~= a + (seq!['.'] + rest));
    assert(find_char(seq!['.'] + rest, '.') == 0);
    assert(find_char(t, '.') == a.len());
    assert(t.take(a.len() as int) =~= a);
    lemma_dot_field_step(t, n + 1);
    assert(t.skip(a.len() as int + 1) =~= rest);
}

/// The version text of `v` (`major.minor.patch`, as `to_version_string`
/// writes it) parses back to `v`.
pub proof fn law_version_text_round_trip(v: ServerVersion)
    ensures
        spec_parse_version(
            decimal(v.major as nat) + seq!['.'] + decimal(v.minor as nat) + seq!['.'] + decimal(
                v.patch as nat,
            ),
        ) == Some(v),
{
    let da = decimal(v.major as nat);
    let di = decimal(v.minor as nat);
    let dp = decimal(v.patch as nat);
    lemma_decimal_reads_back(v.major as nat);
    lemma_decimal_reads_back(v.minor as nat);
    lemma_decimal_reads_back(v.patch as nat);
    let tail = di + seq!['.'] + dp;
    let t = da + seq!['.'] + tail;
    assert(t =~= da + seq!['.'] + di + seq!['.'] + dp);
    // every character is a digit or a dot
    assert forall|i: int| 0 <= i < t.len() implies is_ascii_digit(#[trigger] t[i]) || t[i] == '.' by {
        if i < da.len() {
            assert(t[i] == da[i]);
        } else if i == da.len() {
        } else if i < da.len() + 1 + di.len() {
            assert(t[i] == di[i - da.len() - 1]);
        } else if i == da.len() + 1 + di.len() {
        } else {
            assert(t[i] == dp[i - da.len() - 2 - di.len()]);
        }
    }
    assert(is_ascii_digit(t[0]));
    assert(t.last() == dp.last());
    assert(is_ascii_digit(dp[dp.len() - 1]));
    assert(!is_ws(t[0]));
    assert(!is_ws(t.last()));
    assert(trim_start(t) == t);
    assert(trim_end(t) == t);
    assert(trim(t) == t);
    assert(strip_leading(t, 'v') == t);
    lemma_no_sign(t);
    assert(t.take(find_sign(t)) =~= t);
    assert(strip_leading(t, '"') == t);
    assert(strip_trailing(t, '"') == t);
    assert(version_core(t) == t);
    // the three fields
    lemma_dot_fields(da, tail, 0);
    lemma_dot_fields(da, tail, 1);
    lemma_dot_fields(di, dp, 0);
    assert(dot_field(dp, 0) == Some(dp)) by {
        let k = find_char(dp, '.');
        lemma_find_char_past(dp, Seq::<char>::empty(), '.');
        assert(dp + Seq::<char>::empty() =~= dp);
        assert(dp.take(dp.len() as int) =~= dp);
    }
    assert(dot_field(t, 0) == Some(da));
    assert(dot_field(t, 1) == Some(di));
    assert(dot_field(t, 2) == Some(dp));
    assert(parse_u32(da) == Some(v.major));
    assert(parse_u32(di) == Some(v.minor));
    assert(parse_u32(dp) == Some(v.patch));
}

} // verus!
