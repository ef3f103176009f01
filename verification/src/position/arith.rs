//! Base-62 digit-string arithmetic on keys: padding, addition, subtraction,
//! encoding and decoding of numbers, and the lexical distance and midpoint
//! of two keys.

use vstd::prelude::*;
use vstd::arithmetic::div_mod::{lemma_fundamental_div_mod_converse, lemma_div_denominator};
use super::base62::{b62, lex_lt, chr, digits, fill, is_b62, lemma_digits_mod, lemma_digits_prepend,
    lemma_digits_shape, lemma_num_concat, lemma_num_fill_zero, lemma_num_prepend, lemma_pow62_pos,
    num, pow62, val};

verus! {

/// Keys this module computes on are at most 2^26 characters long. A head of
/// `n` characters denotes an integer of up to `52 * n + 126` characters,
/// and that length is taken as a `usize`; this bound keeps it below 2^32,
/// so that it fits a 32-bit `usize` as well (Verus admits both widths).
pub open spec fn key_len_ok(s: Seq<char>) -> bool {
    s.len() <= 0x0400_0000
}

/// Length bound on keys whose integer part is incremented or decremented:
/// the heads derived on the way stay within `key_len_ok`.
pub open spec fn input_len_ok(s: Seq<char>) -> bool {
    s.len() <= 0x0400_0000 - 2
}

pub open spec fn max_len(a: Seq<char>, b: Seq<char>) -> nat {
    if a.len() >= b.len() {
        a.len()
    } else {
        b.len()
    }
}

/// `s` padded to width `w` with `c`, in front or behind.
pub open spec fn pad(s: Seq<char>, w: nat, at_start: bool, c: char) -> Seq<char> {
    if s.len() >= w {
        s
    } else if at_start {
        fill(c, (w - s.len()) as nat) + s
    } else {
        s + fill(c, (w - s.len()) as nat)
    }
}

/// Sum of two keys as base-62 numbers, at the width of the wider one, with
/// one more leading digit when the sum carries out.
pub open spec fn spec_add_keys(a: Seq<char>, b: Seq<char>) -> Seq<char> {
    let w = max_len(a, b);
    let n = num(a) + num(b);
    if n < pow62(w) {
        digits(n, w)
    } else {
        digits(n, w + 1)
    }
}

/// `s` without leading `'0'`s, keeping at least one character.
pub open spec fn strip_zeros(s: Seq<char>) -> Seq<char>
    decreases s.len(),
{
    if s.len() > 1 && s[0] == '0' {
        strip_zeros(s.drop_first())
    } else {
        s
    }
}

/// Difference of two keys at the width of the wider one; `None` when it
/// would be negative.
pub open spec fn spec_subtract_keys(a: Seq<char>, b: Seq<char>, strip: bool) -> Option<
    Seq<char>,
> {
    if num(a) < num(b) {
        None
    } else {
        let d = digits((num(a) - num(b)) as nat, max_len(a, b));
        Some(
            if strip {
                strip_zeros(d)
            } else {
                d
            },
        )
    }
}

/// The shortest base-62 digit string of `n` (`"0"` for zero).
pub open spec fn encode(n: nat) -> Seq<char>
    decreases n,
{
    if n < 62 {
        seq![chr(n as int)]
    } else {
        encode(n / 62).push(chr((n % 62) as int))
    }
}

/// Absolute difference of the two keys' values once both are padded with
/// `'0'` on the right to a common width.
pub open spec fn spec_lexical_distance(a: Seq<char>, b: Seq<char>) -> nat {
    let w = max_len(a, b);
    let x = num(pad(a, w, false, '0')) as int;
    let y = num(pad(b, w, false, '0')) as int;
    (if x >= y {
        x - y
    } else {
        y - x
    }) as nat
}

/// The key halfway between `lower` and `upper` (one digit longer when they
/// are adjacent).
pub open spec fn spec_mid_point(lower: Seq<char>, upper: Seq<char>) -> Seq<char> {
    let w = max_len(lower, upper);
    let pl = pad(lower, w, false, '0');
    let d = spec_lexical_distance(lower, upper);
    if d == 1 {
        spec_add_keys(pl.push('0'), encode(31))
    } else {
        spec_add_keys(pl, encode(d / 2))
    }
}

pub proof fn lemma_pad_shape(s: Seq<char>, w: nat, at_start: bool, c: char)
    requires
        b62(s),
        is_b62(c),
        s.len() <= w,
    ensures
        pad(s, w, at_start, c).len() == w,
        b62(pad(s, w, at_start, c)),
        c == '0' && at_start ==> num(pad(s, w, at_start, c)) == num(s),
        c == '0' && !at_start ==> num(pad(s, w, at_start, c)) == num(s) * pow62(
            (w - s.len()) as nat,
        ),
{
    let p = pad(s, w, at_start, c);
    let k = (w - s.len()) as nat;
    if s.len() < w {
        assert forall|i: int| 0 <= i < p.len() implies is_b62(#[trigger] p[i]) by {
            if at_start {
                if i >= k {
                    assert(p[i] == s[i - k]);
                }
            } else {
                if i < s.len() {
                    assert(p[i] == s[i]);
                }
            }
        }
        if c == '0' {
            lemma_num_fill_zero(k);
            if at_start {
                lemma_num_concat(fill(c, k), s);
                assert(0 * pow62(s.len()) == 0);
            } else {
                lemma_num_concat(s, fill(c, k));
            }
        }
    } else {
        assert(w - s.len() == 0);
        assert(num(s) * 1 == num(s));
    }
}

/// Digit value of a base-62 character, or -1.
pub fn val_of(c: char) -> (v: i64)
    ensures
        v == val(c),
{
    if '0' <= c && c <= '9' {
        (c as u32 - 48) as i64
    } else if 'A' <= c && c <= 'Z' {
        (c as u32 - 55) as i64
    } else if 'a' <= c && c <= 'z' {
        (c as u32 - 61) as i64
    } else {
        -1
    }
}

/// The base-62 character of digit value `i`.
pub fn chr_of(i: i64) -> (c: char)
    requires
        0 <= i < 62,
    ensures
        c == chr(i as int),
        val(c) == i,
        is_b62(c),
{
    let b: u8 = if i < 10 {
        (i + 48) as u8
    } else if i < 36 {
        (i + 55) as u8
    } else {
        (i + 61) as u8
    };
    b as char
}

/// `s` padded to width `w` with `c` in front or behind.
pub fn padded(s: &Vec<char>, w: usize, at_start: bool, c: char) -> (r: Vec<char>)
    ensures
        r@ == pad(s@, w as nat, at_start, c),
{
    if s.len() >= w {
        return s.clone();
    }
    let k = w - s.len();
    let mut r: Vec<char> = Vec::new();
    if !at_start {
        let mut i: usize = 0;
        while i < s.len()
            invariant
                0 <= i <= s@.len(),
                r@ == s@.take(i as int),
            decreases s@.len() - i,
        {
            r.push(s[i]);
            assert(s@.take(i + 1) == s@.take(i as int).push(s@[i as int]));
            i += 1;
        }
        assert(s@.take(s@.len() as int) == s@);
    }
    let ghost base = r@;
    let mut j: usize = 0;
    while j < k
        invariant
            0 <= j <= k,
            r@ == base + fill(c, j as nat),
        decreases k - j,
    {
        r.push(c);
        assert(fill(c, (j + 1) as nat) == fill(c, j as nat).push(c));
        j += 1;
    }
    if at_start {
        let mut i: usize = 0;
        let ghost front = r@;
        while i < s.len()
            invariant
                0 <= i <= s@.len(),
                r@ == front + s@.take(i as int),
            decreases s@.len() - i,
        {
            r.push(s[i]);
            assert(s@.take(i + 1) == s@.take(i as int).push(s@[i as int]));
            i += 1;
        }
        assert(s@.take(s@.len() as int) == s@);
    }
    r
}

/// `make_same_length`: both keys padded with `c` to the wider width.
pub fn make_same_length(a: &Vec<char>, b: &Vec<char>, at_start: bool, c: char) -> (r: (
    Vec<char>,
    Vec<char>,
))
    ensures
        r.0@ == pad(a@, max_len(a@, b@), at_start, c),
        r.1@ == pad(b@, max_len(a@, b@), at_start, c),
{
    let w = if a.len() >= b.len() {
        a.len()
    } else {
        b.len()
    };
    (padded(a, w, at_start, c), padded(b, w, at_start, c))
}

/// Writing digit `q` (mod 62) in front of the width-`k` digits of `u`.
pub proof fn lemma_digits_step(q: nat, u: nat, k: nat)
    requires
        u < pow62(k),
    ensures
        digits(q * pow62(k) + u, k + 1) == seq![chr((q % 62) as int)] + digits(u, k),
        (q * pow62(k) + u) / pow62(k + 1) == q / 62,
        (q * pow62(k) + u) / pow62(k) == q,
{
    let p = pow62(k);
    let n = q * p + u;
    lemma_pow62_pos(k);
    lemma_fundamental_div_mod_converse(n as int, p as int, q as int, u as int);
    lemma_digits_prepend(n, k);
    lemma_digits_mod(n, k);
    vstd::arithmetic::div_mod::lemma_small_mod(u, p);
    lemma_digits_mod(u, k);
    lemma_div_denominator(n as int, p as int, 62);
    assert(pow62(k + 1) == 62 * p);
    assert(p * 62 == 62 * p) by (nonlinear_arith);
}

proof fn lemma_suffix_step(s: Seq<char>, i: int, w: int)
    requires
        0 <= i < w == s.len(),
        b62(s),
    ensures
        num(s.subrange(i, w)) == val(s[i]) * pow62((w - i - 1) as nat) + num(
            s.subrange(i + 1, w),
        ),
        is_b62(s[i]),
        0 <= val(s[i]) < 62,
{
    assert(s.subrange(i, w) == seq![s[i]] + s.subrange(i + 1, w));
    assert(is_b62(s[i]));
    lemma_num_prepend(s[i], s.subrange(i + 1, w));
}

/// `add_keys`: base-62 sum, at the wider width plus any carry digit.
pub fn add_keys(a: &Vec<char>, b: &Vec<char>) -> (r: Vec<char>)
    requires
        b62(a@),
        b62(b@),
    ensures
        r@ == spec_add_keys(a@, b@),
{
    let (pa, pb) = make_same_length(a, b, true, '0');
    proof {
        lemma_pad_shape(a@, max_len(a@, b@), true, '0');
        lemma_pad_shape(b@, max_len(a@, b@), true, '0');
    }
    let w = pa.len();
    let mut result: Vec<char> = padded(&Vec::new(), w, true, '0');
    assert(result@ == fill('0', w as nat)) by {
        assert(Seq::<char>::empty().len() == 0);
        assert(fill('0', w as nat) + Seq::<char>::empty() == fill('0', w as nat));
    }
    let mut carry: i64 = 0;
    let mut i = w;
    assert(pa@.subrange(w as int, w as int) == Seq::<char>::empty());
    assert(pb@.subrange(w as int, w as int) == Seq::<char>::empty());
    assert(result@.subrange(w as int, w as int) == Seq::<char>::empty());
    assert(digits(0, 0) == Seq::<char>::empty());
    while i > 0
        invariant
            pa@.len() == w,
            pb@.len() == w,
            result@.len() == w,
            0 <= i <= w,
            b62(pa@),
            b62(pb@),
            result@.subrange(i as int, w as int) == digits(
                num(pa@.subrange(i as int, w as int)) + num(pb@.subrange(i as int, w as int)),
                (w - i) as nat,
            ),
            carry as nat == (num(pa@.subrange(i as int, w as int)) + num(
                pb@.subrange(i as int, w as int),
            )) / pow62((w - i) as nat),
            0 <= carry <= 1,
        decreases i,
    {
        let ghost k = (w - i) as nat;
        let ghost ta = num(pa@.subrange(i as int, w as int));
        let ghost tb = num(pb@.subrange(i as int, w as int));
        i -= 1;
        proof {
            lemma_suffix_step(pa@, i as int, w as int);
            lemma_suffix_step(pb@, i as int, w as int);
        }
        let sum = val_of(pa[i]) + val_of(pb[i]) + carry;
        proof {
            let t = ta + tb;
            let p = pow62(k);
            lemma_pow62_pos(k);
            lemma_digits_shape(t, k);
            vstd::arithmetic::div_mod::lemma_fundamental_div_mod(t as int, p as int);
            vstd::arithmetic::div_mod::lemma_mod_pos_bound(t as int, p as int);
            assert(p * (t / p) == (t / p) * p) by (nonlinear_arith);
            assert(t == carry * p + t % p);
            let n = val(pa@[i as int]) * p + ta + val(pb@[i as int]) * p + tb;
            assert(n == sum * p + t % p) by (nonlinear_arith)
                requires
                    t == ta + tb,
                    t == carry * p + t % p,
                    sum == val(pa@[i as int]) + val(pb@[i as int]) + carry,
                    n == val(pa@[i as int]) * p + ta + val(pb@[i as int]) * p + tb,
            ;
            lemma_digits_step(sum as nat, t % p, k);
            lemma_digits_mod(t, k);
            vstd::arithmetic::div_mod::lemma_small_mod(t % p, p);
        }
        carry = sum / 62;
        result.set(i, chr_of(sum % 62));
        proof {
            assert(result@.subrange(i as int, w as int) == seq![result@[i as int]]
                + result@.subrange(i + 1, w as int));
            assert((w - i) as nat == k + 1);
        }
    }
    proof {
        assert(pa@.subrange(0, w as int) == pa@);
        assert(pb@.subrange(0, w as int) == pb@);
        assert(result@.subrange(0, w as int) == result@);
    }
    if carry > 0 {
        let c = chr_of(carry);
        result.insert(0, c);
        proof {
            let n = num(a@) + num(b@);
            let p = pow62(w as nat);
            lemma_pow62_pos(w as nat);
            vstd::arithmetic::div_mod::lemma_fundamental_div_mod(n as int, p as int);
            vstd::arithmetic::div_mod::lemma_mod_pos_bound(n as int, p as int);
            lemma_digits_step(1, n % p, w as nat);
            lemma_digits_mod(n, w as nat);
            assert(n == 1 * p + n % p) by (nonlinear_arith)
                requires n / p == 1, n == p * (n / p) + n % p;
            vstd::arithmetic::div_mod::lemma_small_mod(n % p, p);
            assert(result@ == seq![chr(1)] + digits(n, w as nat));
            lemma_digits_mod(n, (w + 1) as nat);
            assert(n >= p) by (nonlinear_arith)
                requires n / p == 1, n == p * (n / p) + n % p, n % p >= 0;
        }
    } else {
        proof {
            let n = num(a@) + num(b@);
            let p = pow62(w as nat);
            lemma_pow62_pos(w as nat);
            vstd::arithmetic::div_mod::lemma_fundamental_div_mod(n as int, p as int);
            vstd::arithmetic::div_mod::lemma_mod_pos_bound(n as int, p as int);
            assert(n / p == 0);
            assert(p * (n / p) == 0) by (nonlinear_arith) requires n / p == 0;
            assert(n < p);
        }
    }
    result
}


/// The error of an order-key computation.
#[derive(Debug, Clone, PartialEq, Eq)]
pub enum PositionError {
    /// A key's integer part is longer than the key.
    InvalidOrderKeyLength { key: String },
    /// A subtraction would go below zero.
    NegativeSubtraction,
    /// `lower >= upper`.
    OutOfOrder { lower: String, upper: String },
}

impl PositionError {
    /// The message shown for the error.
    pub fn message(&self) -> (r: String)
        ensures
            r@ == match self {
                PositionError::InvalidOrderKeyLength { key } => "invalid order key length: "@ + key@,
                PositionError::NegativeSubtraction => "subtraction result is negative"@,
                PositionError::OutOfOrder { lower, upper } => lower@ + " >= "@ + upper@,
            },
    {
        match self {
            PositionError::InvalidOrderKeyLength { key } => crate::text::cat(
                "invalid order key length: ",
                key.as_str(),
            ),
            PositionError::NegativeSubtraction => crate::text::owned("subtraction result is negative"),
            PositionError::OutOfOrder { lower, upper } => crate::text::cat3(
                lower.as_str(),
                " >= ",
                upper.as_str(),
            ),
        }
    }
}

/// `subtract_keys`: base-62 difference at the wider width, optionally
/// without leading zeros; an error when `b > a`.
pub fn subtract_keys(a: &Vec<char>, b: &Vec<char>, strip_leading_zeros: bool) -> (r: Result<
    Vec<char>,
    PositionError,
>)
    requires
        b62(a@),
        b62(b@),
    ensures
        match r {
            Ok(v) => spec_subtract_keys(a@, b@, strip_leading_zeros) == Some(v@),
            Err(e) => spec_subtract_keys(a@, b@, strip_leading_zeros) is None
                && e == PositionError::NegativeSubtraction,
        },
{
    let (pa, pb) = make_same_length(a, b, true, '0');
    proof {
        lemma_pad_shape(a@, max_len(a@, b@), true, '0');
        lemma_pad_shape(b@, max_len(a@, b@), true, '0');
    }
    let w = pa.len();
    let mut result: Vec<char> = padded(&Vec::new(), w, true, '0');
    assert(result@ == fill('0', w as nat)) by {
        assert(fill('0', w as nat) + Seq::<char>::empty() == fill('0', w as nat));
    }
    let mut borrow: i64 = 0;
    let mut i = w;
    assert(pa@.subrange(w as int, w as int) == Seq::<char>::empty());
    assert(pb@.subrange(w as int, w as int) == Seq::<char>::empty());
    assert(result@.subrange(w as int, w as int) == Seq::<char>::empty());
    assert(digits(0, 0) == Seq::<char>::empty());
    while i > 0
        invariant
            pa@.len() == w,
            pb@.len() == w,
            result@.len() == w,
            0 <= i <= w,
            b62(pa@),
            b62(pb@),
            ({
                let t = num(pa@.subrange(i as int, w as int)) - num(
                    pb@.subrange(i as int, w as int),
                );
                &&& borrow == (if t < 0 {
                    1int
                } else {
                    0int
                })
                &&& result@.subrange(i as int, w as int) == digits(
                    (t + borrow * pow62((w - i) as nat)) as nat,
                    (w - i) as nat,
                )
                &&& 0 <= t + borrow * pow62((w - i) as nat) < pow62((w - i) as nat)
            }),
        decreases i,
    {
        let ghost k = (w - i) as nat;
        let ghost ta = num(pa@.subrange(i as int, w as int));
        let ghost tb = num(pb@.subrange(i as int, w as int));
        let ghost old_borrow = borrow;
        i -= 1;
        proof {
            lemma_suffix_step(pa@, i as int, w as int);
            lemma_suffix_step(pb@, i as int, w as int);
            lemma_pow62_pos(k);
        }
        let mut da = val_of(pa[i]);
        let db = val_of(pb[i]) + borrow;
        if da < db {
            borrow = 1;
            da = da + 62;
        } else {
            borrow = 0;
        }
        let digit = da - db;
        proof {
            let p = pow62(k);
            let u = ta - tb + old_borrow * p;
            let va = val(pa@[i as int]);
            let vb = val(pb@[i as int]);
            let t2 = va * p + ta - (vb * p + tb);
            assert(t2 == (va - vb - old_borrow) * p + u) by (nonlinear_arith)
                requires u == ta - tb + old_borrow * p, t2 == va * p + ta - (vb * p + tb);
            assert(pow62(k + 1) == 62 * p);
            if va - vb - old_borrow < 0 {
                assert(t2 < 0) by (nonlinear_arith)
                    requires t2 == (va - vb - old_borrow) * p + u, va - vb - old_borrow <= -1, u < p;
                assert(t2 + 1 * (62 * p) == digit * p + u) by (nonlinear_arith)
                    requires t2 == (va - vb - old_borrow) * p + u, digit == va + 62 - (vb + old_borrow);
            } else {
                assert(t2 >= 0) by (nonlinear_arith)
                    requires t2 == (va - vb - old_borrow) * p + u, va - vb - old_borrow >= 0, u >= 0, p >= 1;
                assert(t2 + 0 * (62 * p) == digit * p + u) by (nonlinear_arith)
                    requires t2 == (va - vb - old_borrow) * p + u, digit == va - (vb + old_borrow);
            }
            assert(0 <= digit < 62);
            lemma_digits_step(digit as nat, u as nat, k);
            assert(digit * p + u < 62 * p) by (nonlinear_arith)
                requires 0 <= digit < 62, 0 <= u < p;
            vstd::arithmetic::div_mod::lemma_small_mod(digit as nat, 62);
        }
        result.set(i, chr_of(digit));
        proof {
            assert(result@.subrange(i as int, w as int) == seq![result@[i as int]]
                + result@.subrange(i + 1, w as int));
            assert((w - i) as nat == k + 1);
        }
    }
    proof {
        assert(pa@.subrange(0, w as int) == pa@);
        assert(pb@.subrange(0, w as int) == pb@);
        assert(result@.subrange(0, w as int) == result@);
    }
    if borrow > 0 {
        return Err(PositionError::NegativeSubtraction);
    }
    if !strip_leading_zeros {
        return Ok(result);
    }
    let mut s: usize = 0;
    while s + 1 < w && result[s] == '0'
        invariant
            0 <= s <= w,
            w == result@.len(),
            s > 0 ==> s < w,
            strip_zeros(result@) == strip_zeros(result@.subrange(s as int, w as int)),
        decreases w - s,
    {
        assert(result@.subrange(s as int, w as int).drop_first() == result@.subrange(
            s + 1,
            w as int,
        ));
        s += 1;
    }
    proof {
        if s + 1 < w {
            assert(result@.subrange(s as int, w as int)[0] == result@[s as int]);
        }
    }
    let mut out: Vec<char> = Vec::new();
    let mut j = s;
    while j < w
        invariant
            s <= j <= w,
            w == result@.len(),
            out@ == result@.subrange(s as int, j as int),
        decreases w - j,
    {
        out.push(result[j]);
        assert(result@.subrange(s as int, j + 1) == result@.subrange(s as int, j as int).push(
            result@[j as int],
        ));
        j += 1;
    }
    Ok(out)
}

/// `increment_key`: the key plus one.
pub fn increment_key(key: &Vec<char>) -> (r: Vec<char>)
    requires
        b62(key@),
    ensures
        r@ == spec_add_keys(key@, seq!['1']),
{
    let one = vec!['1'];
    assert(one@ == seq!['1']);
    add_keys(key, &one)
}

/// `decrement_key`: the key minus one, keeping its width.
pub fn decrement_key(key: &Vec<char>) -> (r: Result<Vec<char>, PositionError>)
    requires
        b62(key@),
    ensures
        match r {
            Ok(v) => spec_subtract_keys(key@, seq!['1'], false) == Some(v@),
            Err(e) => spec_subtract_keys(key@, seq!['1'], false) is None
                && e == PositionError::NegativeSubtraction,
        },
{
    let one = vec!['1'];
    assert(one@ == seq!['1']);
    subtract_keys(key, &one, false)
}

pub proof fn lemma_encode_shape(n: nat)
    ensures
        b62(encode(n)),
        num(encode(n)) == n,
        encode(n).len() >= 1,
    decreases n,
{
    if n < 62 {
        assert(seq![chr(n as int)].drop_last() == Seq::<char>::empty());
        assert(is_b62(chr(n as int)));
        assert(num(seq![chr(n as int)]) == num(Seq::<char>::empty()) * 62 + val(chr(n as int)));
    } else {
        lemma_encode_shape(n / 62);
        let e = encode(n / 62);
        let c = chr((n % 62) as int);
        assert(is_b62(c));
        super::base62::lemma_num_push(e, c);
        vstd::arithmetic::div_mod::lemma_fundamental_div_mod(n as int, 62);
        assert forall|i: int| 0 <= i < encode(n).len() implies is_b62(#[trigger] encode(n)[i]) by {
            if i < e.len() {
                assert(encode(n)[i] == e[i]);
            }
        }
    }
}

/// `encode_to_charset`: the shortest base-62 digits of `n`.
pub fn encode_to_charset(n: u64) -> (r: Vec<char>)
    ensures
        r@ == encode(n as nat),
    decreases n,
{
    if n < 62 {
        vec![chr_of(n as i64)]
    } else {
        let mut r = encode_to_charset(n / 62);
        r.push(chr_of((n % 62) as i64));
        r
    }
}

/// `decode_to_number`: the value of a base-62 key (which must fit in `u64`).
pub fn decode_to_number(key: &Vec<char>) -> (r: u64)
    requires
        b62(key@),
        num(key@) <= u64::MAX,
    ensures
        r == num(key@),
{
    let mut res: u64 = 0;
    let mut i: usize = 0;
    while i < key.len()
        invariant
            0 <= i <= key@.len(),
            b62(key@),
            num(key@) <= u64::MAX,
            res == num(key@.take(i as int)),
        decreases key@.len() - i,
    {
        proof {
            assert(key@.take(i + 1) == key@.take(i as int).push(key@[i as int]));
            assert(is_b62(key@[i as int]));
            super::base62::lemma_num_push(key@.take(i as int), key@[i as int]);
            assert(key@ == key@.take(i + 1) + key@.skip(i + 1));
            lemma_num_concat(key@.take(i + 1), key@.skip(i + 1));
            lemma_pow62_pos(key@.skip(i + 1).len());
            let x = num(key@.take(i + 1));
            let p = pow62(key@.skip(i + 1).len());
            assert(x <= x * p) by (nonlinear_arith) requires p >= 1;
        }
        res = res * 62 + val_of(key[i]) as u64;
        i += 1;
    }
    assert(key@.take(key@.len() as int) == key@);
    res
}

/// `lower < upper` in lexicographic (string) order.
pub fn lex_less(a: &Vec<char>, b: &Vec<char>) -> (r: bool)
    ensures
        r == lex_lt(a@, b@),
{
    let mut i: usize = 0;
    assert(a@.skip(0) == a@);
    assert(b@.skip(0) == b@);
    while i < a.len() && i < b.len() && a[i] == b[i]
        invariant
            0 <= i <= a@.len(),
            i <= b@.len(),
            lex_lt(a@, b@) == lex_lt(a@.skip(i as int), b@.skip(i as int)),
        decreases a@.len() - i,
    {
        assert(a@.skip(i as int).drop_first() == a@.skip(i + 1));
        assert(b@.skip(i as int).drop_first() == b@.skip(i + 1));
        i += 1;
    }
    if i == b.len() {
        false
    } else if i == a.len() {
        true
    } else {
        assert(a@.skip(i as int)[0] == a@[i as int]);
        assert(b@.skip(i as int)[0] == b@[i as int]);
        a[i] < b[i]
    }
}


pub proof fn lemma_strip_zeros(s: Seq<char>)
    requires
        b62(s),
    ensures
        b62(strip_zeros(s)),
        num(strip_zeros(s)) == num(s),
        strip_zeros(s).len() <= s.len(),
    decreases s.len(),
{
    if s.len() > 1 && s[0] == '0' {
        let t = s.drop_first();
        assert(b62(t)) by {
            assert forall|i: int| 0 <= i < t.len() implies is_b62(#[trigger] t[i]) by {
                assert(t[i] == s[i + 1]);
            }
        }
        lemma_strip_zeros(t);
        assert(s == seq![s[0]] + t);
        lemma_num_prepend(s[0], t);
        assert(val('0') == 0);
        assert(0 * pow62(t.len()) == 0);
    }
}

/// `lexical_distance`: the distance between two keys padded on the right.
pub fn lexical_distance(a: &Vec<char>, b: &Vec<char>) -> (r: u64)
    requires
        b62(a@),
        b62(b@),
        spec_lexical_distance(a@, b@) <= u64::MAX,
    ensures
        r == spec_lexical_distance(a@, b@),
{
    match lexical_distance_checked(a, b) {
        Some(d) => d,
        None => 0,
    }
}

/// `mid_point`: the key halfway between two keys.
pub fn mid_point(lower: &Vec<char>, upper: &Vec<char>) -> (r: Vec<char>)
    requires
        b62(lower@),
        b62(upper@),
        spec_lexical_distance(lower@, upper@) <= u64::MAX,
    ensures
        r@ == spec_mid_point(lower@, upper@),
{
    let (mut pl, pu) = make_same_length(lower, upper, false, '0');
    proof {
        lemma_pad_shape(lower@, max_len(lower@, upper@), false, '0');
        lemma_pad_shape(upper@, max_len(lower@, upper@), false, '0');
        assert(max_len(pl@, pu@) == max_len(lower@, upper@));
        assert(pad(pl@, max_len(pl@, pu@), false, '0') == pl@);
        assert(pad(pu@, max_len(pl@, pu@), false, '0') == pu@);
    }
    let mut distance = lexical_distance(&pl, &pu);
    if distance == 1 {
        pl.push('0');
        distance = 62;
        proof {
            assert(is_b62('0'));
            assert(b62(pl@)) by {
                assert forall|i: int| 0 <= i < pl@.len() implies is_b62(#[trigger] pl@[i]) by {
                    if i < pl@.len() - 1 {
                        assert(pl@[i] == pad(lower@, max_len(lower@, upper@), false, '0')[i]);
                    }
                }
            }
        }
    }
    let mid = encode_to_charset(distance / 2);
    proof {
        lemma_encode_shape((distance / 2) as nat);
        super::base62::lemma_num_bound(mid@);
        assert(mid@.len() <= 11) by {
            lemma_encode_len((distance / 2) as nat);
        }
    }
    add_keys(&pl, &mid)
}

/// The shortest digits of a 64-bit number have at most 11 characters.
pub proof fn lemma_encode_len(n: nat)
    requires
        n <= u64::MAX,
    ensures
        encode(n).len() <= 11,
{
    reveal_with_fuel(pow62, 12);
    assert(pow62(11) == 52036560683837093888nat);
    lemma_encode_len_bound(n, 11);
}

pub proof fn lemma_encode_len_bound(n: nat, k: nat)
    requires
        k >= 1,
        n < pow62(k),
        k <= 11 || n <= u64::MAX,
    ensures
        encode(n).len() <= k,
    decreases k,
{
    if k == 11 && n > u64::MAX {
    }
    if n >= 62 {
        assert(pow62(k) == 62 * pow62((k - 1) as nat));
        assert(k >= 2) by {
            if k == 1 {
                assert(pow62(0) == 1);
            }
        }
        assert(n / 62 < pow62((k - 1) as nat)) by (nonlinear_arith)
            requires n < 62 * pow62((k - 1) as nat);
        lemma_encode_len_bound(n / 62, (k - 1) as nat);
    }
}


/// `decode_to_number` that reports a value beyond `u64` as `None`.
pub fn decode_checked(key: &Vec<char>) -> (r: Option<u64>)
    requires
        b62(key@),
    ensures
        r == (if num(key@) <= u64::MAX {
            Some(num(key@) as u64)
        } else {
            None
        }),
{
    let mut res: u64 = 0;
    let mut i: usize = 0;
    while i < key.len()
        invariant
            0 <= i <= key@.len(),
            b62(key@),
            res == num(key@.take(i as int)),
        decreases key@.len() - i,
    {
        proof {
            assert(key@.take(i + 1) == key@.take(i as int).push(key@[i as int]));
            assert(is_b62(key@[i as int]));
            super::base62::lemma_num_push(key@.take(i as int), key@[i as int]);
            assert(key@ == key@.take(i + 1) + key@.skip(i + 1));
            lemma_num_concat(key@.take(i + 1), key@.skip(i + 1));
            lemma_pow62_pos(key@.skip(i + 1).len());
            let x = num(key@.take(i + 1));
            let p = pow62(key@.skip(i + 1).len());
            assert(x <= x * p) by (nonlinear_arith) requires p >= 1;
        }
        let v = val_of(key[i]) as u64;
        match res.checked_mul(62) {
            Some(m) => match m.checked_add(v) {
                Some(n) => {
                    res = n;
                },
                None => {
                    return None;
                },
            },
            None => {
                return None;
            },
        }
        i += 1;
    }
    assert(key@.take(key@.len() as int) == key@);
    Some(res)
}

/// `lexical_distance` that reports a distance beyond `u64` as `None`.
pub fn lexical_distance_checked(a: &Vec<char>, b: &Vec<char>) -> (r: Option<u64>)
    requires
        b62(a@),
        b62(b@),
    ensures
        r == (if spec_lexical_distance(a@, b@) <= u64::MAX {
            Some(spec_lexical_distance(a@, b@) as u64)
        } else {
            None
        }),
{
    let (pa, pb) = make_same_length(a, b, false, '0');
    proof {
        lemma_pad_shape(a@, max_len(a@, b@), false, '0');
        lemma_pad_shape(b@, max_len(a@, b@), false, '0');
        super::base62::lemma_lex_num(pb@, pa@);
    }
    let (lower, upper) = if !lex_less(&pb, &pa) {
        (pa, pb)
    } else {
        (pb, pa)
    };
    match subtract_keys(&upper, &lower, true) {
        Ok(diff) => {
            proof {
                let w = max_len(a@, b@);
                let d = (num(upper@) - num(lower@)) as nat;
                lemma_digits_shape(d, w);
                lemma_strip_zeros(digits(d, w));
                super::base62::lemma_num_bound(upper@);
                vstd::arithmetic::div_mod::lemma_small_mod(d, pow62(w));
            }
            decode_checked(&diff)
        },
        Err(_) => None,
    }
}

} // verus!
