//! The base-62 number model behind page position keys: digit values, the
//! value of a digit string, fixed-width digit strings of a number, and the
//! facts that tie lexicographic key order to numeric order.

use vstd::prelude::*;
use vstd::arithmetic::div_mod::{lemma_fundamental_div_mod_converse, lemma_mod_breakdown,
    lemma_div_denominator};

verus! {

/// Digit value of a base-62 character (`0-9`, `A-Z`, `a-z`), or -1.
pub open spec fn val(c: char) -> int {
    if '0' <= c <= '9' {
        c as int - 48
    } else if 'A' <= c <= 'Z' {
        c as int - 55
    } else if 'a' <= c <= 'z' {
        c as int - 61
    } else {
        -1
    }
}

/// The base-62 character of digit value `i` (`0 <= i < 62`).
pub open spec fn chr(i: int) -> char {
    ((if i < 10 {
        i + 48
    } else if i < 36 {
        i + 55
    } else {
        i + 61
    }) as u8) as char
}

pub open spec fn is_b62(c: char) -> bool {
    val(c) >= 0
}

/// Every character of `s` is a base-62 digit.
pub open spec fn b62(s: Seq<char>) -> bool {
    forall|i: int| 0 <= i < s.len() ==> is_b62(#[trigger] s[i])
}

pub open spec fn pow62(n: nat) -> nat
    decreases n,
{
    if n == 0 {
        1
    } else {
        62 * pow62((n - 1) as nat)
    }
}

/// The value of a base-62 digit string, most significant digit first.
pub open spec fn num(s: Seq<char>) -> nat
    decreases s.len(),
{
    if s.len() == 0 {
        0
    } else {
        num(s.drop_last()) * 62 + (if val(s.last()) >= 0 {
            val(s.last()) as nat
        } else {
            0
        })
    }
}

/// The `w` low base-62 digits of `n` (`n mod 62^w`, zero-padded to width `w`).
pub open spec fn digits(n: nat, w: nat) -> Seq<char>
    decreases w,
{
    if w == 0 {
        Seq::empty()
    } else {
        digits(n / 62, (w - 1) as nat).push(chr((n % 62) as int))
    }
}

/// `k` copies of `c`.
pub open spec fn fill(c: char, k: nat) -> Seq<char> {
    Seq::new(k, |i: int| c)
}

/// Lexicographic `a < b`, as `str` comparison orders ASCII text.
pub open spec fn lex_lt(a: Seq<char>, b: Seq<char>) -> bool
    decreases a.len(),
{
    if b.len() == 0 {
        false
    } else if a.len() == 0 {
        true
    } else if a[0] != b[0] {
        a[0] < b[0]
    } else {
        lex_lt(a.drop_first(), b.drop_first())
    }
}

pub proof fn lemma_chr_val(i: int)
    requires
        0 <= i < 62,
    ensures
        val(chr(i)) == i,
        is_b62(chr(i)),
{
}

/// Base-62 digit order is character order.
pub proof fn lemma_val_order(c: char, d: char)
    requires
        is_b62(c),
        is_b62(d),
    ensures
        (c < d) == (val(c) < val(d)),
        (c == d) == (val(c) == val(d)),
{
}

pub proof fn lemma_pow62_pos(n: nat)
    ensures
        pow62(n) >= 1,
    decreases n,
{
    if n > 0 {
        lemma_pow62_pos((n - 1) as nat);
    }
}

pub proof fn lemma_pow62_adds(a: nat, b: nat)
    ensures
        pow62(a + b) == pow62(a) * pow62(b),
    decreases b,
{
    if b > 0 {
        let b1 = (b - 1) as nat;
        lemma_pow62_adds(a, b1);
        assert((a + b1) as nat == (a + b - 1) as nat);
        assert(pow62(a + b) == 62 * pow62(a + b1));
        assert(pow62(b) == 62 * pow62(b1));
        let x = pow62(a);
        let y = pow62(b1);
        assert(62 * (x * y) == x * (62 * y)) by (nonlinear_arith);
    } else {
        assert(a + b == a);
        assert(pow62(a) * 1 == pow62(a));
    }
}

pub proof fn lemma_pow62_mono(a: nat, b: nat)
    requires
        a <= b,
    ensures
        pow62(a) <= pow62(b),
    decreases b,
{
    if a < b {
        lemma_pow62_mono(a, (b - 1) as nat);
    }
}

pub proof fn lemma_num_push(s: Seq<char>, c: char)
    requires
        is_b62(c),
    ensures
        num(s.push(c)) == num(s) * 62 + val(c),
{
    assert(s.push(c).drop_last() == s);
}

/// `num(s) < 62^|s|`.
pub proof fn lemma_num_bound(s: Seq<char>)
    ensures
        num(s) < pow62(s.len()),
    decreases s.len(),
{
    if s.len() > 0 {
        lemma_num_bound(s.drop_last());
        let a = num(s.drop_last());
        let p = pow62((s.len() - 1) as nat);
        assert(a * 62 + 61 < 62 * p) by (nonlinear_arith)
            requires
                a < p,
        ;
    }
}

/// The value of a concatenation.
pub proof fn lemma_num_concat(a: Seq<char>, b: Seq<char>)
    ensures
        num(a + b) == num(a) * pow62(b.len()) + num(b),
    decreases b.len(),
{
    if b.len() == 0 {
        assert(a + b == a);
        assert(num(a) * 1 == num(a));
    } else {
        lemma_num_concat(a, b.drop_last());
        assert((a + b).drop_last() == a + b.drop_last());
        assert((a + b).last() == b.last());
        let x = num(a);
        let p = pow62((b.len() - 1) as nat);
        let y = num(b.drop_last());
        let d: int = if val(b.last()) >= 0 { val(b.last()) } else { 0 };
        assert(num(a + b) == num(a + b.drop_last()) * 62 + d);
        assert(num(b) == y * 62 + d);
        assert(pow62(b.len()) == 62 * p);
        assert((x * p + y) * 62 + d == x * (62 * p) + (y * 62 + d)) by (nonlinear_arith);
    }
}

/// The value of a digit string, read from its most significant digit.
pub proof fn lemma_num_prepend(c: char, t: Seq<char>)
    requires
        is_b62(c),
    ensures
        num(seq![c] + t) == val(c) * pow62(t.len()) + num(t),
{
    lemma_num_concat(seq![c], t);
    assert(seq![c].drop_last() == Seq::<char>::empty());
    assert(seq![c].last() == c);
    assert(num(Seq::<char>::empty()) == 0);
    assert(num(seq![c]) == val(c));
}

pub proof fn lemma_num_fill_zero(k: nat)
    ensures
        num(fill('0', k)) == 0,
    decreases k,
{
    if k > 0 {
        lemma_num_fill_zero((k - 1) as nat);
        assert(fill('0', k).drop_last() == fill('0', (k - 1) as nat));
    }
}

pub proof fn lemma_digits_shape(n: nat, w: nat)
    ensures
        digits(n, w).len() == w,
        b62(digits(n, w)),
        num(digits(n, w)) == n % pow62(w),
    decreases w,
{
    if w > 0 {
        lemma_digits_shape(n / 62, (w - 1) as nat);
        let p = pow62((w - 1) as nat);
        lemma_pow62_pos((w - 1) as nat);
        lemma_chr_val((n % 62) as int);
        lemma_num_push(digits(n / 62, (w - 1) as nat), chr((n % 62) as int));
        lemma_mod_breakdown(n as int, 62, p as int);
        assert(62 * ((n / 62) % p) == ((n / 62) % p) * 62) by (nonlinear_arith);
        let d = digits(n, w);
        assert forall|i: int| 0 <= i < d.len() implies is_b62(#[trigger] d[i]) by {
            if i < w - 1 {
                assert(d[i] == digits(n / 62, (w - 1) as nat)[i]);
            }
        }
    }
}

/// Two digit strings of one width with one value are the same string.
pub proof fn lemma_num_injective(a: Seq<char>, b: Seq<char>)
    requires
        a.len() == b.len(),
        b62(a),
        b62(b),
        num(a) == num(b),
    ensures
        a == b,
    decreases a.len(),
{
    if a.len() > 0 {
        let a1 = a.drop_last();
        let b1 = b.drop_last();
        assert(is_b62(a.last()));
        assert(is_b62(b.last()));
        lemma_fundamental_div_mod_converse(num(a) as int, 62, num(a1) as int, val(a.last()));
        lemma_fundamental_div_mod_converse(num(b) as int, 62, num(b1) as int, val(b.last()));
        assert(b62(a1)) by {
            assert forall|i: int| 0 <= i < a1.len() implies is_b62(#[trigger] a1[i]) by {
                assert(a1[i] == a[i]);
            }
        }
        assert(b62(b1)) by {
            assert forall|i: int| 0 <= i < b1.len() implies is_b62(#[trigger] b1[i]) by {
                assert(b1[i] == b[i]);
            }
        }
        lemma_num_injective(a1, b1);
        lemma_val_order(a.last(), b.last());
        assert(a == a1.push(a.last()));
        assert(b == b1.push(b.last()));
    } else {
        assert(a =~= b);
    }
}

/// A digit string is the fixed-width digits of its own value.
pub proof fn lemma_digits_num(s: Seq<char>)
    requires
        b62(s),
    ensures
        digits(num(s), s.len()) == s,
{
    lemma_digits_shape(num(s), s.len());
    lemma_num_bound(s);
    vstd::arithmetic::div_mod::lemma_small_mod(num(s), pow62(s.len()));
    lemma_num_injective(digits(num(s), s.len()), s);
}

/// Fixed-width digits, read from the most significant end.
pub proof fn lemma_digits_prepend(n: nat, k: nat)
    ensures
        digits(n, k + 1) == seq![chr(((n / pow62(k)) % 62) as int)] + digits(n, k),
    decreases k,
{
    if k == 0 {
        assert(n / 1 == n);
        assert(digits(n / 62, 0) == Seq::<char>::empty());
        assert(digits(n, 1) == Seq::<char>::empty().push(chr((n % 62) as int)));
        assert(digits(n, 0) == Seq::<char>::empty());
        assert(seq![chr(((n / pow62(0)) % 62) as int)] + Seq::<char>::empty() =~= seq![chr(((n / pow62(0)) % 62) as int)]);
    } else {
        lemma_digits_prepend(n / 62, (k - 1) as nat);
        lemma_pow62_pos((k - 1) as nat);
        lemma_div_denominator(n as int, 62, pow62((k - 1) as nat) as int);
        assert(digits(n, k + 1) == digits(n / 62, k).push(chr((n % 62) as int)));
        assert(digits(n, k) == digits(n / 62, (k - 1) as nat).push(chr((n % 62) as int)));
        assert(digits(n, k + 1) =~= seq![chr(((n / pow62(k)) % 62) as int)] + digits(n, k));
    }
}

/// Digits of a value depend only on its residue.
pub proof fn lemma_digits_mod(n: nat, k: nat)
    ensures
        digits(n, k) == digits(n % pow62(k), k),
{
    lemma_pow62_pos(k);
    lemma_digits_shape(n, k);
    lemma_digits_shape(n % pow62(k), k);
    assert((n % pow62(k)) % pow62(k) == n % pow62(k)) by {
        vstd::arithmetic::div_mod::lemma_mod_twice(n as int, pow62(k) as int);
    }
    lemma_num_injective(digits(n, k), digits(n % pow62(k), k));
}

/// For digit strings of equal width, lexicographic order is numeric order.
pub proof fn lemma_lex_num(a: Seq<char>, b: Seq<char>)
    requires
        a.len() == b.len(),
        b62(a),
        b62(b),
    ensures
        lex_lt(a, b) == (num(a) < num(b)),
    decreases a.len(),
{
    if a.len() > 0 {
        let k = (a.len() - 1) as nat;
        let a1 = a.drop_first();
        let b1 = b.drop_first();
        assert(a == seq![a[0]] + a1);
        assert(b == seq![b[0]] + b1);
        assert(is_b62(a[0]));
        assert(is_b62(b[0]));
        lemma_num_prepend(a[0], a1);
        lemma_num_prepend(b[0], b1);
        assert(b62(a1)) by {
            assert forall|i: int| 0 <= i < a1.len() implies is_b62(#[trigger] a1[i]) by {
                assert(a1[i] == a[i + 1]);
            }
        }
        assert(b62(b1)) by {
            assert forall|i: int| 0 <= i < b1.len() implies is_b62(#[trigger] b1[i]) by {
                assert(b1[i] == b[i + 1]);
            }
        }
        lemma_num_bound(a1);
        lemma_num_bound(b1);
        lemma_val_order(a[0], b[0]);
        let p = pow62(k);
        let x = val(a[0]);
        let y = val(b[0]);
        if a[0] != b[0] {
            if x < y {
                assert(x * p + num(a1) < y * p + num(b1)) by (nonlinear_arith)
                    requires
                        x < y,
                        num(a1) < p,
                        0 <= num(b1),
                ;
            } else {
                assert(y * p + num(b1) < x * p + num(a1)) by (nonlinear_arith)
                    requires
                        y < x,
                        num(b1) < p,
                        0 <= num(a1),
                ;
            }
        } else {
            lemma_lex_num(a1, b1);
        }
    }
}

} // verus!
