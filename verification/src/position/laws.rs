//! Laws of the position keys.

use vstd::prelude::*;
use super::base62::{b62, chr, digits, fill, is_b62, lex_lt, num, pow62, val, lemma_digits_num,
    lemma_digits_shape, lemma_lex_num, lemma_num_bound, lemma_num_concat, lemma_num_push,
    lemma_pow62_pos, lemma_pow62_adds, lemma_pow62_mono, lemma_num_fill_zero};
use super::arith::{encode, max_len, pad, spec_add_keys, spec_lexical_distance, spec_mid_point,
    lemma_encode_shape, lemma_pad_shape};
use super::integer::{all_chars, head_len, spec_decrement_integer, spec_decrement_integer_head,
    spec_get_integer_part, spec_increment_integer, spec_integer_head, lemma_take_b62, il,
    spec_increment_integer_head, spec_start_on_new_head, lemma_run_len_bound, run_len};
use super::shape::{lemma_dec_borrow, lemma_dec_last, lemma_inc_last, lemma_valid_key_head,
    valid_head_shape};
use super::{JITTER_RANGE, generate_defined, jitter_defined, jitter_fits, spec_generate_key_between,
    spec_jittered, spec_padding_for_jitter};

verus! {

pub proof fn lemma_increment_b62(integer: Seq<char>)
    requires
        integer.len() > 0,
        b62(integer),
    ensures
        b62(spec_increment_integer(integer)),
{
    let head = spec_integer_head(integer);
    let n = super::integer::head_len(integer);
    assert(1 <= n <= integer.len());
    lemma_take_b62(integer, n as int);
    let digs = integer.skip(n as int);
    super::integer::lemma_add_shape(digs, seq!['1']);
    super::integer::lemma_add_shape(head, seq!['1']);
    let r = spec_increment_integer(integer);
    if !super::integer::all_chars(digs, 'z') {
        let a = spec_add_keys(digs, seq!['1']);
        assert forall|i: int| 0 <= i < r.len() implies is_b62(#[trigger] r[i]) by {
            if i < head.len() {
                assert(r[i] == head[i]);
            } else {
                assert(r[i] == a[i - head.len()]);
            }
        }
    } else {
        let h = spec_increment_integer_head(head);
        assert(b62(h)) by {
            let next = spec_add_keys(head, seq!['1']);
            assert(is_b62('A'));
            assert forall|i: int| 0 <= i < h.len() implies is_b62(#[trigger] h[i]) by {
                if head[0] >= 'a' && next.last() == 'z' {
                    if i < next.len() {
                        assert(h[i] == next[i]);
                    }
                } else if !(head[0] >= 'a') && head.last() == 'z' {
                    assert(h[i] == head[i]);
                } else {
                    assert(h[i] == next[i]);
                }
            }
        }
        assert(is_b62('0'));
        assert forall|i: int| 0 <= i < r.len() implies is_b62(#[trigger] r[i]) by {
            if i < h.len() {
                assert(r[i] == h[i]);
            } else {
                assert(r[i] == '0');
            }
        }
    }
}


/// `a` sorts before `b` when they first differ at `j`, with `a[j] < b[j]`.
pub proof fn lemma_lex_at(a: Seq<char>, b: Seq<char>, j: int)
    requires
        0 <= j < a.len(),
        j < b.len(),
        forall|i: int| 0 <= i < j ==> a[i] == b[i],
        a[j] < b[j],
    ensures
        lex_lt(a, b),
    decreases j,
{
    if j > 0 {
        assert forall|i: int| 0 <= i < j - 1 implies a.drop_first()[i] == b.drop_first()[i] by {
            assert(a.drop_first()[i] == a[i + 1]);
            assert(b.drop_first()[i] == b[i + 1]);
        }
        lemma_lex_at(a.drop_first(), b.drop_first(), j - 1);
        assert(a[0] == b[0]);
    }
}

/// `s` sorts before any longer string that starts with it.
pub proof fn lemma_lex_prefix(s: Seq<char>, t: Seq<char>)
    requires
        t.len() > 0,
    ensures
        lex_lt(s, s + t),
        !lex_lt(s + t, s),
    decreases s.len(),
{
    if s.len() > 0 {
        lemma_lex_prefix(s.drop_first(), t);
        assert((s + t).drop_first() == s.drop_first() + t);
        assert((s + t)[0] == s[0]);
    }
}

pub proof fn lemma_lex_trans(a: Seq<char>, b: Seq<char>, c: Seq<char>)
    requires
        lex_lt(a, b),
        lex_lt(b, c),
    ensures
        lex_lt(a, c),
    decreases a.len(),
{
    if a.len() > 0 && b.len() > 0 && c.len() > 0 {
        if a[0] == b[0] && b[0] == c[0] {
            lemma_lex_trans(a.drop_first(), b.drop_first(), c.drop_first());
        }
    }
}

pub proof fn lemma_lex_irreflexive(a: Seq<char>)
    ensures
        !lex_lt(a, a),
    decreases a.len(),
{
    if a.len() > 0 {
        lemma_lex_irreflexive(a.drop_first());
    }
}

/// Extending the smaller of two equal-length strings keeps it smaller.
pub proof fn lemma_lex_extend(a: Seq<char>, b: Seq<char>, t: Seq<char>)
    requires
        a.len() == b.len(),
        lex_lt(a, b),
    ensures
        lex_lt(a + t, b),
    decreases a.len(),
{
    if a[0] != b[0] {
        assert((a + t)[0] == a[0]);
    } else {
        lemma_lex_extend(a.drop_first(), b.drop_first(), t);
        assert((a + t).drop_first() == a.drop_first() + t);
        assert((a + t)[0] == a[0]);
    }
}

/// No base-62 string at least `k` long sorts before `k` zeros.
proof fn lemma_not_below_zeros(a: Seq<char>, k: nat)
    requires
        b62(a),
        a.len() >= k,
    ensures
        !lex_lt(a, fill('0', k)),
    decreases k,
{
    if k > 0 {
        assert(is_b62(a[0]));
        assert(fill('0', k)[0] == '0');
        assert(fill('0', k).drop_first() == fill('0', (k - 1) as nat));
        let t = a.drop_first();
        assert(b62(t)) by {
            assert forall|i: int| 0 <= i < t.len() implies is_b62(#[trigger] t[i]) by {
                assert(t[i] == a[i + 1]);
            }
        }
        lemma_not_below_zeros(t, (k - 1) as nat);
    }
}

/// Sorting before `b` padded with zeros, at that padded width or more,
/// means sorting before `b`.
pub proof fn lemma_lex_zero_pad(a: Seq<char>, b: Seq<char>, k: nat)
    requires
        b62(a),
        a.len() >= b.len() + k,
        lex_lt(a, b + fill('0', k)),
    ensures
        lex_lt(a, b),
    decreases b.len(),
{
    if b.len() == 0 {
        assert(b + fill('0', k) == fill('0', k));
        lemma_not_below_zeros(a, k);
    } else {
        assert((b + fill('0', k))[0] == b[0]);
        if a[0] == b[0] {
            let t = a.drop_first();
            assert(b62(t)) by {
                assert forall|i: int| 0 <= i < t.len() implies is_b62(#[trigger] t[i]) by {
                    assert(t[i] == a[i + 1]);
                }
            }
            assert((b + fill('0', k)).drop_first() == b.drop_first() + fill('0', k));
            lemma_lex_zero_pad(t, b.drop_first(), k);
        }
    }
}

/// `upper` is `lower` followed only by zeros.
pub open spec fn zero_extension(lower: Seq<char>, upper: Seq<char>) -> bool {
    &&& upper.len() >= lower.len()
    &&& upper.take(lower.len() as int) == lower
    &&& all_chars(upper.skip(lower.len() as int), '0')
}

proof fn lemma_pad_split(s: Seq<char>, w: nat)
    requires
        s.len() > 0,
        w >= s.len(),
    ensures
        pad(s, w, false, '0')[0] == s[0],
        pad(s, w, false, '0').drop_first() == pad(s.drop_first(), (w - 1) as nat, false, '0'),
        pad(s, w, false, '0').len() == w,
{
    let k = (w - s.len()) as nat;
    if s.len() < w {
        assert(pad(s, w, false, '0') == s + fill('0', k));
        assert(pad(s.drop_first(), (w - 1) as nat, false, '0') == s.drop_first() + fill('0', k));
        assert((s + fill('0', k)).drop_first() =~= s.drop_first() + fill('0', k));
    } else {
        assert(pad(s.drop_first(), (w - 1) as nat, false, '0') == s.drop_first());
    }
}

/// Zeros sort before a string with a non-zero digit padded to their width.
proof fn lemma_zeros_below(u: Seq<char>, w: nat)
    requires
        b62(u),
        !all_chars(u, '0'),
        w >= u.len(),
    ensures
        lex_lt(fill('0', w), pad(u, w, false, '0')),
    decreases u.len(),
{
    lemma_pad_split(u, w);
    assert(fill('0', w)[0] == '0');
    assert(is_b62(u[0]));
    if u[0] != '0' {
        lemma_lex_at(fill('0', w), pad(u, w, false, '0'), 0);
    } else {
        let u1 = u.drop_first();
        assert(b62(u1)) by {
            assert forall|i: int| 0 <= i < u1.len() implies is_b62(#[trigger] u1[i]) by {
                assert(u1[i] == u[i + 1]);
            }
        }
        assert(!all_chars(u1, '0')) by {
            if all_chars(u1, '0') {
                assert forall|i: int| 0 <= i < u.len() implies u[i] == '0' by {
                    if i > 0 {
                        assert(u[i] == u1[i - 1]);
                    }
                }
            }
        }
        lemma_zeros_below(u1, (w - 1) as nat);
        assert(fill('0', w).drop_first() == fill('0', (w - 1) as nat));
    }
}

/// Padding two ordered keys on the right keeps them ordered, unless the
/// larger is the smaller followed by zeros.
proof fn lemma_pad_keeps_order(l: Seq<char>, u: Seq<char>, w: nat)
    requires
        b62(l),
        b62(u),
        lex_lt(l, u),
        w >= l.len(),
        w >= u.len(),
        !zero_extension(l, u),
    ensures
        lex_lt(pad(l, w, false, '0'), pad(u, w, false, '0')),
    decreases l.len(),
{
    if l.len() == 0 {
        assert(u.take(0) =~= l);
        assert(u.skip(0) == u);
        assert(pad(l, w, false, '0') =~= fill('0', w));
        lemma_zeros_below(u, w);
    } else {
        lemma_pad_split(l, w);
        lemma_pad_split(u, w);
        let pl = pad(l, w, false, '0');
        let pu = pad(u, w, false, '0');
        if l[0] != u[0] {
            lemma_lex_at(pl, pu, 0);
        } else {
            lemma_pad_keeps_order_step(l, u, w);
        }
    }
}

proof fn lemma_pad_keeps_order_step(l: Seq<char>, u: Seq<char>, w: nat)
    requires
        b62(l),
        b62(u),
        lex_lt(l, u),
        l.len() > 0,
        u.len() > 0,
        l[0] == u[0],
        w >= l.len(),
        w >= u.len(),
        !zero_extension(l, u),
    ensures
        lex_lt(pad(l, w, false, '0'), pad(u, w, false, '0')),
    decreases l.len(), 0nat,
{
    let l1 = l.drop_first();
    let u1 = u.drop_first();
    assert(b62(l1)) by {
        assert forall|i: int| 0 <= i < l1.len() implies is_b62(#[trigger] l1[i]) by {
            assert(l1[i] == l[i + 1]);
        }
    }
    assert(b62(u1)) by {
        assert forall|i: int| 0 <= i < u1.len() implies is_b62(#[trigger] u1[i]) by {
            assert(u1[i] == u[i + 1]);
        }
    }
    assert(!zero_extension(l1, u1)) by {
        if zero_extension(l1, u1) {
            assert(u.take(l.len() as int) =~= seq![u[0]] + u1.take(l1.len() as int));
            assert(l =~= seq![l[0]] + l1);
            assert(u.skip(l.len() as int) =~= u1.skip(l1.len() as int));
        }
    }
    lemma_pad_keeps_order(l1, u1, (w - 1) as nat);
    lemma_pad_split(l, w);
    lemma_pad_split(u, w);
}

/// Prefix of a string sorts before or equal to it.
proof fn lemma_lex_pad_le(l: Seq<char>, w: nat, m: Seq<char>)
    requires
        w >= l.len(),
        lex_lt(pad(l, w, false, '0'), m),
    ensures
        lex_lt(l, m),
{
    if l.len() < w {
        let k = (w - l.len()) as nat;
        assert(pad(l, w, false, '0') == l + fill('0', k));
        lemma_lex_prefix(l, fill('0', k));
        lemma_lex_trans(l, l + fill('0', k), m);
    }
}

/// The midpoint of two ordered keys sorts strictly between them, unless the
/// larger key is the smaller followed only by zeros.
pub proof fn lemma_mid_point_between(l: Seq<char>, u: Seq<char>)
    requires
        b62(l),
        b62(u),
        l.len() > 0,
        lex_lt(l, u),
        !zero_extension(l, u),
        spec_lexical_distance(l, u) <= u64::MAX,
    ensures
        lex_lt(l, spec_mid_point(l, u)),
        lex_lt(spec_mid_point(l, u), u),
{
    let w = max_len(l, u);
    let pl = pad(l, w, false, '0');
    let pu = pad(u, w, false, '0');
    lemma_pad_shape(l, w, false, '0');
    lemma_pad_shape(u, w, false, '0');
    lemma_pad_keeps_order(l, u, w);
    lemma_lex_num(pl, pu);
    lemma_num_bound(pu);
    let d = spec_lexical_distance(l, u);
    assert(d == num(pu) - num(pl));
    let m = spec_mid_point(l, u);
    let ku = (w - u.len()) as nat;
    assert(pu == u + fill('0', ku) || (ku == 0 && pu == u));
    if d == 1 {
        let pl1 = pl.push('0');
        assert(super::base62::is_b62('0'));
        assert(b62(pl1)) by {
            assert forall|i: int| 0 <= i < pl1.len() implies is_b62(#[trigger] pl1[i]) by {
                if i < pl.len() {
                    assert(pl1[i] == pl[i]);
                }
            }
        }
        lemma_num_push(pl, '0');
        assert(encode(31) == seq![chr(31)]);
        assert(chr(31) == 'V');
        lemma_encode_shape(31);
        let t = pl.push('V');
        assert(is_b62('V'));
        assert(b62(t)) by {
            assert forall|i: int| 0 <= i < t.len() implies is_b62(#[trigger] t[i]) by {
                if i < pl.len() {
                    assert(t[i] == pl[i]);
                }
            }
        }
        lemma_num_push(pl, 'V');
        lemma_num_bound(t);
        lemma_digits_num(t);
        assert(max_len(pl1, encode(31)) == w + 1);
        assert(num(pl1) + num(encode(31)) == num(t));
        assert(m == t);
        assert(pl + seq!['V'] == t);
        lemma_lex_prefix(pl, seq!['V']);
        lemma_lex_pad_le(l, w, t);
        lemma_lex_extend(pl, pu, seq!['V']);
        if ku > 0 {
            lemma_lex_zero_pad(t, u, ku);
        }
    } else {
        let e = encode(d / 2);
        lemma_encode_shape(d / 2);
        assert(w >= 1);
        assert(d / 2 < pow62(w));
        super::arith::lemma_encode_len_bound(d / 2, w);
        assert(max_len(pl, e) == w);
        let n = num(pl) + d / 2;
        assert(n < num(pu));
        lemma_digits_shape(n, w);
        vstd::arithmetic::div_mod::lemma_small_mod(n, pow62(w));
        assert(m == digits(n, w));
        lemma_lex_num(pl, m);
        lemma_lex_num(m, pu);
        lemma_lex_pad_le(l, w, m);
        if ku > 0 {
            lemma_lex_zero_pad(m, u, ku);
        }
    }
}

/// Between two ordered keys, `generate_key_between` yields a key that sorts
/// strictly after `lower` and strictly before `upper` (unless `upper` is
/// `lower` followed only by zeros); it fails only when a key's integer part
/// does not parse.
pub proof fn law_key_between_sorts_between(lower: Seq<char>, upper: Seq<char>)
    requires
        generate_defined(Some(lower), Some(upper)),
        lex_lt(lower, upper),
        !zero_extension(lower, upper),
    ensures
        spec_generate_key_between(Some(lower), Some(upper)) is Ok <==> (spec_get_integer_part(
            lower,
        ) is Some && spec_get_integer_part(upper) is Some),
        spec_generate_key_between(Some(lower), Some(upper)) matches Ok(k) ==> lex_lt(lower, k)
            && lex_lt(k, upper),
{
    if spec_get_integer_part(lower) is Some && spec_get_integer_part(upper) is Some {
        lemma_mid_point_between(lower, upper);
    }
}


proof fn lemma_not_all_max(s: Seq<char>)
    requires
        b62(s),
        !all_chars(s, 'z'),
    ensures
        num(s) + 1 < pow62(s.len()),
    decreases s.len(),
{
    let p = s.drop_last();
    assert(s.len() > 0);
    assert(b62(p)) by {
        assert forall|i: int| 0 <= i < p.len() implies is_b62(#[trigger] p[i]) by {
            assert(p[i] == s[i]);
        }
    }
    assert(is_b62(s.last()));
    lemma_num_push(p, s.last());
    assert(s == p.push(s.last()));
    lemma_num_bound(p);
    let q = pow62(p.len());
    assert(pow62(s.len()) == 62 * q);
    if s.last() != 'z' {
        assert(num(s) + 1 < 62 * q) by (nonlinear_arith)
            requires num(s) == num(p) * 62 + val(s.last()), num(p) < q, val(s.last()) <= 60;
    } else {
        assert(!all_chars(p, 'z')) by {
            if all_chars(p, 'z') {
                assert forall|i: int| 0 <= i < s.len() implies s[i] == 'z' by {
                    if i < p.len() {
                        assert(s[i] == p[i]);
                    }
                }
            }
        }
        lemma_not_all_max(p);
        assert(num(s) + 1 < 62 * q) by (nonlinear_arith)
            requires num(s) == num(p) * 62 + val(s.last()), num(p) + 1 < q, val(s.last()) == 61;
    }
}

proof fn lemma_not_all_zero(s: Seq<char>)
    requires
        b62(s),
        !all_chars(s, '0'),
    ensures
        num(s) >= 1,
    decreases s.len(),
{
    let p = s.drop_last();
    assert(b62(p)) by {
        assert forall|i: int| 0 <= i < p.len() implies is_b62(#[trigger] p[i]) by {
            assert(p[i] == s[i]);
        }
    }
    assert(is_b62(s.last()));
    lemma_num_push(p, s.last());
    if s.last() == '0' {
        assert(!all_chars(p, '0')) by {
            if all_chars(p, '0') {
                assert forall|i: int| 0 <= i < s.len() implies s[i] == '0' by {
                    if i < p.len() {
                        assert(s[i] == p[i]);
                    }
                }
            }
        }
        lemma_not_all_zero(p);
    }
}

/// The integer of a valid key, its head, and the head's shape.
proof fn lemma_integer_parts(k: Seq<char>)
    requires
        k.len() > 0,
        b62(k),
        spec_get_integer_part(k) is Some,
    ensures
        ({
            let i = spec_get_integer_part(k).unwrap();
            let h = spec_integer_head(i);
            &&& i == k.take(i.len() as int)
            &&& i.len() <= k.len()
            &&& valid_head_shape(h)
            &&& h.len() <= i.len()
            &&& h == i.take(h.len() as int)
            &&& i == h + i.skip(h.len() as int)
            &&& b62(i)
            &&& b62(i.skip(h.len() as int))
        }),
{
    lemma_valid_key_head(k);
    let i = spec_get_integer_part(k).unwrap();
    lemma_take_b62(k, i.len() as int);
    let h = spec_integer_head(i);
    lemma_take_b62(i, h.len() as int);
    assert(i == h + i.skip(h.len() as int));
}

/// The key generated after a last key sorts after it, except when that key's
/// integer has an `A`-run-then-`z` head and only `z` digits (its successor
/// falls back to the bare `A` run, which sorts lower).
pub proof fn law_key_after_sorts_after(lower: Seq<char>)
    requires
        generate_defined(Some(lower), None),
        spec_get_integer_part(lower) is Some,
        !({
            let i = spec_get_integer_part(lower).unwrap();
            let h = spec_integer_head(i);
            h[0] < 'a' && h.last() == 'z' && all_chars(i.skip(h.len() as int), 'z')
        }),
    ensures
        spec_generate_key_between(Some(lower), None) matches Ok(k) && lex_lt(lower, k),
{
    lemma_integer_parts(lower);
    let i = spec_get_integer_part(lower).unwrap();
    let h = spec_integer_head(i);
    let digs = i.skip(h.len() as int);
    let r = spec_increment_integer(i);
    if !all_chars(digs, 'z') {
        lemma_not_all_max(digs);
        let a = spec_add_keys(digs, seq!['1']);
        super::shape::lemma_num_one();
        if digs.len() == 0 {
            assert(all_chars(digs, 'z'));
        }
        assert(max_len(digs, seq!['1']) == digs.len());
        lemma_digits_shape(num(digs) + 1, digs.len());
        vstd::arithmetic::div_mod::lemma_small_mod(num(digs) + 1, pow62(digs.len()));
        assert(a == digits(num(digs) + 1, digs.len()));
        assert(r == h + a);
        lemma_num_concat(h, a);
        lemma_num_concat(h, digs);
        assert(b62(r)) by {
            assert forall|j: int| 0 <= j < r.len() implies is_b62(#[trigger] r[j]) by {
                if j < h.len() {
                    assert(r[j] == h[j]);
                } else {
                    assert(r[j] == a[j - h.len()]);
                }
            }
        }
        lemma_lex_num(i, r);
        if i.len() < lower.len() {
            assert(lower == i + lower.skip(i.len() as int));
            lemma_lex_extend(i, r, lower.skip(i.len() as int));
        } else {
            assert(lower == i);
        }
    } else {
        let d = h.last();
        let w = h.len();
        assert(is_b62(d));
        if h[0] == 'z' || h[0] == 'A' {
            lemma_run_len_bound(h, h[0]);
        }
        assert(d != 'z');
        lemma_inc_last(h);
        let next = h.drop_last().push(chr(val(d) + 1));
        let nh = spec_increment_integer_head(h);
        assert(nh == next || nh == next.push('A'));
        assert(nh[w - 1] == chr(val(d) + 1));
        super::base62::lemma_val_order(d, chr(val(d) + 1));
        assert(r == spec_start_on_new_head(nh, false));
        assert forall|j: int| 0 <= j < w - 1 implies lower[j] == r[j] by {
            assert(r[j] == nh[j]);
            assert(nh[j] == h[j]);
            assert(h[j] == i[j]);
            assert(i[j] == lower[j]);
        }
        assert(r[w - 1] == nh[w - 1]);
        assert(lower[w - 1] == i[w - 1]);
        lemma_lex_at(lower, r, w - 1);
    }
}

/// The key generated before a first key sorts before it (when the key's
/// integer has a predecessor at all).
pub proof fn law_key_before_sorts_before(upper: Seq<char>)
    requires
        generate_defined(None, Some(upper)),
        spec_get_integer_part(upper) is Some,
    ensures
        spec_generate_key_between(None, Some(upper)) matches Ok(k) ==> lex_lt(k, upper),
{
    lemma_integer_parts(upper);
    let i = spec_get_integer_part(upper).unwrap();
    let h = spec_integer_head(i);
    let digs = i.skip(h.len() as int);
    if !all_chars(digs, '0') {
        lemma_not_all_zero(digs);
        super::shape::lemma_num_one();
        assert(max_len(digs, seq!['1']) == digs.len());
        let a = digits((num(digs) - 1) as nat, digs.len());
        lemma_digits_shape((num(digs) - 1) as nat, digs.len());
        lemma_num_bound(digs);
        vstd::arithmetic::div_mod::lemma_small_mod((num(digs) - 1) as nat, pow62(digs.len()));
        let r = h + a;
        assert(spec_decrement_integer(i) == Some(r));
        lemma_num_concat(h, a);
        lemma_num_concat(h, digs);
        assert(b62(r)) by {
            assert forall|j: int| 0 <= j < r.len() implies is_b62(#[trigger] r[j]) by {
                if j < h.len() {
                    assert(r[j] == h[j]);
                } else {
                    assert(r[j] == a[j - h.len()]);
                }
            }
        }
        lemma_lex_num(r, i);
        if i.len() < upper.len() {
            assert(upper == i + upper.skip(i.len() as int));
            lemma_lex_prefix(i, upper.skip(i.len() as int));
            lemma_lex_trans(r, i, upper);
        } else {
            assert(upper == i);
        }
    } else {
        match spec_decrement_integer_head(h) {
            None => {},
            Some(nh) => {
                let j = lemma_decrement_head_drop(h);
                let r = super::integer::spec_start_on_new_head(nh, true);
                assert(spec_decrement_integer(i) == Some(r));
                assert forall|x: int| 0 <= x < j implies r[x] == upper[x] by {
                    assert(r[x] == nh[x]);
                    assert(h[x] == i[x]);
                    assert(i[x] == upper[x]);
                }
                assert(r[j] == nh[j]);
                assert(upper[j] == i[j]);
                assert(i[j] == h[j]);
                lemma_lex_at(r, upper, j);
            },
        }
    }
}

/// A string of `0` digits stands for zero.
proof fn lemma_zeros_num(s: Seq<char>)
    requires
        all_chars(s, '0'),
    ensures
        num(s) == 0,
    decreases s.len(),
{
    if s.len() > 0 {
        let p = s.drop_last();
        assert(all_chars(p, '0')) by {
            assert forall|i: int| 0 <= i < p.len() implies p[i] == '0' by {
                assert(p[i] == s[i]);
            }
        }
        lemma_zeros_num(p);
        assert(s.last() == s[s.len() - 1]);
    }
}

/// A key before a first key exists exactly when that key's integer is not
/// all `0` digits: the smallest integer has no predecessor.
pub proof fn law_key_before_defined(upper: Seq<char>)
    requires
        generate_defined(None, Some(upper)),
        spec_get_integer_part(upper) is Some,
    ensures
        spec_generate_key_between(None, Some(upper)) is Ok <==> !all_chars(
            spec_get_integer_part(upper).unwrap(),
            '0',
        ),
{
    lemma_integer_parts(upper);
    let i = spec_get_integer_part(upper).unwrap();
    let h = spec_integer_head(i);
    let digs = i.skip(h.len() as int);
    super::shape::lemma_num_one();
    assert(i[0] == h[0]);
    if !all_chars(digs, '0') {
        lemma_not_all_zero(digs);
        assert(super::arith::spec_subtract_keys(digs, seq!['1'], false) is Some);
        let x = choose|x: int| 0 <= x < digs.len() && digs[x] != '0';
        assert(i[h.len() + x] == digs[x]);
    } else if h[0] >= 'a' && h.last() == 'A' {
        if h.len() == 1 {
            assert(h.last() == h[0]);
        }
        let p = h.drop_last();
        assert(p[0] == h[0]);
        assert(b62(p)) by {
            assert forall|j: int| 0 <= j < p.len() implies is_b62(#[trigger] p[j]) by {
                assert(p[j] == h[j]);
            }
        }
        lemma_not_all_zero(p);
    } else if h.last() == 'A' {
        if h.len() == 1 {
            assert(h.last() == h[0]);
        }
    } else if all_chars(h, '0') {
        lemma_zeros_num(h);
        assert(all_chars(i, '0')) by {
            assert forall|j: int| 0 <= j < i.len() implies i[j] == '0' by {
                if j < h.len() {
                    assert(i[j] == h[j]);
                } else {
                    assert(i[j] == digs[j - h.len()]);
                }
            }
        }
    } else {
        lemma_not_all_zero(h);
        let x = choose|x: int| 0 <= x < h.len() && h[x] != '0';
        assert(i[x] == h[x]);
    }
}

/// Where the previous head first falls below a valid head.
proof fn lemma_decrement_head_drop(h: Seq<char>) -> (j: int)
    requires
        valid_head_shape(h),
        spec_decrement_integer_head(h) is Some,
    ensures
        0 <= j < h.len(),
        j < spec_decrement_integer_head(h).unwrap().len(),
        forall|x: int| 0 <= x < j ==> spec_decrement_integer_head(h).unwrap()[x] == h[x],
        spec_decrement_integer_head(h).unwrap()[j] < h[j],
{
    let w = h.len();
    let d = h.last();
    let c = h[0];
    assert(is_b62(d));
    assert(is_b62(c));
    let in_pos = c >= 'a';
    if c == 'z' || c == 'A' {
        lemma_run_len_bound(h, c);
        assert(d != c);
    }
    if in_pos && d == 'A' {
        assert(c == 'z');
        let p = h.drop_last();
        assert(b62(p)) by {
            assert forall|i: int| 0 <= i < p.len() implies is_b62(#[trigger] p[i]) by {
                assert(p[i] == h[i]);
            }
        }
        assert(p.last() == 'z');
        lemma_dec_last(p);
        w - 2
    } else if !in_pos && d == 'A' {
        assert(false);
        0
    } else if val(d) >= 1 {
        lemma_dec_last(h);
        super::base62::lemma_val_order(chr(val(d) - 1), d);
        w - 1
    } else {
        assert(d == '0');
        if w < 2 {
            assert(num(h) == 0) by {
                assert(h.drop_last() == Seq::<char>::empty());
            }
            super::shape::lemma_num_one();
            assert(false);
        }
        assert(h[w - 2] == c);
        lemma_dec_borrow(h);
        super::base62::lemma_val_order(chr(val(c) - 1), c);
        w - 2
    }
}

/// A jittered key appended after a last key sorts after it, for every shift
/// in `0..JITTER_RANGE`, with the same exception as
/// `law_key_after_sorts_after`.
pub proof fn law_jittered_key_after_sorts_after(lower: Seq<char>, shift: nat)
    requires
        jitter_defined(Some(lower), None),
        shift < JITTER_RANGE,
        spec_get_integer_part(lower) is Some,
        !({
            let i = spec_get_integer_part(lower).unwrap();
            let h = spec_integer_head(i);
            h[0] < 'a' && h.last() == 'z' && all_chars(i.skip(h.len() as int), 'z')
        }),
    ensures
        spec_jittered(Some(lower), None, shift) matches Ok(j) ==> lex_lt(lower, j),
{
    law_key_after_sorts_after(lower);
    lemma_jitter_fits_after(lower, shift);
    let k = spec_generate_key_between(Some(lower), None)->Ok_0;
    assert(super::padding_defined(k, None));
    if let Some(p) = spec_padding_for_jitter(k, None) {
        let zeros = fill('0', p);
        let padded = k + zeros;
        assert(padded == if p > 0 { k + fill('0', p) } else { k }) by {
            if p == 0 {
                assert(k + fill('0', 0) =~= k);
            }
        }
        assert(b62(padded)) by {
            assert forall|i: int| 0 <= i < padded.len() implies is_b62(#[trigger] padded[i]) by {
                if i < k.len() {
                    assert(padded[i] == k[i]);
                } else {
                    assert(padded[i] == '0');
                }
            }
        }
        let w = padded.len();
        lemma_encode_shape(shift);
        let e = encode(shift);
        assert(shift < pow62(w));
        super::arith::lemma_encode_len_bound(shift, w);
        assert(max_len(padded, e) == w);
        let n = num(padded) + shift;
        lemma_digits_shape(n, w);
        vstd::arithmetic::div_mod::lemma_small_mod(n, pow62(w));
        let j = digits(n, w);
        assert(spec_add_keys(padded, e) == j);
        assert(spec_jittered(Some(lower), None, shift) == Ok::<Seq<char>, super::KeyFailure>(j));
        // the padded key sorts at or after the unpadded one
        if p > 0 {
            lemma_lex_prefix(k, zeros);
            lemma_lex_trans(lower, k, padded);
        }
        assert(lex_lt(lower, padded));
        // adding the shift keeps it at or after the padded key
        if shift > 0 {
            lemma_lex_num(padded, j);
            lemma_lex_trans(lower, padded, j);
        } else {
            lemma_digits_num(padded);
        }
    }
}

/// A digit string with a digit below `z` at `j` stays at least
/// `62^(len - 1 - j)` below the next power of 62.
proof fn lemma_room_below(s: Seq<char>, j: int)
    requires
        b62(s),
        0 <= j < s.len(),
        s[j] != 'z',
    ensures
        num(s) + pow62((s.len() - 1 - j) as nat) <= pow62(s.len()),
{
    let a = s.take(j);
    let c = s[j];
    let b = s.skip(j + 1);
    let r = (s.len() - 1 - j) as nat;
    assert(s =~= a + (seq![c] + b));
    lemma_num_concat(seq![c], b);
    lemma_num_concat(a, seq![c] + b);
    assert(num(seq![c]) == val(c)) by {
        assert(is_b62(s[j]));
        lemma_num_push(Seq::<char>::empty(), c);
        assert(Seq::<char>::empty().push(c) =~= seq![c]);
        assert(num(Seq::<char>::empty()) == 0);
    }
    lemma_num_bound(a);
    lemma_num_bound(b);
    assert(is_b62(c));
    assert(val(c) <= 60);
    lemma_pow62_adds(j as nat, r + 1);
    assert(pow62(r + 1) == 62 * pow62(r));
    assert((j as nat) + (r + 1) == s.len());
    let q = pow62(j as nat);
    let pr = pow62(r);
    let na = num(a);
    let nb = num(b);
    let v = val(c);
    assert(num(s) == na * (62 * pr) + (v * pr + nb));
    assert(na * (62 * pr) + (v * pr + nb) + pr <= q * (62 * pr)) by (nonlinear_arith)
        requires
            na + 1 <= q,
            0 <= v <= 60,
            nb + 1 <= pr,
            pr >= 1,
    ;
}

/// A head whose integer has at most three digits is one of `a`, `b`, `c`,
/// `Z`, `Y`, `X`.
proof fn lemma_short_head(h: Seq<char>)
    requires
        valid_head_shape(h),
        il(h) <= h.len() + 3,
    ensures
        h.len() == 1,
        h[0] == 'a' || h[0] == 'b' || h[0] == 'c' || h[0] == 'Z' || h[0] == 'Y' || h[0] == 'X',
{
    let c = h[0];
    assert(is_b62(c));
    if c == 'z' || c == 'A' {
        let positive = c == 'z';
        super::shape::lemma_il2_lower(h.drop_first(), positive);
        assert(run_len(h, c) == 1 + run_len(h.drop_first(), c));
        assert(false);
    }
}

/// Every head's integer is at least two characters long.
proof fn lemma_il_at_least_two(h: Seq<char>)
    requires
        valid_head_shape(h),
    ensures
        il(h) >= 2,
{
    let c = h[0];
    if c == 'z' || c == 'A' {
        super::shape::lemma_il2_lower(h.drop_first(), c == 'z');
    }
}

/// When the digits of a key's integer are not all `z`, the next integer is
/// one more, so the key (with `f` fraction digits) is within `62^f` of it.
proof fn lemma_next_integer_close(k: Seq<char>)
    requires
        k.len() > 0,
        b62(k),
        spec_get_integer_part(k) is Some,
        !all_chars(
            spec_get_integer_part(k).unwrap().skip(
                spec_integer_head(spec_get_integer_part(k).unwrap()).len() as int,
            ),
            'z',
        ),
    ensures
        spec_lexical_distance(k, spec_increment_integer(spec_get_integer_part(k).unwrap()))
            <= pow62((k.len() - spec_get_integer_part(k).unwrap().len()) as nat),
{
    lemma_integer_parts(k);
    let i = spec_get_integer_part(k).unwrap();
    let h = spec_integer_head(i);
    let digs = i.skip(h.len() as int);
    lemma_not_all_max(digs);
    if digs.len() == 0 {
        assert(all_chars(digs, 'z'));
    }
    let a = spec_add_keys(digs, seq!['1']);
    super::shape::lemma_num_one();
    assert(max_len(digs, seq!['1']) == digs.len());
    lemma_digits_shape(num(digs) + 1, digs.len());
    vstd::arithmetic::div_mod::lemma_small_mod(num(digs) + 1, pow62(digs.len()));
    assert(a == digits(num(digs) + 1, digs.len()));
    let next = spec_increment_integer(i);
    assert(next == h + a);
    lemma_num_concat(h, a);
    lemma_num_concat(h, digs);
    assert(num(next) == num(i) + 1);
    assert(next.len() == i.len());
    let frac = k.skip(i.len() as int);
    assert(k =~= i + frac);
    let f = frac.len();
    lemma_num_concat(i, frac);
    lemma_num_bound(frac);
    let zeros = fill('0', f);
    lemma_num_fill_zero(f);
    lemma_num_concat(next, zeros);
    let w = k.len();
    assert(max_len(k, next) == w);
    assert(pad(k, w, false, '0') == k);
    assert(pad(next, w, false, '0') =~= next + zeros);
    let pf = pow62(f);
    let ni = num(i);
    let nf = num(frac);
    assert(num(k) == ni * pf + nf);
    assert(num(next + zeros) == (ni + 1) * pf);
    assert((ni + 1) * pf == ni * pf + pf) by (nonlinear_arith);
}

/// `n` digits `z` are one below `62^n`.
proof fn lemma_num_fill_max(n: nat)
    ensures
        num(fill('z', n)) + 1 == pow62(n),
    decreases n,
{
    if n > 0 {
        lemma_num_fill_max((n - 1) as nat);
        assert(fill('z', n).drop_last() =~= fill('z', (n - 1) as nat));
        assert(fill('z', n).last() == 'z');
    } else {
        assert(fill('z', 0) =~= Seq::<char>::empty());
    }
}

/// After the last integer of a one-character head `c` (one of `a`, `b`,
/// `c`, `Z`, `Y`, `X`) comes the first integer of the next head.
proof fn lemma_next_after_last(c: char, n: nat)
    requires
        c == 'a' || c == 'b' || c == 'c' || c == 'Z' || c == 'Y' || c == 'X',
    ensures
        spec_increment_integer(seq![c] + fill('z', n)) == seq![chr(val(c) + 1)] + fill(
            '0',
            (il(seq![chr(val(c) + 1)]) - 1) as nat,
        ),
        val(chr(val(c) + 1)) == val(c) + 1,
{
    let i = seq![c] + fill('z', n);
    assert(i[0] == c);
    assert(head_len(i) == 1);
    let h = spec_integer_head(i);
    assert(h =~= seq![c]);
    assert(i.skip(1) =~= fill('z', n));
    assert(all_chars(fill('z', n), 'z'));
    assert(b62(seq![c])) by {
        assert forall|j: int| 0 <= j < seq![c].len() implies is_b62(#[trigger] seq![c][j]) by {
            assert(seq![c][j] == c);
        }
    }
    super::shape::lemma_inc_last(seq![c]);
    let d = chr(val(c) + 1);
    assert(seq![c].drop_last().push(d) =~= seq![d]);
    super::base62::lemma_chr_val(val(c) + 1);
    assert(d != 'z');
    assert(spec_increment_integer_head(h) == seq![d]);
}

/// A key padded on the right with `0`s keeps its value, scaled.
proof fn lemma_pad_num(x: Seq<char>, w: nat)
    requires
        x.len() <= w,
    ensures
        pad(x, w, false, '0').len() == w,
        num(pad(x, w, false, '0')) == num(x) * pow62((w - x.len()) as nat),
{
    let z = fill('0', (w - x.len()) as nat);
    lemma_num_fill_zero((w - x.len()) as nat);
    lemma_num_concat(x, z);
    if x.len() < w {
        assert(pad(x, w, false, '0') == x + z);
    } else {
        assert(pow62(0) == 1);
    }
}

/// When the digits of a key's integer are all `z` and at most three
/// characters follow its head, the next integer is within `62^2` of the
/// key.
#[verifier::spinoff_prover]
#[verifier::rlimit(30)]
proof fn lemma_last_integer_close(k: Seq<char>)
    requires
        k.len() > 0,
        b62(k),
        spec_get_integer_part(k) is Some,
        all_chars(
            spec_get_integer_part(k).unwrap().skip(
                spec_integer_head(spec_get_integer_part(k).unwrap()).len() as int,
            ),
            'z',
        ),
        k.len() <= spec_integer_head(spec_get_integer_part(k).unwrap()).len() + 3,
    ensures
        spec_lexical_distance(k, spec_increment_integer(spec_get_integer_part(k).unwrap()))
            <= 3844,
{
    lemma_integer_parts(k);
    super::shape::lemma_valid_key_head(k);
    let i = spec_get_integer_part(k).unwrap();
    let h = spec_integer_head(i);
    assert(i.len() == il(h));
    lemma_short_head(h);
    let c = h[0];
    let n = (i.len() - 1) as nat;
    let digs = i.skip(1);
    assert(i =~= seq![c] + fill('z', n)) by {
        assert forall|j: int| 0 <= j < i.len() implies i[j] == (seq![c] + fill('z', n))[j] by {
            if j > 0 {
                assert(i[j] == digs[j - 1]);
            } else {
                assert(i[0] == h[0]);
            }
        }
    }
    lemma_next_after_last(c, n);
    let d = chr(val(c) + 1);
    let m = (il(seq![d]) - 1) as nat;
    let next = seq![d] + fill('0', m);
    assert(spec_increment_integer(i) == next);
    // the next head's integer is at most one digit longer
    assert(m <= n + 1);
    let frac = k.skip(i.len() as int);
    assert(k =~= i + frac);
    let f = frac.len();
    assert(f <= 2);
    // values
    assert(is_b62(c));
    lemma_num_push(Seq::<char>::empty(), c);
    assert(Seq::<char>::empty().push(c) =~= seq![c]);
    lemma_num_push(Seq::<char>::empty(), d);
    assert(Seq::<char>::empty().push(d) =~= seq![d]);
    assert(num(Seq::<char>::empty()) == 0);
    lemma_num_concat(seq![c], fill('z', n));
    lemma_num_fill_max(n);
    lemma_num_concat(seq![d], fill('0', m));
    lemma_num_fill_zero(m);
    lemma_num_concat(i, frac);
    lemma_num_bound(frac);
    let w = max_len(k, next);
    lemma_pad_num(k, w);
    lemma_pad_num(next, w);
    let a = val(c) + 1;
    let nf = num(frac);
    let e = (w - k.len()) as nat;
    let pn = pow62(n);
    let pf = pow62(f);
    let pe = pow62(e);
    let pm = pow62(m);
    let pt = pow62((w - next.len()) as nat);
    // 62^(w-1) split both ways
    lemma_pow62_adds(n, f);
    lemma_pow62_adds(n + f, e);
    lemma_pow62_adds(f, e);
    lemma_pow62_adds(m, (w - next.len()) as nat);
    assert(n + f + e == w - 1);
    assert(m + (w - next.len()) == w - 1);
    let pw = pow62((w - 1) as nat);
    assert(pn * pf * pe == pw) by (nonlinear_arith)
        requires
            pow62(n + f) == pn * pf,
            pow62(n + f + e) == pow62(n + f) * pe,
            pow62(n + f + e) == pw,
    ;
    assert(pm * pt == pw);
    assert(num(i) == (a - 1) * pn + (pn - 1));
    assert(num(k) == num(i) * pf + nf);
    assert(num(next) == a * pm);
    let xk = num(pad(k, w, false, '0'));
    let yn = num(pad(next, w, false, '0'));
    assert(xk == num(k) * pe);
    assert(yn == num(next) * pt);
    assert(yn - xk == pe * (pf - nf)) by (nonlinear_arith)
        requires
            xk == (((a - 1) * pn + (pn - 1)) * pf + nf) * pe,
            yn == a * pm * pt,
            pm * pt == pw,
            pn * pf * pe == pw,
    ;
    assert(pe * (pf - nf) <= pe * pf) by (nonlinear_arith)
        requires
            nf >= 0,
            pe >= 0,
    ;
    assert(pe * pf == pow62(f + e));
    assert(f + e <= 2);
    lemma_pow62_mono(f + e, 2);
    reveal_with_fuel(pow62, 3);
    assert(spec_lexical_distance(k, next) == (if xk >= yn { xk - yn } else { yn - xk }));
    assert(nf < pf);
    assert(pe >= 1) by {
        super::base62::lemma_pow62_pos(e);
    }
    assert(pe * (pf - nf) >= 1) by (nonlinear_arith)
        requires
            pe >= 1,
            pf - nf >= 1,
    ;
}

/// A run of `c` stops at a character other than `c`, or at the end.
proof fn lemma_run_len_stop(s: Seq<char>, c: char)
    ensures
        run_len(s, c) <= s.len(),
        run_len(s, c) < s.len() ==> s[run_len(s, c) as int] != c,
    decreases s.len(),
{
    if s.len() > 0 && s[0] == c {
        lemma_run_len_stop(s.drop_first(), c);
        assert(run_len(s, c) == 1 + run_len(s.drop_first(), c));
        if run_len(s, c) < s.len() {
            assert(s[run_len(s, c) as int] == s.drop_first()[run_len(s.drop_first(), c) as int]);
        }
    }
}

/// With no upper neighbour, adding any shift below `JITTER_RANGE` to the
/// padded key never carries out of its first digit.
proof fn lemma_jitter_fits_after(lower: Seq<char>, shift: nat)
    requires
        jitter_defined(Some(lower), None),
        shift < JITTER_RANGE,
    ensures
        jitter_fits(Some(lower), None, shift),
{
    if let Ok(k) = spec_generate_key_between(Some(lower), None) {
        if let Some(p) = spec_padding_for_jitter(k, None) {
            assert(super::padding_defined(k, None));
            let ik = spec_get_integer_part(k).unwrap();
            let h = spec_integer_head(ik);
            let next = spec_increment_integer(ik);
            let dn = spec_lexical_distance(k, next);
            assert(p == if dn < JITTER_RANGE + 1 {
                super::spec_padding_for_distance(dn)
            } else {
                0
            });
            lemma_integer_parts(k);
            super::shape::lemma_valid_key_head(k);
            let zeros = fill('0', p);
            lemma_num_fill_zero(p);
            lemma_num_concat(k, zeros);
            assert(num(k + zeros) == num(k) * pow62(p));
            lemma_pow62_adds(k.len(), p);
            lemma_num_bound(k);
            reveal_with_fuel(pow62, 4);
            assert(pow62(3) == 238328);
            let nk = num(k);
            let pp = pow62(p);
            let pk = pow62(k.len());
            if p >= 3 {
                assert(p == 3);
                assert(nk * pp + shift < pk * pp) by (nonlinear_arith)
                    requires
                        nk + 1 <= pk,
                        pp == 238328,
                        shift < 47665,
                ;
            } else if nk * pp + shift >= pk * pp {
                // a digit below `z` inside the head leaves room below 62^|k|
                let j: int = if h[0] == 'z' {
                    h.len() - 1
                } else {
                    0
                };
                if h[0] == 'z' {
                    lemma_run_len_stop(h, 'z');
                }
                assert(h == k.take(h.len() as int));
                assert(k[j] == h[j]);
                assert(k[j] != 'z');
                lemma_room_below(k, j);
                let r = (k.len() - 1 - j) as nat;
                let pr = pow62(r);
                lemma_pow62_adds(r, p);
                assert(pr * pp <= shift) by (nonlinear_arith)
                    requires
                        nk + pr <= pk,
                        nk * pp + shift >= pk * pp,
                        pp >= 1,
                ;
                if r + p >= 3 {
                    lemma_pow62_mono(3, r + p);
                    assert(false);
                }
                assert(k.len() <= h.len() + 2);
                // the next integer is then close, so the padding is three digits
                if all_chars(ik.skip(h.len() as int), 'z') {
                    lemma_last_integer_close(k);
                    assert(dn <= 3844);
                } else {
                    lemma_next_integer_close(k);
                    lemma_pow62_mono((k.len() - ik.len()) as nat, 2);
                    assert(dn <= 3844);
                }
                assert(p == 3);
            }
        }
    }
}

/// Every jittered key has at least five characters (the server's minimum):
/// a shorter key sits within `62^2` of the next integer, so it is padded
/// with three digits before the shift is added.
pub proof fn law_jittered_key_long_enough(
    lower: Option<Seq<char>>,
    upper: Option<Seq<char>>,
    shift: nat,
)
    requires
        jitter_defined(lower, upper),
    ensures
        spec_jittered(lower, upper, shift) matches Ok(j) ==> j.len() >= 5,
{
    if let Ok(key) = spec_generate_key_between(lower, upper) {
        if let Some(p) = spec_padding_for_jitter(key, upper) {
            assert(super::padding_defined(key, upper));
            let padded = if p > 0 {
                key + fill('0', p)
            } else {
                key
            };
            assert(padded.len() == key.len() + p);
            let e = encode(shift);
            let n = num(padded) + num(e);
            let w = max_len(padded, e);
            lemma_digits_shape(n, w);
            lemma_digits_shape(n, w + 1);
            assert(spec_add_keys(padded, e).len() >= padded.len());
            if key.len() < 5 {
                lemma_integer_parts(key);
                super::shape::lemma_valid_key_head(key);
                let ik = spec_get_integer_part(key).unwrap();
                let h = spec_integer_head(ik);
                lemma_il_at_least_two(h);
                assert(ik.len() == il(h));
                let next = spec_increment_integer(ik);
                let dn = spec_lexical_distance(key, next);
                if all_chars(ik.skip(h.len() as int), 'z') {
                    lemma_last_integer_close(key);
                } else {
                    lemma_next_integer_close(key);
                    lemma_pow62_mono((key.len() - ik.len()) as nat, 2);
                    reveal_with_fuel(pow62, 3);
                }
                assert(dn <= 3844);
                assert(p >= 3);
            }
        }
    }
}

/// A sum of keys is at least as long as the longer of them.
proof fn lemma_add_keys_len(a: Seq<char>, b: Seq<char>)
    ensures
        spec_add_keys(a, b).len() >= max_len(a, b),
{
    let n = num(a) + num(b);
    let w = max_len(a, b);
    lemma_digits_shape(n, w);
    lemma_digits_shape(n, w + 1);
}

/// The shift added to a key padded with `p` zeros stays below `upper` when
/// `upper` is no longer than the key and the padding is at least what the
/// distance to `upper` asks for; the sum keeps the padded key's width and
/// sorts at or after the key.
proof fn lemma_jitter_below(k: Seq<char>, u: Seq<char>, p: nat, shift: nat)
    requires
        k.len() > 0,
        b62(k),
        b62(u),
        u.len() <= k.len(),
        lex_lt(k, u),
        shift < JITTER_RANGE,
        p >= (if spec_lexical_distance(k, u) < JITTER_RANGE + 1 {
            super::spec_padding_for_distance(spec_lexical_distance(k, u))
        } else {
            0
        }),
    ensures
        ({
            let j = spec_add_keys(k + fill('0', p), encode(shift));
            &&& j.len() == k.len() + p
            &&& lex_lt(j, u)
            &&& (j == k || lex_lt(k, j))
        }),
{
    // `upper` is not `k` followed by zeros
    assert(!zero_extension(k, u)) by {
        if zero_extension(k, u) {
            assert(u.take(k.len() as int) =~= u);
            lemma_lex_irreflexive(k);
        }
    }
    let w0 = k.len();
    assert(max_len(k, u) == w0);
    lemma_pad_keeps_order(k, u, w0);
    assert(pad(k, w0, false, '0') == k);
    let pu0 = pad(u, w0, false, '0');
    lemma_pad_shape(u, w0, false, '0');
    lemma_lex_num(k, pu0);
    let du = spec_lexical_distance(k, u);
    assert(du == num(pu0) - num(k));
    assert(du >= 1);
    // the padded key and `upper` at its width
    let zeros = fill('0', p);
    let pk = k + zeros;
    assert(b62(pk)) by {
        assert forall|i: int| 0 <= i < pk.len() implies is_b62(#[trigger] pk[i]) by {
            if i < k.len() {
                assert(pk[i] == k[i]);
            } else {
                assert(pk[i] == '0');
            }
        }
    }
    let w = pk.len();
    lemma_num_fill_zero(p);
    lemma_num_concat(k, zeros);
    lemma_pad_num(u, w);
    lemma_pad_num(u, w0);
    lemma_pad_shape(u, w, false, '0');
    lemma_pow62_adds((w0 - u.len()) as nat, p);
    assert((w - u.len()) as nat == (w0 - u.len()) as nat + p);
    let pu = pad(u, w, false, '0');
    let pp = pow62(p);
    let nk = num(k);
    let q = pow62((w0 - u.len()) as nat);
    assert(num(pu) == num(u) * (q * pp));
    assert(num(pu0) == num(u) * q);
    assert(num(pu) == num(pu0) * pp) by (nonlinear_arith)
        requires
            num(pu) == num(u) * (q * pp),
            num(pu0) == num(u) * q,
    ;
    assert(num(pk) == nk * pp);
    // the shift stays below the distance to `upper`
    let a: nat = if du < JITTER_RANGE + 1 {
        super::spec_padding_for_distance(du)
    } else {
        0
    };
    lemma_pow62_mono(a, p);
    reveal_with_fuel(pow62, 4);
    assert(pow62(3) == 238328);
    assert(du * pp > shift) by {
        if du < JITTER_RANGE + 1 {
            assert(pow62(a) + du > JITTER_RANGE);
            assert(du * pp >= pp + du - 1) by (nonlinear_arith)
                requires
                    du >= 1,
                    pp >= 1,
            ;
        } else {
            assert(du * pp >= du) by (nonlinear_arith)
                requires
                    du >= 1,
                    pp >= 1,
            ;
        }
    }
    let n = num(pk) + shift;
    assert(num(pu0) == nk + du);
    assert(num(pu) == (nk + du) * pp);
    let nkdu = nk + du;
    assert(nkdu * pp == nk * pp + du * pp) by (nonlinear_arith)
        requires
            nkdu == nk + du,
    ;
    assert(n < num(pu));
    lemma_num_bound(pu);
    // no carry: the sum keeps the padded key's width
    lemma_encode_shape(shift);
    let e = encode(shift);
    super::arith::lemma_encode_len_bound(shift, w);
    assert(max_len(pk, e) == w);
    lemma_digits_shape(n, w);
    vstd::arithmetic::div_mod::lemma_small_mod(n, pow62(w));
    let j = digits(n, w);
    assert(spec_add_keys(pk, e) == j);
    // below `upper`
    lemma_lex_num(j, pu);
    if u.len() < w {
        lemma_lex_zero_pad(j, u, (w - u.len()) as nat);
    } else {
        assert(pu == u);
    }
    // at or after the key
    if shift > 0 {
        lemma_lex_num(pk, j);
        if p > 0 {
            lemma_lex_prefix(k, zeros);
            lemma_lex_trans(k, pk, j);
        } else {
            assert(pk =~= k);
        }
    } else {
        lemma_digits_num(pk);
        if p > 0 {
            lemma_lex_prefix(k, zeros);
        } else {
            assert(pk =~= k);
        }
    }
}

/// A jittered key between two ordered keys sorts strictly between them
/// (unless `upper` is `lower` followed only by zeros), for every shift in
/// `0..JITTER_RANGE`: the padding leaves the shift below the distance to
/// `upper`.
pub proof fn law_jittered_key_between_sorts_between(lower: Seq<char>, upper: Seq<char>, shift: nat)
    requires
        jitter_defined(Some(lower), Some(upper)),
        lex_lt(lower, upper),
        !zero_extension(lower, upper),
        shift < JITTER_RANGE,
    ensures
        spec_jittered(Some(lower), Some(upper), shift) matches Ok(j) ==> lex_lt(lower, j)
            && lex_lt(j, upper),
{
    law_key_between_sorts_between(lower, upper);
    if let Ok(k) = spec_generate_key_between(Some(lower), Some(upper)) {
        if let Some(p) = spec_padding_for_jitter(k, Some(upper)) {
            assert(super::padding_defined(k, Some(upper)));
            assert(k == spec_mid_point(lower, upper));
            lemma_add_keys_len(pad(lower, max_len(lower, upper), false, '0').push('0'), encode(31));
            lemma_add_keys_len(
                pad(lower, max_len(lower, upper), false, '0'),
                encode(spec_lexical_distance(lower, upper) / 2),
            );
            lemma_pad_shape(lower, max_len(lower, upper), false, '0');
            assert(k.len() >= upper.len());
            lemma_jitter_below(k, upper, p, shift);
            assert(k + fill('0', p) == if p > 0 { k + fill('0', p) } else { k }) by {
                if p == 0 {
                    assert(k + fill('0', 0) =~= k);
                }
            }
            let j = spec_add_keys(k + fill('0', p), encode(shift));
            if j != k {
                lemma_lex_trans(lower, k, j);
            }
        }
    }
}

/// A jittered key placed before a first key sorts before it, when the key
/// generated before it is at least as long as it (as for a first key with no
/// fraction, unless its predecessor has a shorter head).
pub proof fn law_jittered_key_before_sorts_before(upper: Seq<char>, shift: nat)
    requires
        jitter_defined(None, Some(upper)),
        spec_get_integer_part(upper) is Some,
        shift < JITTER_RANGE,
        spec_generate_key_between(None, Some(upper)) matches Ok(k) && upper.len() <= k.len(),
    ensures
        spec_jittered(None, Some(upper), shift) matches Ok(j) ==> lex_lt(j, upper),
{
    law_key_before_sorts_before(upper);
    if let Ok(k) = spec_generate_key_between(None, Some(upper)) {
        if let Some(p) = spec_padding_for_jitter(k, Some(upper)) {
            assert(super::padding_defined(k, Some(upper)));
            lemma_jitter_below(k, upper, p, shift);
            assert(k + fill('0', p) == if p > 0 { k + fill('0', p) } else { k }) by {
                if p == 0 {
                    assert(k + fill('0', 0) =~= k);
                }
            }
        }
    }
}

/// The jittered key after the two-character integer `k` (head `a`) is `k`
/// followed by the three digits of the shift.
proof fn lemma_jitter_after_short(k: Seq<char>, shift: nat)
    requires
        k.len() == 2,
        k[0] == 'a',
        is_b62(k[1]),
        shift < JITTER_RANGE,
    ensures
        spec_get_integer_part(k) == Some(k),
        spec_lexical_distance(k, spec_increment_integer(k)) <= 3844,
        spec_padding_for_jitter(k, None) == Some(3nat),
        spec_add_keys(k + fill('0', 3), encode(shift)) == k + digits(shift, 3),
        b62(k + digits(shift, 3)),
{
    assert(b62(k)) by {
        assert forall|i: int| 0 <= i < k.len() implies is_b62(#[trigger] k[i]) by {
            if i == 0 {
                assert(k[0] == 'a');
            }
        }
    }
    assert(super::integer::head_len(k) == 1);
    assert(spec_integer_head(k) =~= seq!['a']);
    assert(il(seq!['a']) == 2);
    assert(k.take(2) =~= k);
    assert(spec_get_integer_part(k) == Some(k));
    let next = spec_increment_integer(k);
    let dn = spec_lexical_distance(k, next);
    assert(k.skip(1) =~= seq![k[1]]);
    if all_chars(k.skip(1), 'z') {
        lemma_last_integer_close(k);
    } else {
        lemma_next_integer_close(k);
        assert(pow62(0) == 1);
    }
    assert(dn <= 3844);
    // the sum
    reveal_with_fuel(pow62, 4);
    assert(pow62(3) == 238328);
    let zeros = fill('0', 3);
    let pk = k + zeros;
    let d3 = digits(shift, 3);
    lemma_digits_shape(shift, 3);
    vstd::arithmetic::div_mod::lemma_small_mod(shift, pow62(3));
    lemma_num_fill_zero(3);
    lemma_num_concat(k, zeros);
    lemma_num_concat(k, d3);
    let t = k + d3;
    assert(b62(t)) by {
        assert forall|i: int| 0 <= i < t.len() implies is_b62(#[trigger] t[i]) by {
            if i < 2 {
                assert(t[i] == k[i]);
            } else {
                assert(t[i] == d3[i - 2]);
            }
        }
    }
    lemma_digits_num(t);
    lemma_encode_shape(shift);
    super::arith::lemma_encode_len_bound(shift, 3);
    assert(max_len(pk, encode(shift)) == 5);
    lemma_num_bound(t);
    lemma_pow62_adds(2, 3);
    assert(num(pk) + num(encode(shift)) == num(t));
    assert(num(t) < pow62(5));
}

/// Appending pages one after another from an empty list, as the server
/// does, gives keys of five characters (within Docmost's 5 to 12) that
/// strictly increase: after a key whose integer is `a` and a digit below
/// `z`, the next jittered key keeps `a`, takes the next digit, and sorts
/// after it; the first key, with no lower neighbour, takes digit `0`.
pub proof fn law_jittered_append_chain(lower: Option<Seq<char>>, shift: nat)
    requires
        jitter_defined(lower, None),
        shift < JITTER_RANGE,
        lower matches Some(p) ==> spec_get_integer_part(p) is Some && p[0] == 'a' && val(p[1])
            <= 60,
    ensures
        spec_jittered(lower, None, shift) matches Ok(j) && j.len() == 5 && b62(j) && j[0] == 'a' && val(j[1])
            == (match lower {
            Some(p) => val(p[1]) + 1,
            None => 0,
        }) && (lower matches Some(p) ==> lex_lt(p, j)),
{
    let k = spec_generate_key_between(lower, None)->Ok_0;
    match lower {
        None => {
            assert(k == seq!['a', '0']);
        },
        Some(p) => {
            assert(super::valid_key(lower));
            assert(super::integer::head_len(p) == 1);
            let i = spec_get_integer_part(p).unwrap();
            assert(il(spec_integer_head(p)) == 2);
            assert(i =~= seq!['a', p[1]]);
            assert(spec_integer_head(i) =~= seq!['a']);
            assert(i.skip(1) =~= seq![p[1]]);
            assert(is_b62(p[1]));
            assert(b62(seq![p[1]])) by {
                assert forall|j: int| 0 <= j < seq![p[1]].len() implies is_b62(#[trigger] seq![p[1]][j]) by {
                    assert(seq![p[1]][j] == p[1]);
                }
            }
            super::shape::lemma_inc_last(seq![p[1]]);
            assert(seq![p[1]].drop_last().push(chr(val(p[1]) + 1)) =~= seq![chr(val(p[1]) + 1)]);
            assert(!all_chars(i.skip(1), 'z'));
            super::base62::lemma_chr_val(val(p[1]) + 1);
            assert(k =~= seq!['a', chr(val(p[1]) + 1)]);
            law_jittered_key_after_sorts_after(p, shift);
        },
    }
    assert(is_b62(k[1]));
    lemma_jitter_after_short(k, shift);
    let j = k + digits(shift, 3);
    assert(spec_jittered(lower, None, shift) == Ok::<Seq<char>, super::KeyFailure>(j));
    lemma_digits_shape(shift, 3);
    assert(j[0] == k[0] && j[1] == k[1]);
}

/// The key generated after a key whose integer is `a` and a digit below
/// `z` is `a` and the next digit.
proof fn lemma_key_after_a(p: Seq<char>)
    requires
        p.len() >= 2,
        b62(p),
        p[0] == 'a',
        val(p[1]) <= 60,
    ensures
        spec_get_integer_part(p) == Some(seq!['a', p[1]]),
        spec_generate_key_between(Some(p), None) == Ok::<Seq<char>, super::KeyFailure>(
            seq!['a', chr(val(p[1]) + 1)],
        ),
        val(chr(val(p[1]) + 1)) == val(p[1]) + 1,
        is_b62(chr(val(p[1]) + 1)),
{
    assert(super::integer::head_len(p) == 1);
    assert(spec_integer_head(p) =~= seq!['a']);
    assert(il(seq!['a']) == 2);
    let i = spec_get_integer_part(p).unwrap();
    assert(i =~= seq!['a', p[1]]);
    assert(spec_integer_head(i) =~= seq!['a']);
    assert(i.skip(1) =~= seq![p[1]]);
    assert(is_b62(p[1]));
    assert(b62(seq![p[1]])) by {
        assert forall|j: int| 0 <= j < seq![p[1]].len() implies is_b62(#[trigger] seq![p[1]][j]) by {
            assert(seq![p[1]][j] == p[1]);
        }
    }
    super::shape::lemma_inc_last(seq![p[1]]);
    assert(seq![p[1]].drop_last().push(chr(val(p[1]) + 1)) =~= seq![chr(val(p[1]) + 1)]);
    assert(!all_chars(i.skip(1), 'z'));
    super::base62::lemma_chr_val(val(p[1]) + 1);
    assert(spec_increment_integer(i) =~= seq!['a', chr(val(p[1]) + 1)]);
}

/// Appending after no key, or after a key whose integer is `a` and a digit
/// below `z`, is within the inputs the jittered generator is defined on.
proof fn lemma_append_defined(lower: Option<Seq<char>>)
    requires
        lower matches Some(p) ==> p.len() >= 2 && b62(p) && super::arith::input_len_ok(p) && p[0]
            == 'a' && val(p[1]) <= 60,
    ensures
        jitter_defined(lower, None),
        lower matches Some(p) ==> spec_get_integer_part(p) is Some,
{
    let k = match lower {
        Some(p) => {
            lemma_key_after_a(p);
            seq!['a', chr(val(p[1]) + 1)]
        },
        None => seq!['a', '0'],
    };
    assert(spec_generate_key_between(lower, None) == Ok::<Seq<char>, super::KeyFailure>(k));
    assert(is_b62(k[1]));
    lemma_jitter_after_short(k, 0);
    assert(b62(k)) by {
        assert forall|i: int| 0 <= i < k.len() implies is_b62(#[trigger] k[i]) by {
            if i == 0 {
                assert(k[0] == 'a');
            }
        }
    }
    assert(super::padding_defined(k, None));
}

/// The key a list ends with after appending with the given shifts, one
/// after another, starting from an empty list (`None` when a step fails).
pub open spec fn append_chain(shifts: Seq<nat>) -> Option<Seq<char>>
    decreases shifts.len(),
{
    if shifts.len() == 0 {
        None
    } else {
        match spec_jittered(append_chain(shifts.drop_last()), None, shifts.last()) {
            Ok(k) => Some(k),
            Err(_) => None,
        }
    }
}

#[verifier::rlimit(30)]
proof fn lemma_append_chain_shape(shifts: Seq<nat>)
    requires
        1 <= shifts.len() <= 62,
        forall|i: int| 0 <= i < shifts.len() ==> shifts[i] < JITTER_RANGE,
    ensures
        append_chain(shifts) matches Some(k) && k.len() == 5 && b62(k) && k[0] == 'a' && val(k[1])
            == shifts.len() - 1,
        shifts.len() >= 2 ==> (append_chain(shifts.drop_last()) matches Some(p) && lex_lt(
            p,
            append_chain(shifts).unwrap(),
        )),
    decreases shifts.len(),
{
    let prev = shifts.drop_last();
    let shift = shifts.last();
    let lower = append_chain(prev);
    if shifts.len() >= 2 {
        assert forall|i: int| 0 <= i < prev.len() implies prev[i] < JITTER_RANGE by {
            assert(prev[i] == shifts[i]);
        }
        lemma_append_chain_shape(prev);
        assert(lower is Some);
        assert(super::arith::input_len_ok(lower.unwrap()));
    } else {
        assert(prev.len() == 0);
        assert(lower is None);
    }
    assert(shift < JITTER_RANGE);
    lemma_append_defined(lower);
    law_jittered_append_chain(lower, shift);
    let j = spec_jittered(lower, None, shift)->Ok_0;
    assert(append_chain(shifts) == Some(j));
}

/// Appending pages one after another to an empty list, as the server
/// does, with any shifts below `JITTER_RANGE`: after a chain of up to 61
/// earlier appends (none at all included), the next call of the jittered
/// generator with no upper neighbour is defined, succeeds with a key of
/// five characters (within Docmost's 5 to 12), and that key sorts strictly
/// after the last key of the chain.
pub proof fn law_append_chain(shifts: Seq<nat>, shift: nat)
    requires
        shifts.len() <= 61,
        forall|i: int| 0 <= i < shifts.len() ==> shifts[i] < JITTER_RANGE,
        shift < JITTER_RANGE,
    ensures
        jitter_defined(append_chain(shifts), None),
        spec_jittered(append_chain(shifts), None, shift) matches Ok(k) && 5 <= k.len() <= 12 && (
        append_chain(shifts) matches Some(p) ==> lex_lt(p, k)),
{
    let all = shifts.push(shift);
    assert(all.drop_last() =~= shifts);
    assert(all.last() == shift);
    assert forall|i: int| 0 <= i < all.len() implies all[i] < JITTER_RANGE by {
        if i < shifts.len() {
            assert(all[i] == shifts[i]);
        }
    }
    lemma_append_chain_shape(all);
    let lower = append_chain(shifts);
    if shifts.len() >= 1 {
        lemma_append_chain_shape(shifts);
        assert(super::arith::input_len_ok(lower.unwrap()));
    } else {
        assert(lower is None);
    }
    lemma_append_defined(lower);
}

} // verus!
