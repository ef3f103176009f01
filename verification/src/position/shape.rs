//! Why the integer arithmetic never underflows on the keys it is given: the
//! head of a key whose integer part parses is a `z`/`A` run and one more
//! character (or a single character), and every head derived from it on the
//! way to a neighbouring integer is short enough for its own integer length.

use vstd::prelude::*;
use super::base62::{b62, chr, digits, is_b62, num, pow62, val, lemma_digits_num, lemma_num_bound,
    lemma_num_push, lemma_pow62_pos};
use super::arith::{max_len, spec_add_keys, spec_subtract_keys};
use super::integer::{all_chars, decrement_defined, head_len, il, il2, increment_defined,
    lemma_run_len_bound, lemma_take_b62, run_len, spec_decrement_integer_head,
    spec_get_integer_part, spec_increment_integer_head, spec_integer_head};

verus! {

pub proof fn lemma_run_len_char(s: Seq<char>, c: char, j: int)
    requires
        0 <= j <= s.len(),
        forall|i: int| 0 <= i < j ==> s[i] == c,
        j == s.len() || s[j] != c,
    ensures
        run_len(s, c) == j,
    decreases j,
{
    if j > 0 {
        let t = s.drop_first();
        assert forall|i: int| 0 <= i < j - 1 implies t[i] == c by {
            assert(t[i] == s[i + 1]);
        }
        if j < s.len() {
            assert(t[j - 1] == s[j]);
        }
        lemma_run_len_char(t, c, j - 1);
    } else if s.len() > 0 {
        assert(s[0] != c);
    }
}

pub proof fn lemma_il2_lower(s: Seq<char>, positive: bool)
    ensures
        il2(s, positive) >= 52 * run_len(s, if positive { 'z' } else { 'A' }) + 2,
    decreases s.len(),
{
    let c = if positive { 'z' } else { 'A' };
    if s.len() > 0 {
        if s[0] == c {
            lemma_il2_lower(s.drop_first(), positive);
        }
    }
}

/// A head no longer than its run plus two characters (or two characters when
/// it starts with neither `z` nor `A`) fits in its integer length.
pub proof fn lemma_il_covers(r: Seq<char>)
    requires
        r.len() > 0,
        (r[0] == 'z' || r[0] == 'A') ==> r.len() <= run_len(r, r[0]) + 2,
        !(r[0] == 'z' || r[0] == 'A') ==> r.len() <= 2,
    ensures
        il(r) >= r.len(),
{
    if r[0] == 'z' || r[0] == 'A' {
        let positive = r[0] == 'z';
        lemma_il2_lower(r.drop_first(), positive);
        assert(r == seq![r[0]] + r.drop_first());
        assert(run_len(r, r[0]) == 1 + run_len(r.drop_first(), r[0]));
    }
}

/// A run of `z`s or `A`s covering the whole key denotes a longer integer.
proof fn lemma_all_run_too_long(k: Seq<char>)
    requires
        k.len() > 0,
        k[0] == 'z' || k[0] == 'A',
        run_len(k, k[0]) == k.len(),
    ensures
        il(k) > k.len(),
{
    let positive = k[0] == 'z';
    lemma_il2_lower(k.drop_first(), positive);
    assert(run_len(k, k[0]) == 1 + run_len(k.drop_first(), k[0]));
}

pub proof fn lemma_num_one()
    ensures
        num(seq!['1']) == 1,
{
    assert(seq!['1'].drop_last() == Seq::<char>::empty());
    assert(seq!['1'].last() == '1');
    assert(num(Seq::<char>::empty()) == 0);
}

/// Adding one to a key whose last digit is below `z` bumps that digit.
pub proof fn lemma_inc_last(s: Seq<char>)
    requires
        s.len() > 0,
        b62(s),
        val(s.last()) <= 60,
    ensures
        spec_add_keys(s, seq!['1']) == s.drop_last().push(chr(val(s.last()) + 1)),
{
    let t = s.drop_last().push(chr(val(s.last()) + 1));
    let p = s.drop_last();
    assert(is_b62(s.last()));
    assert(b62(p)) by {
        assert forall|i: int| 0 <= i < p.len() implies is_b62(#[trigger] p[i]) by {
            assert(p[i] == s[i]);
        }
    }
    assert(b62(t)) by {
        assert forall|i: int| 0 <= i < t.len() implies is_b62(#[trigger] t[i]) by {
            if i < p.len() {
                assert(t[i] == s[i]);
            }
        }
    }
    lemma_num_push(p, chr(val(s.last()) + 1));
    lemma_num_push(p, s.last());
    assert(s == p.push(s.last()));
    lemma_num_one();
    lemma_num_bound(t);
    lemma_digits_num(t);
    assert(max_len(s, seq!['1']) == s.len());
}

/// Subtracting one from a key whose last digit is not `0` lowers that digit.
pub proof fn lemma_dec_last(s: Seq<char>)
    requires
        s.len() > 0,
        b62(s),
        val(s.last()) >= 1,
    ensures
        spec_subtract_keys(s, seq!['1'], false) == Some(
            s.drop_last().push(chr(val(s.last()) - 1)),
        ),
{
    let t = s.drop_last().push(chr(val(s.last()) - 1));
    let p = s.drop_last();
    assert(is_b62(s.last()));
    assert(b62(p)) by {
        assert forall|i: int| 0 <= i < p.len() implies is_b62(#[trigger] p[i]) by {
            assert(p[i] == s[i]);
        }
    }
    assert(b62(t)) by {
        assert forall|i: int| 0 <= i < t.len() implies is_b62(#[trigger] t[i]) by {
            if i < p.len() {
                assert(t[i] == s[i]);
            }
        }
    }
    lemma_num_push(p, chr(val(s.last()) - 1));
    lemma_num_push(p, s.last());
    assert(s == p.push(s.last()));
    lemma_num_one();
    lemma_digits_num(t);
    assert(max_len(s, seq!['1']) == s.len());
}

/// Subtracting one from a key ending in `0` borrows from the digit before.
pub proof fn lemma_dec_borrow(s: Seq<char>)
    requires
        s.len() >= 2,
        b62(s),
        s.last() == '0',
        val(s[s.len() - 2]) >= 1,
    ensures
        spec_subtract_keys(s, seq!['1'], false) == Some(
            s.take(s.len() - 2).push(chr(val(s[s.len() - 2]) - 1)).push('z'),
        ),
{
    let w = s.len();
    let q = s.take(w - 2);
    let a = s[w - 2];
    let t1 = q.push(chr(val(a) - 1));
    let t = t1.push('z');
    assert(is_b62(a));
    assert(b62(q)) by {
        assert forall|i: int| 0 <= i < q.len() implies is_b62(#[trigger] q[i]) by {
            assert(q[i] == s[i]);
        }
    }
    assert(b62(t)) by {
        assert forall|i: int| 0 <= i < t.len() implies is_b62(#[trigger] t[i]) by {
            if i < q.len() {
                assert(t[i] == s[i]);
            }
        }
    }
    assert(s == q.push(a).push('0'));
    lemma_num_push(q, a);
    lemma_num_push(q.push(a), '0');
    lemma_num_push(q, chr(val(a) - 1));
    lemma_num_push(t1, 'z');
    lemma_num_one();
    lemma_digits_num(t);
    assert(max_len(s, seq!['1']) == s.len());
}

/// The head of a key whose integer part parses.
pub open spec fn valid_head_shape(h: Seq<char>) -> bool {
    &&& h.len() > 0
    &&& b62(h)
    &&& if h[0] == 'z' || h[0] == 'A' {
        &&& h.len() >= 2
        &&& run_len(h, h[0]) == h.len() - 1
    } else {
        h.len() == 1
    }
}

/// A key whose integer part parses has a well-shaped head, and that integer
/// has the same head.
pub proof fn lemma_valid_key_head(k: Seq<char>)
    requires
        k.len() > 0,
        b62(k),
        spec_get_integer_part(k) is Some,
    ensures
        valid_head_shape(spec_integer_head(k)),
        spec_integer_head(spec_get_integer_part(k).unwrap()) == spec_integer_head(k),
        head_len(k) <= spec_get_integer_part(k).unwrap().len(),
        1 <= il(spec_integer_head(k)) <= k.len(),
{
    let h = spec_integer_head(k);
    let n = il(h);
    let i = k.take(n);
    let c = k[0];
    lemma_take_b62(k, head_len(k) as int);
    if c == 'z' || c == 'A' {
        lemma_run_len_bound(k, c);
        let m = run_len(k, c);
        assert(m >= 1) by {
            assert(run_len(k, c) == 1 + run_len(k.drop_first(), c));
        }
        if m == k.len() {
            assert(h == k) by {
                assert(head_len(k) == k.len());
            }
            lemma_all_run_too_long(k);
            assert(false);
        }
        assert(head_len(k) == m + 1);
        assert(h[0] == c);
        lemma_run_len_char(h, c, m as int);
        assert(h[m as int] == k[m as int]);
        lemma_il_covers(h);
        assert(n >= m + 1);
        assert(i[0] == c);
        lemma_run_len_char(i, c, m as int);
        assert(head_len(i) == m + 1);
        assert(spec_integer_head(i) == h);
    } else {
        assert(head_len(k) == 1);
        lemma_il_covers(h);
        assert(i[0] == c);
        assert(spec_integer_head(i) == h);
    }
}

/// The head reached on the way to the next integer fits its integer length.
pub proof fn lemma_increment_head_fits(h: Seq<char>)
    requires
        valid_head_shape(h),
    ensures
        il(spec_increment_integer_head(h)) >= spec_increment_integer_head(h).len(),
        spec_increment_integer_head(h).len() > 0,
{
    let w = h.len();
    let d = h.last();
    let c = h[0];
    assert(is_b62(d));
    let r = spec_increment_integer_head(h);
    let in_pos = c >= 'a';
    if c == 'z' || c == 'A' {
        lemma_run_len_bound(h, c);
        assert(d != c);
    }
    if !in_pos && d == 'z' {
        // Only an `A` run followed by `z`: the run alone remains.
        assert(c == 'A');
        assert(r == h.drop_last());
        assert(r[0] == 'A');
        lemma_run_len_char(r, 'A', r.len() as int);
        lemma_il_covers(r);
    } else {
        assert(val(d) <= 60);
        lemma_inc_last(h);
        let next = h.drop_last().push(chr(val(d) + 1));
        assert(next.last() == chr(val(d) + 1));
        if in_pos && val(d) + 1 == 61 {
            assert(r == next.push('A'));
            if c == 'z' {
                assert(r[0] == 'z');
                lemma_run_len_char(r, 'z', w as int);
            } else {
                assert(w == 1);
                assert(r[0] == 'z');
                lemma_run_len_char(r, 'z', 1);
            }
            lemma_il_covers(r);
        } else {
            assert(r == next);
            if c == 'z' || c == 'A' {
                assert(r[0] == c);
                if chr(val(d) + 1) == c {
                    lemma_run_len_char(r, c, w as int);
                } else {
                    lemma_run_len_char(r, c, w - 1);
                }
                lemma_il_covers(r);
            } else {
                assert(w == 1);
                if r[0] == 'z' || r[0] == 'A' {
                    lemma_run_len_char(r, r[0], 1);
                }
                lemma_il_covers(r);
            }
        }
    }
}

/// The head reached on the way to the previous integer fits its integer
/// length.
pub proof fn lemma_decrement_head_fits(h: Seq<char>)
    requires
        valid_head_shape(h),
    ensures
        spec_decrement_integer_head(h) matches Some(r) ==> r.len() > 0 && il(r) >= r.len(),
{
    let w = h.len();
    let d = h.last();
    let c = h[0];
    assert(is_b62(d));
    let in_pos = c >= 'a';
    if c == 'z' || c == 'A' {
        lemma_run_len_bound(h, c);
        assert(d != c);
    }
    if in_pos && d == 'A' {
        assert(c == 'z');
        let p = h.drop_last();
        assert(b62(p)) by {
            assert forall|i: int| 0 <= i < p.len() implies is_b62(#[trigger] p[i]) by {
                assert(p[i] == h[i]);
            }
        }
        assert(p.last() == 'z');
        lemma_dec_last(p);
        let r = p.drop_last().push('y');
        assert(spec_decrement_integer_head(h) == Some(r));
        if w >= 3 {
            assert(r[0] == 'z');
            lemma_run_len_char(r, 'z', w - 2);
        } else {
            assert(r.len() == 1);
        }
        lemma_il_covers(r);
    } else if !in_pos && d == 'A' {
        assert(false);
    } else if val(d) >= 1 {
        lemma_dec_last(h);
        let r = h.drop_last().push(chr(val(d) - 1));
        assert(spec_decrement_integer_head(h) == Some(r));
        if c == 'z' || c == 'A' {
            assert(r[0] == c);
            if chr(val(d) - 1) == c {
                lemma_run_len_char(r, c, w as int);
            } else {
                lemma_run_len_char(r, c, w - 1);
            }
        } else {
            if r[0] == 'z' || r[0] == 'A' {
                lemma_run_len_char(r, r[0], 1);
            }
        }
        lemma_il_covers(r);
    } else if w >= 2 {
        // A run followed by `0`: borrow from the run.
        assert(d == '0');
        assert(h[w - 2] == c);
        lemma_dec_borrow(h);
        let r = h.take(w - 2).push(chr(val(c) - 1)).push('z');
        assert(spec_decrement_integer_head(h) == Some(r));
        if w >= 3 {
            assert(r[0] == c);
            lemma_run_len_char(r, c, w - 2);
        }
        lemma_il_covers(r);
    } else {
        // The single head `0` has no predecessor.
        assert(d == '0');
        assert(num(h) == 0) by {
            assert(h.drop_last() == Seq::<char>::empty());
        }
        assert(num(seq!['1']) == 1) by {
            assert(seq!['1'].drop_last() == Seq::<char>::empty());
        }
    }
}

/// The integer part of a key can be incremented and decremented without
/// underflow.
pub proof fn lemma_valid_integer_defined(k: Seq<char>)
    requires
        k.len() > 0,
        b62(k),
        spec_get_integer_part(k) is Some,
    ensures
        increment_defined(spec_get_integer_part(k).unwrap()),
        decrement_defined(spec_get_integer_part(k).unwrap()),
        spec_get_integer_part(k).unwrap().len() > 0,
        spec_get_integer_part(k).unwrap().len() <= k.len(),
        b62(spec_get_integer_part(k).unwrap()),
{
    lemma_valid_key_head(k);
    let i = spec_get_integer_part(k).unwrap();
    let h = spec_integer_head(k);
    lemma_increment_head_fits(h);
    lemma_decrement_head_fits(h);
    lemma_take_b62(k, i.len() as int);
}

} // verus!
