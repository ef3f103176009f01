//! The integer part of an order key: a head character (or a run of `z`s or
//! `A`s and one more character) that fixes how many digits follow, then
//! those digits. Incrementing and decrementing an integer moves to the
//! neighbouring integer in key order.

use vstd::prelude::*;
use super::base62::{b62, chr, digits, fill, is_b62, num, pow62, val};
use super::arith::{PositionError, input_len_ok, chr_of, decrement_key, increment_key, key_len_ok,
    spec_add_keys, spec_subtract_keys, val_of};

verus! {

/// Number of leading `c`s in `s`.
pub open spec fn run_len(s: Seq<char>, c: char) -> nat
    decreases s.len(),
{
    if s.len() > 0 && s[0] == c {
        1 + run_len(s.drop_first(), c)
    } else {
        0
    }
}

/// Length of the head of an integer: a `z` or `A` run plus one character,
/// or else the first character alone.
pub open spec fn head_len(s: Seq<char>) -> nat {
    if s.len() == 0 {
        0
    } else if s[0] == 'z' || s[0] == 'A' {
        let n = run_len(s, s[0]) + 1;
        if n <= s.len() {
            n
        } else {
            s.len()
        }
    } else {
        1
    }
}

pub open spec fn spec_integer_head(s: Seq<char>) -> Seq<char> {
    s.take(head_len(s) as int)
}

pub open spec fn dist(a: char, b: char) -> int {
    let d = val(a) - val(b);
    if d >= 0 {
        d
    } else {
        -d
    }
}

/// Length contributed by the characters after the first of a head.
pub open spec fn il2(s: Seq<char>, positive: bool) -> int
    decreases s.len(),
{
    if s.len() == 0 {
        2
    } else if s[0] == 'z' && positive {
        dist('z', 'A') + 1 + il2(s.drop_first(), positive)
    } else if s[0] == 'A' && !positive {
        dist('A', 'z') + 1 + il2(s.drop_first(), positive)
    } else if positive {
        dist(s[0], 'A') + 2
    } else {
        dist(s[0], 'z') + 2
    }
}

/// Length of the integer whose head is `head`.
pub open spec fn il(head: Seq<char>) -> int {
    let f = head[0];
    if f == 'z' {
        dist(f, 'a') + 1 + il2(head.drop_first(), true)
    } else if f == 'A' {
        dist(f, 'Z') + 1 + il2(head.drop_first(), false)
    } else if f >= 'a' {
        dist(f, 'a') + 2
    } else {
        dist(f, 'Z') + 2
    }
}

/// The integer part of a key, or `None` when the key is shorter than its
/// head says the integer is.
pub open spec fn spec_get_integer_part(key: Seq<char>) -> Option<Seq<char>> {
    let n = il(spec_integer_head(key));
    if n > key.len() {
        None
    } else {
        Some(key.take(n))
    }
}

pub open spec fn spec_increment_integer_head(head: Seq<char>) -> Seq<char> {
    let in_positive_range = head[0] >= 'a';
    let next = spec_add_keys(head, seq!['1']);
    if in_positive_range && next.last() == 'z' {
        next.push('A')
    } else if !in_positive_range && head.last() == 'z' {
        head.drop_last()
    } else {
        next
    }
}

pub open spec fn spec_decrement_integer_head(head: Seq<char>) -> Option<Seq<char>> {
    let in_positive_range = head[0] >= 'a';
    let limit_min = head.last() == 'A';
    if in_positive_range && limit_min {
        spec_subtract_keys(head.drop_last(), seq!['1'], false)
    } else if !in_positive_range && limit_min {
        Some(head.push('z'))
    } else {
        spec_subtract_keys(head, seq!['1'], false)
    }
}

/// `head` extended to its integer length with `z` (`upper`) or `0`.
pub open spec fn spec_start_on_new_head(head: Seq<char>, upper: bool) -> Seq<char> {
    head + fill(
        if upper {
            'z'
        } else {
            '0'
        },
        (il(head) - head.len()) as nat,
    )
}

pub open spec fn all_chars(s: Seq<char>, c: char) -> bool {
    forall|i: int| 0 <= i < s.len() ==> s[i] == c
}

/// The integer after `integer`.
pub open spec fn spec_increment_integer(integer: Seq<char>) -> Seq<char> {
    let head = spec_integer_head(integer);
    let digs = integer.skip(head.len() as int);
    if !all_chars(digs, 'z') {
        head + spec_add_keys(digs, seq!['1'])
    } else {
        spec_start_on_new_head(spec_increment_integer_head(head), false)
    }
}

/// The integer before `integer`, when there is one.
pub open spec fn spec_decrement_integer(integer: Seq<char>) -> Option<Seq<char>> {
    let head = spec_integer_head(integer);
    let digs = integer.skip(head.len() as int);
    if !all_chars(digs, '0') {
        match spec_subtract_keys(digs, seq!['1'], false) {
            Some(d) => Some(head + d),
            None => None,
        }
    } else {
        match spec_decrement_integer_head(head) {
            Some(h) => Some(spec_start_on_new_head(h, true)),
            None => None,
        }
    }
}

/// The head produced on the way to the next integer is no longer than its
/// own integer length (their difference is the number of digits that
/// follow it, counted as a `usize`).
pub open spec fn increment_defined(integer: Seq<char>) -> bool {
    let head = spec_integer_head(integer);
    let digs = integer.skip(head.len() as int);
    !all_chars(digs, 'z') || il(spec_increment_integer_head(head))
        >= spec_increment_integer_head(head).len()
}

/// Likewise on the way to the previous integer.
pub open spec fn decrement_defined(integer: Seq<char>) -> bool {
    let head = spec_integer_head(integer);
    let digs = integer.skip(head.len() as int);
    !all_chars(digs, '0') || match spec_decrement_integer_head(head) {
        Some(h) => il(h) >= h.len(),
        None => true,
    }
}

pub proof fn lemma_run_len_bound(s: Seq<char>, c: char)
    ensures
        run_len(s, c) <= s.len(),
        forall|i: int| 0 <= i < run_len(s, c) ==> s[i] == c,
        run_len(s, c) < s.len() ==> s[run_len(s, c) as int] != c,
    decreases s.len(),
{
    if s.len() > 0 && s[0] == c {
        lemma_run_len_bound(s.drop_first(), c);
        assert forall|i: int| 0 <= i < run_len(s, c) implies s[i] == c by {
            if i > 0 {
                assert(s[i] == s.drop_first()[i - 1]);
            }
        }
    }
}

/// `integer_head`'s length.
pub fn integer_head_len(integer: &Vec<char>) -> (n: usize)
    requires
        integer@.len() > 0,
    ensures
        n == head_len(integer@),
        1 <= n <= integer@.len(),
{
    let first = integer[0];
    let mut i: usize = 0;
    assert(integer@.skip(0) == integer@);
    if first == 'z' || first == 'A' {
        while i < integer.len() && integer[i] == first
            invariant
                0 <= i <= integer@.len(),
                first == integer@[0],
                run_len(integer@, first) == i + run_len(integer@.skip(i as int), first),
            decreases integer@.len() - i,
        {
            assert(integer@.skip(i as int).drop_first() == integer@.skip(i + 1));
            i += 1;
        }
        proof {
            if i < integer.len() {
                assert(integer@.skip(i as int)[0] == integer@[i as int]);
            }
        }
    }
    proof {
        lemma_run_len_bound(integer@, first);
    }
    if i < integer.len() {
        i + 1
    } else {
        integer.len()
    }
}

/// `integer_head`.
pub fn integer_head(integer: &Vec<char>) -> (h: Vec<char>)
    requires
        integer@.len() > 0,
    ensures
        h@ == spec_integer_head(integer@),
{
    let n = integer_head_len(integer);
    prefix(integer, n)
}

/// `s[..n]`.
pub fn prefix(s: &Vec<char>, n: usize) -> (r: Vec<char>)
    requires
        n <= s@.len(),
    ensures
        r@ == s@.take(n as int),
{
    let mut r: Vec<char> = Vec::new();
    let mut i: usize = 0;
    while i < n
        invariant
            0 <= i <= n <= s@.len(),
            r@ == s@.take(i as int),
        decreases n - i,
    {
        r.push(s[i]);
        assert(s@.take(i + 1) == s@.take(i as int).push(s@[i as int]));
        i += 1;
    }
    r
}

/// `s[n..]`.
pub fn suffix(s: &Vec<char>, n: usize) -> (r: Vec<char>)
    requires
        n <= s@.len(),
    ensures
        r@ == s@.skip(n as int),
{
    let mut r: Vec<char> = Vec::new();
    let mut i = n;
    while i < s.len()
        invariant
            n <= i <= s@.len(),
            r@ == s@.subrange(n as int, i as int),
        decreases s@.len() - i,
    {
        r.push(s[i]);
        assert(s@.subrange(n as int, i + 1) == s@.subrange(n as int, i as int).push(
            s@[i as int],
        ));
        i += 1;
    }
    r
}

/// `a ++ b`.
pub fn concat(a: &Vec<char>, b: &Vec<char>) -> (r: Vec<char>)
    ensures
        r@ == a@ + b@,
{
    let mut r = a.clone();
    assert(r@ == a@);
    let mut i: usize = 0;
    while i < b.len()
        invariant
            0 <= i <= b@.len(),
            r@ == a@ + b@.take(i as int),
        decreases b@.len() - i,
    {
        r.push(b[i]);
        assert(b@.take(i + 1) == b@.take(i as int).push(b@[i as int]));
        i += 1;
    }
    assert(b@.take(b@.len() as int) == b@);
    r
}

/// `distance_between`.
pub fn distance_between(a: char, b: char) -> (d: i64)
    ensures
        d == dist(a, b),
{
    let d = val_of(a) - val_of(b);
    if d >= 0 {
        d
    } else {
        -d
    }
}

pub proof fn lemma_il2_bounds(s: Seq<char>, positive: bool)
    ensures
        2 <= il2(s, positive) <= 52 * s.len() + 64,
    decreases s.len(),
{
    if s.len() > 0 {
        let t = s.drop_first();
        lemma_il2_bounds(t, positive);
    }
}

/// `integer_length_second_level` on `key[start..]`.
pub fn integer_length_second_level(key: &Vec<char>, start: usize, positive: bool) -> (n: i64)
    requires
        start <= key@.len(),
        key_len_ok(key@),
    ensures
        n == il2(key@.skip(start as int), positive),
    decreases key@.len() - start,
{
    proof {
        let t = key@.skip(start as int);
        lemma_il2_bounds(t, positive);
    }
    if start == key.len() {
        return 2;
    }
    let first = key[start];
    assert(key@.skip(start as int)[0] == first);
    assert(key@.skip(start as int).drop_first() == key@.skip(start + 1));
    if first == 'z' && positive {
        let room = distance_between(first, 'A') + 1;
        return room + integer_length_second_level(key, start + 1, positive);
    }
    if first == 'A' && !positive {
        let room = distance_between(first, 'z') + 1;
        return room + integer_length_second_level(key, start + 1, positive);
    }
    if positive {
        distance_between(first, 'A') + 2
    } else {
        distance_between(first, 'z') + 2
    }
}

/// `integer_length`: the length of the integer whose head is `head`.
pub fn integer_length(head: &Vec<char>) -> (n: i64)
    requires
        head@.len() > 0,
        key_len_ok(head@),
    ensures
        n == il(head@),
        2 <= n <= 52 * head@.len() + 126,
{
    let first = head[0];
    assert(head@.skip(1) == head@.drop_first());
    proof {
        let t = head@.drop_first();
        lemma_il2_bounds(t, true);
        lemma_il2_bounds(t, false);
    }
    if first == 'z' {
        let first_level = distance_between(first, 'a') + 1;
        return first_level + integer_length_second_level(head, 1, true);
    }
    if first == 'A' {
        let first_level = distance_between(first, 'Z') + 1;
        return first_level + integer_length_second_level(head, 1, false);
    }
    if first >= 'a' {
        distance_between(first, 'a') + 2
    } else {
        distance_between(first, 'Z') + 2
    }
}

pub proof fn lemma_take_b62(s: Seq<char>, n: int)
    requires
        b62(s),
        0 <= n <= s.len(),
    ensures
        b62(s.take(n)),
        b62(s.skip(n)),
{
    assert forall|i: int| 0 <= i < s.take(n).len() implies is_b62(#[trigger] s.take(n)[i]) by {
        assert(s.take(n)[i] == s[i]);
    }
    assert forall|i: int| 0 <= i < s.skip(n).len() implies is_b62(#[trigger] s.skip(n)[i]) by {
        assert(s.skip(n)[i] == s[n + i]);
    }
}

/// `get_integer_part`: the integer part of a key, or an error when the key
/// is too short for it.
pub fn get_integer_part(order_key: &Vec<char>) -> (r: Result<Vec<char>, PositionError>)
    requires
        order_key@.len() > 0,
        key_len_ok(order_key@),
    ensures
        match r {
            Ok(v) => spec_get_integer_part(order_key@) == Some(v@),
            Err(e) => spec_get_integer_part(order_key@) is None && e is InvalidOrderKeyLength
                && e->key@ == order_key@,
        },
{
    let head = integer_head(order_key);
    let len = integer_length(&head);
    if len as u64 > order_key.len() as u64 {
        return Err(PositionError::InvalidOrderKeyLength { key: crate::text::string_of(order_key.as_slice()) });
    }
    Ok(prefix(order_key, len as usize))
}


pub proof fn lemma_add_shape(a: Seq<char>, b: Seq<char>)
    ensures
        b62(spec_add_keys(a, b)),
        spec_add_keys(a, b).len() >= super::arith::max_len(a, b),
        spec_add_keys(a, b).len() <= super::arith::max_len(a, b) + 1,
{
    let w = super::arith::max_len(a, b);
    super::base62::lemma_digits_shape(num(a) + num(b), w);
    super::base62::lemma_digits_shape(num(a) + num(b), w + 1);
}

pub proof fn lemma_sub_shape(a: Seq<char>, b: Seq<char>, strip: bool)
    ensures
        spec_subtract_keys(a, b, strip) matches Some(d) ==> b62(d),
        !strip ==> (spec_subtract_keys(a, b, strip) matches Some(d) ==> d.len()
            == super::arith::max_len(a, b)),
{
    if num(a) >= num(b) {
        let w = super::arith::max_len(a, b);
        let d = digits((num(a) - num(b)) as nat, w);
        super::base62::lemma_digits_shape((num(a) - num(b)) as nat, w);
        if strip {
            super::arith::lemma_strip_zeros(d);
        }
    }
}

/// `increment_integer_head`: the head of the next integer range.
pub fn increment_integer_head(head: &Vec<char>) -> (r: Vec<char>)
    requires
        head@.len() > 0,
        b62(head@),
    ensures
        r@ == spec_increment_integer_head(head@),
        b62(r@),
        r@.len() > 0,
        r@.len() <= head@.len() + 2,
{
    let in_positive_range = head[0] >= 'a';
    let next_head = increment_key(head);
    proof {
        lemma_add_shape(head@, seq!['1']);
    }
    let head_is_limit_max = head[head.len() - 1] == 'z';
    let next_is_limit_max = next_head[next_head.len() - 1] == 'z';
    if in_positive_range && next_is_limit_max {
        let mut r = next_head;
        r.push('A');
        proof {
            assert(is_b62('A'));
            assert(b62(r@)) by {
                assert forall|i: int| 0 <= i < r@.len() implies is_b62(#[trigger] r@[i]) by {
                    if i < r@.len() - 1 {
                        assert(r@[i] == spec_add_keys(head@, seq!['1'])[i]);
                    }
                }
            }
        }
        return r;
    }
    if !in_positive_range && head_is_limit_max {
        let r = prefix(head, head.len() - 1);
        proof {
            lemma_take_b62(head@, head@.len() - 1);
            assert(head@.take(head@.len() - 1) == head@.drop_last());
            assert(val(head@[0]) <= 35);
        }
        return r;
    }
    next_head
}

/// `decrement_integer_head`: the head of the previous integer range.
pub fn decrement_integer_head(head: &Vec<char>) -> (r: Result<Vec<char>, PositionError>)
    requires
        head@.len() > 0,
        b62(head@),
    ensures
        match r {
            Ok(v) => spec_decrement_integer_head(head@) == Some(v@) && b62(v@),
            Err(e) => spec_decrement_integer_head(head@) is None && e
                == PositionError::NegativeSubtraction,
        },
{
    let in_positive_range = head[0] >= 'a';
    let head_is_limit_min = head[head.len() - 1] == 'A';
    if in_positive_range && head_is_limit_min {
        let h = prefix(head, head.len() - 1);
        proof {
            lemma_take_b62(head@, head@.len() - 1);
            assert(head@.take(head@.len() - 1) == head@.drop_last());
            lemma_sub_shape(h@, seq!['1'], false);
        }
        return decrement_key(&h);
    }
    if !in_positive_range && head_is_limit_min {
        let mut r = head.clone();
        assert(r@ == head@);
        r.push('z');
        proof {
            assert(is_b62('z'));
            assert(b62(r@)) by {
                assert forall|i: int| 0 <= i < r@.len() implies is_b62(#[trigger] r@[i]) by {
                    if i < r@.len() - 1 {
                        assert(r@[i] == head@[i]);
                    }
                }
            }
        }
        return Ok(r);
    }
    proof {
        lemma_sub_shape(head@, seq!['1'], false);
    }
    decrement_key(head)
}

/// `start_on_new_head`: a head padded to its integer length with `z`s
/// (`upper`) or `0`s.
pub fn start_on_new_head(head: &Vec<char>, upper: bool) -> (r: Vec<char>)
    requires
        head@.len() > 0,
        b62(head@),
        key_len_ok(head@),
        il(head@) >= head@.len(),
    ensures
        r@ == spec_start_on_new_head(head@, upper),
{
    let new_length = integer_length(head) as usize;
    let c = if upper {
        chr_of(61)
    } else {
        chr_of(0)
    };
    assert(c == (if upper { 'z' } else { '0' }));
    let extra = super::arith::padded(&Vec::new(), new_length - head.len(), true, c);
    assert(extra@ == fill(c, (new_length - head@.len()) as nat)) by {
        assert(fill(c, (new_length - head@.len()) as nat) + Seq::<char>::empty() == fill(
            c,
            (new_length - head@.len()) as nat,
        ));
    }
    concat(head, &extra)
}

/// `any(d != c)` over `v`.
fn any_other(v: &Vec<char>, c: char) -> (b: bool)
    ensures
        b == !all_chars(v@, c),
{
    let mut i: usize = 0;
    while i < v.len()
        invariant
            0 <= i <= v@.len(),
            forall|j: int| 0 <= j < i ==> v@[j] == c,
        decreases v@.len() - i,
    {
        if v[i] != c {
            return true;
        }
        i += 1;
    }
    false
}

/// `increment_integer`: the next integer in key order.
pub fn increment_integer(integer: &Vec<char>) -> (r: Vec<char>)
    requires
        integer@.len() > 0,
        b62(integer@),
        input_len_ok(integer@),
        increment_defined(integer@),
    ensures
        r@ == spec_increment_integer(integer@),
{
    let n = integer_head_len(integer);
    let head = prefix(integer, n);
    let digs = suffix(integer, n);
    proof {
        lemma_take_b62(integer@, n as int);
    }
    if any_other(&digs, 'z') {
        let inc = increment_key(&digs);
        return concat(&head, &inc);
    }
    let next_head = increment_integer_head(&head);
    start_on_new_head(&next_head, false)
}


/// `decrement_integer`: the previous integer in key order, or an error when
/// there is none.
pub fn decrement_integer(integer: &Vec<char>) -> (r: Result<Vec<char>, PositionError>)
    requires
        integer@.len() > 0,
        b62(integer@),
        input_len_ok(integer@),
        decrement_defined(integer@),
    ensures
        match r {
            Ok(v) => spec_decrement_integer(integer@) == Some(v@),
            Err(e) => spec_decrement_integer(integer@) is None && e
                == PositionError::NegativeSubtraction,
        },
{
    let n = integer_head_len(integer);
    let head = prefix(integer, n);
    let digs = suffix(integer, n);
    proof {
        lemma_take_b62(integer@, n as int);
    }
    if any_other(&digs, '0') {
        let dec = decrement_key(&digs)?;
        return Ok(concat(&head, &dec));
    }
    let next_head = decrement_integer_head(&head)?;
    proof {
        lemma_sub_shape(head@, seq!['1'], false);
        lemma_sub_shape(head@.drop_last(), seq!['1'], false);
    }
    Ok(start_on_new_head(&next_head, true))
}

} // verus!
