//! Page ordering keys ("positions").
//!
//! Docmost orders sibling pages with a base-62 fractional index of 5 to 12
//! characters. A key is an integer part (a head fixing how many digits
//! follow, then those digits) and an optional fraction. The server appends a
//! page after its last sibling with a jittered key between that sibling and
//! the end of the list; `generate_jittered_key_between` computes the same
//! kind of key, and `generate_key_between` is its deterministic core.

pub mod arith;
pub mod base62;
pub mod integer;
pub mod laws;
pub mod shape;

use vstd::prelude::*;
use self::arith::{PositionError, add_keys, encode, encode_to_charset, input_len_ok,
    lex_less, lexical_distance, lexical_distance_checked, mid_point, spec_add_keys,
    spec_lexical_distance, spec_mid_point};
use self::base62::{b62, fill, lex_lt, num, pow62};
use self::integer::{concat, decrement_integer, get_integer_part, increment_integer,
    spec_decrement_integer, spec_get_integer_part, spec_increment_integer};
use crate::text::{chars_of, string_of};
use aes_gcm::aead::rand_core::RngCore;

verus! {

/// Jitter shifts are drawn from `0..JITTER_RANGE` (62^3 / 5, rounded down).
pub const JITTER_RANGE: u64 = 47665;

/// Why a key could not be generated, as the contracts speak of it.
pub enum KeyFailure {
    /// The integer part of this key is longer than the key.
    InvalidKey(Seq<char>),
    /// There is no integer before the smallest one.
    Negative,
    /// `lower >= upper`.
    OutOfOrder(Seq<char>, Seq<char>),
}

/// `e` is the error that `f` describes.
pub open spec fn error_is(e: PositionError, f: KeyFailure) -> bool {
    match f {
        KeyFailure::InvalidKey(k) => e is InvalidOrderKeyLength && e->key@ == k,
        KeyFailure::Negative => e is NegativeSubtraction,
        KeyFailure::OutOfOrder(l, u) => e is OutOfOrder && e->lower@ == l && e->upper@ == u,
    }
}

pub open spec fn opt_view(o: Option<&str>) -> Option<Seq<char>> {
    match o {
        Some(s) => Some(s@),
        None => None,
    }
}

/// A key handed to the generator: non-empty base-62 text within the length
/// bound.
pub open spec fn valid_key(k: Option<Seq<char>>) -> bool {
    k matches Some(s) ==> s.len() > 0 && b62(s) && input_len_ok(s)
}

/// The key `generate_key_between(lower, upper)` yields.
pub open spec fn spec_generate_key_between(lower: Option<Seq<char>>, upper: Option<Seq<char>>) -> Result<
    Seq<char>,
    KeyFailure,
> {
    if lower is Some && spec_get_integer_part(lower.unwrap()) is None {
        Err(KeyFailure::InvalidKey(lower.unwrap()))
    } else if upper is Some && spec_get_integer_part(upper.unwrap()) is None {
        Err(KeyFailure::InvalidKey(upper.unwrap()))
    } else {
        match (lower, upper) {
            (None, None) => Ok(seq!['a', '0']),
            (None, Some(u)) => match spec_decrement_integer(
                spec_get_integer_part(u).unwrap(),
            ) {
                Some(k) => Ok(k),
                None => Err(KeyFailure::Negative),
            },
            (Some(l), None) => Ok(spec_increment_integer(spec_get_integer_part(l).unwrap())),
            (Some(l), Some(u)) => if !lex_lt(l, u) {
                Err(KeyFailure::OutOfOrder(l, u))
            } else {
                Ok(spec_mid_point(l, u))
            },
        }
    }
}

/// The inputs on which the generator runs without overflow: valid keys and,
/// for two ordered keys, a distance that fits in 64 bits.
pub open spec fn generate_defined(lower: Option<Seq<char>>, upper: Option<Seq<char>>) -> bool {
    &&& valid_key(lower)
    &&& valid_key(upper)
    &&& (lower is Some && upper is Some && lex_lt(lower.unwrap(), upper.unwrap()))
        ==> spec_lexical_distance(lower.unwrap(), upper.unwrap()) <= u64::MAX
}

/// Every character of `s` is ASCII. Keys are read character by character
/// here and byte by byte by other implementations of the scheme; for ASCII
/// text the two readings agree.
pub open spec fn ascii(s: Seq<char>) -> bool {
    forall|i: int| 0 <= i < s.len() ==> (#[trigger] s[i] as u32) < 128
}

/// A key the generator takes in: non-empty ASCII text within the length
/// bound (not necessarily base 62).
pub open spec fn key_admitted(k: Option<Seq<char>>) -> bool {
    k matches Some(s) ==> s.len() > 0 && input_len_ok(s) && ascii(s)
}

/// The integer part of each given key parses.
pub open spec fn parts_parse(lower: Option<Seq<char>>, upper: Option<Seq<char>>) -> bool {
    &&& lower matches Some(s) ==> spec_get_integer_part(s) is Some
    &&& upper matches Some(s) ==> spec_get_integer_part(s) is Some
}

/// The inputs of `generate_key_between`: admitted keys. A key whose integer
/// part does not parse is rejected with an error, whatever its characters;
/// once both parse and the arithmetic runs, the keys are base 62 and within
/// the bounds of `generate_defined`.
pub open spec fn generate_admitted(lower: Option<Seq<char>>, upper: Option<Seq<char>>) -> bool {
    &&& key_admitted(lower)
    &&& key_admitted(upper)
    &&& parts_parse(lower, upper) ==> generate_defined(lower, upper)
}

/// Base-62 text is ASCII.
pub proof fn lemma_b62_ascii(s: Seq<char>)
    requires
        b62(s),
    ensures
        ascii(s),
{
    assert forall|i: int| 0 <= i < s.len() implies (#[trigger] s[i] as u32) < 128 by {
        assert(base62::is_b62(s[i]));
    }
}

/// Padding digits that a key at `distance` from a neighbour needs so that a
/// jitter shift stays below the neighbour: the fewest `i` with
/// `62^i > JITTER_RANGE - distance`.
pub open spec fn spec_padding_for_distance(distance: nat) -> nat {
    let gap: int = if distance >= JITTER_RANGE {
        0
    } else {
        JITTER_RANGE - distance
    };
    if gap < 1 {
        0
    } else if gap < 62 {
        1
    } else if gap < 3844 {
        2
    } else {
        3
    }
}

/// Padding a key needs before jittering: enough for both `upper` and the
/// next integer, when they are within the jitter range.
pub open spec fn spec_padding_for_jitter(key: Seq<char>, upper: Option<Seq<char>>) -> Option<nat> {
    match spec_get_integer_part(key) {
        None => None,
        Some(i) => {
            let next = spec_increment_integer(i);
            let a: nat = match upper {
                Some(u) => if spec_lexical_distance(key, u) < JITTER_RANGE + 1 {
                    spec_padding_for_distance(spec_lexical_distance(key, u))
                } else {
                    0
                },
                None => 0,
            };
            let dn = spec_lexical_distance(key, next);
            let b: nat = if dn < JITTER_RANGE + 1 {
                spec_padding_for_distance(dn)
            } else {
                0
            };
            Some(
                if a >= b {
                    a
                } else {
                    b
                },
            )
        },
    }
}

/// The inputs of `padding_needed_for_jitter` on which it runs without
/// overflow.
pub open spec fn padding_defined(key: Seq<char>, upper: Option<Seq<char>>) -> bool {
    &&& key.len() > 0
    &&& b62(key)
    &&& input_len_ok(key)
    &&& valid_key(upper)
    &&& spec_get_integer_part(key) matches Some(i) ==> {
        &&& spec_lexical_distance(key, spec_increment_integer(i)) <= u64::MAX
        &&& upper matches Some(u) ==> spec_lexical_distance(key, u) <= u64::MAX
    }
}

/// The jittered key for a given shift.
pub open spec fn spec_jittered(
    lower: Option<Seq<char>>,
    upper: Option<Seq<char>>,
    shift: nat,
) -> Result<Seq<char>, KeyFailure> {
    match spec_generate_key_between(lower, upper) {
        Err(f) => Err(f),
        Ok(key) => match spec_padding_for_jitter(key, upper) {
            None => Err(KeyFailure::InvalidKey(key)),
            Some(p) => Ok(
                spec_add_keys(
                    if p > 0 {
                        key + fill('0', p)
                    } else {
                        key
                    },
                    encode(shift),
                ),
            ),
        },
    }
}

/// Adding `shift` to the padded key stays within the padded key's width
/// (no carry out of its first digit).
pub open spec fn jitter_fits(lower: Option<Seq<char>>, upper: Option<Seq<char>>, shift: nat) -> bool {
    match spec_generate_key_between(lower, upper) {
        Ok(key) => match spec_padding_for_jitter(key, upper) {
            Some(p) => num(key + fill('0', p)) + shift < pow62(key.len() + p),
            None => true,
        },
        Err(_) => true,
    }
}

/// The inputs of the jittered generator on which it runs without overflow.
pub open spec fn jitter_defined(lower: Option<Seq<char>>, upper: Option<Seq<char>>) -> bool {
    &&& generate_defined(lower, upper)
    &&& spec_generate_key_between(lower, upper) matches Ok(key) ==> padding_defined(key, upper)
}

/// The inputs of the jittered generator: admitted keys, and once both
/// integer parts parse, the inputs of `jitter_defined`.
pub open spec fn jitter_admitted(lower: Option<Seq<char>>, upper: Option<Seq<char>>) -> bool {
    &&& key_admitted(lower)
    &&& key_admitted(upper)
    &&& parts_parse(lower, upper) ==> jitter_defined(lower, upper)
}

fn opt_chars(o: Option<&str>) -> (r: Option<Vec<char>>)
    ensures
        match r {
            Some(v) => o is Some && v@ == o.unwrap()@,
            None => o is None,
        },
{
    match o {
        Some(s) => Some(chars_of(s)),
        None => None,
    }
}

fn key_between(lower: &Option<Vec<char>>, upper: &Option<Vec<char>>) -> (r: Result<
    Vec<char>,
    PositionError,
>)
    requires
        generate_admitted(vec_view(lower), vec_view(upper)),
    ensures
        match r {
            Ok(k) => spec_generate_key_between(vec_view(lower), vec_view(upper)) == Ok::<
                Seq<char>,
                KeyFailure,
            >(k@),
            Err(e) => spec_generate_key_between(vec_view(lower), vec_view(upper)) matches Err(f)
                && error_is(e, f),
        },
{
    if let Some(l) = lower {
        get_integer_part(l)?;
    }
    if let Some(u) = upper {
        get_integer_part(u)?;
    }
    assert(parts_parse(vec_view(lower), vec_view(upper)));
    assert(generate_defined(vec_view(lower), vec_view(upper)));
    match (lower, upper) {
        (None, None) => Ok(vec!['a', '0']),
        (None, Some(u)) => {
            let integer = get_integer_part(u)?;
            proof {
                shape::lemma_valid_integer_defined(u@);
            }
            decrement_integer(&integer)
        },
        (Some(l), None) => {
            let integer = get_integer_part(l)?;
            proof {
                shape::lemma_valid_integer_defined(l@);
            }
            Ok(increment_integer(&integer))
        },
        (Some(l), Some(u)) => {
            if !lex_less(l, u) {
                return Err(
                    PositionError::OutOfOrder {
                        lower: string_of(l.as_slice()),
                        upper: string_of(u.as_slice()),
                    },
                );
            }
            Ok(mid_point(l, u))
        },
    }
}

pub open spec fn vec_view(o: &Option<Vec<char>>) -> Option<Seq<char>> {
    match o {
        Some(v) => Some(v@),
        None => None,
    }
}

/// A deterministic fractional index strictly between `lower` and `upper`;
/// `None` stands for the start (no lower bound) or end (no upper bound) of
/// the list.
pub fn generate_key_between(lower: Option<&str>, upper: Option<&str>) -> (r: Result<
    String,
    PositionError,
>)
    requires
        generate_admitted(opt_view(lower), opt_view(upper)),
    ensures
        match r {
            Ok(k) => spec_generate_key_between(opt_view(lower), opt_view(upper)) == Ok::<
                Seq<char>,
                KeyFailure,
            >(k@),
            Err(e) => spec_generate_key_between(opt_view(lower), opt_view(upper)) matches Err(f)
                && error_is(e, f),
        },
{
    let lo = opt_chars(lower);
    let up = opt_chars(upper);
    assert(vec_view(&lo) == opt_view(lower));
    assert(vec_view(&up) == opt_view(upper));
    let key = key_between(&lo, &up)?;
    Ok(string_of(key.as_slice()))
}

/// `padding_needed_for_distance`.
pub fn padding_needed_for_distance(distance: u64) -> (n: usize)
    ensures
        n == spec_padding_for_distance(distance as nat),
{
    let gap = JITTER_RANGE.saturating_sub(distance);
    let mut pow: u64 = 1;
    let mut i: usize = 0;
    loop
        invariant
            i <= 3,
            gap == (if distance >= JITTER_RANGE { 0 } else { JITTER_RANGE - distance }),
            pow == (if i == 0 { 1u64 } else if i == 1 { 62u64 } else if i == 2 { 3844u64 } else { 238328u64 }),
            i >= 1 ==> gap >= 1,
            i >= 2 ==> gap >= 62,
            i >= 3 ==> gap >= 3844,
        decreases 4 - i,
    {
        if pow > gap {
            return i;
        }
        i += 1;
        pow = pow * 62;
        if i > 12 {
            return 0;
        }
    }
}

/// `padding_needed_for_jitter`: padding digits a key needs before a jitter
/// shift is added to it.
pub fn padding_needed_for_jitter(order_key: &Vec<char>, upper: &Option<Vec<char>>) -> (r: Result<
    usize,
    PositionError,
>)
    requires
        padding_defined(order_key@, vec_view(upper)),
    ensures
        match r {
            Ok(n) => spec_padding_for_jitter(order_key@, vec_view(upper)) == Some(n as nat),
            Err(e) => spec_padding_for_jitter(order_key@, vec_view(upper)) is None
                && e is InvalidOrderKeyLength && e->key@ == order_key@,
        },
{
    let integer = get_integer_part(order_key)?;
    proof {
        shape::lemma_valid_integer_defined(order_key@);
    }
    let next_integer = increment_integer(&integer);
    let mut needed: usize = 0;
    if let Some(u) = upper {
        let distance_to_b = lexical_distance(order_key, u);
        if distance_to_b < JITTER_RANGE + 1 {
            let p = padding_needed_for_distance(distance_to_b);
            if p > needed {
                needed = p;
            }
        }
    }
    proof {
        laws::lemma_increment_b62(integer@);
    }
    let distance_to_next = lexical_distance(order_key, &next_integer);
    if distance_to_next < JITTER_RANGE + 1 {
        let p = padding_needed_for_distance(distance_to_next);
        if p > needed {
            needed = p;
        }
    }
    Ok(needed)
}

/// `jitter_string`: a key plus a shift.
pub fn jitter_string(order_key: &Vec<char>, shift: u64) -> (r: Vec<char>)
    requires
        b62(order_key@),
    ensures
        r@ == spec_add_keys(order_key@, encode(shift as nat)),
{
    let s = encode_to_charset(shift);
    proof {
        arith::lemma_encode_shape(shift as nat);
    }
    add_keys(order_key, &s)
}

fn jittered_vec(lower: &Option<Vec<char>>, upper: &Option<Vec<char>>, shift: u64) -> (r: Result<
    Vec<char>,
    PositionError,
>)
    requires
        jitter_admitted(vec_view(lower), vec_view(upper)),
    ensures
        match r {
            Ok(k) => spec_jittered(vec_view(lower), vec_view(upper), shift as nat) == Ok::<
                Seq<char>,
                KeyFailure,
            >(k@),
            Err(e) => spec_jittered(vec_view(lower), vec_view(upper), shift as nat) matches Err(f)
                && error_is(e, f),
        },
{
    let key = key_between(lower, upper)?;
    assert(parts_parse(vec_view(lower), vec_view(upper)));
    let padding = padding_needed_for_jitter(&key, upper)?;
    if padding > 0 {
        let zeros = arith::padded(&Vec::new(), padding, true, '0');
        assert(zeros@ == fill('0', padding as nat)) by {
            assert(fill('0', padding as nat) + Seq::<char>::empty() == fill('0', padding as nat));
        }
        let padded = concat(&key, &zeros);
        proof {
            assert(base62::is_b62('0'));
            assert(b62(padded@)) by {
                assert forall|i: int| 0 <= i < padded@.len() implies base62::is_b62(
                    #[trigger] padded@[i],
                ) by {
                    if i < key@.len() {
                        assert(padded@[i] == key@[i]);
                    } else {
                        assert(padded@[i] == '0');
                    }
                }
            }
        }
        Ok(jitter_string(&padded, shift))
    } else {
        Ok(jitter_string(&key, shift))
    }
}

/// A jittered key with an explicit shift (`0..JITTER_RANGE`): the key
/// between `lower` and `upper`, padded when a neighbour is within the jitter
/// range, plus `shift`.
pub fn jittered_with_shift(lower: Option<&str>, upper: Option<&str>, shift: u64) -> (r: Result<
    String,
    PositionError,
>)
    requires
        jitter_admitted(opt_view(lower), opt_view(upper)),
    ensures
        match r {
            Ok(k) => spec_jittered(opt_view(lower), opt_view(upper), shift as nat) == Ok::<
                Seq<char>,
                KeyFailure,
            >(k@),
            Err(e) => spec_jittered(opt_view(lower), opt_view(upper), shift as nat) matches Err(f)
                && error_is(e, f),
        },
{
    let lo = opt_chars(lower);
    let up = opt_chars(upper);
    assert(vec_view(&lo) == opt_view(lower));
    assert(vec_view(&up) == opt_view(upper));
    let key = jittered_vec(&lo, &up, shift)?;
    Ok(string_of(key.as_slice()))
}

/// A random value from the operating system's generator (`OsRng::next_u64`,
/// as `aes-gcm` re-exports it). Nothing is promised of the value.
#[verifier::external_body]
fn os_random_u64() -> u64 {
    aes_gcm::aead::OsRng.next_u64()
}

/// A jittered fractional index between `lower` and `upper`, compatible with
/// Docmost's page `position` scheme; the shift comes from OS randomness.
pub fn generate_jittered_key_between(lower: Option<&str>, upper: Option<&str>) -> (r: Result<
    String,
    PositionError,
>)
    requires
        jitter_admitted(opt_view(lower), opt_view(upper)),
    ensures
        exists|shift: nat|
            shift < JITTER_RANGE && match r {
                Ok(k) => #[trigger] spec_jittered(opt_view(lower), opt_view(upper), shift) == Ok::<
                    Seq<char>,
                    KeyFailure,
                >(k@),
                Err(e) => spec_jittered(opt_view(lower), opt_view(upper), shift) matches Err(f)
                    && error_is(e, f),
            },
{
    let shift = os_random_u64() % JITTER_RANGE;
    let r = jittered_with_shift(lower, upper, shift);
    assert(shift < JITTER_RANGE);
    r
}


fn all_base62(v: &Vec<char>) -> (b: bool)
    ensures
        b == b62(v@),
{
    let mut i: usize = 0;
    while i < v.len()
        invariant
            0 <= i <= v@.len(),
            forall|j: int| 0 <= j < i ==> base62::is_b62(#[trigger] v@[j]),
        decreases v@.len() - i,
    {
        if arith::val_of(v[i]) < 0 {
            return false;
        }
        i += 1;
    }
    true
}

fn valid_key_vec(o: &Option<Vec<char>>) -> (b: bool)
    ensures
        b == valid_key(vec_view(o)),
{
    match o {
        Some(v) => v.len() > 0 && all_base62(v) && v.len() <= 0x0400_0000 - 2,
        None => true,
    }
}

fn all_ascii(v: &Vec<char>) -> (b: bool)
    ensures
        b == ascii(v@),
{
    let mut i: usize = 0;
    while i < v.len()
        invariant
            0 <= i <= v@.len(),
            forall|j: int| 0 <= j < i ==> (#[trigger] v@[j] as u32) < 128,
        decreases v@.len() - i,
    {
        if (v[i] as u32) >= 128 {
            return false;
        }
        i += 1;
    }
    true
}

fn admitted_vec(o: &Option<Vec<char>>) -> (b: bool)
    ensures
        b == key_admitted(vec_view(o)),
{
    match o {
        Some(v) => v.len() > 0 && v.len() <= 0x0400_0000 - 2 && all_ascii(v),
        None => true,
    }
}

/// Whether `generate_jittered_key_between(lower, upper)` is defined: both
/// keys are admitted, and when both integer parts parse, the keys are valid
/// and no lexical distance it computes exceeds 64 bits.
pub fn jitter_supported(lower: Option<&str>, upper: Option<&str>) -> (b: bool)
    ensures
        b == jitter_admitted(opt_view(lower), opt_view(upper)),
{
    let lo = opt_chars(lower);
    let up = opt_chars(upper);
    assert(vec_view(&lo) == opt_view(lower));
    assert(vec_view(&up) == opt_view(upper));
    if !admitted_vec(&lo) || !admitted_vec(&up) {
        return false;
    }
    if let Some(l) = &lo {
        match get_integer_part(l) {
            Err(_) => {
                return true;
            },
            Ok(_) => {},
        }
    }
    if let Some(u) = &up {
        match get_integer_part(u) {
            Err(_) => {
                return true;
            },
            Ok(_) => {},
        }
    }
    assert(parts_parse(vec_view(&lo), vec_view(&up)));
    if !valid_key_vec(&lo) || !valid_key_vec(&up) {
        return false;
    }
    if let (Some(l), Some(u)) = (&lo, &up) {
        if lex_less(l, u) && lexical_distance_checked(l, u).is_none() {
            return false;
        }
    }
    assert(generate_defined(vec_view(&lo), vec_view(&up)));
    let key = match key_between(&lo, &up) {
        Ok(k) => k,
        Err(_) => {
            return true;
        },
    };
    if !(key.len() > 0 && all_base62(&key) && key.len() <= 0x0400_0000 - 2) {
        return false;
    }
    match get_integer_part(&key) {
        Err(_) => true,
        Ok(integer) => {
            proof {
                shape::lemma_valid_integer_defined(key@);
                laws::lemma_increment_b62(integer@);
            }
            let next = increment_integer(&integer);
            if lexical_distance_checked(&key, &next).is_none() {
                return false;
            }
            match &up {
                Some(u) => lexical_distance_checked(&key, u).is_some(),
                None => true,
            }
        },
    }
}

} // verus!
