//! JSON values as the library holds them, and their mathematical model.
//!
//! ProseMirror documents arrive as JSON; `Json` holds one as plain values
//! (objects keep their entries in order) and `JVal` is what contracts say of
//! it.

use vstd::prelude::*;

verus! {

/// A JSON number: an unsigned or signed integer, or any other number kept as
/// its decimal text.
#[derive(Debug, Clone, PartialEq, Eq)]
pub enum JsonNumber {
    Unsigned(u64),
    Signed(i64),
    Decimal(String),
}

/// A JSON value. An object is its list of entries, in order.
#[derive(Debug)]
pub enum Json {
    Null,
    Bool(bool),
    Number(JsonNumber),
    String(String),
    Array(Vec<Json>),
    Object(Vec<(String, Json)>),
}

pub enum JNum {
    Unsigned(u64),
    Signed(i64),
    Decimal(Seq<char>),
}

/// The model of a JSON value.
pub enum JVal {
    Null,
    Bool(bool),
    Number(JNum),
    Str(Seq<char>),
    Array(Seq<JVal>),
    Object(Seq<(Seq<char>, JVal)>),
}

pub open spec fn num_view(n: JsonNumber) -> JNum {
    match n {
        JsonNumber::Unsigned(u) => JNum::Unsigned(u),
        JsonNumber::Signed(i) => JNum::Signed(i),
        JsonNumber::Decimal(s) => JNum::Decimal(s@),
    }
}

pub open spec fn jview(j: Json) -> JVal
    decreases j,
{
    match j {
        Json::Null => JVal::Null,
        Json::Bool(b) => JVal::Bool(b),
        Json::Number(n) => JVal::Number(num_view(n)),
        Json::String(s) => JVal::Str(s@),
        Json::Array(v) => JVal::Array(jviews(v@)),
        Json::Object(es) => JVal::Object(entry_views(es@)),
    }
}

pub open spec fn jviews(s: Seq<Json>) -> Seq<JVal>
    decreases s,
{
    if s.len() == 0 {
        Seq::empty()
    } else {
        seq![jview(s[0])] + jviews(s.drop_first())
    }
}

pub open spec fn entry_views(s: Seq<(String, Json)>) -> Seq<(Seq<char>, JVal)>
    decreases s,
{
    if s.len() == 0 {
        Seq::empty()
    } else {
        seq![(s[0].0@, jview(s[0].1))] + entry_views(s.drop_first())
    }
}

impl View for Json {
    type V = JVal;

    open spec fn view(&self) -> JVal {
        jview(*self)
    }
}

pub proof fn lemma_jviews(s: Seq<Json>)
    ensures
        jviews(s).len() == s.len(),
        forall|i: int| 0 <= i < s.len() ==> #[trigger] jviews(s)[i] == jview(s[i]),
    decreases s.len(),
{
    if s.len() > 0 {
        lemma_jviews(s.drop_first());
        assert forall|i: int| 0 <= i < s.len() implies #[trigger] jviews(s)[i] == jview(s[i]) by {
            if i > 0 {
                assert(jviews(s)[i] == jviews(s.drop_first())[i - 1]);
            }
        }
    }
}

pub proof fn lemma_entry_views(s: Seq<(String, Json)>)
    ensures
        entry_views(s).len() == s.len(),
        forall|i: int|
            0 <= i < s.len() ==> #[trigger] entry_views(s)[i] == (s[i].0@, jview(s[i].1)),
    decreases s.len(),
{
    if s.len() > 0 {
        lemma_entry_views(s.drop_first());
        assert forall|i: int|
            0 <= i < s.len() implies #[trigger] entry_views(s)[i] == (s[i].0@, jview(s[i].1)) by {
            if i > 0 {
                assert(entry_views(s)[i] == entry_views(s.drop_first())[i - 1]);
            }
        }
    }
}

pub proof fn lemma_jviews_push(s: Seq<Json>, x: Json)
    ensures
        jviews(s.push(x)) == jviews(s).push(jview(x)),
{
    lemma_jviews(s.push(x));
    lemma_jviews(s);
    assert(jviews(s.push(x)) =~= jviews(s).push(jview(x)));
}

pub proof fn lemma_entry_views_push(s: Seq<(String, Json)>, x: (String, Json))
    ensures
        entry_views(s.push(x)) == entry_views(s).push((x.0@, jview(x.1))),
{
    lemma_entry_views(s.push(x));
    lemma_entry_views(s);
    assert(entry_views(s.push(x)) =~= entry_views(s).push((x.0@, jview(x.1))));
}

/// Index of the first entry named `key`, or the number of entries.
pub open spec fn find_key(es: Seq<(Seq<char>, JVal)>, key: Seq<char>) -> int
    decreases es.len(),
{
    if es.len() == 0 {
        0
    } else if es[0].0 == key {
        0
    } else {
        1 + find_key(es.drop_first(), key)
    }
}

/// The value of member `key` of an object (`Value::get`).
pub open spec fn jget(v: JVal, key: Seq<char>) -> Option<JVal> {
    match v {
        JVal::Object(es) => {
            let i = find_key(es, key);
            if i < es.len() {
                Some(es[i].1)
            } else {
                None
            }
        },
        _ => None,
    }
}

/// The string a value holds (`Value::as_str`).
pub open spec fn jstr(v: Option<JVal>) -> Option<Seq<char>> {
    match v {
        Some(JVal::Str(s)) => Some(s),
        _ => None,
    }
}

/// The array a value holds (`Value::as_array`).
pub open spec fn jarr(v: Option<JVal>) -> Option<Seq<JVal>> {
    match v {
        Some(JVal::Array(a)) => Some(a),
        _ => None,
    }
}

/// The boolean a value holds (`Value::as_bool`).
pub open spec fn jbool(v: Option<JVal>) -> Option<bool> {
    match v {
        Some(JVal::Bool(b)) => Some(b),
        _ => None,
    }
}

/// The value as an unsigned 64-bit integer (`Value::as_u64`).
pub open spec fn ju64(v: Option<JVal>) -> Option<u64> {
    match v {
        Some(JVal::Number(JNum::Unsigned(u))) => Some(u),
        Some(JVal::Number(JNum::Signed(i))) => if i >= 0 {
            Some(i as u64)
        } else {
            None
        },
        _ => None,
    }
}

pub proof fn lemma_find_key_bounds(es: Seq<(Seq<char>, JVal)>, key: Seq<char>)
    ensures
        0 <= find_key(es, key) <= es.len(),
        find_key(es, key) < es.len() ==> es[find_key(es, key)].0 == key,
        forall|j: int| 0 <= j < find_key(es, key) ==> es[j].0 != key,
    decreases es.len(),
{
    if es.len() > 0 && es[0].0 != key {
        lemma_find_key_bounds(es.drop_first(), key);
        assert forall|j: int| 0 <= j < find_key(es, key) implies es[j].0 != key by {
            if j > 0 {
                assert(es[j] == es.drop_first()[j - 1]);
            }
        }
    }
}

impl Json {
    /// Member `key` of an object; `None` for a missing member or a
    /// non-object.
    pub fn get(&self, key: &str) -> (r: Option<&Json>)
        ensures
            match r {
                Some(x) => jget(self@, key@) == Some(x@),
                None => jget(self@, key@) is None,
            },
    {
        match self {
            Json::Object(es) => {
                proof {
                    lemma_entry_views(es@);
                }
                let ghost ev = entry_views(es@);
                let wanted: String = key.to_owned();
                assert(self@ == JVal::Object(ev));
                let mut i: usize = 0;
                while i < es.len()
                    invariant
                        0 <= i <= es@.len(),
                        ev == entry_views(es@),
                        wanted@ == key@,
                        self@ == JVal::Object(ev),
                        ev.len() == es@.len(),
                        forall|j: int| 0 <= j < i ==> ev[j].0 != key@,
                        forall|j: int| 0 <= j < es@.len() ==> #[trigger] ev[j] == (es@[j].0@, jview(es@[j].1)),
                    decreases es@.len() - i,
                {
                    if es[i].0 == wanted {
                        proof {
                            assert(ev[i as int] == (es@[i as int].0@, jview(es@[i as int].1)));
                            assert(ev[i as int].0 == key@);
                            lemma_find_key_bounds(ev, key@);
                            if find_key(ev, key@) < i {
                                assert(ev[find_key(ev, key@)].0 == key@);
                            }
                            if find_key(ev, key@) > i {
                                assert(ev[i as int].0 == key@);
                            }
                            assert(find_key(ev, key@) == i);
                            assert(es@[i as int].1@ == jview(es@[i as int].1));
                            assert(jget(self@, key@) == Some(jview(es@[i as int].1)));
                        }
                        return Some(&es[i].1);
                    }
                    i += 1;
                }
                proof {
                    lemma_find_key_bounds(ev, key@);
                    if find_key(ev, key@) < ev.len() {
                        assert(ev[find_key(ev, key@)].0 == key@);
                    }
                }
                None
            },
            _ => None,
        }
    }

    /// The string this value holds.
    pub fn as_str(&self) -> (r: Option<&str>)
        ensures
            match r {
                Some(s) => jstr(Some(self@)) == Some(s@),
                None => jstr(Some(self@)) is None,
            },
    {
        match self {
            Json::String(s) => Some(s.as_str()),
            _ => None,
        }
    }

    /// The array this value holds.
    pub fn as_array(&self) -> (r: Option<&Vec<Json>>)
        ensures
            match r {
                Some(v) => jarr(Some(self@)) == Some(jviews(v@)),
                None => jarr(Some(self@)) is None,
            },
    {
        match self {
            Json::Array(v) => Some(v),
            _ => None,
        }
    }

    /// The boolean this value holds.
    pub fn as_bool(&self) -> (r: Option<bool>)
        ensures
            r == jbool(Some(self@)),
    {
        match self {
            Json::Bool(b) => Some(*b),
            _ => None,
        }
    }

    /// This value as an unsigned 64-bit integer.
    pub fn as_u64(&self) -> (r: Option<u64>)
        ensures
            r == ju64(Some(self@)),
    {
        match self {
            Json::Number(JsonNumber::Unsigned(u)) => Some(*u),
            Json::Number(JsonNumber::Signed(i)) => if *i >= 0 {
                Some(*i as u64)
            } else {
                None
            },
            _ => None,
        }
    }
}

} // verus!

verus! {

/// A copy of a JSON value.
pub fn clone_json(j: &Json) -> (r: Json)
    ensures
        r@ == j@,
    decreases j@,
{
    match j {
        Json::Null => Json::Null,
        Json::Bool(b) => Json::Bool(*b),
        Json::Number(n) => Json::Number(
            match n {
                JsonNumber::Unsigned(u) => JsonNumber::Unsigned(*u),
                JsonNumber::Signed(i) => JsonNumber::Signed(*i),
                JsonNumber::Decimal(s) => JsonNumber::Decimal(s.clone()),
            },
        ),
        Json::String(s) => Json::String(s.clone()),
        Json::Array(v) => {
            proof {
                lemma_jviews(v@);
            }
            let mut out: Vec<Json> = Vec::new();
            let mut i: usize = 0;
            while i < v.len()
                invariant
                    i <= v@.len(),
                    j@ == JVal::Array(jviews(v@)),
                    jviews(v@).len() == v@.len(),
                    forall|k: int| 0 <= k < v@.len() ==> #[trigger] jviews(v@)[k] == jview(v@[k]),
                    jviews(out@) == jviews(v@).take(i as int),
                decreases v@.len() - i,
            {
                let ghost jv = j@;
                assert(decreases_to!(jv => jv->Array_0));
                assert(decreases_to!(jv->Array_0 => jv->Array_0[i as int]));
                let x = clone_json(&v[i]);
                json_push(&mut out, x);
                i += 1;
                assert(jviews(out@) =~= jviews(v@).take(i as int));
            }
            assert(jviews(v@).take(v@.len() as int) =~= jviews(v@));
            Json::Array(out)
        },
        Json::Object(es) => {
            proof {
                lemma_entry_views(es@);
            }
            let mut out: Vec<(String, Json)> = Vec::new();
            let mut i: usize = 0;
            while i < es.len()
                invariant
                    i <= es@.len(),
                    j@ == JVal::Object(entry_views(es@)),
                    entry_views(es@).len() == es@.len(),
                    forall|k: int|
                        0 <= k < es@.len() ==> #[trigger] entry_views(es@)[k] == (
                            es@[k].0@,
                            jview(es@[k].1),
                        ),
                    entry_views(out@) == entry_views(es@).take(i as int),
                decreases es@.len() - i,
            {
                let ghost jv = j@;
                assert(decreases_to!(jv => jv->Object_0));
                assert(decreases_to!(jv->Object_0 => jv->Object_0[i as int]));
                assert(decreases_to!(jv->Object_0[i as int] => jv->Object_0[i as int].1));
                let x = clone_json(&es[i].1);
                let k = es[i].0.clone();
                entry_push(&mut out, k, x);
                i += 1;
                assert(entry_views(out@) =~= entry_views(es@).take(i as int));
            }
            assert(entry_views(es@).take(es@.len() as int) =~= entry_views(es@));
            Json::Object(out)
        },
    }
}

/// Appends a value to an array's items.
pub fn json_push(v: &mut Vec<Json>, x: Json)
    ensures
        jviews(final(v)@) == jviews(old(v)@).push(x@),
{
    proof {
        lemma_jviews_push(v@, x);
    }
    v.push(x);
}

/// Appends an entry to an object's entries.
pub fn entry_push(es: &mut Vec<(String, Json)>, k: String, x: Json)
    ensures
        entry_views(final(es)@) == entry_views(old(es)@).push((k@, x@)),
{
    proof {
        lemma_entry_views_push(es@, (k, x));
    }
    es.push((k, x));
}

} // verus!

verus! {

/// Index of the first entry named `key`, or the number of entries.
pub fn find_key_exec(es: &Vec<(String, Json)>, key: &str) -> (i: usize)
    ensures
        i == find_key(entry_views(es@), key@),
        i <= es@.len(),
{
    proof {
        lemma_entry_views(es@);
        lemma_find_key_bounds(entry_views(es@), key@);
    }
    let ghost ev = entry_views(es@);
    let wanted: String = key.to_owned();
    let mut i: usize = 0;
    while i < es.len()
        invariant
            i <= es@.len(),
            ev == entry_views(es@),
            ev.len() == es@.len(),
            wanted@ == key@,
            forall|j: int| 0 <= j < i ==> ev[j].0 != key@,
            forall|j: int| 0 <= j < es@.len() ==> #[trigger] ev[j] == (es@[j].0@, jview(es@[j].1)),
            0 <= find_key(ev, key@) <= ev.len(),
            find_key(ev, key@) < ev.len() ==> ev[find_key(ev, key@)].0 == key@,
            forall|j: int| 0 <= j < find_key(ev, key@) ==> ev[j].0 != key@,
        decreases es@.len() - i,
    {
        if es[i].0 == wanted {
            assert(ev[i as int].0 == key@);
            return i;
        }
        i += 1;
    }
    i
}

} // verus!

verus! {

/// The value as a signed 64-bit integer (`Value::as_i64`).
pub open spec fn ji64(v: Option<JVal>) -> Option<i64> {
    match v {
        Some(JVal::Number(JNum::Signed(i))) => Some(i),
        Some(JVal::Number(JNum::Unsigned(u))) => if u <= i64::MAX {
            Some(u as i64)
        } else {
            None
        },
        _ => None,
    }
}

impl Json {
    /// This value as a signed 64-bit integer.
    pub fn as_i64(&self) -> (r: Option<i64>)
        ensures
            r == ji64(Some(self@)),
    {
        match self {
            Json::Number(JsonNumber::Signed(i)) => Some(*i),
            Json::Number(JsonNumber::Unsigned(u)) => if *u <= 0x7fff_ffff_ffff_ffff {
                Some(*u as i64)
            } else {
                None
            },
            _ => None,
        }
    }
}

} // verus!

verus! {

#[verifier::external_type_specification]
#[verifier::external_body]
pub struct ExValue(serde_json::Value);

#[verifier::external_type_specification]
#[verifier::external_body]
pub struct ExNumber(serde_json::Number);

/// Converts a `serde_json::Value` to a `Json`, variant by variant (object
/// entries in the map's order).
#[verifier::external_body]
pub(crate) fn json_of_value(v: serde_json::Value) -> Json {
    match v {
        serde_json::Value::Null => Json::Null,
        serde_json::Value::Bool(b) => Json::Bool(b),
        serde_json::Value::Number(n) => Json::Number(number_of(n)),
        serde_json::Value::String(s) => Json::String(s),
        serde_json::Value::Array(a) => Json::Array(a.into_iter().map(json_of_value).collect()),
        serde_json::Value::Object(m) => Json::Object(
            m.into_iter().map(|(k, x)| (k, json_of_value(x))).collect(),
        ),
    }
}

/// Converts a `serde_json::Number`: an unsigned or signed integer as such,
/// any other number as its text.
#[verifier::external_body]
fn number_of(n: serde_json::Number) -> JsonNumber {
    match (n.as_u64(), n.as_i64()) {
        (Some(u), _) => JsonNumber::Unsigned(u),
        (None, Some(i)) => JsonNumber::Signed(i),
        (None, None) => JsonNumber::Decimal(n.to_string()),
    }
}

} // verus!
