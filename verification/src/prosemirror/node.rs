//! The parts of a ProseMirror node the converters read: its `type`, its
//! `content` children and its `attrs`.

use vstd::prelude::*;
use crate::text::same_text;
use crate::json::{
    Json, JVal, JNum, jget, jstr, jarr, jviews, entry_views, find_key, lemma_find_key_bounds,
    lemma_jviews, lemma_entry_views,
};

verus! {

/// The node's `type` string.
pub open spec fn ty(v: JVal) -> Option<Seq<char>> {
    jstr(jget(v, "type"@))
}

/// The node's `content` array; empty when absent or not an array.
pub open spec fn kids(v: JVal) -> Seq<JVal> {
    match jarr(jget(v, "content"@)) {
        Some(a) => a,
        None => Seq::empty(),
    }
}

/// Member `key` of the node's `attrs` object.
pub open spec fn attr(v: JVal, key: Seq<char>) -> Option<JVal> {
    match jget(v, "attrs"@) {
        Some(a) => jget(a, key),
        None => None,
    }
}

/// A member of an object is a strict part of it.
pub proof fn lemma_member_smaller(v: JVal, key: Seq<char>)
    ensures
        jget(v, key) matches Some(x) ==> decreases_to!(v => x),
{
    if let JVal::Object(es) = v {
        lemma_find_key_bounds(es, key);
        let i = find_key(es, key);
        if i < es.len() {
            assert(decreases_to!(v => es));
            assert(decreases_to!(es => es[i]));
            assert(decreases_to!(es[i] => es[i].1));
        }
    }
}

/// Each child of a node is a strict part of it.
pub proof fn lemma_kids_smaller(v: JVal)
    ensures
        forall|i: int| 0 <= i < kids(v).len() ==> decreases_to!(v => #[trigger] kids(v)[i]),
{
    lemma_member_smaller(v, "content"@);
    if let Some(JVal::Array(a)) = jget(v, "content"@) {
        let x = jget(v, "content"@)->0;
        assert(decreases_to!(x => a));
        assert forall|i: int| 0 <= i < kids(v).len() implies decreases_to!(v => #[trigger] kids(v)[i]) by {
            assert(decreases_to!(a => a[i]));
        }
    }
}

/// The node's `type` string.
pub fn node_type(n: &Json) -> (r: Option<&str>)
    ensures
        match r {
            Some(s) => ty(n@) == Some(s@),
            None => ty(n@) is None,
        },
{
    match n.get("type") {
        Some(t) => t.as_str(),
        None => None,
    }
}

/// Whether the node's `type` is `name`.
pub fn is_type(n: &Json, name: &str) -> (r: bool)
    ensures
        r == (ty(n@) == Some(name@)),
{
    match node_type(n) {
        Some(t) => same_text(t, name),
        None => false,
    }
}

/// The node's `content` array, where it has one.
pub fn children(n: &Json) -> (r: Option<&Vec<Json>>)
    ensures
        match r {
            Some(v) => kids(n@) == jviews(v@),
            None => kids(n@) == Seq::<JVal>::empty(),
        },
{
    match n.get("content") {
        Some(c) => c.as_array(),
        None => None,
    }
}

/// Member `key` of the node's `attrs`.
pub fn attr_of<'a>(n: &'a Json, key: &str) -> (r: Option<&'a Json>)
    ensures
        match r {
            Some(x) => attr(n@, key@) == Some(x@),
            None => attr(n@, key@) is None,
        },
{
    match n.get("attrs") {
        Some(a) => a.get(key),
        None => None,
    }
}

/// The string held by `v`, or the empty string.
pub open spec fn opt_str(v: Option<JVal>) -> Seq<char> {
    match jstr(v) {
        Some(s) => s,
        None => Seq::empty(),
    }
}

/// `attrs.key` as a string, or `""`.
pub fn attr_str<'a>(n: &'a Json, key: &str) -> (r: &'a str)
    ensures
        r@ == opt_str(attr(n@, key@)),
{
    proof {
        reveal_strlit("");
    }
    match attr_of(n, key) {
        Some(x) => match x.as_str() {
            Some(s) => s,
            None => "",
        },
        None => "",
    }
}

} // verus!
