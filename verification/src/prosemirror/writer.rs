//! Markdown to ProseMirror JSON: the event walker, proved to do what
//! `model` states.

use vstd::prelude::*;
use crate::json::{
    Json, JsonNumber, JVal, jviews, entry_views, jview, lemma_jviews, lemma_entry_views, clone_json,
    json_push, entry_push, find_key_exec,
};
use crate::prosemirror::node::{ty, is_type, node_type};
use crate::prosemirror::events::{
    MdEvent, MdTag, MdTagEnd, MdCodeKind, heading_level, copy_event, markdown_events,
    markdown_events_of,
};
use crate::prosemirror::ids::{random_uuid, is_uuid_v4};
use crate::prosemirror::model::{
    FrameV, MentionV, BuildV, frame, frame_with, frame_value, strip_newline, text_node, typed,
    initial, push_frame, append_to_top, top_type, mark_node, link_mark, image_node, mention_node,
    empty_paragraph, obj_set, is_whitespace_text, push_into, append_to_trailing_paragraph,
    push_inline, last_mark, pop_mark, finish_image, pop_frame, all_images, append_all,
    finish_paragraph, as_task_item, finish_list, close_frame, task_marker, text, inline_code,
    push_break, id_at, finish_mention, has_prefix, start_link, first_ws, first_word, start, end,
    handle, run, close_all, finish, document, set_top,
};
use crate::text::{owned, strs, lemma_strs_push};

verus! {

/// A block container being assembled.
pub struct Frame {
    pub node_type: String,
    pub attrs: Option<Vec<(String, Json)>>,
    pub content: Vec<Json>,
    pub is_task_list: bool,
    pub code: Option<String>,
}

impl View for Frame {
    type V = FrameV;

    open spec fn view(&self) -> FrameV {
        FrameV {
            node_type: self.node_type@,
            attrs: match self.attrs {
                Some(a) => Some(entry_views(a@)),
                None => None,
            },
            content: jviews(self.content@),
            is_task_list: self.is_task_list,
            code: match self.code {
                Some(c) => Some(c@),
                None => None,
            },
        }
    }
}

/// A mention between its link's start and end.
pub struct Mention {
    pub entity_type: String,
    pub entity_id: String,
    pub label: String,
}

/// The writer's state while it walks the events.
pub struct DocBuilder {
    pub stack: Vec<Frame>,
    pub marks: Vec<Json>,
    pub in_table_head: bool,
    pub image: Option<(String, String)>,
    pub mention: Option<Mention>,
    pub used_ids: usize,
}

pub open spec fn frames(s: Seq<Frame>) -> Seq<FrameV> {
    s.map_values(|f: Frame| f@)
}

impl View for DocBuilder {
    type V = BuildV;

    open spec fn view(&self) -> BuildV {
        BuildV {
            stack: frames(self.stack@),
            marks: jviews(self.marks@),
            in_table_head: self.in_table_head,
            image: match self.image {
                Some((a, b)) => Some((a@, b@)),
                None => None,
            },
            mention: match self.mention {
                Some(m) => Some(MentionV { entity_type: m.entity_type@, entity_id: m.entity_id@, label: m.label@ }),
                None => None,
            },
            used_ids: self.used_ids as nat,
        }
    }
}

proof fn lemma_frames_push(s: Seq<Frame>, f: Frame)
    ensures
        frames(s.push(f)) == frames(s).push(f@),
{
    assert(frames(s.push(f)) =~= frames(s).push(f@));
}

proof fn lemma_frames_pop(s: Seq<Frame>)
    requires
        s.len() > 0,
    ensures
        frames(s.drop_last()) == frames(s).drop_last(),
        frames(s).last() == s.last()@,
        frames(s).len() == s.len(),
{
    assert(frames(s.drop_last()) =~= frames(s).drop_last());
}

proof fn lemma_jviews_pop(s: Seq<Json>)
    requires
        s.len() > 0,
    ensures
        jviews(s.drop_last()) == jviews(s).drop_last(),
        jviews(s).last() == s.last()@,
        jviews(s).len() == s.len(),
{
    lemma_jviews(s);
    lemma_jviews(s.drop_last());
    assert(jviews(s.drop_last()) =~= jviews(s).drop_last());
}

/// A text node with a copy of the marks.
fn text_node_exec(text: String, marks: &Vec<Json>) -> (r: Json)
    ensures
        r@ == text_node(text@, jviews(marks@)),
{
    let mut es: Vec<(String, Json)> = Vec::new();
    entry_push(&mut es, owned("type"), Json::String(owned("text")));
    entry_push(&mut es, owned("text"), Json::String(text));
    if marks.len() > 0 {
        let copy = clone_json(&Json::Array(clone_items(marks)));
        entry_push(&mut es, owned("marks"), copy);
    }
    proof {
        lemma_jviews(marks@);
    }
    assert(entry_views(es@) =~= seq![("type"@, JVal::Str("text"@)), ("text"@, JVal::Str(text@))] + if jviews(marks@).len() > 0 {
        seq![("marks"@, JVal::Array(jviews(marks@)))]
    } else {
        Seq::empty()
    });
    Json::Object(es)
}

/// Copies of the values of an array.
fn clone_items(v: &Vec<Json>) -> (r: Vec<Json>)
    ensures
        jviews(r@) == jviews(v@),
{
    proof {
        lemma_jviews(v@);
    }
    let mut out: Vec<Json> = Vec::new();
    let mut i: usize = 0;
    while i < v.len()
        invariant
            i <= v@.len(),
            jviews(v@).len() == v@.len(),
            forall|k: int| 0 <= k < v@.len() ==> #[trigger] jviews(v@)[k] == jview(v@[k]),
            jviews(out@) == jviews(v@).take(i as int),
        decreases v@.len() - i,
    {
        let x = clone_json(&v[i]);
        json_push(&mut out, x);
        i += 1;
        assert(jviews(out@) =~= jviews(v@).take(i as int));
    }
    assert(jviews(v@).take(v@.len() as int) =~= jviews(v@));
    out
}

/// `{ "type": t }`.
fn typed_exec(t: &str) -> (r: Json)
    ensures
        r@ == typed(t@),
{
    let mut es: Vec<(String, Json)> = Vec::new();
    entry_push(&mut es, owned("type"), Json::String(owned(t)));
    assert(entry_views(es@) =~= seq![("type"@, JVal::Str(t@))]);
    Json::Object(es)
}

/// The node a finished frame becomes.
fn frame_value_exec(f: Frame) -> (r: Json)
    ensures
        r@ == frame_value(f@),
{
    let ghost fv = f@;
    let Frame { node_type, attrs, content, is_task_list, code } = f;
    let mut es: Vec<(String, Json)> = Vec::new();
    entry_push(&mut es, owned("type"), Json::String(node_type));
    let ghost e1 = entry_views(es@);
    match attrs {
        Some(a) => entry_push(&mut es, owned("attrs"), Json::Object(a)),
        None => {},
    }
    assert(entry_views(es@) =~= e1 + match fv.attrs {
        Some(a) => seq![("attrs"@, JVal::Object(a))],
        None => Seq::empty(),
    });
    let body: Vec<Json> = match code {
        Some(c) => {
            let t = strip_newline_exec(c);
            let mut items: Vec<Json> = Vec::new();
            if !t.as_str().is_empty() {
                let node = text_node_exec(t, &Vec::new());
                json_push(&mut items, node);
            }
            proof {
                lemma_jviews(Seq::<Json>::empty());
            }
            assert(jviews(items@) =~= if strip_newline(fv.code->0).len() == 0 {
                Seq::<JVal>::empty()
            } else {
                seq![text_node(strip_newline(fv.code->0), Seq::empty())]
            });
            items
        },
        None => content,
    };
    let ghost e2 = entry_views(es@);
    entry_push(&mut es, owned("content"), Json::Array(body));
    assert(entry_views(es@) =~= seq![("type"@, JVal::Str(fv.node_type))] + match fv.attrs {
        Some(a) => seq![("attrs"@, JVal::Object(a))],
        None => Seq::empty(),
    } + seq![("content"@, JVal::Array(jviews(body@)))]);
    Json::Object(es)
}

/// `s` without one trailing newline.
fn strip_newline_exec(s: String) -> (r: String)
    ensures
        r@ == strip_newline(s@),
{
    let v = crate::text::chars_of(s.as_str());
    if v.len() > 0 && v[v.len() - 1] == '\n' {
        let mut r = String::new();
        crate::text::push_range(&mut r, &v, 0, v.len() - 1);
        assert(v@.subrange(0, v@.len() - 1) =~= s@.drop_last());
        r
    } else {
        s
    }
}

impl DocBuilder {
    /// A builder with an open `doc` frame.
    pub fn new() -> (b: DocBuilder)
        ensures
            b@ == initial(),
    {
        let doc = Frame { node_type: owned("doc"), attrs: None, content: Vec::new(), is_task_list: false, code: None };
        let mut stack: Vec<Frame> = Vec::new();
        proof {
            lemma_frames_push(stack@, doc);
            lemma_jviews(Seq::<Json>::empty());
        }
        stack.push(doc);
        let b = DocBuilder {
            stack,
            marks: Vec::new(),
            in_table_head: false,
            image: None,
            mention: None,
            used_ids: 0,
        };
        assert(frames(b.stack@) =~= seq![frame("doc"@)]);
        b
    }

    fn push_frame(&mut self, f: Frame)
        ensures
            final(self)@ == push_frame(old(self)@, f@),
    {
        proof {
            lemma_frames_push(self.stack@, f);
        }
        self.stack.push(f);
    }

    fn append_to_top(&mut self, node: Json)
        ensures
            final(self)@ == append_to_top(old(self)@, node@),
    {
        let ghost st = self.stack@;
        match self.stack.pop() {
            Some(mut f) => {
                proof {
                    lemma_frames_pop(st);
                }
                json_push(&mut f.content, node);
                proof {
                    lemma_frames_push(self.stack@, f);
                }
                self.stack.push(f);
                assert(frames(self.stack@) =~= frames(st).update(st.len() - 1, f@));
            },
            None => {},
        }
    }

    fn top_is(&self, t: &str) -> (r: bool)
        ensures
            r == (top_type(self@) == Some(t@)),
    {
        if self.stack.len() > 0 {
            proof {
                lemma_frames_pop(self.stack@);
            }
            crate::text::same_text(self.stack[self.stack.len() - 1].node_type.as_str(), t)
        } else {
            false
        }
    }
}

} // verus!

verus! {

/// `Map::insert` on an object's entries.
fn obj_set_exec(es: &mut Vec<(String, Json)>, key: &str, val: Json)
    ensures
        entry_views(final(es)@) == obj_set(entry_views(old(es)@), key@, val@),
{
    proof {
        lemma_entry_views(es@);
    }
    let i = find_key_exec(es, key);
    if i < es.len() {
        let ghost before = es@;
        es.remove(i);
        es.insert(i, (owned(key), val));
        proof {
            lemma_entry_views(before);
            lemma_entry_views(es@);
        }
        assert(entry_views(es@) =~= entry_views(before).update(i as int, (key@, val@)));
    } else {
        entry_push(es, owned(key), val);
    }
}

/// `node` pushed onto the `content` array of object `p`, if it has one.
fn push_into_exec(p: Json, node: Json) -> (r: Json)
    ensures
        r@ == push_into(p@, node@),
{
    match p {
        Json::Object(mut es) => {
            let ghost ev = entry_views(es@);
            let i = find_key_exec(&es, "content");
            proof {
                lemma_entry_views(es@);
                crate::json::lemma_find_key_bounds(ev, "content"@);
            }
            if i < es.len() {
                let ghost before = es@;
                let (k, v) = es.remove(i);
                match v {
                    Json::Array(mut items) => {
                        json_push(&mut items, node);
                        es.insert(i, (k, Json::Array(items)));
                        proof {
                            lemma_entry_views(es@);
                        }
                        assert(entry_views(es@) =~= ev.update(i as int, ("content"@, JVal::Array(jviews(items@)))));
                    },
                    other => {
                        es.insert(i, (k, other));
                        proof {
                            lemma_entry_views(es@);
                        }
                        assert(entry_views(es@) =~= ev);
                    },
                }
            }
            Json::Object(es)
        },
        other => other,
    }
}

fn empty_paragraph_exec() -> (r: Json)
    ensures
        r@ == empty_paragraph(),
{
    let mut es: Vec<(String, Json)> = Vec::new();
    entry_push(&mut es, owned("type"), Json::String(owned("paragraph")));
    let items: Vec<Json> = Vec::new();
    proof {
        lemma_jviews(items@);
    }
    entry_push(&mut es, owned("content"), Json::Array(items));
    assert(entry_views(es@) =~= seq![("type"@, JVal::Str("paragraph"@)), ("content"@, JVal::Array(Seq::empty()))]);
    Json::Object(es)
}

fn is_whitespace_text_exec(node: &Json) -> (r: bool)
    ensures
        r == is_whitespace_text(node@),
{
    if !is_type(node, "text") {
        return false;
    }
    if node.get("marks").is_some() {
        return false;
    }
    match node.get("text") {
        Some(t) => match t.as_str() {
            Some(s) => crate::text::is_blank(s),
            None => false,
        },
        None => false,
    }
}

fn all_images_exec(content: &Vec<Json>) -> (r: bool)
    ensures
        r == all_images(jviews(content@)),
{
    proof {
        lemma_jviews(content@);
    }
    let mut i: usize = 0;
    while i < content.len()
        invariant
            i <= content@.len(),
            jviews(content@).len() == content@.len(),
            forall|k: int| 0 <= k < content@.len() ==> #[trigger] jviews(content@)[k] == jview(content@[k]),
            forall|k: int| 0 <= k < i ==> ty(#[trigger] jviews(content@)[k]) == Some("image"@),
        decreases content@.len() - i,
    {
        if !is_type(&content[i], "image") {
            assert(!(ty(jviews(content@)[i as int]) == Some("image"@)));
            return false;
        }
        i += 1;
    }
    true
}

fn as_task_item_exec(item: Json) -> (r: Json)
    ensures
        r@ == as_task_item(item@),
{
    if is_type(&item, "listItem") {
        match item {
            Json::Object(mut es) => {
                obj_set_exec(&mut es, "type", Json::String(owned("taskItem")));
                let mut a: Vec<(String, Json)> = Vec::new();
                entry_push(&mut a, owned("checked"), Json::Bool(false));
                assert(entry_views(a@) =~= seq![("checked"@, JVal::Bool(false))]);
                obj_set_exec(&mut es, "attrs", Json::Object(a));
                Json::Object(es)
            },
            other => other,
        }
    } else {
        item
    }
}

} // verus!

verus! {

impl DocBuilder {
    fn append_to_trailing_paragraph(&mut self, node: Json)
        ensures
            final(self)@ == append_to_trailing_paragraph(old(self)@, node@),
    {
        let ghost s0 = self@;
        let ghost st = self.stack@;
        match self.stack.pop() {
            Some(mut f) => {
                proof {
                    lemma_frames_pop(st);
                    lemma_jviews(f.content@);
                }
                let ghost fv = f@;
                let has_paragraph = f.content.len() > 0 && is_type(
                    &f.content[f.content.len() - 1],
                    "paragraph",
                );
                assert(has_paragraph == (fv.content.len() > 0 && ty(fv.content.last()) == Some(
                    "paragraph"@,
                )));
                if !has_paragraph && is_whitespace_text_exec(&node) {
                    proof {
                        lemma_frames_push(self.stack@, f);
                    }
                    self.stack.push(f);
                    assert(frames(self.stack@) =~= frames(st));
                    return;
                }
                if !has_paragraph {
                    json_push(&mut f.content, empty_paragraph_exec());
                }
                let ghost c1 = jviews(f.content@);
                let ghost cs = f.content@;
                proof {
                    lemma_jviews_pop(cs);
                }
                match f.content.pop() {
                    Some(last) => {
                        let p2 = push_into_exec(last, node);
                        json_push(&mut f.content, p2);
                        assert(jviews(f.content@) =~= c1.update(c1.len() - 1, push_into(
                            c1[c1.len() - 1],
                            node@,
                        )));
                    },
                    None => {},
                }
                proof {
                    lemma_frames_push(self.stack@, f);
                }
                self.stack.push(f);
                assert(frames(self.stack@) =~= frames(st).update(st.len() - 1, f@));
            },
            None => {},
        }
    }

    fn push_inline(&mut self, node: Json)
        ensures
            final(self)@ == push_inline(old(self)@, node@),
    {
        if self.top_is("paragraph") || self.top_is("heading") {
            self.append_to_top(node);
        } else {
            self.append_to_trailing_paragraph(node);
        }
    }

    fn pop_mark(&mut self, kind: &str)
        ensures
            final(self)@ == pop_mark(old(self)@, kind@),
    {
        proof {
            lemma_jviews(self.marks@);
        }
        let ghost ms = jviews(self.marks@);
        let mut i = self.marks.len();
        assert(ms.take(i as int) =~= ms);
        while i > 0
            invariant
                i <= self.marks@.len(),
                ms == jviews(self.marks@),
                ms.len() == self.marks@.len(),
                forall|k: int| 0 <= k < self.marks@.len() ==> #[trigger] ms[k] == self.marks@[k]@,
                last_mark(ms, kind@) == last_mark(ms.take(i as int), kind@),
            ensures
                i <= self.marks@.len(),
                last_mark(ms, kind@) == last_mark(ms.take(i as int), kind@),
                i == 0 || ty(ms[i - 1]) == Some(kind@),
            decreases i,
        {
            assert(ms.take(i as int).last() == ms[i - 1]);
            if is_type(&self.marks[i - 1], kind) {
                break;
            }
            assert(ms.take(i as int).drop_last() =~= ms.take(i - 1));
            i -= 1;
        }
        if i > 0 {
            assert(last_mark(ms, kind@) == i - 1);
            let ghost before = self.marks@;
            self.marks.remove(i - 1);
            proof {
                lemma_jviews(self.marks@);
            }
            assert(jviews(self.marks@) =~= ms.remove(i - 1));
        } else {
            assert(ms.take(0) =~= Seq::<JVal>::empty());
        }
    }

    fn finish_image(&mut self)
        ensures
            final(self)@ == finish_image(old(self)@),
    {
        match self.image.take() {
            Some((src, alt)) => {
                let mut attrs: Vec<(String, Json)> = Vec::new();
                entry_push(&mut attrs, owned("src"), Json::String(src));
                entry_push(&mut attrs, owned("alt"), Json::String(alt));
                let mut es: Vec<(String, Json)> = Vec::new();
                entry_push(&mut es, owned("type"), Json::String(owned("image")));
                entry_push(&mut es, owned("attrs"), Json::Object(attrs));
                assert(entry_views(attrs@) =~= seq![("src"@, JVal::Str(src@)), ("alt"@, JVal::Str(alt@))]);
                assert(entry_views(es@) =~= seq![
                    ("type"@, JVal::Str("image"@)),
                    ("attrs"@, JVal::Object(seq![("src"@, JVal::Str(src@)), ("alt"@, JVal::Str(alt@))])),
                ]);
                self.append_to_top(Json::Object(es));
            },
            None => {},
        }
    }

    fn close_frame(&mut self)
        ensures
            final(self)@ == close_frame(old(self)@),
    {
        if self.stack.len() <= 1 {
            return;
        }
        let ghost st = self.stack@;
        proof {
            lemma_frames_pop(st);
        }
        match self.stack.pop() {
            Some(f) => {
                let v = frame_value_exec(f);
                self.append_to_top(v);
            },
            None => {},
        }
    }

    fn finish_paragraph(&mut self)
        ensures
            final(self)@ == finish_paragraph(old(self)@),
    {
        if self.stack.len() <= 1 {
            return;
        }
        let ghost s0 = self@;
        proof {
            lemma_frames_pop(self.stack@);
        }
        match self.stack.pop() {
            Some(f) => {
                let ghost s1 = self@;
                assert(s1 == pop_frame(s0));
                proof {
                    lemma_jviews(f.content@);
                }
                if f.content.len() == 0 {
                    return;
                }
                if all_images_exec(&f.content) {
                    let ghost nodes = jviews(f.content@);
                    let mut i: usize = 0;
                    assert(nodes.take(0) =~= Seq::<JVal>::empty());
                    assert(s1.stack.last().content + Seq::<JVal>::empty() =~= s1.stack.last().content);
                    assert(append_all(s1, Seq::<JVal>::empty()) =~= s1) by {
                        assert(s1.stack.update(s1.stack.len() - 1, s1.stack.last()) =~= s1.stack);
                    }
                    while i < f.content.len()
                        invariant
                            i <= f.content@.len(),
                            nodes == jviews(f.content@),
                            nodes.len() == f.content@.len(),
                            forall|k: int| 0 <= k < f.content@.len() ==> #[trigger] nodes[k] == f.content@[k]@,
                            s1.stack.len() > 0,
                            self@ == append_all(s1, nodes.take(i as int)),
                        decreases f.content@.len() - i,
                    {
                        let ghost prev = self@;
                        let x = clone_json(&f.content[i]);
                        self.append_to_top(x);
                        i += 1;
                        proof {
                            let last = s1.stack.len() - 1;
                            let top = s1.stack.last();
                            assert(top.content + nodes.take(i as int) =~= (top.content + nodes.take(
                                i - 1,
                            )).push(nodes[i - 1]));
                            let want = append_all(s1, nodes.take(i as int));
                            assert(self@.stack[last] == want.stack[last]);
                            assert(self@.stack =~= want.stack);
                        }
                    }
                    assert(nodes.take(nodes.len() as int) =~= nodes);
                } else {
                    let v = frame_value_exec(f);
                    self.append_to_top(v);
                }
            },
            None => {},
        }
    }

    fn finish_list(&mut self)
        ensures
            final(self)@ == finish_list(old(self)@),
    {
        if self.stack.len() <= 1 {
            return;
        }
        proof {
            lemma_frames_pop(self.stack@);
        }
        match self.stack.pop() {
            Some(f) => {
                let ghost fv = f@;
                let g = if f.is_task_list {
                    let Frame { node_type, attrs, content, is_task_list, code } = f;
                    proof {
                        lemma_jviews(content@);
                    }
                    let ghost cv = jviews(content@);
                    let mut items: Vec<Json> = Vec::new();
                    let mut i: usize = 0;
                    while i < content.len()
                        invariant
                            i <= content@.len(),
                            cv == jviews(content@),
                            cv.len() == content@.len(),
                            forall|k: int| 0 <= k < content@.len() ==> #[trigger] cv[k] == content@[k]@,
                            jviews(items@) == cv.take(i as int).map_values(|x: JVal| as_task_item(x)),
                        decreases content@.len() - i,
                    {
                        let x = as_task_item_exec(clone_json(&content[i]));
                        json_push(&mut items, x);
                        i += 1;
                        assert(jviews(items@) =~= cv.take(i as int).map_values(|x: JVal| as_task_item(x)));
                    }
                    assert(cv.take(cv.len() as int) =~= cv);
                    Frame { node_type: owned("taskList"), attrs, content: items, is_task_list, code }
                } else {
                    f
                };
                assert(g@ == if fv.is_task_list {
                    FrameV {
                        node_type: "taskList"@,
                        content: fv.content.map_values(|item: JVal| as_task_item(item)),
                        ..fv
                    }
                } else {
                    fv
                });
                let v = frame_value_exec(g);
                self.append_to_top(v);
            },
            None => {},
        }
    }

    fn task_marker(&mut self, checked: bool)
        ensures
            final(self)@ == task_marker(old(self)@, checked),
    {
        let ghost s0 = self@;
        if self.stack.len() > 0 {
            let ghost st = self.stack@;
            proof {
                lemma_frames_pop(st);
            }
            match self.stack.pop() {
                Some(mut f) => {
                    f.node_type = owned("taskItem");
                    let mut a: Vec<(String, Json)> = Vec::new();
                    entry_push(&mut a, owned("checked"), Json::Bool(checked));
                    assert(entry_views(a@) =~= seq![("checked"@, JVal::Bool(checked))]);
                    f.attrs = Some(a);
                    proof {
                        lemma_frames_push(self.stack@, f);
                    }
                    self.stack.push(f);
                    assert(frames(self.stack@) =~= frames(st).update(st.len() - 1, f@));
                },
                None => {},
            }
        }
        let ghost s1 = self@;
        let n = self.stack.len();
        if n >= 2 {
            let ghost st = self.stack@;
            proof {
                lemma_frames_pop(st);
                lemma_frames_pop(st.drop_last());
            }
            match self.stack.pop() {
                Some(top) => match self.stack.pop() {
                    Some(mut p) => {
                        p.is_task_list = true;
                        proof {
                            lemma_frames_push(self.stack@, p);
                        }
                        self.stack.push(p);
                        proof {
                            lemma_frames_push(self.stack@, top);
                        }
                        self.stack.push(top);
                        assert(frames(self.stack@) =~= frames(st).update(n - 2, p@));
                    },
                    None => {},
                },
                None => {},
            }
        }
    }
}

} // verus!

verus! {

fn new_frame(t: &str) -> (f: Frame)
    ensures
        f@ == frame(t@),
{
    let f = Frame { node_type: owned(t), attrs: None, content: Vec::new(), is_task_list: false, code: None };
    proof {
        lemma_jviews(f.content@);
    }
    assert(f@.content =~= Seq::<JVal>::empty());
    f
}

fn frame_with_attr(t: &str, key: &str, val: Json) -> (f: Frame)
    ensures
        f@ == frame_with(t@, seq![(key@, val@)]),
{
    let mut a: Vec<(String, Json)> = Vec::new();
    entry_push(&mut a, owned(key), val);
    assert(entry_views(a@) =~= seq![(key@, val@)]);
    let f = Frame { node_type: owned(t), attrs: Some(a), content: Vec::new(), is_task_list: false, code: None };
    proof {
        lemma_jviews(f.content@);
    }
    assert(f@.content =~= Seq::<JVal>::empty());
    f
}

/// `s` starts with `p`.
fn starts_with(s: &Vec<char>, p: &str) -> (r: bool)
    ensures
        r == has_prefix(s@, p@),
{
    let pv = crate::text::chars_of(p);
    if pv.len() > s.len() {
        return false;
    }
    let mut i: usize = 0;
    while i < pv.len()
        invariant
            i <= pv@.len() <= s@.len(),
            pv@ == p@,
            forall|k: int| 0 <= k < i ==> s@[k] == pv@[k],
        decreases pv@.len() - i,
    {
        if s[i] != pv[i] {
            assert(s@.take(pv@.len() as int)[i as int] != pv@[i as int]);
            return false;
        }
        i += 1;
    }
    assert(s@.take(pv@.len() as int) =~= pv@);
    true
}

/// `info.split_whitespace().next().unwrap_or("")`.
fn first_word_exec(info: &str) -> (r: String)
    ensures
        r@ == first_word(info@),
{
    let v = crate::text::chars_of(info);
    let mut a: usize = 0;
    assert(v@.skip(0) =~= v@);
    while a < v.len() && crate::text::is_whitespace(v[a])
        invariant
            a <= v@.len(),
            crate::text::trim_start(v@) == crate::text::trim_start(v@.skip(a as int)),
        decreases v@.len() - a,
    {
        assert(v@.skip(a as int).drop_first() =~= v@.skip(a + 1));
        a += 1;
    }
    let ghost t = v@.skip(a as int);
    assert(crate::text::trim_start(t) == t);
    let mut b: usize = a;
    assert(t.skip(0) =~= t);
    while b < v.len() && !crate::text::is_whitespace(v[b])
        invariant
            a <= b <= v@.len(),
            t == v@.skip(a as int),
            first_ws(t) == (b - a) + first_ws(v@.skip(b as int)),
        decreases v@.len() - b,
    {
        assert(v@.skip(b as int).drop_first() =~= v@.skip(b + 1));
        b += 1;
    }
    assert(first_ws(v@.skip(b as int)) == 0);
    let mut r = String::new();
    crate::text::push_range(&mut r, &v, a, b);
    assert(v@.subrange(a as int, b as int) =~= t.take(first_ws(t)));
    r
}

impl DocBuilder {
    fn text(&mut self, t: String)
        ensures
            final(self)@ == text(old(self)@, t@),
    {
        match self.image.take() {
            Some((src, alt)) => {
                let mut alt = alt;
                alt.append(t.as_str());
                self.image = Some((src, alt));
                return;
            },
            None => {},
        }
        match self.mention.take() {
            Some(m) => {
                let mut m = m;
                m.label.append(t.as_str());
                self.mention = Some(m);
                return;
            },
            None => {},
        }
        if self.stack.len() > 0 {
            let ghost st = self.stack@;
            proof {
                lemma_frames_pop(st);
            }
            match self.stack.pop() {
                Some(mut f) => {
                    match f.code.take() {
                        Some(code) => {
                            let mut code = code;
                            code.append(t.as_str());
                            f.code = Some(code);
                            proof {
                                lemma_frames_push(self.stack@, f);
                            }
                            self.stack.push(f);
                            assert(frames(self.stack@) =~= frames(st).update(st.len() - 1, f@));
                            return;
                        },
                        None => {
                            proof {
                                lemma_frames_push(self.stack@, f);
                            }
                            self.stack.push(f);
                            assert(frames(self.stack@) =~= frames(st));
                        },
                    }
                },
                None => {},
            }
        }
        let node = text_node_exec(t, &self.marks);
        self.push_inline(node);
    }

    fn inline_code(&mut self, c: String)
        ensures
            final(self)@ == inline_code(old(self)@, c@),
    {
        match self.mention.take() {
            Some(m) => {
                let mut m = m;
                m.label.append(c.as_str());
                self.mention = Some(m);
                return;
            },
            None => {},
        }
        let mut marks: Vec<Json> = Vec::new();
        json_push(&mut marks, typed_exec("code"));
        let rest = clone_items(&self.marks);
        let ghost m0 = marks@;
        let mut rest = rest;
        let ghost r0 = rest@;
        marks.append(&mut rest);
        proof {
            lemma_jviews(m0);
            lemma_jviews(r0);
            lemma_jviews(marks@);
        }
        assert(jviews(marks@) =~= seq![mark_node("code"@)] + jviews(self.marks@));
        let node = text_node_exec(c, &marks);
        self.push_inline(node);
    }

    fn push_break(&mut self, soft: bool)
        ensures
            final(self)@ == push_break(old(self)@, soft),
    {
        match self.mention.take() {
            Some(m) => {
                let mut m = m;
                crate::text::push_char(&mut m.label, ' ');
                self.mention = Some(m);
                return;
            },
            None => {},
        }
        if soft {
            let node = text_node_exec(owned(" "), &self.marks);
            self.push_inline(node);
        } else {
            self.push_inline(typed_exec("hardBreak"));
        }
    }

    fn finish_mention(&mut self, ids: &Vec<String>)
        requires
            old(self).used_ids < usize::MAX,
        ensures
            final(self)@ == finish_mention(old(self)@, strs(ids@)),
    {
        match self.mention.take() {
            Some(m) => {
                let uid = if self.used_ids < ids.len() {
                    ids[self.used_ids].clone()
                } else {
                    String::new()
                };
                assert(uid@ == id_at(strs(ids@), self.used_ids as nat));
                self.used_ids = self.used_ids + 1;
                let node = mention_exec(m, uid);
                self.push_inline(node);
            },
            None => {},
        }
    }

    fn start_link(&mut self, url: String)
        ensures
            final(self)@ == start_link(old(self)@, url@),
    {
        proof {
            reveal_strlit("user:");
            reveal_strlit("page:");
        }
        let v = crate::text::chars_of(url.as_str());
        let kind: Option<&str> = if starts_with(&v, "user:") {
            Some("user")
        } else if starts_with(&v, "page:") {
            Some("page")
        } else {
            None
        };
        match kind {
            Some(k) => {
                if v.len() > 5 {
                    let mut id = String::new();
                    crate::text::push_range(&mut id, &v, 5, v.len());
                    assert(v@.subrange(5, v@.len() as int) =~= url@.skip(5));
                    self.mention = Some(Mention { entity_type: owned(k), entity_id: id, label: String::new() });
                    return;
                }
            },
            None => {},
        }
        let mark = link_mark_exec(url);
        json_push(&mut self.marks, mark);
    }
}

fn link_mark_exec(href: String) -> (r: Json)
    ensures
        r@ == link_mark(href@),
{
    let mut attrs: Vec<(String, Json)> = Vec::new();
    entry_push(&mut attrs, owned("href"), Json::String(href));
    let mut es: Vec<(String, Json)> = Vec::new();
    entry_push(&mut es, owned("type"), Json::String(owned("link")));
    entry_push(&mut es, owned("attrs"), Json::Object(attrs));
    assert(entry_views(attrs@) =~= seq![("href"@, JVal::Str(href@))]);
    assert(entry_views(es@) =~= seq![("type"@, JVal::Str("link"@)), ("attrs"@, JVal::Object(seq![("href"@, JVal::Str(href@))]))]);
    Json::Object(es)
}

fn mention_exec(m: Mention, uid: String) -> (r: Json)
    ensures
        r@ == mention_node(m.entity_type@, m.entity_id@, m.label@, uid@),
{
    let Mention { entity_type, entity_id, label } = m;
    let ghost (k, i, l) = (entity_type@, entity_id@, label@);
    let mut attrs: Vec<(String, Json)> = Vec::new();
    entry_push(&mut attrs, owned("id"), Json::String(uid));
    entry_push(&mut attrs, owned("label"), Json::String(label));
    entry_push(&mut attrs, owned("entityType"), Json::String(entity_type));
    entry_push(&mut attrs, owned("entityId"), Json::String(entity_id));
    let mut es: Vec<(String, Json)> = Vec::new();
    entry_push(&mut es, owned("type"), Json::String(owned("mention")));
    let ghost av = entry_views(attrs@);
    entry_push(&mut es, owned("attrs"), Json::Object(attrs));
    assert(av =~= seq![
        ("id"@, JVal::Str(uid@)),
        ("label"@, JVal::Str(l)),
        ("entityType"@, JVal::Str(k)),
        ("entityId"@, JVal::Str(i)),
    ]);
    assert(entry_views(es@) =~= seq![("type"@, JVal::Str("mention"@)), ("attrs"@, JVal::Object(av))]);
    Json::Object(es)
}

} // verus!

verus! {

impl DocBuilder {
    fn start(&mut self, tag: MdTag)
        ensures
            final(self)@ == start(old(self)@, tag),
    {
        match tag {
            MdTag::Paragraph => self.push_frame(new_frame("paragraph")),
            MdTag::Heading(l) => {
                let n = heading_level(l);
                self.push_frame(frame_with_attr("heading", "level", Json::Number(JsonNumber::Unsigned(n))));
            },
            MdTag::BlockQuote => self.push_frame(new_frame("blockquote")),
            MdTag::CodeBlock(kind) => {
                let language = match kind {
                    MdCodeKind::Fenced(info) => first_word_exec(info.as_str()),
                    MdCodeKind::Indented => String::new(),
                };
                let mut f = frame_with_attr("codeBlock", "language", Json::String(language));
                f.code = Some(String::new());
                self.push_frame(f);
            },
            MdTag::List(Some(n)) => {
                if n != 1 {
                    self.push_frame(frame_with_attr("orderedList", "start", Json::Number(JsonNumber::Unsigned(n))));
                } else {
                    self.push_frame(new_frame("orderedList"));
                }
            },
            MdTag::List(None) => self.push_frame(new_frame("bulletList")),
            MdTag::Item => self.push_frame(new_frame("listItem")),
            MdTag::Table => {
                self.in_table_head = false;
                self.push_frame(new_frame("table"));
            },
            MdTag::TableHead => {
                self.in_table_head = true;
                self.push_frame(new_frame("tableRow"));
            },
            MdTag::TableRow => self.push_frame(new_frame("tableRow")),
            MdTag::TableCell => {
                let cell = if self.in_table_head {
                    "tableHeader"
                } else {
                    "tableCell"
                };
                self.push_frame(new_frame(cell));
            },
            MdTag::Emphasis => json_push(&mut self.marks, typed_exec("italic")),
            MdTag::Strong => json_push(&mut self.marks, typed_exec("bold")),
            MdTag::Strikethrough => json_push(&mut self.marks, typed_exec("strike")),
            MdTag::Link(url) => self.start_link(url),
            MdTag::Image(src) => {
                self.image = Some((src, String::new()));
            },
            MdTag::Other => {},
        }
    }

    fn end(&mut self, tag: MdTagEnd, ids: &Vec<String>)
        requires
            old(self).used_ids < usize::MAX,
        ensures
            final(self)@ == end(old(self)@, tag, strs(ids@)),
    {
        match tag {
            MdTagEnd::Emphasis => self.pop_mark("italic"),
            MdTagEnd::Strong => self.pop_mark("bold"),
            MdTagEnd::Strikethrough => self.pop_mark("strike"),
            MdTagEnd::Link => {
                if self.mention.is_some() {
                    self.finish_mention(ids);
                } else {
                    self.pop_mark("link");
                }
            },
            MdTagEnd::Image => self.finish_image(),
            MdTagEnd::Paragraph => self.finish_paragraph(),
            MdTagEnd::List => self.finish_list(),
            MdTagEnd::TableHead => {
                self.in_table_head = false;
                self.close_frame();
            },
            MdTagEnd::Heading | MdTagEnd::BlockQuote | MdTagEnd::CodeBlock | MdTagEnd::Item
            | MdTagEnd::Table | MdTagEnd::TableRow | MdTagEnd::TableCell => self.close_frame(),
            MdTagEnd::Other => {},
        }
    }

    /// Applies one Markdown event.
    pub fn handle(&mut self, e: MdEvent, ids: &Vec<String>)
        requires
            old(self).used_ids < usize::MAX,
        ensures
            final(self)@ == handle(old(self)@, e, strs(ids@)),
            final(self).used_ids <= old(self).used_ids + 1,
    {
        match e {
            MdEvent::Start(tag) => self.start(tag),
            MdEvent::End(tag) => self.end(tag, ids),
            MdEvent::Text(t) => self.text(t),
            MdEvent::Code(c) => self.inline_code(c),
            MdEvent::SoftBreak => self.push_break(true),
            MdEvent::HardBreak => self.push_break(false),
            MdEvent::Rule => self.append_to_top(typed_exec("horizontalRule")),
            MdEvent::TaskListMarker(checked) => self.task_marker(checked),
            MdEvent::Other => {},
        }
    }

    /// Closes every open frame and returns the document.
    pub fn finish(self) -> (r: Json)
        ensures
            r@ == finish(self@),
    {
        let mut b = self;
        while b.stack.len() > 1
            invariant
                close_all(b@) == close_all(self@),
            decreases b.stack@.len(),
        {
            proof {
                lemma_frames_pop(b.stack@);
            }
            b.close_frame();
        }
        if b.stack.len() > 0 {
            proof {
                lemma_frames_pop(b.stack@);
            }
        }
        match b.stack.pop() {
            Some(f) => frame_value_exec(f),
            None => {
                let mut es: Vec<(String, Json)> = Vec::new();
                entry_push(&mut es, owned("type"), Json::String(owned("doc")));
                let items: Vec<Json> = Vec::new();
                proof {
                    lemma_jviews(items@);
                }
                entry_push(&mut es, owned("content"), Json::Array(items));
                assert(entry_views(es@) =~= seq![("type"@, JVal::Str("doc"@)), ("content"@, JVal::Array(Seq::empty()))]);
                Json::Object(es)
            },
        }
    }
}

/// The ProseMirror document that `events` describe, the `k`-th mention
/// taking id `ids[k]`.
pub fn build_document(events: &Vec<MdEvent>, ids: &Vec<String>) -> (r: Json)
    ensures
        r@ == document(events@, strs(ids@)),
{
    let mut b = DocBuilder::new();
    let mut i: usize = 0;
    while i < events.len()
        invariant
            i <= events@.len(),
            b@ == run(events@.take(i as int), strs(ids@)),
            b.used_ids <= i,
        decreases events@.len() - i,
    {
        assert(events@.take(i + 1).drop_last() =~= events@.take(i as int));
        let e = copy_event(&events[i]);
        b.handle(e, ids);
        i += 1;
    }
    assert(events@.take(events@.len() as int) =~= events@);
    b.finish()
}

} // verus!

verus! {

/// How many links the events open (an upper bound on the mentions).
pub open spec fn link_count(events: Seq<MdEvent>) -> nat
    decreases events.len(),
{
    if events.len() == 0 {
        0
    } else {
        link_count(events.drop_last()) + if events.last() matches MdEvent::Start(MdTag::Link(_)) {
            1nat
        } else {
            0nat
        }
    }
}

fn link_count_exec(events: &Vec<MdEvent>) -> (n: usize)
    ensures
        n == link_count(events@),
{
    let mut n: usize = 0;
    let mut i: usize = 0;
    while i < events.len()
        invariant
            i <= events@.len(),
            n == link_count(events@.take(i as int)),
            n <= i,
        decreases events@.len() - i,
    {
        assert(events@.take(i + 1).drop_last() =~= events@.take(i as int));
        if let MdEvent::Start(MdTag::Link(_)) = &events[i] {
            n += 1;
        }
        i += 1;
    }
    assert(events@.take(events@.len() as int) =~= events@);
    n
}

/// `n` random mention ids.
fn mention_ids(n: usize) -> (r: Vec<String>)
    ensures
        r@.len() == n,
        forall|k: int| 0 <= k < n ==> is_uuid_v4(#[trigger] strs(r@)[k]),
{
    let mut r: Vec<String> = Vec::new();
    let mut i: usize = 0;
    while i < n
        invariant
            i <= n,
            r@.len() == i,
            forall|k: int| 0 <= k < i ==> is_uuid_v4(#[trigger] strs(r@)[k]),
        decreases n - i,
    {
        let id = random_uuid();
        let ghost before = r@;
        proof {
            lemma_strs_push(before, id);
        }
        r.push(id);
        assert forall|k: int| 0 <= k < i + 1 implies is_uuid_v4(#[trigger] strs(r@)[k]) by {
            if k < i {
                assert(strs(r@)[k] == strs(before)[k]);
            }
        }
        i += 1;
    }
    r
}

/// Converts Markdown to a Docmost ProseMirror document
/// (`{ "type": "doc", "content": [...] }`): the document the CommonMark
/// events of `content` (tables, strikethrough and task lists on) describe, with one random version-4 UUID ready for
/// each link that may turn out to be a mention (`[Label](user:ID)` or
/// `[Label](page:ID)`), used in order.
pub fn markdown_to_prosemirror(content: &str) -> (r: Json)
    ensures
        exists|ids: Seq<Seq<char>>|
            #![trigger document(markdown_events_of(content@, true, true, true), ids)]
            ids.len() == link_count(markdown_events_of(content@, true, true, true)) && (forall|k: int|
                0 <= k < ids.len() ==> is_uuid_v4(#[trigger] ids[k])) && r@ == document(
                markdown_events_of(content@, true, true, true),
                ids,
            ),
{
    let events = markdown_events(content, true, true, true);
    let n = link_count_exec(&events);
    let ids = mention_ids(n);
    let r = build_document(&events, &ids);
    assert(strs(ids@).len() == n);
    r
}

} // verus!
