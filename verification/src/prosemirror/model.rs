//! What the Markdown-to-ProseMirror writer does, stated over the JSON model:
//! the state it keeps while walking the events, and what each event does to
//! it.

use vstd::prelude::*;
use crate::json::{JVal, JNum, jget, jstr, find_key};
use crate::prosemirror::node::ty;
use crate::prosemirror::events::{MdEvent, MdTag, MdTagEnd, MdCodeKind, level_number};
use crate::text::{is_ws, trim, trim_start};

verus! {

/// A block container being assembled.
pub struct FrameV {
    pub node_type: Seq<char>,
    pub attrs: Option<Seq<(Seq<char>, JVal)>>,
    pub content: Seq<JVal>,
    /// Set on a list once any of its items is a task item.
    pub is_task_list: bool,
    /// The raw text of a code block.
    pub code: Option<Seq<char>>,
}

/// A mention between its link's start and end: kind, id and label.
pub struct MentionV {
    pub entity_type: Seq<char>,
    pub entity_id: Seq<char>,
    pub label: Seq<char>,
}

/// The writer's state.
pub struct BuildV {
    pub stack: Seq<FrameV>,
    pub marks: Seq<JVal>,
    pub in_table_head: bool,
    /// An image being read: its source and alt text so far.
    pub image: Option<(Seq<char>, Seq<char>)>,
    pub mention: Option<MentionV>,
    /// How many mention ids have been used.
    pub used_ids: nat,
}

pub open spec fn jstr_of(s: Seq<char>) -> JVal {
    JVal::Str(s)
}

/// `{ "type": t }`.
pub open spec fn typed(t: Seq<char>) -> JVal {
    JVal::Object(seq![("type"@, JVal::Str(t))])
}

/// A mark of kind `t`.
pub open spec fn mark_node(t: Seq<char>) -> JVal {
    typed(t)
}

/// A link mark.
pub open spec fn link_mark(href: Seq<char>) -> JVal {
    JVal::Object(
        seq![("type"@, JVal::Str("link"@)), ("attrs"@, JVal::Object(seq![("href"@, JVal::Str(href))]))],
    )
}

/// A text node with its marks (no `marks` member when there are none).
pub open spec fn text_node(text: Seq<char>, marks: Seq<JVal>) -> JVal {
    JVal::Object(
        seq![("type"@, JVal::Str("text"@)), ("text"@, JVal::Str(text))] + if marks.len() > 0 {
            seq![("marks"@, JVal::Array(marks))]
        } else {
            Seq::empty()
        },
    )
}

/// An image node.
pub open spec fn image_node(src: Seq<char>, alt: Seq<char>) -> JVal {
    JVal::Object(
        seq![
            ("type"@, JVal::Str("image"@)),
            ("attrs"@, JVal::Object(seq![("src"@, JVal::Str(src)), ("alt"@, JVal::Str(alt))])),
        ],
    )
}

/// A mention node with the given `id`.
pub open spec fn mention_node(kind: Seq<char>, id: Seq<char>, label: Seq<char>, uid: Seq<char>) -> JVal {
    JVal::Object(
        seq![
            ("type"@, JVal::Str("mention"@)),
            ("attrs"@, JVal::Object(
                seq![
                    ("id"@, JVal::Str(uid)),
                    ("label"@, JVal::Str(label)),
                    ("entityType"@, JVal::Str(kind)),
                    ("entityId"@, JVal::Str(id)),
                ],
            )),
        ],
    )
}

/// An empty paragraph.
pub open spec fn empty_paragraph() -> JVal {
    JVal::Object(seq![("type"@, JVal::Str("paragraph"@)), ("content"@, JVal::Array(Seq::empty()))])
}

/// `Map::insert`: replaces the first entry named `key`, or appends one.
pub open spec fn obj_set(es: Seq<(Seq<char>, JVal)>, key: Seq<char>, val: JVal) -> Seq<
    (Seq<char>, JVal),
> {
    let i = find_key(es, key);
    if i < es.len() {
        es.update(i, (key, val))
    } else {
        es.push((key, val))
    }
}

/// A new frame of type `t`.
pub open spec fn frame(t: Seq<char>) -> FrameV {
    FrameV { node_type: t, attrs: None, content: Seq::empty(), is_task_list: false, code: None }
}

/// A frame with its attributes.
pub open spec fn frame_with(t: Seq<char>, attrs: Seq<(Seq<char>, JVal)>) -> FrameV {
    FrameV { node_type: t, attrs: Some(attrs), content: Seq::empty(), is_task_list: false, code: None }
}

/// `s` without one trailing newline.
pub open spec fn strip_newline(s: Seq<char>) -> Seq<char> {
    if s.len() > 0 && s.last() == '\n' {
        s.drop_last()
    } else {
        s
    }
}

/// The node a finished frame becomes: `type`, then `attrs` when set, then
/// `content` (a code block's content is its text, one trailing newline
/// removed, as a single unmarked text node, or nothing when empty).
pub open spec fn frame_value(f: FrameV) -> JVal {
    let content = match f.code {
        Some(code) => {
            let c = strip_newline(code);
            if c.len() == 0 {
                Seq::empty()
            } else {
                seq![text_node(c, Seq::empty())]
            }
        },
        None => f.content,
    };
    JVal::Object(
        seq![("type"@, JVal::Str(f.node_type))] + match f.attrs {
            Some(a) => seq![("attrs"@, JVal::Object(a))],
            None => Seq::empty(),
        } + seq![("content"@, JVal::Array(content))],
    )
}

/// The text of a node whose content is a single text node.
pub open spec fn single_text(v: JVal) -> Option<Seq<char>> {
    match v {
        JVal::Object(es) => if es.len() > 0 && es.last().0 == "content"@ {
            match es.last().1 {
                JVal::Array(c) => if c.len() == 1 {
                    match c[0] {
                        JVal::Object(ns) => if ns.len() >= 2 && ns[1].0 == "text"@ {
                            match ns[1].1 {
                                JVal::Str(x) => Some(x),
                                _ => None,
                            }
                        } else {
                            None
                        },
                        _ => None,
                    }
                } else {
                    None
                },
                _ => None,
            }
        } else {
            None
        },
        _ => None,
    }
}

/// A code block keeps every line of its text: when the raw text ends in a
/// newline, exactly that one newline is dropped (the text node is one
/// character shorter and the newline put back gives the raw text); a text
/// without a trailing newline is kept whole.
pub proof fn law_code_block_keeps_every_line(f: FrameV, t: Seq<char>)
    requires
        f.code == Some(t),
    ensures
        t.len() >= 2 && t.last() == '\n' ==> (single_text(frame_value(f)) matches Some(x) && x.len()
            == t.len() - 1 && x.push('\n') == t),
        t.len() >= 1 && t.last() != '\n' ==> single_text(frame_value(f)) == Some(t),
{
    if t.len() >= 2 && t.last() == '\n' {
        assert(t.drop_last().push('\n') =~= t);
    }
}

/// The state before any event: an open `doc` frame.
pub open spec fn initial() -> BuildV {
    BuildV {
        stack: seq![frame("doc"@)],
        marks: Seq::empty(),
        in_table_head: false,
        image: None,
        mention: None,
        used_ids: 0,
    }
}

pub open spec fn push_frame(s: BuildV, f: FrameV) -> BuildV {
    BuildV { stack: s.stack.push(f), ..s }
}

/// The state with the innermost frame replaced by `f`.
pub open spec fn set_top(s: BuildV, f: FrameV) -> BuildV {
    BuildV { stack: s.stack.update(s.stack.len() - 1, f), ..s }
}

pub open spec fn append_to_top(s: BuildV, node: JVal) -> BuildV {
    if s.stack.len() > 0 {
        let f = s.stack.last();
        set_top(s, FrameV { content: f.content.push(node), ..f })
    } else {
        s
    }
}

pub open spec fn top_type(s: BuildV) -> Option<Seq<char>> {
    if s.stack.len() > 0 {
        Some(s.stack.last().node_type)
    } else {
        None
    }
}

/// An unmarked text node of whitespace only.
pub open spec fn is_whitespace_text(node: JVal) -> bool {
    &&& ty(node) == Some("text"@)
    &&& jget(node, "marks"@) is None
    &&& match jstr(jget(node, "text"@)) {
        Some(t) => trim(t).len() == 0,
        None => false,
    }
}

/// `node` appended to the `content` array of object `p`, if it has one.
pub open spec fn push_into(p: JVal, node: JVal) -> JVal {
    match p {
        JVal::Object(es) => match jget(p, "content"@) {
            Some(JVal::Array(items)) => JVal::Object(
                obj_set(es, "content"@, JVal::Array(items.push(node))),
            ),
            _ => p,
        },
        _ => p,
    }
}

/// Appends an inline node to the paragraph that ends the innermost frame,
/// opening one if there is none (but not just for whitespace).
pub open spec fn append_to_trailing_paragraph(s: BuildV, node: JVal) -> BuildV {
    if s.stack.len() == 0 {
        s
    } else {
        let f = s.stack.last();
        let has_paragraph = f.content.len() > 0 && ty(f.content.last()) == Some("paragraph"@);
        if !has_paragraph && is_whitespace_text(node) {
            s
        } else {
            let content = if has_paragraph {
                f.content
            } else {
                f.content.push(empty_paragraph())
            };
            let last = content.len() - 1;
            set_top(s, FrameV { content: content.update(last, push_into(content[last], node)), ..f })
        }
    }
}

/// Appends an inline node: into the innermost frame when it is a paragraph
/// or heading, else into its trailing paragraph.
pub open spec fn push_inline(s: BuildV, node: JVal) -> BuildV {
    let t = top_type(s);
    if t == Some("paragraph"@) || t == Some("heading"@) {
        append_to_top(s, node)
    } else {
        append_to_trailing_paragraph(s, node)
    }
}

/// Index of the last mark of kind `kind`, or -1.
pub open spec fn last_mark(marks: Seq<JVal>, kind: Seq<char>) -> int
    decreases marks.len(),
{
    if marks.len() == 0 {
        -1
    } else if ty(marks.last()) == Some(kind) {
        marks.len() - 1
    } else {
        last_mark(marks.drop_last(), kind)
    }
}

pub open spec fn pop_mark(s: BuildV, kind: Seq<char>) -> BuildV {
    let i = last_mark(s.marks, kind);
    if i >= 0 {
        BuildV { marks: s.marks.remove(i), ..s }
    } else {
        s
    }
}

pub open spec fn finish_image(s: BuildV) -> BuildV {
    match s.image {
        Some((src, alt)) => append_to_top(BuildV { image: None, ..s }, image_node(src, alt)),
        None => s,
    }
}

/// The state with the innermost frame removed.
pub open spec fn pop_frame(s: BuildV) -> BuildV {
    BuildV { stack: s.stack.drop_last(), ..s }
}

pub open spec fn all_images(content: Seq<JVal>) -> bool {
    forall|i: int| 0 <= i < content.len() ==> ty(#[trigger] content[i]) == Some("image"@)
}

pub open spec fn append_all(s: BuildV, nodes: Seq<JVal>) -> BuildV {
    if s.stack.len() > 0 {
        let f = s.stack.last();
        set_top(s, FrameV { content: f.content + nodes, ..f })
    } else {
        s
    }
}

/// Closes a paragraph: an empty one is dropped, one of images only gives
/// its images as blocks.
pub open spec fn finish_paragraph(s: BuildV) -> BuildV {
    if s.stack.len() <= 1 {
        s
    } else {
        let f = s.stack.last();
        let s1 = pop_frame(s);
        if f.content.len() == 0 {
            s1
        } else if all_images(f.content) {
            append_all(s1, f.content)
        } else {
            append_to_top(s1, frame_value(f))
        }
    }
}

/// A list item turned into an unchecked task item.
pub open spec fn as_task_item(item: JVal) -> JVal {
    if ty(item) == Some("listItem"@) {
        match item {
            JVal::Object(es) => JVal::Object(
                obj_set(
                    obj_set(es, "type"@, JVal::Str("taskItem"@)),
                    "attrs"@,
                    JVal::Object(seq![("checked"@, JVal::Bool(false))]),
                ),
            ),
            _ => item,
        }
    } else {
        item
    }
}

/// Closes a list; a list with a task marker becomes a task list whose plain
/// items are unchecked task items.
pub open spec fn finish_list(s: BuildV) -> BuildV {
    if s.stack.len() <= 1 {
        s
    } else {
        let f = s.stack.last();
        let g = if f.is_task_list {
            FrameV {
                node_type: "taskList"@,
                content: f.content.map_values(|item: JVal| as_task_item(item)),
                ..f
            }
        } else {
            f
        };
        append_to_top(pop_frame(s), frame_value(g))
    }
}

pub open spec fn close_frame(s: BuildV) -> BuildV {
    if s.stack.len() <= 1 {
        s
    } else {
        append_to_top(pop_frame(s), frame_value(s.stack.last()))
    }
}

pub open spec fn task_marker(s: BuildV, checked: bool) -> BuildV {
    let s1 = if s.stack.len() > 0 {
        let f = s.stack.last();
        set_top(
            s,
            FrameV {
                node_type: "taskItem"@,
                attrs: Some(seq![("checked"@, JVal::Bool(checked))]),
                ..f
            },
        )
    } else {
        s
    };
    let n = s1.stack.len();
    if n >= 2 {
        let p = s1.stack[n - 2];
        BuildV { stack: s1.stack.update(n - 2, FrameV { is_task_list: true, ..p }), ..s1 }
    } else {
        s1
    }
}

/// Text: alt text of an open image, else label of an open mention, else
/// code of an open code block, else a text node with the open marks.
pub open spec fn text(s: BuildV, t: Seq<char>) -> BuildV {
    match s.image {
        Some((src, alt)) => BuildV { image: Some((src, alt + t)), ..s },
        None => match s.mention {
            Some(m) => BuildV { mention: Some(MentionV { label: m.label + t, ..m }), ..s },
            None => if s.stack.len() > 0 && s.stack.last().code is Some {
                let f = s.stack.last();
                set_top(s, FrameV { code: Some(f.code->0 + t), ..f })
            } else {
                push_inline(s, text_node(t, s.marks))
            },
        },
    }
}

/// Inline code: label text of an open mention, else a text node whose
/// `code` mark comes first.
pub open spec fn inline_code(s: BuildV, c: Seq<char>) -> BuildV {
    match s.mention {
        Some(m) => BuildV { mention: Some(MentionV { label: m.label + c, ..m }), ..s },
        None => push_inline(s, text_node(c, seq![mark_node("code"@)] + s.marks)),
    }
}

/// A line break: a space in an open mention label, else a space text node
/// (soft) or a `hardBreak` node.
pub open spec fn push_break(s: BuildV, soft: bool) -> BuildV {
    match s.mention {
        Some(m) => BuildV { mention: Some(MentionV { label: m.label.push(' '), ..m }), ..s },
        None => if soft {
            push_inline(s, text_node(" "@, s.marks))
        } else {
            push_inline(s, typed("hardBreak"@))
        },
    }
}

/// The `k`-th mention id, or the empty string past the end.
pub open spec fn id_at(ids: Seq<Seq<char>>, k: nat) -> Seq<char> {
    if k < ids.len() {
        ids[k as int]
    } else {
        Seq::empty()
    }
}

pub open spec fn finish_mention(s: BuildV, ids: Seq<Seq<char>>) -> BuildV {
    match s.mention {
        Some(m) => push_inline(
            BuildV { mention: None, used_ids: s.used_ids + 1, ..s },
            mention_node(m.entity_type, m.entity_id, m.label, id_at(ids, s.used_ids)),
        ),
        None => s,
    }
}

pub open spec fn has_prefix(s: Seq<char>, p: Seq<char>) -> bool {
    p.len() <= s.len() && s.take(p.len() as int) == p
}

/// A link: `user:ID` or `page:ID` with a non-empty id starts a mention,
/// anything else pushes a link mark.
pub open spec fn start_link(s: BuildV, url: Seq<char>) -> BuildV {
    let mention = if has_prefix(url, "user:"@) {
        Some(("user"@, url.skip(5)))
    } else if has_prefix(url, "page:"@) {
        Some(("page"@, url.skip(5)))
    } else {
        None
    };
    match mention {
        Some((kind, id)) => if id.len() > 0 {
            BuildV {
                mention: Some(MentionV { entity_type: kind, entity_id: id, label: Seq::empty() }),
                ..s
            }
        } else {
            BuildV { marks: s.marks.push(link_mark(url)), ..s }
        },
        None => BuildV { marks: s.marks.push(link_mark(url)), ..s },
    }
}

/// Index of the first whitespace character of `s`, or its length.
pub open spec fn first_ws(s: Seq<char>) -> int
    decreases s.len(),
{
    if s.len() == 0 || is_ws(s[0]) {
        0
    } else {
        1 + first_ws(s.drop_first())
    }
}

/// `info.split_whitespace().next().unwrap_or("")`.
pub open spec fn first_word(info: Seq<char>) -> Seq<char> {
    let t = trim_start(info);
    t.take(first_ws(t))
}

pub open spec fn start(s: BuildV, tag: MdTag) -> BuildV {
    match tag {
        MdTag::Paragraph => push_frame(s, frame("paragraph"@)),
        MdTag::Heading(l) => push_frame(
            s,
            frame_with("heading"@, seq![("level"@, JVal::Number(JNum::Unsigned(level_number(l))))]),
        ),
        MdTag::BlockQuote => push_frame(s, frame("blockquote"@)),
        MdTag::CodeBlock(kind) => {
            let language = match kind {
                MdCodeKind::Fenced(info) => first_word(info@),
                MdCodeKind::Indented => Seq::empty(),
            };
            push_frame(
                s,
                FrameV {
                    code: Some(Seq::empty()),
                    ..frame_with("codeBlock"@, seq![("language"@, JVal::Str(language))])
                },
            )
        },
        MdTag::List(Some(n)) => push_frame(
            s,
            if n != 1 {
                frame_with("orderedList"@, seq![("start"@, JVal::Number(JNum::Unsigned(n)))])
            } else {
                frame("orderedList"@)
            },
        ),
        MdTag::List(None) => push_frame(s, frame("bulletList"@)),
        MdTag::Item => push_frame(s, frame("listItem"@)),
        MdTag::Table => push_frame(BuildV { in_table_head: false, ..s }, frame("table"@)),
        MdTag::TableHead => push_frame(BuildV { in_table_head: true, ..s }, frame("tableRow"@)),
        MdTag::TableRow => push_frame(s, frame("tableRow"@)),
        MdTag::TableCell => push_frame(
            s,
            frame(
                if s.in_table_head {
                    "tableHeader"@
                } else {
                    "tableCell"@
                },
            ),
        ),
        MdTag::Emphasis => BuildV { marks: s.marks.push(mark_node("italic"@)), ..s },
        MdTag::Strong => BuildV { marks: s.marks.push(mark_node("bold"@)), ..s },
        MdTag::Strikethrough => BuildV { marks: s.marks.push(mark_node("strike"@)), ..s },
        MdTag::Link(url) => start_link(s, url@),
        MdTag::Image(src) => BuildV { image: Some((src@, Seq::empty())), ..s },
        MdTag::Other => s,
    }
}

pub open spec fn end(s: BuildV, tag: MdTagEnd, ids: Seq<Seq<char>>) -> BuildV {
    match tag {
        MdTagEnd::Emphasis => pop_mark(s, "italic"@),
        MdTagEnd::Strong => pop_mark(s, "bold"@),
        MdTagEnd::Strikethrough => pop_mark(s, "strike"@),
        MdTagEnd::Link => if s.mention is Some {
            finish_mention(s, ids)
        } else {
            pop_mark(s, "link"@)
        },
        MdTagEnd::Image => finish_image(s),
        MdTagEnd::Paragraph => finish_paragraph(s),
        MdTagEnd::List => finish_list(s),
        MdTagEnd::TableHead => close_frame(BuildV { in_table_head: false, ..s }),
        MdTagEnd::Heading | MdTagEnd::BlockQuote | MdTagEnd::CodeBlock | MdTagEnd::Item
        | MdTagEnd::Table | MdTagEnd::TableRow | MdTagEnd::TableCell => close_frame(s),
        MdTagEnd::Other => s,
    }
}

/// What one event does to the writer's state.
pub open spec fn handle(s: BuildV, e: MdEvent, ids: Seq<Seq<char>>) -> BuildV {
    match e {
        MdEvent::Start(tag) => start(s, tag),
        MdEvent::End(tag) => end(s, tag, ids),
        MdEvent::Text(t) => text(s, t@),
        MdEvent::Code(c) => inline_code(s, c@),
        MdEvent::SoftBreak => push_break(s, true),
        MdEvent::HardBreak => push_break(s, false),
        MdEvent::Rule => append_to_top(s, typed("horizontalRule"@)),
        MdEvent::TaskListMarker(checked) => task_marker(s, checked),
        MdEvent::Other => s,
    }
}

/// The state after the events, in order.
pub open spec fn run(events: Seq<MdEvent>, ids: Seq<Seq<char>>) -> BuildV
    decreases events.len(),
{
    if events.len() == 0 {
        initial()
    } else {
        handle(run(events.drop_last(), ids), events.last(), ids)
    }
}

/// Closes every frame but the outermost.
pub open spec fn close_all(s: BuildV) -> BuildV
    decreases s.stack.len(),
{
    if s.stack.len() > 1 {
        close_all(close_frame(s))
    } else {
        s
    }
}

/// The document: every open frame closed into its parent, the outermost
/// one as the result.
pub open spec fn finish(s: BuildV) -> JVal {
    let c = close_all(s);
    if c.stack.len() > 0 {
        frame_value(c.stack.last())
    } else {
        JVal::Object(seq![("type"@, JVal::Str("doc"@)), ("content"@, JVal::Array(Seq::empty()))])
    }
}

/// The ProseMirror document the events describe, mention `k` taking id
/// `ids[k]`.
pub open spec fn document(events: Seq<MdEvent>, ids: Seq<Seq<char>>) -> JVal {
    finish(run(events, ids))
}

} // verus!
