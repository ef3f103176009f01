//! ProseMirror JSON to Markdown, as the read tools show a page or comment.
//!
//! Each spec function below states what the renderer produces for a node;
//! the executable functions are proved to produce exactly that.

use vstd::prelude::*;
use crate::json::{Json, JVal, jget, jarr, jstr, jbool, ju64, jviews, lemma_jviews};
use crate::prosemirror::node::{
    ty, kids, attr, opt_str, lemma_kids_smaller, node_type, is_type, children, attr_of, attr_str,
};
use crate::text::{
    owned, cat, cat3, is_ws, is_whitespace, trim, trim_end, join, repeat, strs, decimal, find_char,
    lemma_find_char_bounds, lemma_strs_push, join_strings, repeat_char, decimal_wide, trimmed,
    trimmed_end, chars_of, find_in, push_range, push_char,
};

verus! {

/// A text with one mark applied, as Markdown.
pub open spec fn wrap_mark(text: Seq<char>, mark: JVal) -> Seq<char> {
    let t = ty(mark);
    if t == Some("bold"@) {
        "**"@ + text + "**"@
    } else if t == Some("italic"@) {
        "*"@ + text + "*"@
    } else if t == Some("code"@) {
        "`"@ + text + "`"@
    } else if t == Some("strike"@) {
        "~~"@ + text + "~~"@
    } else if t == Some("link"@) {
        let href = opt_str(attr(mark, "href"@));
        if href.len() > 0 {
            "["@ + text + "]("@ + href + ")"@
        } else {
            text
        }
    } else {
        text
    }
}

/// An italic mark wraps its text in single asterisks and a bold mark in
/// double ones, so the two render differently; applied alone, a mark
/// renders its text the same way.
pub proof fn law_italic_and_bold_marks(t: Seq<char>, italic: JVal, bold: JVal)
    requires
        ty(italic) == Some("italic"@),
        ty(bold) == Some("bold"@),
    ensures
        wrap_mark(t, italic).len() == t.len() + 2,
        wrap_mark(t, italic)[0] == '*' && wrap_mark(t, italic).last() == '*',
        wrap_mark(t, italic).subrange(1, t.len() + 1int) == t,
        wrap_mark(t, bold).len() == t.len() + 4,
        wrap_mark(t, bold)[0] == '*' && wrap_mark(t, bold)[1] == '*',
        wrap_mark(t, bold).subrange(2, t.len() + 2int) == t,
        wrap_mark(t, italic) != wrap_mark(t, bold),
        apply_marks(t, seq![italic]) == wrap_mark(t, italic),
        apply_marks(t, seq![bold]) == wrap_mark(t, bold),
{
    reveal_strlit("italic");
    reveal_strlit("bold");
    reveal_strlit("*");
    reveal_strlit("**");
    assert("italic"@ != "bold"@) by {
        assert("italic"@.len() != "bold"@.len());
    }
    assert(wrap_mark(t, italic) == "*"@ + t + "*"@);
    assert(("*"@ + t + "*"@).subrange(1, t.len() + 1int) =~= t);
    assert(("**"@ + t + "**"@).subrange(2, t.len() + 2int) =~= t);
    assert(seq![italic].drop_last() =~= Seq::<JVal>::empty());
    assert(seq![bold].drop_last() =~= Seq::<JVal>::empty());
    assert(apply_marks(t, Seq::<JVal>::empty()) == t);
    assert(seq![italic].last() == italic);
    assert(seq![bold].last() == bold);
}

/// Inline code is wrapped in one backtick on each side and struck text in
/// two tildes; a mark of any other type not handled leaves the text as it
/// is.
pub proof fn law_code_and_strike_marks(t: Seq<char>, m: JVal)
    ensures
        ty(m) == Some("code"@) ==> wrap_mark(t, m).len() == t.len() + 2 && wrap_mark(t, m)[0] == '`'
            && wrap_mark(t, m).last() == '`' && wrap_mark(t, m).subrange(1, t.len() + 1int) == t,
        ty(m) == Some("strike"@) ==> wrap_mark(t, m).len() == t.len() + 4 && wrap_mark(t, m)[0] == '~'
            && wrap_mark(t, m)[1] == '~' && wrap_mark(t, m).last() == '~' && wrap_mark(t, m).subrange(
            2,
            t.len() + 2int,
        ) == t,
        ty(m) is None ==> wrap_mark(t, m) == t,
{
    reveal_strlit("code");
    reveal_strlit("strike");
    reveal_strlit("bold");
    reveal_strlit("italic");
    reveal_strlit("`");
    reveal_strlit("~~");
    if ty(m) == Some("code"@) {
        assert("code"@ != "bold"@ && "code"@ != "italic"@) by {
            assert("code"@[0] != "bold"@[0]);
            assert("code"@.len() != "italic"@.len());
        }
        assert(wrap_mark(t, m) == "`"@ + t + "`"@);
        assert(("`"@ + t + "`"@).subrange(1, t.len() + 1int) =~= t);
    }
    if ty(m) == Some("strike"@) {
        assert("strike"@ != "bold"@ && "strike"@ != "italic"@ && "strike"@ != "code"@) by {
            assert("strike"@.len() != "bold"@.len());
            assert("strike"@[0] != "italic"@[0]);
            assert("strike"@.len() != "code"@.len());
        }
        assert(wrap_mark(t, m) == "~~"@ + t + "~~"@);
        assert(("~~"@ + t + "~~"@).subrange(2, t.len() + 2int) =~= t);
    }
}

/// The marks applied in order, the first innermost.
pub open spec fn apply_marks(text: Seq<char>, marks: Seq<JVal>) -> Seq<char>
    decreases marks.len(),
{
    if marks.len() == 0 {
        text
    } else {
        wrap_mark(apply_marks(text, marks.drop_last()), marks.last())
    }
}

/// A node's `marks` array, or nothing.
pub open spec fn marks_of(v: JVal) -> Seq<JVal> {
    match jarr(jget(v, "marks"@)) {
        Some(a) => a,
        None => Seq::empty(),
    }
}

/// A `text` node as Markdown.
pub open spec fn text_md(v: JVal) -> Seq<char> {
    apply_marks(opt_str(jget(v, "text"@)), marks_of(v))
}

/// A `mention` node as Markdown: `[label](entityType:entityId)`, the form
/// the writer reads back as a mention; `@label` when the reference is
/// incomplete.
pub open spec fn mention_md(v: JVal) -> Seq<char> {
    let label = opt_str(attr(v, "label"@));
    let kind = opt_str(attr(v, "entityType"@));
    let id = opt_str(attr(v, "entityId"@));
    if kind.len() > 0 && id.len() > 0 {
        "["@ + label + "]("@ + kind + ":"@ + id + ")"@
    } else {
        "@"@ + label
    }
}

/// An inline node as Markdown.
pub open spec fn inline_md(v: JVal) -> Seq<char>
    decreases v, kids(v).len() + 1,
{
    let t = ty(v);
    if t == Some("text"@) {
        text_md(v)
    } else if t == Some("hardBreak"@) {
        "\n"@
    } else if t == Some("mention"@) {
        mention_md(v)
    } else if kids(v).len() > 0 {
        inline_seq(v, kids(v).len())
    } else {
        Seq::empty()
    }
}

/// The first `n` children of `parent` as inline Markdown, run together.
pub open spec fn inline_seq(parent: JVal, n: nat) -> Seq<char>
    decreases parent, n,
{
    if n == 0 || n > kids(parent).len() {
        Seq::empty()
    } else {
        proof {
            lemma_kids_smaller(parent);
        }
        inline_seq(parent, (n - 1) as nat) + inline_md(kids(parent)[n - 1])
    }
}

/// The text of a node's children, as Markdown.
pub open spec fn text_of(v: JVal) -> Seq<char> {
    inline_seq(v, kids(v).len())
}

/// `indent + 2`, kept within `usize`.
pub open spec fn deeper(indent: usize) -> usize {
    if indent <= usize::MAX - 2 {
        (indent + 2) as usize
    } else {
        usize::MAX
    }
}

/// A heading's `level`, 1 when absent, brought into `1..=6`.
pub open spec fn level_of(v: JVal) -> nat {
    let l: nat = match ju64(attr(v, "level"@)) {
        Some(x) => x as nat,
        None => 1,
    };
    if l < 1 {
        1
    } else if l > 6 {
        6
    } else {
        l
    }
}

/// An ordered list's `start`, 1 when absent.
pub open spec fn start_of(v: JVal) -> nat {
    match ju64(attr(v, "start"@)) {
        Some(x) => x as nat,
        None => 1,
    }
}

/// A task item's `checked`, false when absent.
pub open spec fn checked_of(v: JVal) -> bool {
    match jbool(attr(v, "checked"@)) {
        Some(b) => b,
        None => false,
    }
}

/// `s` without one trailing carriage return.
pub open spec fn strip_cr(s: Seq<char>) -> Seq<char> {
    if s.len() > 0 && s.last() == '\r' {
        s.drop_last()
    } else {
        s
    }
}

/// The non-empty lines of `s` (as `str::lines` splits it), each quoted
/// with `> `.
pub open spec fn quote_lines(s: Seq<char>) -> Seq<Seq<char>>
    decreases s.len(),
{
    let k = find_char(s, '\n');
    if k < s.len() {
        proof {
            lemma_find_char_bounds(s, '\n');
        }
        let line = strip_cr(s.take(k));
        (if line.len() > 0 {
            seq!["> "@ + line]
        } else {
            Seq::empty()
        }) + quote_lines(s.skip(k + 1))
    } else if s.len() > 0 {
        seq!["> "@ + s]
    } else {
        Seq::empty()
    }
}

/// Reading `s` left to right: the text so far with its whitespace runs
/// squeezed out (words rejoined by single spaces), and whether the last
/// character read was part of a word.
pub open spec fn squash_state(s: Seq<char>) -> (Seq<char>, bool)
    decreases s.len(),
{
    if s.len() == 0 {
        (Seq::empty(), false)
    } else {
        let (o, w) = squash_state(s.drop_last());
        let c = s.last();
        if is_ws(c) {
            (o, false)
        } else if !w && o.len() > 0 {
            (o.push(' ').push(c), true)
        } else {
            (o.push(c), true)
        }
    }
}

/// `s.split_whitespace().collect::<Vec<_>>().join(" ")`.
pub open spec fn squash(s: Seq<char>) -> Seq<char> {
    squash_state(s).0
}

/// The text of the first paragraph among the first `n` children of `item`
/// whose text is not empty (empty if none).
pub open spec fn first_para(item: JVal, n: nat) -> Seq<char>
    decreases n,
{
    if n == 0 || n > kids(item).len() {
        Seq::empty()
    } else {
        let prev = first_para(item, (n - 1) as nat);
        let c = kids(item)[n - 1];
        if ty(c) == Some("paragraph"@) && prev.len() == 0 {
            text_of(c)
        } else {
            prev
        }
    }
}

/// Rendered blocks joined by newlines, trailing whitespace trimmed.
pub open spec fn lines_md(parts: Seq<Seq<char>>) -> Seq<char> {
    trim_end(join(parts, "\n"@))
}

/// A table row: `| a | b |`.
pub open spec fn row_md(cells: Seq<Seq<char>>) -> Seq<char> {
    "| "@ + join(cells, " | "@) + " |"@
}

/// The lines of a table: the first row, its `---` separator row, then the
/// other rows.
pub open spec fn table_lines(rows: Seq<Seq<Seq<char>>>) -> Seq<Seq<char>> {
    seq![row_md(rows[0]), row_md(Seq::new(rows[0].len(), |i: int| "---"@))] + Seq::new(
        (rows.len() - 1) as nat,
        |i: int| row_md(rows[i + 1]),
    )
}

/// A table as Markdown; empty when it has no non-empty row.
pub open spec fn table_md(rows: Seq<Seq<Seq<char>>>) -> Seq<char> {
    if rows.len() == 0 {
        Seq::empty()
    } else {
        join(table_lines(rows), "\n"@)
    }
}

/// The lines one block node contributes to a document (a block is
/// followed by an empty line).
pub open spec fn block(v: JVal, indent: usize) -> Seq<Seq<char>>
    decreases v, kids(v).len() + 2,
{
    let t = ty(v);
    let n = kids(v).len();
    let gap = Seq::<char>::empty();
    if t == Some("paragraph"@) {
        let text = text_of(v);
        if text.len() > 0 {
            seq![text, gap]
        } else {
            Seq::empty()
        }
    } else if t == Some("heading"@) {
        seq![repeat('#', level_of(v)) + " "@ + text_of(v), gap]
    } else if t == Some("bulletList"@) {
        seq![join(list_lines(v, false, indent, 1, n), "\n"@), gap]
    } else if t == Some("orderedList"@) {
        seq![join(list_lines(v, true, indent, start_of(v), n), "\n"@), gap]
    } else if t == Some("taskList"@) {
        seq![join(task_lines(v, indent, n), "\n"@), gap]
    } else if t == Some("codeBlock"@) {
        seq!["```"@ + opt_str(attr(v, "language"@)), text_of(v), "```"@, gap]
    } else if t == Some("blockquote"@) {
        let q = join(quote_lines(lines_md(blocks(v, indent, n))), "\n"@);
        if q.len() > 0 {
            seq![q, gap]
        } else {
            Seq::empty()
        }
    } else if t == Some("horizontalRule"@) {
        seq!["---"@, gap]
    } else if t == Some("table"@) {
        let tb = table_md(table_rows(v, n));
        if tb.len() > 0 {
            seq![tb, gap]
        } else {
            Seq::empty()
        }
    } else if t == Some("image"@) {
        let src = opt_str(attr(v, "src"@));
        if src.len() > 0 {
            let alt = match jstr(attr(v, "alt"@)) {
                Some(a) => a,
                None => "image"@,
            };
            seq!["!["@ + alt + "]("@ + src + ")"@, gap]
        } else {
            Seq::empty()
        }
    } else if t == Some("embed"@) {
        let src = opt_str(attr(v, "src"@));
        if src.len() > 0 {
            seq!["[Embedded content]("@ + src + ")"@, gap]
        } else {
            Seq::empty()
        }
    } else {
        Seq::empty()
    }
}

/// The lines of the first `n` children of `v`, as blocks.
pub open spec fn blocks(v: JVal, indent: usize, n: nat) -> Seq<Seq<char>>
    decreases v, n,
{
    if n == 0 || n > kids(v).len() {
        Seq::empty()
    } else {
        proof {
            lemma_kids_smaller(v);
        }
        blocks(v, indent, (n - 1) as nat) + block(kids(v)[n - 1], indent)
    }
}

/// The lines of the first `n` items of a bullet or ordered list; an item's
/// number counts every child before it.
pub open spec fn list_lines(v: JVal, ordered: bool, indent: usize, start: nat, n: nat) -> Seq<
    Seq<char>,
>
    decreases v, n,
{
    if n == 0 || n > kids(v).len() {
        Seq::empty()
    } else {
        proof {
            lemma_kids_smaller(v);
        }
        let item = kids(v)[n - 1];
        list_lines(v, ordered, indent, start, (n - 1) as nat) + if ty(item) == Some("listItem"@) {
            item_lines(item, ordered, indent, (start + n - 1) as nat)
        } else {
            Seq::empty()
        }
    }
}

/// A list item: its marker line, then its nested lists.
pub open spec fn item_lines(item: JVal, ordered: bool, indent: usize, number: nat) -> Seq<
    Seq<char>,
>
    decreases item, kids(item).len() + 1,
{
    let marker = if ordered {
        decimal(number) + ". "@
    } else {
        "- "@
    };
    seq![repeat(' ', indent as nat) + marker + first_para(item, kids(item).len())] + nested(
        item,
        deeper(indent),
        false,
        kids(item).len(),
    )
}

/// The nested lists among the first `n` children of an item, each rendered
/// on its own.
pub open spec fn nested(item: JVal, indent: usize, task: bool, n: nat) -> Seq<Seq<char>>
    decreases item, n,
{
    if n == 0 || n > kids(item).len() {
        Seq::empty()
    } else {
        proof {
            lemma_kids_smaller(item);
        }
        let c = kids(item)[n - 1];
        let t = ty(c);
        nested(item, indent, task, (n - 1) as nat) + if t == Some("bulletList"@) || t == Some(
            "orderedList"@,
        ) || (task && t == Some("taskList"@)) {
            seq![lines_md(block(c, indent))]
        } else {
            Seq::empty()
        }
    }
}

/// The lines of the first `n` items of a task list.
pub open spec fn task_lines(v: JVal, indent: usize, n: nat) -> Seq<Seq<char>>
    decreases v, n,
{
    if n == 0 || n > kids(v).len() {
        Seq::empty()
    } else {
        proof {
            lemma_kids_smaller(v);
        }
        let item = kids(v)[n - 1];
        task_lines(v, indent, (n - 1) as nat) + if ty(item) == Some("taskItem"@) {
            task_item_lines(item, indent)
        } else {
            Seq::empty()
        }
    }
}

/// A task item: `- [x] ` or `- [ ] ` and its text, then its nested lists.
pub open spec fn task_item_lines(item: JVal, indent: usize) -> Seq<Seq<char>>
    decreases item, kids(item).len() + 1,
{
    let marker = if checked_of(item) {
        "- [x] "@
    } else {
        "- [ ] "@
    };
    seq![repeat(' ', indent as nat) + marker + first_para(item, kids(item).len())] + nested(
        item,
        deeper(indent),
        true,
        kids(item).len(),
    )
}

/// The non-empty rows among the first `n` children of a table, as cell
/// texts.
pub open spec fn table_rows(v: JVal, n: nat) -> Seq<Seq<Seq<char>>>
    decreases v, n,
{
    if n == 0 || n > kids(v).len() {
        Seq::empty()
    } else {
        proof {
            lemma_kids_smaller(v);
        }
        let r = kids(v)[n - 1];
        table_rows(v, (n - 1) as nat) + if ty(r) == Some("tableRow"@) {
            let cells = row_cells(r, kids(r).len());
            if cells.len() > 0 {
                seq![cells]
            } else {
                Seq::empty()
            }
        } else {
            Seq::empty()
        }
    }
}

/// The texts of the cells among the first `n` children of a row, each on
/// one line.
pub open spec fn row_cells(r: JVal, n: nat) -> Seq<Seq<char>>
    decreases r, n,
{
    if n == 0 || n > kids(r).len() {
        Seq::empty()
    } else {
        proof {
            lemma_kids_smaller(r);
        }
        let c = kids(r)[n - 1];
        let t = ty(c);
        row_cells(r, (n - 1) as nat) + if t == Some("tableCell"@) || t == Some("tableHeader"@) {
            seq![squash(lines_md(blocks(c, 0, kids(c).len())))]
        } else {
            Seq::empty()
        }
    }
}

/// A page or comment body as Markdown: the blocks of a `doc` node; empty
/// for anything else.
pub open spec fn page_md(v: JVal) -> Seq<char> {
    if ty(v) == Some("doc"@) {
        trim(lines_md(blocks(v, 0, kids(v).len())))
    } else {
        Seq::empty()
    }
}

fn wrap_mark_exec(text: String, mark: &Json) -> (r: String)
    ensures
        r@ == wrap_mark(text@, mark@),
{
    if is_type(mark, "bold") {
        cat3("**", text.as_str(), "**")
    } else if is_type(mark, "italic") {
        cat3("*", text.as_str(), "*")
    } else if is_type(mark, "code") {
        cat3("`", text.as_str(), "`")
    } else if is_type(mark, "strike") {
        cat3("~~", text.as_str(), "~~")
    } else if is_type(mark, "link") {
        let href = attr_str(mark, "href");
        if !href.is_empty() {
            let mut r = cat3("[", text.as_str(), "](");
            r.append(href);
            r.append(")");
            r
        } else {
            text
        }
    } else {
        text
    }
}

fn text_md_exec(v: &Json) -> (r: String)
    ensures
        r@ == text_md(v@),
{
    proof {
        reveal_strlit("");
    }
    let base: &str = match v.get("text") {
        Some(t) => match t.as_str() {
            Some(s) => s,
            None => "",
        },
        None => "",
    };
    let mut text = owned(base);
    match v.get("marks") {
        Some(m) => match m.as_array() {
            Some(marks) => {
                proof {
                    lemma_jviews(marks@);
                }
                let ghost ms = jviews(marks@);
                let mut i: usize = 0;
                while i < marks.len()
                    invariant
                        i <= marks@.len(),
                        ms == marks_of(v@),
                        ms.len() == marks@.len(),
                        forall|j: int| 0 <= j < marks@.len() ==> #[trigger] ms[j] == marks@[j]@,
                        text@ == apply_marks(opt_str(jget(v@, "text"@)), ms.take(i as int)),
                    decreases marks@.len() - i,
                {
                    assert(ms.take(i + 1).drop_last() =~= ms.take(i as int));
                    text = wrap_mark_exec(text, &marks[i]);
                    i += 1;
                }
                assert(ms.take(marks@.len() as int) =~= ms);
            },
            None => {},
        },
        None => {},
    }
    text
}

fn mention_md_exec(v: &Json) -> (r: String)
    ensures
        r@ == mention_md(v@),
{
    let label = attr_str(v, "label");
    let kind = attr_str(v, "entityType");
    let id = attr_str(v, "entityId");
    if !kind.is_empty() && !id.is_empty() {
        let mut r = cat3("[", label, "](");
        r.append(kind);
        r.append(":");
        r.append(id);
        r.append(")");
        r
    } else {
        cat("@", label)
    }
}

fn inline_md_exec(v: &Json) -> (r: String)
    ensures
        r@ == inline_md(v@),
    decreases v@, 1int,
{
    if is_type(v, "text") {
        text_md_exec(v)
    } else if is_type(v, "hardBreak") {
        owned("\n")
    } else if is_type(v, "mention") {
        mention_md_exec(v)
    } else {
        match children(v) {
            Some(items) => if items.len() > 0 {
                text_of_exec(v)
            } else {
                String::new()
            },
            None => String::new(),
        }
    }
}

/// The text of a node's children, as Markdown.
fn text_of_exec(v: &Json) -> (r: String)
    ensures
        r@ == text_of(v@),
    decreases v@, 0int,
{
    let mut out = String::new();
    match children(v) {
        Some(items) => {
            proof {
                lemma_jviews(items@);
                lemma_kids_smaller(v@);
            }
            let mut i: usize = 0;
            while i < items.len()
                invariant
                    i <= items@.len(),
                    kids(v@) == jviews(items@),
                    kids(v@).len() == items@.len(),
                    forall|j: int| 0 <= j < items@.len() ==> #[trigger] kids(v@)[j] == items@[j]@,
                    forall|j: int| 0 <= j < kids(v@).len() ==> decreases_to!(v@ => #[trigger] kids(v@)[j]),
                    out@ == inline_seq(v@, i as nat),
                decreases items@.len() - i,
            {
                assert(decreases_to!(v@ => kids(v@)[i as int]));
                let piece = inline_md_exec(&items[i]);
                out.append(piece.as_str());
                i += 1;
            }
        },
        None => {},
    }
    out
}

} // verus!

verus! {

fn push_line(out: &mut Vec<String>, s: String)
    ensures
        strs(final(out)@) == strs(old(out)@).push(s@),
{
    proof {
        lemma_strs_push(out@, s);
    }
    out.push(s);
}

fn push_all(out: &mut Vec<String>, more: Vec<String>)
    ensures
        strs(final(out)@) == strs(old(out)@) + strs(more@),
{
    let mut more = more;
    let ghost a = out@;
    let ghost b = more@;
    out.append(&mut more);
    assert(strs(out@) =~= strs(a) + strs(b));
}

fn lines2(a: String, b: String) -> (r: Vec<String>)
    ensures
        strs(r@) == seq![a@, b@],
{
    let mut r: Vec<String> = Vec::new();
    push_line(&mut r, a);
    push_line(&mut r, b);
    assert(strs(r@) =~= seq![a@, b@]);
    r
}

fn no_lines() -> (r: Vec<String>)
    ensures
        strs(r@) == Seq::<Seq<char>>::empty(),
{
    let r: Vec<String> = Vec::new();
    assert(strs(r@) =~= Seq::<Seq<char>>::empty());
    r
}

fn deeper_exec(indent: usize) -> (r: usize)
    ensures
        r == deeper(indent),
{
    if indent <= usize::MAX - 2 {
        indent + 2
    } else {
        usize::MAX
    }
}

fn level_exec(v: &Json) -> (r: usize)
    ensures
        r as nat == level_of(v@),
{
    let l: u64 = match attr_of(v, "level") {
        Some(x) => match x.as_u64() {
            Some(u) => u,
            None => 1,
        },
        None => 1,
    };
    if l < 1 {
        1
    } else if l > 6 {
        6
    } else {
        l as usize
    }
}

fn start_exec(v: &Json) -> (r: u64)
    ensures
        r as nat == start_of(v@),
{
    match attr_of(v, "start") {
        Some(x) => match x.as_u64() {
            Some(u) => u,
            None => 1,
        },
        None => 1,
    }
}

fn checked_exec(v: &Json) -> (r: bool)
    ensures
        r == checked_of(v@),
{
    match attr_of(v, "checked") {
        Some(x) => match x.as_bool() {
            Some(b) => b,
            None => false,
        },
        None => false,
    }
}

fn first_para_exec(item: &Json) -> (r: String)
    ensures
        r@ == first_para(item@, kids(item@).len()),
{
    let mut fp = String::new();
    match children(item) {
        Some(items) => {
            proof {
                lemma_jviews(items@);
            }
            let mut i: usize = 0;
            while i < items.len()
                invariant
                    i <= items@.len(),
                    kids(item@) == jviews(items@),
                    kids(item@).len() == items@.len(),
                    forall|j: int| 0 <= j < items@.len() ==> #[trigger] kids(item@)[j] == items@[j]@,
                    fp@ == first_para(item@, i as nat),
                decreases items@.len() - i,
            {
                if is_type(&items[i], "paragraph") && fp.as_str().is_empty() {
                    fp = text_of_exec(&items[i]);
                }
                i += 1;
            }
        },
        None => {},
    }
    fp
}

/// Quotes the non-empty lines of `s`.
fn quote_exec(s: &str) -> (r: Vec<String>)
    ensures
        strs(r@) == quote_lines(s@),
{
    let v = chars_of(s);
    let mut out: Vec<String> = Vec::new();
    let mut p: usize = 0;
    assert(v@.skip(0) =~= v@);
    assert(strs(out@) =~= Seq::<Seq<char>>::empty());
    while p < v.len()
        invariant
            p <= v@.len(),
            quote_lines(v@) == strs(out@) + quote_lines(v@.skip(p as int)),
        decreases v@.len() - p,
    {
        let ghost rest = v@.skip(p as int);
        assert(v@.subrange(p as int, v@.len() as int) =~= rest);
        let k = find_in(&v, p, v.len(), '\n');
        proof {
            lemma_find_char_bounds(rest, '\n');
        }
        if k < v.len() {
            let mut e = k;
            if e > p && v[e - 1] == '\r' {
                e -= 1;
            }
            assert(strip_cr(rest.take(k - p)) =~= v@.subrange(p as int, e as int));
            assert(rest.skip(k - p + 1) =~= v@.skip(k + 1));
            if e > p {
                let mut line = owned("> ");
                push_range(&mut line, &v, p, e);
                proof {
                    lemma_strs_push(out@, line);
                }
                out.push(line);
            }
            p = k + 1;
        } else {
            let mut line = owned("> ");
            push_range(&mut line, &v, p, v.len());
            proof {
                lemma_strs_push(out@, line);
            }
            out.push(line);
            p = v.len();
            assert(v@.skip(p as int) =~= Seq::<char>::empty());
        }
    }
    assert(v@.skip(p as int) =~= Seq::<char>::empty());
    out
}

/// `s.split_whitespace().collect::<Vec<_>>().join(" ")`.
fn squash_exec(s: &str) -> (r: String)
    ensures
        r@ == squash(s@),
{
    let v = chars_of(s);
    let mut out = String::new();
    let mut in_word = false;
    let mut i: usize = 0;
    while i < v.len()
        invariant
            i <= v@.len(),
            (out@, in_word) == squash_state(v@.take(i as int)),
        decreases v@.len() - i,
    {
        assert(v@.take(i + 1).drop_last() =~= v@.take(i as int));
        let c = v[i];
        if is_whitespace(c) {
            in_word = false;
        } else {
            if !in_word && !out.as_str().is_empty() {
                push_char(&mut out, ' ');
            }
            push_char(&mut out, c);
            in_word = true;
        }
        i += 1;
    }
    assert(v@.take(v@.len() as int) =~= v@);
    out
}

fn row_md_exec(cells: &Vec<String>) -> (r: String)
    ensures
        r@ == row_md(strs(cells@)),
{
    let j = join_strings(cells, " | ");
    cat3("| ", j.as_str(), " |")
}

pub open spec fn rows_view(rows: Seq<Vec<String>>) -> Seq<Seq<Seq<char>>> {
    rows.map_values(|r: Vec<String>| strs(r@))
}

fn table_text(rows: &Vec<Vec<String>>) -> (r: String)
    ensures
        r@ == table_md(rows_view(rows@)),
{
    if rows.len() == 0 {
        return String::new();
    }
    let ghost rv = rows_view(rows@);
    let mut lines: Vec<String> = Vec::new();
    push_line(&mut lines, row_md_exec(&rows[0]));
    let mut dashes: Vec<String> = Vec::new();
    let mut k: usize = 0;
    while k < rows[0].len()
        invariant
            k <= rows@[0]@.len(),
            rows@.len() > 0,
            strs(dashes@) == Seq::new(k as nat, |i: int| "---"@),
        decreases rows@[0]@.len() - k,
    {
        push_line(&mut dashes, owned("---"));
        k += 1;
        assert(strs(dashes@) =~= Seq::new(k as nat, |i: int| "---"@));
    }
    assert(rv[0] == strs(rows@[0]@));
    assert(strs(dashes@) =~= Seq::new(rv[0].len(), |i: int| "---"@));
    push_line(&mut lines, row_md_exec(&dashes));
    let mut i: usize = 1;
    while i < rows.len()
        invariant
            1 <= i <= rows@.len(),
            rv == rows_view(rows@),
            strs(lines@) == seq![row_md(rv[0]), row_md(Seq::new(rv[0].len(), |i: int| "---"@))]
                + Seq::new((i - 1) as nat, |k: int| row_md(rv[k + 1])),
        decreases rows@.len() - i,
    {
        let line = row_md_exec(&rows[i]);
        push_line(&mut lines, line);
        i += 1;
        assert(strs(lines@) =~= seq![row_md(rv[0]), row_md(Seq::new(rv[0].len(), |i: int| "---"@))]
            + Seq::new((i - 1) as nat, |k: int| row_md(rv[k + 1])));
    }
    assert(strs(lines@) =~= table_lines(rv));
    join_strings(&lines, "\n")
}

} // verus!

verus! {

/// The lines one block node contributes.
fn block_exec(v: &Json, indent: usize) -> (r: Vec<String>)
    ensures
        strs(r@) == block(v@, indent),
    decreases v@, 3int,
{
    if is_type(v, "paragraph") {
        let text = text_of_exec(v);
        if !text.as_str().is_empty() {
            lines2(text, String::new())
        } else {
            no_lines()
        }
    } else if is_type(v, "heading") {
        let mut line = repeat_char('#', level_exec(v));
        line.append(" ");
        let text = text_of_exec(v);
        line.append(text.as_str());
        lines2(line, String::new())
    } else if is_type(v, "bulletList") {
        lines2(list_exec(v, false, indent, 1), String::new())
    } else if is_type(v, "orderedList") {
        let start = start_exec(v);
        lines2(list_exec(v, true, indent, start), String::new())
    } else if is_type(v, "taskList") {
        lines2(task_list_exec(v, indent), String::new())
    } else if is_type(v, "codeBlock") {
        let mut r = lines2(cat("```", attr_str(v, "language")), text_of_exec(v));
        push_line(&mut r, owned("```"));
        push_line(&mut r, String::new());
        assert(strs(r@) =~= block(v@, indent));
        r
    } else if is_type(v, "blockquote") {
        let inner = blocks_exec(v, indent);
        let joined = join_strings(&inner, "\n");
        let body = trimmed_end(joined.as_str());
        let quoted = quote_exec(body.as_str());
        let q = join_strings(&quoted, "\n");
        if !q.as_str().is_empty() {
            lines2(q, String::new())
        } else {
            no_lines()
        }
    } else if is_type(v, "horizontalRule") {
        lines2(owned("---"), String::new())
    } else if is_type(v, "table") {
        let tb = table_exec(v);
        if !tb.as_str().is_empty() {
            lines2(tb, String::new())
        } else {
            no_lines()
        }
    } else if is_type(v, "image") {
        let src = attr_str(v, "src");
        if !src.is_empty() {
            let alt: &str = match attr_of(v, "alt") {
                Some(a) => match a.as_str() {
                    Some(t) => t,
                    None => "image",
                },
                None => "image",
            };
            let mut line = cat3("![", alt, "](");
            line.append(src);
            line.append(")");
            lines2(line, String::new())
        } else {
            no_lines()
        }
    } else if is_type(v, "embed") {
        let src = attr_str(v, "src");
        if !src.is_empty() {
            lines2(cat3("[Embedded content](", src, ")"), String::new())
        } else {
            no_lines()
        }
    } else {
        no_lines()
    }
}

/// The lines of all children of `v`, as blocks.
fn blocks_exec(v: &Json, indent: usize) -> (r: Vec<String>)
    ensures
        strs(r@) == blocks(v@, indent, kids(v@).len()),
    decreases v@, 2int,
{
    let mut out = no_lines();
    match children(v) {
        Some(items) => {
            proof {
                lemma_jviews(items@);
                lemma_kids_smaller(v@);
            }
            let mut i: usize = 0;
            while i < items.len()
                invariant
                    i <= items@.len(),
                    kids(v@) == jviews(items@),
                    kids(v@).len() == items@.len(),
                    forall|j: int| 0 <= j < items@.len() ==> #[trigger] kids(v@)[j] == items@[j]@,
                    forall|j: int|
                        0 <= j < kids(v@).len() ==> decreases_to!(v@ => #[trigger] kids(v@)[j]),
                    strs(out@) == blocks(v@, indent, i as nat),
                decreases items@.len() - i,
            {
                assert(decreases_to!(v@ => kids(v@)[i as int]));
                let b = block_exec(&items[i], indent);
                push_all(&mut out, b);
                i += 1;
            }
        },
        None => {},
    }
    out
}

/// A bullet or ordered list, its lines joined.
fn list_exec(v: &Json, ordered: bool, indent: usize, start: u64) -> (r: String)
    ensures
        r@ == join(list_lines(v@, ordered, indent, start as nat, kids(v@).len()), "\n"@),
    decreases v@, 2int,
{
    let mut out = no_lines();
    match children(v) {
        Some(items) => {
            proof {
                lemma_jviews(items@);
                lemma_kids_smaller(v@);
            }
            let mut i: usize = 0;
            while i < items.len()
                invariant
                    i <= items@.len(),
                    kids(v@) == jviews(items@),
                    kids(v@).len() == items@.len(),
                    forall|j: int| 0 <= j < items@.len() ==> #[trigger] kids(v@)[j] == items@[j]@,
                    forall|j: int|
                        0 <= j < kids(v@).len() ==> decreases_to!(v@ => #[trigger] kids(v@)[j]),
                    strs(out@) == list_lines(v@, ordered, indent, start as nat, i as nat),
                decreases items@.len() - i,
            {
                assert(decreases_to!(v@ => kids(v@)[i as int]));
                if is_type(&items[i], "listItem") {
                    let number: u128 = start as u128 + i as u128;
                    let b = item_exec(&items[i], ordered, indent, number);
                    push_all(&mut out, b);
                } else {
                    assert(strs(out@) + Seq::<Seq<char>>::empty() =~= strs(out@));
                }
                i += 1;
            }
        },
        None => {},
    }
    join_strings(&out, "\n")
}

/// A list item's lines.
fn item_exec(item: &Json, ordered: bool, indent: usize, number: u128) -> (r: Vec<String>)
    ensures
        strs(r@) == item_lines(item@, ordered, indent, number as nat),
    decreases item@, 2int,
{
    let marker = if ordered {
        let mut m = decimal_wide(number);
        m.append(". ");
        m
    } else {
        owned("- ")
    };
    let mut line = repeat_char(' ', indent);
    line.append(marker.as_str());
    let fp = first_para_exec(item);
    line.append(fp.as_str());
    let mut r = no_lines();
    push_line(&mut r, line);
    let more = nested_exec(item, deeper_exec(indent), false);
    push_all(&mut r, more);
    r
}

/// The nested lists of an item, each rendered on its own.
fn nested_exec(item: &Json, indent: usize, task: bool) -> (r: Vec<String>)
    ensures
        strs(r@) == nested(item@, indent, task, kids(item@).len()),
    decreases item@, 1int,
{
    let mut out = no_lines();
    match children(item) {
        Some(items) => {
            proof {
                lemma_jviews(items@);
                lemma_kids_smaller(item@);
            }
            let mut i: usize = 0;
            while i < items.len()
                invariant
                    i <= items@.len(),
                    kids(item@) == jviews(items@),
                    kids(item@).len() == items@.len(),
                    forall|j: int| 0 <= j < items@.len() ==> #[trigger] kids(item@)[j] == items@[j]@,
                    forall|j: int|
                        0 <= j < kids(item@).len() ==> decreases_to!(item@ => #[trigger] kids(item@)[j]),
                    strs(out@) == nested(item@, indent, task, i as nat),
                decreases items@.len() - i,
            {
                assert(decreases_to!(item@ => kids(item@)[i as int]));
                let c = &items[i];
                if is_type(c, "bulletList") || is_type(c, "orderedList") || (task && is_type(
                    c,
                    "taskList",
                )) {
                    let b = block_exec(c, indent);
                    let j = join_strings(&b, "\n");
                    push_line(&mut out, trimmed_end(j.as_str()));
                } else {
                    assert(strs(out@) + Seq::<Seq<char>>::empty() =~= strs(out@));
                }
                i += 1;
            }
        },
        None => {},
    }
    out
}

/// A task list, its lines joined.
fn task_list_exec(v: &Json, indent: usize) -> (r: String)
    ensures
        r@ == join(task_lines(v@, indent, kids(v@).len()), "\n"@),
    decreases v@, 2int,
{
    let mut out = no_lines();
    match children(v) {
        Some(items) => {
            proof {
                lemma_jviews(items@);
                lemma_kids_smaller(v@);
            }
            let mut i: usize = 0;
            while i < items.len()
                invariant
                    i <= items@.len(),
                    kids(v@) == jviews(items@),
                    kids(v@).len() == items@.len(),
                    forall|j: int| 0 <= j < items@.len() ==> #[trigger] kids(v@)[j] == items@[j]@,
                    forall|j: int|
                        0 <= j < kids(v@).len() ==> decreases_to!(v@ => #[trigger] kids(v@)[j]),
                    strs(out@) == task_lines(v@, indent, i as nat),
                decreases items@.len() - i,
            {
                assert(decreases_to!(v@ => kids(v@)[i as int]));
                if is_type(&items[i], "taskItem") {
                    let b = task_item_exec(&items[i], indent);
                    push_all(&mut out, b);
                } else {
                    assert(strs(out@) + Seq::<Seq<char>>::empty() =~= strs(out@));
                }
                i += 1;
            }
        },
        None => {},
    }
    join_strings(&out, "\n")
}

/// A task item's lines.
fn task_item_exec(item: &Json, indent: usize) -> (r: Vec<String>)
    ensures
        strs(r@) == task_item_lines(item@, indent),
    decreases item@, 2int,
{
    let marker = if checked_exec(item) {
        "- [x] "
    } else {
        "- [ ] "
    };
    let mut line = repeat_char(' ', indent);
    line.append(marker);
    let fp = first_para_exec(item);
    line.append(fp.as_str());
    let mut r = no_lines();
    push_line(&mut r, line);
    let more = nested_exec(item, deeper_exec(indent), true);
    push_all(&mut r, more);
    r
}

/// A table as Markdown.
fn table_exec(v: &Json) -> (r: String)
    ensures
        r@ == table_md(table_rows(v@, kids(v@).len())),
    decreases v@, 2int,
{
    let mut rows: Vec<Vec<String>> = Vec::new();
    assert(rows_view(rows@) =~= Seq::<Seq<Seq<char>>>::empty());
    match children(v) {
        Some(items) => {
            proof {
                lemma_jviews(items@);
                lemma_kids_smaller(v@);
            }
            let mut i: usize = 0;
            while i < items.len()
                invariant
                    i <= items@.len(),
                    kids(v@) == jviews(items@),
                    kids(v@).len() == items@.len(),
                    forall|j: int| 0 <= j < items@.len() ==> #[trigger] kids(v@)[j] == items@[j]@,
                    forall|j: int|
                        0 <= j < kids(v@).len() ==> decreases_to!(v@ => #[trigger] kids(v@)[j]),
                    rows_view(rows@) == table_rows(v@, i as nat),
                decreases items@.len() - i,
            {
                assert(decreases_to!(v@ => kids(v@)[i as int]));
                let row = &items[i];
                if is_type(row, "tableRow") {
                    let cells = row_cells_exec(row);
                    if cells.len() > 0 {
                        let ghost before = rows@;
                        rows.push(cells);
                        assert(rows_view(rows@) =~= rows_view(before) + seq![strs(cells@)]);
                    } else {
                        assert(rows_view(rows@) + Seq::<Seq<Seq<char>>>::empty() =~= rows_view(
                            rows@,
                        ));
                    }
                } else {
                    assert(rows_view(rows@) + Seq::<Seq<Seq<char>>>::empty() =~= rows_view(rows@));
                }
                i += 1;
            }
        },
        None => {},
    }
    table_text(&rows)
}

/// The cell texts of a table row.
fn row_cells_exec(r: &Json) -> (c: Vec<String>)
    ensures
        strs(c@) == row_cells(r@, kids(r@).len()),
    decreases r@, 2int,
{
    let mut out = no_lines();
    match children(r) {
        Some(items) => {
            proof {
                lemma_jviews(items@);
                lemma_kids_smaller(r@);
            }
            let mut i: usize = 0;
            while i < items.len()
                invariant
                    i <= items@.len(),
                    kids(r@) == jviews(items@),
                    kids(r@).len() == items@.len(),
                    forall|j: int| 0 <= j < items@.len() ==> #[trigger] kids(r@)[j] == items@[j]@,
                    forall|j: int|
                        0 <= j < kids(r@).len() ==> decreases_to!(r@ => #[trigger] kids(r@)[j]),
                    strs(out@) == row_cells(r@, i as nat),
                decreases items@.len() - i,
            {
                assert(decreases_to!(r@ => kids(r@)[i as int]));
                let c = &items[i];
                if is_type(c, "tableCell") || is_type(c, "tableHeader") {
                    let b = blocks_exec(c, 0);
                    let j = join_strings(&b, "\n");
                    let t = trimmed_end(j.as_str());
                    push_line(&mut out, squash_exec(t.as_str()));
                } else {
                    assert(strs(out@) + Seq::<Seq<char>>::empty() =~= strs(out@));
                }
                i += 1;
            }
        },
        None => {},
    }
    out
}

/// A page or comment body as Markdown: the blocks of a `doc` node, each
/// followed by an empty line, joined by newlines and trimmed; empty for a
/// value that is not a `doc` node.
pub fn prosemirror_to_markdown(content: &Json) -> (r: String)
    ensures
        r@ == page_md(content@),
{
    if is_type(content, "doc") {
        let b = blocks_exec(content, 0);
        let j = join_strings(&b, "\n");
        let t = trimmed_end(j.as_str());
        trimmed(t.as_str())
    } else {
        String::new()
    }
}

/// The block types the reader renders.
pub open spec fn recognised_block(t: Option<Seq<char>>) -> bool {
    ||| t == Some("paragraph"@)
    ||| t == Some("heading"@)
    ||| t == Some("bulletList"@)
    ||| t == Some("orderedList"@)
    ||| t == Some("taskList"@)
    ||| t == Some("codeBlock"@)
    ||| t == Some("blockquote"@)
    ||| t == Some("horizontalRule"@)
    ||| t == Some("table"@)
    ||| t == Some("image"@)
    ||| t == Some("embed"@)
}

/// The block lines of a sequence of nodes, in order.
pub open spec fn node_blocks(s: Seq<JVal>, indent: usize) -> Seq<Seq<char>>
    decreases s.len(),
{
    if s.len() == 0 {
        Seq::empty()
    } else {
        node_blocks(s.drop_last(), indent) + block(s.last(), indent)
    }
}

proof fn lemma_blocks_are_node_blocks(v: JVal, indent: usize, n: nat)
    requires
        n <= kids(v).len(),
    ensures
        blocks(v, indent, n) == node_blocks(kids(v).take(n as int), indent),
    decreases n,
{
    if n > 0 {
        lemma_blocks_are_node_blocks(v, indent, (n - 1) as nat);
        assert(kids(v).take(n as int).drop_last() =~= kids(v).take(n - 1));
    } else {
        assert(kids(v).take(0) =~= Seq::<JVal>::empty());
    }
}

proof fn lemma_node_blocks_concat(s: Seq<JVal>, t: Seq<JVal>, indent: usize)
    ensures
        node_blocks(s + t, indent) == node_blocks(s, indent) + node_blocks(t, indent),
    decreases t.len(),
{
    if t.len() == 0 {
        assert(s + t =~= s);
        assert(node_blocks(s, indent) + Seq::<Seq<char>>::empty() =~= node_blocks(s, indent));
    } else {
        lemma_node_blocks_concat(s, t.drop_last(), indent);
        assert((s + t).drop_last() =~= s + t.drop_last());
        assert((s + t).last() == t.last());
        assert(node_blocks(s, indent) + (node_blocks(t.drop_last(), indent) + block(t.last(), indent))
            =~= node_blocks(s, indent) + node_blocks(t.drop_last(), indent) + block(t.last(), indent));
    }
}

/// A node of no block type the reader renders adds no text and no blank
/// line: inserting it anywhere among the children of any node leaves the
/// block lines of those children unchanged, at every indent.
pub proof fn law_unrecognised_block_adds_nothing(v: JVal, w: JVal, x: JVal, i: int, indent: usize)
    requires
        0 <= i <= kids(v).len(),
        kids(w) == kids(v).take(i) + seq![x] + kids(v).skip(i),
        !recognised_block(ty(x)),
    ensures
        blocks(w, indent, kids(w).len()) == blocks(v, indent, kids(v).len()),
{
    let a = kids(v).take(i);
    let b = kids(v).skip(i);
    lemma_blocks_are_node_blocks(v, indent, kids(v).len());
    lemma_blocks_are_node_blocks(w, indent, kids(w).len());
    assert(kids(v).take(kids(v).len() as int) =~= a + b);
    assert(kids(w).take(kids(w).len() as int) =~= kids(w));
    lemma_node_blocks_concat(a, b, indent);
    lemma_node_blocks_concat(a + seq![x], b, indent);
    lemma_node_blocks_concat(a, seq![x], indent);
    assert(block(x, indent) =~= Seq::<Seq<char>>::empty());
    assert(seq![x].drop_last() =~= Seq::<JVal>::empty());
    assert(seq![x].last() == x);
    assert(node_blocks(Seq::<JVal>::empty(), indent) =~= Seq::<Seq<char>>::empty());
    assert(node_blocks(seq![x], indent) == node_blocks(Seq::<JVal>::empty(), indent) + block(x, indent));
    assert(node_blocks(seq![x], indent) =~= Seq::<Seq<char>>::empty());
    assert(node_blocks(a, indent) + Seq::<Seq<char>>::empty() =~= node_blocks(a, indent));
    assert(blocks(w, indent, kids(w).len()) =~= blocks(v, indent, kids(v).len()));
}

/// A node of no block type the reader renders adds nothing to a page:
/// inserting it anywhere among a document's top-level nodes leaves the
/// Markdown unchanged.
pub proof fn law_unrecognised_node_adds_nothing(v: JVal, w: JVal, x: JVal, i: int)
    requires
        ty(v) == Some("doc"@),
        ty(w) == Some("doc"@),
        0 <= i <= kids(v).len(),
        kids(w) == kids(v).take(i) + seq![x] + kids(v).skip(i),
        !recognised_block(ty(x)),
    ensures
        page_md(w) == page_md(v),
{
    law_unrecognised_block_adds_nothing(v, w, x, i, 0);
}

} // verus!
