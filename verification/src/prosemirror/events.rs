//! The Markdown events the writer walks, as the library holds them.
//!
//! The CommonMark parser (`pulldown_cmark`, with tables, strikethrough and
//! task lists on) turns Markdown into a stream of events; `markdown_events`
//! hands that stream over as these plain values.

use vstd::prelude::*;
use pulldown_cmark::{CodeBlockKind, Event, HeadingLevel, Options, Parser, Tag, TagEnd};

verus! {

/// A heading level.
#[derive(Debug, Clone, Copy, PartialEq, Eq)]
pub enum MdLevel {
    H1,
    H2,
    H3,
    H4,
    H5,
    H6,
}

/// A code block's kind: fenced, with its info string, or indented.
#[derive(Debug, Clone, PartialEq, Eq)]
pub enum MdCodeKind {
    Fenced(String),
    Indented,
}

/// The start of a Markdown element.
#[derive(Debug, Clone, PartialEq, Eq)]
pub enum MdTag {
    Paragraph,
    Heading(MdLevel),
    BlockQuote,
    CodeBlock(MdCodeKind),
    /// A list; `Some(start)` for an ordered one.
    List(Option<u64>),
    Item,
    Table,
    TableHead,
    TableRow,
    TableCell,
    Emphasis,
    Strong,
    Strikethrough,
    /// A link, with its destination.
    Link(String),
    /// An image, with its source.
    Image(String),
    /// An element the writer does not build.
    Other,
}

/// The end of a Markdown element.
#[derive(Debug, Clone, Copy, PartialEq, Eq)]
pub enum MdTagEnd {
    Paragraph,
    Heading,
    BlockQuote,
    CodeBlock,
    List,
    Item,
    Table,
    TableHead,
    TableRow,
    TableCell,
    Emphasis,
    Strong,
    Strikethrough,
    Link,
    Image,
    Other,
}

/// One Markdown event.
#[derive(Debug, Clone, PartialEq, Eq)]
pub enum MdEvent {
    Start(MdTag),
    End(MdTagEnd),
    Text(String),
    Code(String),
    SoftBreak,
    HardBreak,
    Rule,
    TaskListMarker(bool),
    /// An event the writer ignores.
    Other,
}

/// The events the CommonMark parser produces for `content`, with the
/// table, strikethrough and task-list extensions switched on or off as
/// given.
pub uninterp spec fn markdown_events_of(
    content: Seq<char>,
    tables: bool,
    strikethrough: bool,
    tasklists: bool,
) -> Seq<MdEvent>;

#[verifier::external_type_specification]
#[verifier::external_body]
pub struct ExEvent<'a>(Event<'a>);

#[verifier::external_type_specification]
#[verifier::external_body]
pub struct ExTag<'a>(Tag<'a>);

#[verifier::external_type_specification]
#[verifier::external_body]
pub struct ExTagEnd(TagEnd);

#[verifier::external_type_specification]
#[verifier::external_body]
pub struct ExHeadingLevel(HeadingLevel);

/// Runs `pulldown_cmark::Parser::new_ext` over `content` with the table,
/// strikethrough and task-list extensions set as given, and hands each event
/// over as an `MdEvent`. The contract claims only that the events are a
/// function of the text and the options (the parser is deterministic):
/// which events CommonMark gives is not stated here.
#[verifier::external_body]
pub(crate) fn markdown_events(
    content: &str,
    tables: bool,
    strikethrough: bool,
    tasklists: bool,
) -> (r: Vec<MdEvent>)
    ensures
        r@ == markdown_events_of(content@, tables, strikethrough, tasklists),
{
    let mut options = Options::empty();
    options.set(Options::ENABLE_TABLES, tables);
    options.set(Options::ENABLE_STRIKETHROUGH, strikethrough);
    options.set(Options::ENABLE_TASKLISTS, tasklists);
    Parser::new_ext(content, options).map(event_of).collect()
}

/// Converts one `pulldown_cmark::Event` to an `MdEvent`, variant by variant.
#[verifier::external_body]
fn event_of(e: Event<'_>) -> MdEvent {
    match e {
        Event::Start(t) => MdEvent::Start(tag_of(t)),
        Event::End(t) => MdEvent::End(tag_end_of(t)),
        Event::Text(t) => MdEvent::Text(t.to_string()),
        Event::Code(t) => MdEvent::Code(t.to_string()),
        Event::SoftBreak => MdEvent::SoftBreak,
        Event::HardBreak => MdEvent::HardBreak,
        Event::Rule => MdEvent::Rule,
        Event::TaskListMarker(b) => MdEvent::TaskListMarker(b),
        _ => MdEvent::Other,
    }
}

/// Converts a block-level `pulldown_cmark::Tag`, variant by variant.
#[verifier::external_body]
fn tag_of(t: Tag<'_>) -> MdTag {
    match t {
        Tag::Paragraph => MdTag::Paragraph,
        Tag::Heading { level, .. } => MdTag::Heading(level_of(level)),
        Tag::BlockQuote(_) => MdTag::BlockQuote,
        Tag::CodeBlock(CodeBlockKind::Fenced(i)) => MdTag::CodeBlock(MdCodeKind::Fenced(i.to_string())),
        Tag::CodeBlock(CodeBlockKind::Indented) => MdTag::CodeBlock(MdCodeKind::Indented),
        Tag::List(start) => MdTag::List(start),
        Tag::Item => MdTag::Item,
        Tag::Table(_) => MdTag::Table,
        Tag::TableHead => MdTag::TableHead,
        Tag::TableRow => MdTag::TableRow,
        Tag::TableCell => MdTag::TableCell,
        other => inline_tag_of(other),
    }
}

/// Converts an inline `pulldown_cmark::Tag`, variant by variant.
#[verifier::external_body]
fn inline_tag_of(t: Tag<'_>) -> MdTag {
    match t {
        Tag::Emphasis => MdTag::Emphasis,
        Tag::Strong => MdTag::Strong,
        Tag::Strikethrough => MdTag::Strikethrough,
        Tag::Link { dest_url, .. } => MdTag::Link(dest_url.to_string()),
        Tag::Image { dest_url, .. } => MdTag::Image(dest_url.to_string()),
        _ => MdTag::Other,
    }
}

/// Converts a block-level `pulldown_cmark::TagEnd`, variant by variant.
#[verifier::external_body]
fn tag_end_of(t: TagEnd) -> MdTagEnd {
    match t {
        TagEnd::Paragraph => MdTagEnd::Paragraph,
        TagEnd::Heading(_) => MdTagEnd::Heading,
        TagEnd::BlockQuote(_) => MdTagEnd::BlockQuote,
        TagEnd::CodeBlock => MdTagEnd::CodeBlock,
        TagEnd::List(_) => MdTagEnd::List,
        TagEnd::Item => MdTagEnd::Item,
        TagEnd::Table => MdTagEnd::Table,
        TagEnd::TableHead => MdTagEnd::TableHead,
        TagEnd::TableRow => MdTagEnd::TableRow,
        TagEnd::TableCell => MdTagEnd::TableCell,
        other => inline_end_of(other),
    }
}

/// Converts an inline `pulldown_cmark::TagEnd`, variant by variant.
#[verifier::external_body]
fn inline_end_of(t: TagEnd) -> MdTagEnd {
    match t {
        TagEnd::Emphasis => MdTagEnd::Emphasis,
        TagEnd::Strong => MdTagEnd::Strong,
        TagEnd::Strikethrough => MdTagEnd::Strikethrough,
        TagEnd::Link => MdTagEnd::Link,
        TagEnd::Image => MdTagEnd::Image,
        _ => MdTagEnd::Other,
    }
}

/// Converts a `pulldown_cmark::HeadingLevel`, variant by variant.
#[verifier::external_body]
fn level_of(l: HeadingLevel) -> MdLevel {
    match l {
        HeadingLevel::H1 => MdLevel::H1,
        HeadingLevel::H2 => MdLevel::H2,
        HeadingLevel::H3 => MdLevel::H3,
        HeadingLevel::H4 => MdLevel::H4,
        HeadingLevel::H5 => MdLevel::H5,
        HeadingLevel::H6 => MdLevel::H6,
    }
}

/// A copy of an event.
pub fn copy_event(e: &MdEvent) -> (r: MdEvent)
    ensures
        r == *e,
{
    match e {
        MdEvent::Start(tag) => MdEvent::Start(
            match tag {
                MdTag::Paragraph => MdTag::Paragraph,
                MdTag::Heading(l) => MdTag::Heading(*l),
                MdTag::BlockQuote => MdTag::BlockQuote,
                MdTag::CodeBlock(MdCodeKind::Fenced(info)) => MdTag::CodeBlock(
                    MdCodeKind::Fenced(info.clone()),
                ),
                MdTag::CodeBlock(MdCodeKind::Indented) => MdTag::CodeBlock(MdCodeKind::Indented),
                MdTag::List(n) => MdTag::List(*n),
                MdTag::Item => MdTag::Item,
                MdTag::Table => MdTag::Table,
                MdTag::TableHead => MdTag::TableHead,
                MdTag::TableRow => MdTag::TableRow,
                MdTag::TableCell => MdTag::TableCell,
                MdTag::Emphasis => MdTag::Emphasis,
                MdTag::Strong => MdTag::Strong,
                MdTag::Strikethrough => MdTag::Strikethrough,
                MdTag::Link(u) => MdTag::Link(u.clone()),
                MdTag::Image(u) => MdTag::Image(u.clone()),
                MdTag::Other => MdTag::Other,
            },
        ),
        MdEvent::End(t) => MdEvent::End(*t),
        MdEvent::Text(t) => MdEvent::Text(t.clone()),
        MdEvent::Code(c) => MdEvent::Code(c.clone()),
        MdEvent::SoftBreak => MdEvent::SoftBreak,
        MdEvent::HardBreak => MdEvent::HardBreak,
        MdEvent::Rule => MdEvent::Rule,
        MdEvent::TaskListMarker(b) => MdEvent::TaskListMarker(*b),
        MdEvent::Other => MdEvent::Other,
    }
}

/// The number of a heading level.
pub open spec fn level_number(l: MdLevel) -> u64 {
    match l {
        MdLevel::H1 => 1,
        MdLevel::H2 => 2,
        MdLevel::H3 => 3,
        MdLevel::H4 => 4,
        MdLevel::H5 => 5,
        MdLevel::H6 => 6,
    }
}

/// The number of a heading level.
pub fn heading_level(l: MdLevel) -> (r: u64)
    ensures
        r == level_number(l),
{
    match l {
        MdLevel::H1 => 1,
        MdLevel::H2 => 2,
        MdLevel::H3 => 3,
        MdLevel::H4 => 4,
        MdLevel::H5 => 5,
        MdLevel::H6 => 6,
    }
}

} // verus!
