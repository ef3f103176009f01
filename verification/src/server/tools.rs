//! The texts the tools answer with, beyond the shared renderings.

use vstd::prelude::*;
use crate::text::{
    trim, join, strs, decimal, join_strings, owned, cat, cat3, trimmed, lemma_strs_push,
    signed_decimal, signed_decimal_string, is_blank,
};
use crate::types::{DocmostSpace, DocmostSpaceWithMembership, DocmostPage, DocmostComment};
use crate::server::render::{or_else, opt_string, optional_id};
use crate::version::{ServerVersion, Capabilities};

verus! {

fn push_line(out: &mut Vec<String>, s: String)
    ensures
        strs(final(out)@) == strs(old(out)@).push(s@),
{
    proof {
        lemma_strs_push(out@, s);
    }
    out.push(s);
}

fn or_else_exec(v: &Option<String>, d: &str) -> (r: String)
    ensures
        r@ == or_else(opt_string(*v), d@),
{
    match v {
        Some(s) => s.clone(),
        None => owned(d),
    }
}

fn optional_id_exec(v: &Option<String>) -> (r: String)
    ensures
        r@ == optional_id(opt_string(*v)),
{
    match v {
        Some(s) => cat3("`", s.as_str(), "`"),
        None => owned("Unknown"),
    }
}

/// One space as a table row.
pub open spec fn space_row(s: DocmostSpace) -> Seq<char> {
    "| "@ + or_else(opt_string(s.name), "Untitled"@) + " | "@ + s.slug@ + " | "@ + s.id@ + " |"@
}

/// The `list_spaces` answer: a table of every space and their number.
pub open spec fn spaces_md(spaces: Seq<DocmostSpace>) -> Seq<char> {
    if spaces.len() == 0 {
        "No Docmost spaces were found."@
    } else {
        join(
            seq![
                "## Available Documentation Spaces"@,
                Seq::empty(),
                "| Name | Slug | ID |"@,
                "| --- | --- | --- |"@,
            ] + Seq::new(spaces.len(), |i: int| space_row(spaces[i])) + seq![
                Seq::empty(),
                "Total spaces: "@ + decimal(spaces.len()),
            ],
            "\n"@,
        )
    }
}

/// Renders the spaces as a Markdown table.
pub fn format_spaces(spaces: &[DocmostSpace]) -> (r: String)
    ensures
        r@ == spaces_md(spaces@),
{
    if spaces.len() == 0 {
        return owned("No Docmost spaces were found.");
    }
    let mut lines: Vec<String> = Vec::new();
    push_line(&mut lines, owned("## Available Documentation Spaces"));
    push_line(&mut lines, String::new());
    push_line(&mut lines, owned("| Name | Slug | ID |"));
    push_line(&mut lines, owned("| --- | --- | --- |"));
    let ghost head = strs(lines@);
    assert(head =~= seq![
        "## Available Documentation Spaces"@,
        Seq::<char>::empty(),
        "| Name | Slug | ID |"@,
        "| --- | --- | --- |"@,
    ]);
    let mut i: usize = 0;
    while i < spaces.len()
        invariant
            i <= spaces@.len(),
            strs(lines@) == head + Seq::new(i as nat, |k: int| space_row(spaces@[k])),
        decreases spaces@.len() - i,
    {
        let s = &spaces[i];
        let mut row = cat("| ", or_else_exec(&s.name, "Untitled").as_str());
        row.append(" | ");
        row.append(s.slug.as_str());
        row.append(" | ");
        row.append(s.id.as_str());
        row.append(" |");
        push_line(&mut lines, row);
        i += 1;
        assert(strs(lines@) =~= head + Seq::new(i as nat, |k: int| space_row(spaces@[k])));
    }
    let ghost body = strs(lines@);
    push_line(&mut lines, String::new());
    push_line(&mut lines, cat("Total spaces: ", crate::text::decimal_string(spaces.len() as u64).as_str()));
    assert(strs(lines@) =~= body + seq![Seq::<char>::empty(), "Total spaces: "@ + decimal(spaces@.len())]);
    join_strings(&lines, "\n")
}

/// The `get_space` answer.
pub open spec fn space_md(s: DocmostSpaceWithMembership) -> Seq<char> {
    join(
        seq![
            "# "@ + or_else(opt_string(s.name), "Untitled"@),
            Seq::empty(),
            "Space ID: `"@ + s.id@ + "`"@,
            "Slug: `"@ + s.slug@ + "`"@,
            "Description: "@ + or_else(opt_string(s.description), "None"@),
            "Visibility: "@ + or_else(opt_string(s.visibility), "Unknown"@),
            "Member count: "@ + match s.member_count {
                Some(n) => signed_decimal(n as int),
                None => "Unknown"@,
            },
            "Your role: "@ + match s.membership {
                Some(m) => or_else(opt_string(m.role), "Unknown"@),
                None => "Unknown"@,
            },
        ],
        "\n"@,
    )
}

/// Renders a space's details.
pub fn format_space(s: &DocmostSpaceWithMembership) -> (r: String)
    ensures
        r@ == space_md(*s),
{
    let mut lines: Vec<String> = Vec::new();
    push_line(&mut lines, cat("# ", or_else_exec(&s.name, "Untitled").as_str()));
    push_line(&mut lines, String::new());
    push_line(&mut lines, cat3("Space ID: `", s.id.as_str(), "`"));
    push_line(&mut lines, cat3("Slug: `", s.slug.as_str(), "`"));
    push_line(&mut lines, cat("Description: ", or_else_exec(&s.description, "None").as_str()));
    push_line(&mut lines, cat("Visibility: ", or_else_exec(&s.visibility, "Unknown").as_str()));
    let count = match s.member_count {
        Some(n) => signed_decimal_string(n),
        None => owned("Unknown"),
    };
    push_line(&mut lines, cat("Member count: ", count.as_str()));
    let role = match &s.membership {
        Some(m) => or_else_exec(&m.role, "Unknown"),
        None => owned("Unknown"),
    };
    push_line(&mut lines, cat("Your role: ", role.as_str()));
    assert(strs(lines@) =~= seq![
        "# "@ + or_else(opt_string(s.name), "Untitled"@),
        Seq::<char>::empty(),
        "Space ID: `"@ + s.id@ + "`"@,
        "Slug: `"@ + s.slug@ + "`"@,
        "Description: "@ + or_else(opt_string(s.description), "None"@),
        "Visibility: "@ + or_else(opt_string(s.visibility), "Unknown"@),
        "Member count: "@ + match s.member_count {
            Some(n) => signed_decimal(n as int),
            None => "Unknown"@,
        },
        "Your role: "@ + match s.membership {
            Some(m) => or_else(opt_string(m.role), "Unknown"@),
            None => "Unknown"@,
        },
    ]);
    join_strings(&lines, "\n")
}

/// The first ten characters of `s` (a timestamp's date).
pub open spec fn first_ten(s: Seq<char>) -> Seq<char> {
    if s.len() <= 10 {
        s
    } else {
        s.take(10)
    }
}

/// The title line of a page: `# {icon} {title}` or `# {title}`.
pub open spec fn page_title_line(p: DocmostPage) -> Seq<char> {
    let title = or_else(opt_string(p.title), "Untitled"@);
    match p.icon {
        Some(i) => if i@.len() > 0 {
            "# "@ + i@ + " "@ + title
        } else {
            "# "@ + title
        },
        None => "# "@ + title,
    }
}

/// The `get_page` answer: a header of the page's details, a rule, and the
/// page body as Markdown; trimmed.
pub open spec fn page_view_md(slug_id: Seq<char>, page: Option<DocmostPage>) -> Seq<char> {
    match page {
        None => "No Docmost page was found for slug ID \""@ + slug_id + "\"."@,
        Some(p) => trim(
            join(
                seq![
                    page_title_line(p),
                    Seq::empty(),
                    "Space: "@ + match p.space {
                        Some(s) => or_else(opt_string(s.name), "Unknown"@),
                        None => "Unknown"@,
                    },
                    "Page ID: "@ + optional_id(opt_string(p.id)),
                    "Slug ID: `"@ + slug_id + "`"@,
                    "Author: "@ + match p.creator {
                        Some(c) => or_else(opt_string(c.name), "Unknown"@),
                        None => "Unknown"@,
                    },
                    "Last updated: "@ + match p.updated_at {
                        Some(u) => first_ten(u@),
                        None => "Unknown"@,
                    },
                    Seq::empty(),
                    "---"@,
                    Seq::empty(),
                    match p.content {
                        Some(c) => crate::prosemirror::reader::page_md(c@),
                        None => Seq::empty(),
                    },
                ],
                "\n"@,
            ),
        ),
    }
}

/// Renders a fetched page (or its absence).
pub fn format_page(slug_id: &str, page: Option<&DocmostPage>) -> (r: String)
    ensures
        r@ == page_view_md(
            slug_id@,
            match page {
                Some(p) => Some(*p),
                None => None,
            },
        ),
{
    let p = match page {
        None => {
            return cat3("No Docmost page was found for slug ID \"", slug_id, "\".");
        },
        Some(p) => p,
    };
    let markdown = match &p.content {
        Some(c) => crate::prosemirror::reader::prosemirror_to_markdown(c),
        None => String::new(),
    };
    let title = or_else_exec(&p.title, "Untitled");
    let title_line = match &p.icon {
        Some(icon) => if !icon.as_str().is_empty() {
            let mut t = cat3("# ", icon.as_str(), " ");
            t.append(title.as_str());
            t
        } else {
            cat("# ", title.as_str())
        },
        None => cat("# ", title.as_str()),
    };
    let updated = match &p.updated_at {
        Some(u) => {
            let v = crate::text::chars_of(u.as_str());
            let n: usize = if v.len() <= 10 {
                v.len()
            } else {
                10
            };
            let mut s = String::new();
            crate::text::push_range(&mut s, &v, 0, n);
            assert(v@.subrange(0, n as int) =~= first_ten(u@));
            s
        },
        None => owned("Unknown"),
    };
    let mut lines: Vec<String> = Vec::new();
    push_line(&mut lines, title_line);
    push_line(&mut lines, String::new());
    let space = match &p.space {
        Some(s) => or_else_exec(&s.name, "Unknown"),
        None => owned("Unknown"),
    };
    push_line(&mut lines, cat("Space: ", space.as_str()));
    push_line(&mut lines, cat("Page ID: ", optional_id_exec(&p.id).as_str()));
    push_line(&mut lines, cat3("Slug ID: `", slug_id, "`"));
    let author = match &p.creator {
        Some(c) => or_else_exec(&c.name, "Unknown"),
        None => owned("Unknown"),
    };
    push_line(&mut lines, cat("Author: ", author.as_str()));
    push_line(&mut lines, cat("Last updated: ", updated.as_str()));
    push_line(&mut lines, String::new());
    push_line(&mut lines, owned("---"));
    push_line(&mut lines, String::new());
    push_line(&mut lines, markdown);
    let j = join_strings(&lines, "\n");
    assert(strs(lines@) =~= seq![
        page_title_line(*p),
        Seq::<char>::empty(),
        "Space: "@ + match p.space {
            Some(s) => or_else(opt_string(s.name), "Unknown"@),
            None => "Unknown"@,
        },
        "Page ID: "@ + optional_id(opt_string(p.id)),
        "Slug ID: `"@ + slug_id@ + "`"@,
        "Author: "@ + match p.creator {
            Some(c) => or_else(opt_string(c.name), "Unknown"@),
            None => "Unknown"@,
        },
        "Last updated: "@ + match p.updated_at {
            Some(u) => first_ten(u@),
            None => "Unknown"@,
        },
        Seq::<char>::empty(),
        "---"@,
        Seq::<char>::empty(),
        match p.content {
            Some(c) => crate::prosemirror::reader::page_md(c@),
            None => Seq::<char>::empty(),
        },
    ]);
    trimmed(j.as_str())
}

/// An id in backticks.
pub open spec fn ticked(s: Seq<char>) -> Seq<char> {
    "`"@ + s + "`"@
}

/// The lines of the answer to `duplicate_page` or `copy_page_to_space`.
pub open spec fn duplicated_lines(p: DocmostPage, into_space: Option<Seq<char>>) -> Seq<Seq<char>> {
    let title = or_else(opt_string(p.title), "Untitled"@);
    seq![
            match into_space {
                Some(s) => "Copied Docmost page \""@ + title + "\" into space "@ + ticked(s) + "."@,
                None => "Duplicated Docmost page \""@ + title + "\"."@,
            },
            Seq::empty(),
            "New page ID: "@ + optional_id(opt_string(p.id)),
            "New slug ID: "@ + optional_id(opt_string(p.slug_id)),
            "Space ID: "@ + optional_id(opt_string(p.space_id)),
        ]
}

/// The answer to `duplicate_page` (no space) or `copy_page_to_space`.
pub open spec fn duplicated_md(p: DocmostPage, into_space: Option<Seq<char>>) -> Seq<char> {
    join(duplicated_lines(p, into_space), "\n"@)
}

/// Renders the result of a duplication or a copy into a space.
pub fn format_duplicated_page(page: &DocmostPage, into_space: Option<&str>) -> (r: String)
    ensures
        r@ == duplicated_md(*page, crate::startup_config::opt_view(into_space)),
{
    let title = or_else_exec(&page.title, "Untitled");
    let header = match into_space {
        Some(s) => {
            let mut h = cat3("Copied Docmost page \"", title.as_str(), "\" into space ");
            h.append(cat3("`", s, "`").as_str());
            h.append(".");
            h
        },
        None => cat3("Duplicated Docmost page \"", title.as_str(), "\"."),
    };
    let mut lines: Vec<String> = Vec::new();
    push_line(&mut lines, header);
    push_line(&mut lines, String::new());
    push_line(&mut lines, cat("New page ID: ", optional_id_exec(&page.id).as_str()));
    push_line(&mut lines, cat("New slug ID: ", optional_id_exec(&page.slug_id).as_str()));
    push_line(&mut lines, cat("Space ID: ", optional_id_exec(&page.space_id).as_str()));
    assert(strs(lines@) =~= seq![
        match crate::startup_config::opt_view(into_space) {
            Some(s) => "Copied Docmost page \""@ + title@ + "\" into space "@ + ticked(s) + "."@,
            None => "Duplicated Docmost page \""@ + title@ + "\"."@,
        },
        Seq::<char>::empty(),
        "New page ID: "@ + optional_id(opt_string(page.id)),
        "New slug ID: "@ + optional_id(opt_string(page.slug_id)),
        "Space ID: "@ + optional_id(opt_string(page.space_id)),
    ]);
    assert(strs(lines@) =~= duplicated_lines(*page, crate::startup_config::opt_view(into_space)));
    let r = join_strings(&lines, "\n");
    assert(r@ == duplicated_md(*page, crate::startup_config::opt_view(into_space)));
    r
}

/// The lines of the answer to `move_page`.
pub open spec fn moved_lines(p: DocmostPage, parent: Option<Seq<char>>) -> Seq<Seq<char>> {
    let title = or_else(opt_string(p.title), "Untitled"@);
    seq![
            "Moved Docmost page \""@ + title + "\" "@ + match parent {
                Some(x) => "under parent "@ + ticked(x),
                None => "to the space root"@,
            } + "."@,
            Seq::empty(),
            "Page ID: "@ + optional_id(opt_string(p.id)),
            "Slug ID: "@ + optional_id(opt_string(p.slug_id)),
            "Parent page ID: "@ + optional_id(opt_string(p.parent_page_id)),
        ]
}

/// The answer to `move_page`.
pub open spec fn moved_md(p: DocmostPage, parent: Option<Seq<char>>) -> Seq<char> {
    join(moved_lines(p, parent), "\n"@)
}

/// Renders the result of a move.
pub fn format_moved_page(page: &DocmostPage, parent_page_id: Option<&str>) -> (r: String)
    ensures
        r@ == moved_md(*page, crate::startup_config::opt_view(parent_page_id)),
{
    let title = or_else_exec(&page.title, "Untitled");
    let location = match parent_page_id {
        Some(x) => cat("under parent ", cat3("`", x, "`").as_str()),
        None => owned("to the space root"),
    };
    let mut h = cat3("Moved Docmost page \"", title.as_str(), "\" ");
    h.append(location.as_str());
    h.append(".");
    let mut lines: Vec<String> = Vec::new();
    push_line(&mut lines, h);
    push_line(&mut lines, String::new());
    push_line(&mut lines, cat("Page ID: ", optional_id_exec(&page.id).as_str()));
    push_line(&mut lines, cat("Slug ID: ", optional_id_exec(&page.slug_id).as_str()));
    push_line(&mut lines, cat("Parent page ID: ", optional_id_exec(&page.parent_page_id).as_str()));
    assert(strs(lines@) =~= seq![
        "Moved Docmost page \""@ + title@ + "\" "@ + match crate::startup_config::opt_view(parent_page_id) {
            Some(x) => "under parent "@ + ticked(x),
            None => "to the space root"@,
        } + "."@,
        Seq::<char>::empty(),
        "Page ID: "@ + optional_id(opt_string(page.id)),
        "Slug ID: "@ + optional_id(opt_string(page.slug_id)),
        "Parent page ID: "@ + optional_id(opt_string(page.parent_page_id)),
    ]);
    assert(strs(lines@) =~= moved_lines(*page, crate::startup_config::opt_view(parent_page_id)));
    let r = join_strings(&lines, "\n");
    assert(r@ == moved_md(*page, crate::startup_config::opt_view(parent_page_id)));
    r
}

/// The answer to `move_page_to_space`, from the page as fetched after the
/// move (if it was found).
pub open spec fn moved_to_space_md(page: Option<DocmostPage>, space_id: Seq<char>, page_id: Seq<char>) -> Seq<char> {
    let title = match page {
        Some(p) => or_else(opt_string(p.title), "(page)"@),
        None => "(page)"@,
    };
    let id = match page {
        Some(p) => or_else(opt_string(p.id), page_id),
        None => page_id,
    };
    join(
        seq![
            "Moved Docmost page \""@ + title + "\" to space "@ + ticked(space_id) + "."@,
            Seq::empty(),
            "Page ID: "@ + ticked(id),
            "Slug ID: "@ + match page {
                Some(p) => optional_id(opt_string(p.slug_id)),
                None => "Unknown"@,
            },
        ],
        "\n"@,
    )
}

/// Renders the result of a move into another space.
pub fn format_moved_to_space(page: Option<&DocmostPage>, space_id: &str, page_id: &str) -> (r: String)
    ensures
        r@ == moved_to_space_md(
            match page {
                Some(p) => Some(*p),
                None => None,
            },
            space_id@,
            page_id@,
        ),
{
    let title = match page {
        Some(p) => or_else_exec(&p.title, "(page)"),
        None => owned("(page)"),
    };
    let id = match page {
        Some(p) => match &p.id {
            Some(i) => i.clone(),
            None => owned(page_id),
        },
        None => owned(page_id),
    };
    let slug = match page {
        Some(p) => optional_id_exec(&p.slug_id),
        None => owned("Unknown"),
    };
    let mut h = cat3("Moved Docmost page \"", title.as_str(), "\" to space ");
    h.append(cat3("`", space_id, "`").as_str());
    h.append(".");
    let mut lines: Vec<String> = Vec::new();
    push_line(&mut lines, h);
    push_line(&mut lines, String::new());
    push_line(&mut lines, cat("Page ID: ", cat3("`", id.as_str(), "`").as_str()));
    push_line(&mut lines, cat("Slug ID: ", slug.as_str()));
    let ghost pv = match page {
        Some(p) => Some(*p),
        None => None,
    };
    assert(strs(lines@) =~= seq![
        "Moved Docmost page \""@ + title@ + "\" to space "@ + ticked(space_id@) + "."@,
        Seq::<char>::empty(),
        "Page ID: "@ + ticked(id@),
        "Slug ID: "@ + match pv {
            Some(p) => optional_id(opt_string(p.slug_id)),
            None => "Unknown"@,
        },
    ]);
    join_strings(&lines, "\n")
}

/// The note `update_page` adds when a body was sent to a server that does
/// not apply body edits over REST; none when it does.
pub open spec fn body_update_note_md(caps: Capabilities, version: Option<ServerVersion>) -> Option<Seq<char>> {
    if caps.rest_page_body_update {
        None
    } else {
        Some(
            match version {
                Some(v) => "Note: this Docmost server (v"@ + decimal(v.major as nat) + seq!['.']
                    + decimal(v.minor as nat) + seq!['.'] + decimal(v.patch as nat)
                    + ") does not apply page-body edits over REST — the body was NOT changed (page bodies are edited through the collaborative editor before v0.70.0). Create a new page with create_page, or edit the body in the Docmost app."@,
                None => "Note: the Docmost server version could not be determined; if the page body did not change, this server applies body edits through the collaborative editor (not REST). Create a new page with create_page instead."@,
            },
        )
    }
}

/// The note about a page body that the server may have ignored.
pub fn body_update_note(caps: Capabilities, version: Option<ServerVersion>) -> (r: Option<String>)
    ensures
        match (r, body_update_note_md(caps, version)) {
            (Some(s), Some(t)) => s@ == t,
            (None, None) => true,
            _ => false,
        },
{
    if caps.rest_page_body_update {
        return None;
    }
    match version {
        Some(v) => {
            let vs = v.to_version_string();
            Some(
                cat3(
                    "Note: this Docmost server (v",
                    vs.as_str(),
                    ") does not apply page-body edits over REST — the body was NOT changed (page bodies are edited through the collaborative editor before v0.70.0). Create a new page with create_page, or edit the body in the Docmost app.",
                ),
            )
        },
        None => Some(
            owned(
                "Note: the Docmost server version could not be determined; if the page body did not change, this server applies body edits through the collaborative editor (not REST). Create a new page with create_page instead.",
            ),
        ),
    }
}

/// Whether `create_page` must warn that the parent was not applied: a
/// non-blank body went through the import path, which takes no parent.
pub fn parent_ignored(markdown: Option<&str>, parent_page_id: Option<&str>) -> (r: bool)
    ensures
        r == (match markdown {
            Some(m) => trim(m@).len() > 0,
            None => false,
        } && parent_page_id is Some),
{
    let has_body = match markdown {
        Some(m) => !is_blank(m),
        None => false,
    };
    has_body && parent_page_id.is_some()
}

/// The note added to the `create_page` answer when the parent was not
/// applied.
pub open spec fn parent_ignored_note() -> Seq<char> {
    "Note: this page was created at the space root — parent_page_id is not applied when a Markdown body is provided (Docmost's import path has no parent parameter). Use move_page afterwards to nest it under a parent."@
}

/// The lines of the answer to `create_page`: the page's title (the
/// requested one when the reply has none) and its ids.
pub open spec fn created_lines(p: DocmostPage, title: Seq<char>) -> Seq<Seq<char>> {
    seq![
        "Created Docmost page \""@ + or_else(opt_string(p.title), title) + "\"."@,
        Seq::empty(),
        "Page ID: "@ + optional_id(opt_string(p.id)),
        "Slug ID: "@ + optional_id(opt_string(p.slug_id)),
        "Space ID: "@ + optional_id(opt_string(p.space_id)),
    ]
}

/// The answer to `create_page`, with the note about an ignored parent when
/// `note_parent`.
pub open spec fn created_md(p: DocmostPage, title: Seq<char>, note_parent: bool) -> Seq<char> {
    join(created_lines(p, title), "\n"@) + if note_parent {
        "\n\n"@ + parent_ignored_note()
    } else {
        Seq::empty()
    }
}

/// Renders the result of `create_page`.
pub fn format_created_page(page: &DocmostPage, title: &str, note_parent: bool) -> (r: String)
    ensures
        r@ == created_md(*page, title@, note_parent),
{
    let shown = match &page.title {
        Some(t) => t.clone(),
        None => owned(title),
    };
    let mut lines: Vec<String> = Vec::new();
    push_line(&mut lines, cat3("Created Docmost page \"", shown.as_str(), "\"."));
    push_line(&mut lines, String::new());
    push_line(&mut lines, cat("Page ID: ", optional_id_exec(&page.id).as_str()));
    push_line(&mut lines, cat("Slug ID: ", optional_id_exec(&page.slug_id).as_str()));
    push_line(&mut lines, cat("Space ID: ", optional_id_exec(&page.space_id).as_str()));
    assert(strs(lines@) =~= created_lines(*page, title@));
    let mut r = join_strings(&lines, "\n");
    if note_parent {
        r.append("\n\n");
        r.append(
            "Note: this page was created at the space root — parent_page_id is not applied when a Markdown body is provided (Docmost's import path has no parent parameter). Use move_page afterwards to nest it under a parent.",
        );
    }
    r
}

/// The lines of the answer to `update_page`, with the body note last when
/// there is one.
pub open spec fn updated_lines(p: DocmostPage, note: Option<Seq<char>>) -> Seq<Seq<char>> {
    seq![
        "Updated Docmost page \""@ + or_else(opt_string(p.title), "Untitled"@) + "\"."@,
        Seq::empty(),
        "Page ID: "@ + optional_id(opt_string(p.id)),
        "Slug ID: "@ + optional_id(opt_string(p.slug_id)),
    ] + match note {
        Some(n) => seq![Seq::empty(), n],
        None => Seq::empty(),
    }
}

/// Renders the result of `update_page`.
pub fn format_updated_page(page: &DocmostPage, note: Option<&str>) -> (r: String)
    ensures
        r@ == join(updated_lines(*page, crate::startup_config::opt_view(note)), "\n"@),
{
    let title = or_else_exec(&page.title, "Untitled");
    let mut lines: Vec<String> = Vec::new();
    push_line(&mut lines, cat3("Updated Docmost page \"", title.as_str(), "\"."));
    push_line(&mut lines, String::new());
    push_line(&mut lines, cat("Page ID: ", optional_id_exec(&page.id).as_str()));
    push_line(&mut lines, cat("Slug ID: ", optional_id_exec(&page.slug_id).as_str()));
    match note {
        Some(n) => {
            push_line(&mut lines, String::new());
            push_line(&mut lines, owned(n));
        },
        None => {},
    }
    assert(strs(lines@) =~= updated_lines(*page, crate::startup_config::opt_view(note)));
    join_strings(&lines, "\n")
}

/// The answer to `create_space` (`created`) or `update_space`.
pub open spec fn space_saved_md(s: DocmostSpace, created: bool) -> Seq<char> {
    join(
        seq![
            (if created {
                "Created"@
            } else {
                "Updated"@
            }) + " Docmost space \""@ + or_else(opt_string(s.name), "Untitled"@) + "\"."@,
            Seq::empty(),
            "Space ID: "@ + ticked(s.id@),
            "Slug: "@ + ticked(s.slug@),
        ],
        "\n"@,
    )
}

/// Renders the result of `create_space` or `update_space`.
pub fn format_space_saved(space: &DocmostSpace, created: bool) -> (r: String)
    ensures
        r@ == space_saved_md(*space, created),
{
    let name = or_else_exec(&space.name, "Untitled");
    let mut lines: Vec<String> = Vec::new();
    let tail = cat3(" Docmost space \"", name.as_str(), "\".");
    let head = if created {
        cat("Created", tail.as_str())
    } else {
        cat("Updated", tail.as_str())
    };
    push_line(&mut lines, head);
    push_line(&mut lines, String::new());
    push_line(&mut lines, cat("Space ID: ", cat3("`", space.id.as_str(), "`").as_str()));
    push_line(&mut lines, cat("Slug: ", cat3("`", space.slug.as_str(), "`").as_str()));
    assert(strs(lines@) =~~= seq![
        (if created {
            "Created"@
        } else {
            "Updated"@
        }) + " Docmost space \""@ + or_else(opt_string(space.name), "Untitled"@) + "\"."@,
        Seq::<char>::empty(),
        "Space ID: "@ + ticked(space.id@),
        "Slug: "@ + ticked(space.slug@),
    ]);
    join_strings(&lines, "\n")
}

/// The answer to `create_comment` (`created`) or `update_comment`.
pub open spec fn comment_saved_md(c: DocmostComment, created: bool) -> Seq<char> {
    join(
        seq![
            if created {
                "Created Docmost comment."@
            } else {
                "Updated Docmost comment."@
            },
            Seq::empty(),
            "Comment ID: "@ + ticked(c.id@),
            "Page ID: "@ + optional_id(opt_string(c.page_id)),
        ],
        "\n"@,
    )
}

/// Renders the result of `create_comment` or `update_comment`.
pub fn format_comment_saved(comment: &DocmostComment, created: bool) -> (r: String)
    ensures
        r@ == comment_saved_md(*comment, created),
{
    let mut lines: Vec<String> = Vec::new();
    push_line(
        &mut lines,
        owned(
            if created {
                "Created Docmost comment."
            } else {
                "Updated Docmost comment."
            },
        ),
    );
    push_line(&mut lines, String::new());
    push_line(&mut lines, cat("Comment ID: ", cat3("`", comment.id.as_str(), "`").as_str()));
    push_line(&mut lines, cat("Page ID: ", optional_id_exec(&comment.page_id).as_str()));
    assert(strs(lines@) =~~= seq![
        if created {
            "Created Docmost comment."@
        } else {
            "Updated Docmost comment."@
        },
        Seq::<char>::empty(),
        "Comment ID: "@ + ticked(comment.id@),
        "Page ID: "@ + optional_id(opt_string(comment.page_id)),
    ]);
    join_strings(&lines, "\n")
}

} // verus!
