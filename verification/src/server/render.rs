//! Markdown renderings of search hits, page lists, comments, workspace
//! members and the current user.

use vstd::prelude::*;
use crate::text::{
    trim, is_ws, find_char, lemma_find_char_bounds, join, strs, decimal, join_strings, owned, cat,
    cat3, trimmed, decimal_string, decimal_wide, lemma_strs_push,
};
use crate::types::{
    DocmostSearchResult, DocmostPageListItem, DocmostComment, DocmostUser,
    DocmostCurrentUserResponse,
};

verus! {

/// `s` with every match of `<[^>]+>` (a tag: `<`, at least one character
/// other than `>`, then `>`) removed, leftmost first.
pub open spec fn strip_tags(s: Seq<char>) -> Seq<char>
    decreases s.len(),
{
    if s.len() == 0 {
        Seq::empty()
    } else if s[0] == '<' && 0 < find_char(s.drop_first(), '>') < s.len() - 1 {
        strip_tags(s.skip(find_char(s.drop_first(), '>') + 2))
    } else {
        seq![s[0]] + strip_tags(s.drop_first())
    }
}

/// `s` with every run of whitespace (`\s+`) replaced by one space.
pub open spec fn collapse_ws(s: Seq<char>) -> Seq<char>
    decreases s.len(),
{
    if s.len() == 0 {
        Seq::empty()
    } else if is_ws(s.last()) {
        if s.len() >= 2 && is_ws(s[s.len() - 2]) {
            collapse_ws(s.drop_last())
        } else {
            collapse_ws(s.drop_last()).push(' ')
        }
    } else {
        collapse_ws(s.drop_last()).push(s.last())
    }
}

/// What `Regex::new(pattern).replace_all(text, rep)` gives.
pub uninterp spec fn regex_replaced(pattern: Seq<char>, text: Seq<char>, rep: Seq<char>) -> Seq<char>;

/// Runs `regex::Regex::new(pattern)` and `replace_all(text, rep)`. Only the
/// two patterns the highlights need are admitted (both compile); for them
/// the contract states what the documentation of the pattern syntax gives:
/// tags removed, and whitespace runs turned into one space.
#[verifier::external_body]
fn regex_replace_all(pattern: &str, text: &str, rep: &str) -> (r: String)
    requires
        (pattern@ == "<[^>]+>"@ && rep@ == ""@) || (pattern@ == "\\s+"@ && rep@ == " "@),
    ensures
        r@ == regex_replaced(pattern@, text@, rep@),
        pattern@ == "<[^>]+>"@ ==> r@ == strip_tags(text@),
        pattern@ == "\\s+"@ ==> r@ == collapse_ws(text@),
{
    regex::Regex::new(pattern).expect("valid pattern").replace_all(text, rep).into_owned()
}

/// A search highlight as plain text: tags removed, whitespace runs
/// collapsed to one space, trimmed; empty when there is none.
pub open spec fn sanitized(value: Option<Seq<char>>) -> Seq<char> {
    match value {
        Some(v) => trim(collapse_ws(strip_tags(v))),
        None => Seq::empty(),
    }
}

pub open spec fn opt_seq(v: Option<&str>) -> Option<Seq<char>> {
    match v {
        Some(s) => Some(s@),
        None => None,
    }
}

pub open spec fn opt_string(v: Option<String>) -> Option<Seq<char>> {
    match v {
        Some(s) => Some(s@),
        None => None,
    }
}

/// The value, or `d` when absent.
pub open spec fn or_else(v: Option<Seq<char>>, d: Seq<char>) -> Seq<char> {
    match v {
        Some(s) => s,
        None => d,
    }
}

/// Strips tags from a search highlight and normalizes its whitespace.
pub fn sanitize_highlight(value: Option<&str>) -> (r: String)
    ensures
        r@ == sanitized(opt_seq(value)),
{
    match value {
        Some(v) => {
            let no_tags = regex_replace_all("<[^>]+>", v, "");
            let spaced = regex_replace_all("\\s+", no_tags.as_str(), " ");
            trimmed(spaced.as_str())
        },
        None => String::new(),
    }
}

/// An id in backticks, or `Unknown`.
pub open spec fn optional_id(v: Option<Seq<char>>) -> Seq<char> {
    match v {
        Some(s) => "`"@ + s + "`"@,
        None => "Unknown"@,
    }
}

fn optional_id_exec(v: &Option<String>) -> (r: String)
    ensures
        r@ == optional_id(opt_string(*v)),
{
    match v {
        Some(s) => cat3("`", s.as_str(), "`"),
        None => owned("Unknown"),
    }
}

fn or_else_exec(v: &Option<String>, d: &str) -> (r: String)
    ensures
        r@ == or_else(opt_string(*v), d@),
{
    match v {
        Some(s) => s.clone(),
        None => owned(d),
    }
}

/// `### {n}. {title}`, with the icon before the title when there is one.
pub open spec fn entry_heading(n: nat, icon: Seq<char>, title: Seq<char>) -> Seq<char> {
    if icon.len() == 0 {
        "### "@ + decimal(n) + ". "@ + title
    } else {
        "### "@ + decimal(n) + ". "@ + icon + " "@ + title
    }
}

fn entry_heading_exec(n: u64, icon: &str, title: &str) -> (r: String)
    ensures
        r@ == entry_heading(n as nat, icon@, title@),
{
    let mut r = cat("### ", decimal_string(n).as_str());
    r.append(". ");
    if !icon.is_empty() {
        r.append(icon);
        r.append(" ");
    }
    r.append(title);
    r
}

fn push_line(out: &mut Vec<String>, s: String)
    ensures
        strs(final(out)@) == strs(old(out)@).push(s@),
{
    proof {
        lemma_strs_push(out@, s);
    }
    out.push(s);
}

/// The lines for one search hit (numbered `n`).
pub open spec fn search_entry(r: DocmostSearchResult, n: nat) -> Seq<Seq<char>> {
    let space_name = match r.space {
        Some(sp) => or_else(opt_string(sp.name), "Unknown"@),
        None => "Unknown"@,
    };
    let preview = sanitized(opt_string(r.highlight));
    seq![
        entry_heading(n, or_else(opt_string(r.icon), Seq::empty()), or_else(opt_string(r.title), "Untitled"@)),
        "- Space: "@ + space_name,
        "- Page ID: "@ + optional_id(opt_string(r.id)),
        "- Slug ID: `"@ + r.slug_id@ + "`"@,
    ] + (if preview.len() > 0 {
        seq!["- Preview: "@ + preview]
    } else {
        Seq::empty()
    }) + seq![Seq::empty()]
}

/// The lines for the first `k` search hits.
pub open spec fn search_entries(results: Seq<DocmostSearchResult>, k: nat) -> Seq<Seq<char>>
    decreases k,
{
    if k == 0 || k > results.len() {
        Seq::empty()
    } else {
        search_entries(results, (k - 1) as nat) + search_entry(results[k - 1], k)
    }
}

pub open spec fn min_nat(a: nat, b: nat) -> nat {
    if a < b {
        a
    } else {
        b
    }
}

/// The search answer: up to five hits, then how many were shown.
pub open spec fn search_results_md(query: Seq<char>, results: Seq<DocmostSearchResult>) -> Seq<char> {
    if results.len() == 0 {
        "No Docmost results were found for \""@ + query + "\"."@
    } else {
        let shown = min_nat(5, results.len());
        join(
            seq!["## Search Results for \""@ + query + "\""@, Seq::empty()] + search_entries(
                results,
                shown,
            ) + seq![
                "Showing "@ + decimal(shown) + " of "@ + decimal(results.len()) + " results."@,
                "Use `get_page` with a slug ID to retrieve the full page."@,
            ],
            "\n"@,
        )
    }
}

fn quoted(prefix: &str, q: &str, suffix: &str) -> (r: String)
    ensures
        r@ == prefix@ + q@ + suffix@,
{
    cat3(prefix, q, suffix)
}

fn push_search_entry(lines: &mut Vec<String>, r: &DocmostSearchResult, n: u64)
    ensures
        strs(final(lines)@) == strs(old(lines)@) + search_entry(*r, n as nat),
{
    let ghost before = strs(lines@);
    proof {
        reveal_strlit("");
    }
    let icon = or_else_exec(&r.icon, "");
    let title = or_else_exec(&r.title, "Untitled");
    push_line(lines, entry_heading_exec(n, icon.as_str(), title.as_str()));
    let space_name = match &r.space {
        Some(sp) => or_else_exec(&sp.name, "Unknown"),
        None => owned("Unknown"),
    };
    push_line(lines, cat("- Space: ", space_name.as_str()));
    push_line(lines, cat("- Page ID: ", optional_id_exec(&r.id).as_str()));
    push_line(lines, cat3("- Slug ID: `", r.slug_id.as_str(), "`"));
    let hl: Option<&str> = match &r.highlight {
        Some(h) => Some(h.as_str()),
        None => None,
    };
    assert(opt_string(r.highlight) == opt_seq(hl));
    let preview = sanitize_highlight(hl);
    let ghost mid = strs(lines@);
    if !preview.as_str().is_empty() {
        push_line(lines, cat("- Preview: ", preview.as_str()));
    }
    push_line(lines, String::new());
    let ghost e = search_entry(*r, n as nat);
    assert(strs(lines@) =~= before + e);
}

/// Renders search hits as Markdown.
pub fn format_search_results(query: &str, results: &[DocmostSearchResult]) -> (r: String)
    ensures
        r@ == search_results_md(query@, results@),
{
    if results.len() == 0 {
        return quoted("No Docmost results were found for \"", query, "\".");
    }
    let mut lines: Vec<String> = Vec::new();
    push_line(&mut lines, quoted("## Search Results for \"", query, "\""));
    push_line(&mut lines, String::new());
    let shown: usize = if results.len() < 5 {
        results.len()
    } else {
        5
    };
    let ghost head = strs(lines@);
    assert(head =~= seq!["## Search Results for \""@ + query@ + "\""@, Seq::<char>::empty()]);
    let mut i: usize = 0;
    while i < shown
        invariant
            i <= shown <= results@.len(),
            shown <= 5,
            strs(lines@) == head + search_entries(results@, i as nat),
        decreases shown - i,
    {
        push_search_entry(&mut lines, &results[i], (i + 1) as u64);
        i += 1;
    }
    let ghost body = strs(lines@);
    let mut last = cat("Showing ", decimal_string(shown as u64).as_str());
    last.append(" of ");
    last.append(decimal_string(results.len() as u64).as_str());
    last.append(" results.");
    push_line(&mut lines, last);
    push_line(&mut lines, owned("Use `get_page` with a slug ID to retrieve the full page."));
    assert(strs(lines@) =~= body + seq![
        "Showing "@ + decimal(shown as nat) + " of "@ + decimal(results@.len()) + " results."@,
        "Use `get_page` with a slug ID to retrieve the full page."@,
    ]);
    join_strings(&lines, "\n")
}

/// The lines for one listed page (numbered `n`).
pub open spec fn page_entry(p: DocmostPageListItem, n: nat) -> Seq<Seq<char>> {
    seq![
        entry_heading(n, or_else(opt_string(p.icon), Seq::empty()), or_else(opt_string(p.title), "Untitled"@)),
        "- Page ID: `"@ + p.id@ + "`"@,
        "- Slug ID: `"@ + p.slug_id@ + "`"@,
        "- Parent Page ID: "@ + optional_id(opt_string(p.parent_page_id)),
        "- Has Children: "@ + (if p.has_children == Some(true) {
            "true"@
        } else {
            "false"@
        }),
        Seq::empty(),
    ]
}

pub open spec fn page_entries(pages: Seq<DocmostPageListItem>, k: nat) -> Seq<Seq<char>>
    decreases k,
{
    if k == 0 || k > pages.len() {
        Seq::empty()
    } else {
        page_entries(pages, (k - 1) as nat) + page_entry(pages[k - 1], k)
    }
}

/// A page listing: up to ten pages, then how many were shown.
pub open spec fn page_list_md(title: Seq<char>, scope: Seq<char>, pages: Seq<DocmostPageListItem>) -> Seq<char> {
    if pages.len() == 0 {
        "No Docmost pages were found for "@ + scope + "."@
    } else {
        let shown = min_nat(10, pages.len());
        join(
            seq!["## "@ + title, Seq::empty()] + page_entries(pages, shown) + seq![
                "Showing "@ + decimal(shown) + " of "@ + decimal(pages.len()) + " pages."@,
            ],
            "\n"@,
        )
    }
}

/// Renders a page listing as Markdown.
pub fn format_page_list(title: &str, scope: &str, pages: &[DocmostPageListItem]) -> (r: String)
    ensures
        r@ == page_list_md(title@, scope@, pages@),
{
    if pages.len() == 0 {
        return quoted("No Docmost pages were found for ", scope, ".");
    }
    let mut lines: Vec<String> = Vec::new();
    push_line(&mut lines, cat("## ", title));
    push_line(&mut lines, String::new());
    let shown: usize = if pages.len() < 10 {
        pages.len()
    } else {
        10
    };
    let ghost head = strs(lines@);
    assert(head =~= seq!["## "@ + title@, Seq::<char>::empty()]);
    let mut i: usize = 0;
    while i < shown
        invariant
            i <= shown <= pages@.len(),
            shown <= 10,
            strs(lines@) == head + page_entries(pages@, i as nat),
        decreases shown - i,
    {
        let p = &pages[i];
        let ghost before = strs(lines@);
        proof {
            reveal_strlit("");
        }
        let icon = or_else_exec(&p.icon, "");
        let t = or_else_exec(&p.title, "Untitled");
        push_line(&mut lines, entry_heading_exec((i + 1) as u64, icon.as_str(), t.as_str()));
        push_line(&mut lines, cat3("- Page ID: `", p.id.as_str(), "`"));
        push_line(&mut lines, cat3("- Slug ID: `", p.slug_id.as_str(), "`"));
        push_line(&mut lines, cat("- Parent Page ID: ", optional_id_exec(&p.parent_page_id).as_str()));
        let has = match p.has_children {
            Some(b) => b,
            None => false,
        };
        push_line(&mut lines, cat("- Has Children: ", if has { "true" } else { "false" }));
        push_line(&mut lines, String::new());
        assert(strs(lines@) =~= before + page_entry(pages@[i as int], (i + 1) as nat));
        i += 1;
    }
    let ghost body = strs(lines@);
    let mut last = cat("Showing ", decimal_string(shown as u64).as_str());
    last.append(" of ");
    last.append(decimal_string(pages.len() as u64).as_str());
    last.append(" pages.");
    push_line(&mut lines, last);
    assert(strs(lines@) =~= body + seq![
        "Showing "@ + decimal(shown as nat) + " of "@ + decimal(pages@.len()) + " pages."@,
    ]);
    join_strings(&lines, "\n")
}

} // verus!

verus! {

/// The lines for one comment (numbered `n`).
pub open spec fn comment_entry(c: DocmostComment, n: nat) -> Seq<Seq<char>> {
    let author = match c.creator {
        Some(u) => or_else(opt_string(u.name), "Unknown"@),
        None => "Unknown"@,
    };
    seq![
        "### "@ + decimal(n) + ". Comment `"@ + c.id@ + "`"@,
        "- Author: "@ + author,
        "- Parent Comment ID: "@ + optional_id(opt_string(c.parent_comment_id)),
        "- Selection: "@ + or_else(opt_string(c.selection), "None"@),
        "- Resolved: "@ + (if c.resolved_at is Some {
            "Yes"@
        } else {
            "No"@
        }),
        Seq::empty(),
    ]
}

/// A comment's `Resolved` line reads `Yes` exactly when the comment has a
/// `resolved_at` time and `No` exactly when it has none, whatever its other
/// fields (who resolved it included); the line is the fifth of the entry.
pub proof fn law_resolved_line(c: DocmostComment, d: DocmostComment, n: nat)
    requires
        d.resolved_at is Some <==> c.resolved_at is Some,
    ensures
        comment_entry(c, n).len() == 6,
        comment_entry(c, n)[4] == "- Resolved: Yes"@ <==> c.resolved_at is Some,
        comment_entry(c, n)[4] == "- Resolved: No"@ <==> c.resolved_at is None,
        comment_entry(c, n)[4] == comment_entry(d, n)[4],
{
    reveal_strlit("- Resolved: ");
    reveal_strlit("- Resolved: Yes");
    reveal_strlit("- Resolved: No");
    reveal_strlit("Yes");
    reveal_strlit("No");
    assert("- Resolved: "@ + "Yes"@ =~= "- Resolved: Yes"@);
    assert("- Resolved: "@ + "No"@ =~= "- Resolved: No"@);
    assert("- Resolved: Yes"@ != "- Resolved: No"@) by {
        assert("- Resolved: Yes"@.len() != "- Resolved: No"@.len());
    }
}

/// The other lines of a comment's entry: the author is the creator's name
/// (`Unknown` when there is no creator or no name), the parent comment id is
/// shown in backticks (`Unknown` when absent), the selection as given
/// (`None` when absent), and a blank line closes the entry.
pub proof fn law_comment_entry_lines(c: DocmostComment, n: nat)
    ensures
        (c.creator is Some && c.creator->0.name is Some) ==> comment_entry(c, n)[1] == "- Author: "@
            + c.creator->0.name->0@,
        (c.creator is None || c.creator->0.name is None) ==> comment_entry(c, n)[1]
            == "- Author: Unknown"@,
        c.parent_comment_id is Some ==> comment_entry(c, n)[2] == "- Parent Comment ID: `"@
            + c.parent_comment_id->0@ + "`"@,
        c.parent_comment_id is None ==> comment_entry(c, n)[2] == "- Parent Comment ID: Unknown"@,
        c.selection is Some ==> comment_entry(c, n)[3] == "- Selection: "@ + c.selection->0@,
        c.selection is None ==> comment_entry(c, n)[3] == "- Selection: None"@,
        comment_entry(c, n)[5].len() == 0,
{
    reveal_strlit("- Author: ");
    reveal_strlit("Unknown");
    reveal_strlit("- Author: Unknown");
    reveal_strlit("- Parent Comment ID: ");
    reveal_strlit("- Parent Comment ID: Unknown");
    reveal_strlit("- Selection: ");
    reveal_strlit("None");
    reveal_strlit("- Selection: None");
    assert("- Author: "@ + "Unknown"@ =~= "- Author: Unknown"@);
    assert("- Parent Comment ID: "@ + "Unknown"@ =~= "- Parent Comment ID: Unknown"@);
    assert("- Selection: "@ + "None"@ =~= "- Selection: None"@);
    if c.parent_comment_id is Some {
        let p = c.parent_comment_id->0@;
        assert("- Parent Comment ID: "@ + ("`"@ + p + "`"@) =~= "- Parent Comment ID: `"@ + p + "`"@)
            by {
            reveal_strlit("- Parent Comment ID: `");
            reveal_strlit("`");
        }
    }
}

pub open spec fn comment_entries(comments: Seq<DocmostComment>, k: nat) -> Seq<Seq<char>>
    decreases k,
{
    if k == 0 || k > comments.len() {
        Seq::empty()
    } else {
        comment_entries(comments, (k - 1) as nat) + comment_entry(comments[k - 1], k)
    }
}

/// A page's comments: up to ten, then how many were shown.
pub open spec fn comments_md(page_id: Seq<char>, comments: Seq<DocmostComment>) -> Seq<char> {
    if comments.len() == 0 {
        "No comments were found for page `"@ + page_id + "`."@
    } else {
        let shown = min_nat(10, comments.len());
        join(
            seq!["## Comments for Page `"@ + page_id + "`"@, Seq::empty()] + comment_entries(
                comments,
                shown,
            ) + seq!["Showing "@ + decimal(shown) + " of "@ + decimal(comments.len()) + " comments."@],
            "\n"@,
        )
    }
}

/// Renders a page's comments as Markdown.
pub fn format_comments(page_id: &str, comments: &[DocmostComment]) -> (r: String)
    ensures
        r@ == comments_md(page_id@, comments@),
{
    if comments.len() == 0 {
        return quoted("No comments were found for page `", page_id, "`.");
    }
    let mut lines: Vec<String> = Vec::new();
    push_line(&mut lines, quoted("## Comments for Page `", page_id, "`"));
    push_line(&mut lines, String::new());
    let shown: usize = if comments.len() < 10 {
        comments.len()
    } else {
        10
    };
    let ghost head = strs(lines@);
    assert(head =~= seq!["## Comments for Page `"@ + page_id@ + "`"@, Seq::<char>::empty()]);
    let mut i: usize = 0;
    while i < shown
        invariant
            i <= shown <= comments@.len(),
            shown <= 10,
            strs(lines@) == head + comment_entries(comments@, i as nat),
        decreases shown - i,
    {
        let c = &comments[i];
        let ghost before = strs(lines@);
        let mut h = cat("### ", decimal_string((i + 1) as u64).as_str());
        h.append(". Comment `");
        h.append(c.id.as_str());
        h.append("`");
        push_line(&mut lines, h);
        let author = match &c.creator {
            Some(u) => or_else_exec(&u.name, "Unknown"),
            None => owned("Unknown"),
        };
        push_line(&mut lines, cat("- Author: ", author.as_str()));
        push_line(&mut lines, cat("- Parent Comment ID: ", optional_id_exec(&c.parent_comment_id).as_str()));
        push_line(&mut lines, cat("- Selection: ", or_else_exec(&c.selection, "None").as_str()));
        push_line(&mut lines, cat("- Resolved: ", if c.resolved_at.is_some() { "Yes" } else { "No" }));
        push_line(&mut lines, String::new());
        assert(strs(lines@) =~= before + comment_entry(comments@[i as int], (i + 1) as nat));
        i += 1;
    }
    let ghost body = strs(lines@);
    let mut last = cat("Showing ", decimal_string(shown as u64).as_str());
    last.append(" of ");
    last.append(decimal_string(comments.len() as u64).as_str());
    last.append(" comments.");
    push_line(&mut lines, last);
    assert(strs(lines@) =~= body + seq!["Showing "@ + decimal(shown as nat) + " of "@ + decimal(comments@.len()) + " comments."@]);
    join_strings(&lines, "\n")
}

/// One member as a table row.
pub open spec fn member_row(m: DocmostUser) -> Seq<char> {
    "| "@ + or_else(opt_string(m.name), "Unknown"@) + " | "@ + or_else(opt_string(m.email), "Unknown"@) + " | "@
        + or_else(opt_string(m.role), "Unknown"@) + " | "@ + m.id@ + " |"@
}

/// The workspace members: a table of up to twenty, then how many were
/// shown.
pub open spec fn members_md(members: Seq<DocmostUser>) -> Seq<char> {
    if members.len() == 0 {
        "No Docmost workspace members were found."@
    } else {
        let shown = min_nat(20, members.len());
        join(
            seq![
                "## Workspace Members"@,
                Seq::empty(),
                "| Name | Email | Role | ID |"@,
                "| --- | --- | --- | --- |"@,
            ] + Seq::new(shown, |i: int| member_row(members[i])) + seq![
                Seq::empty(),
                "Showing "@ + decimal(shown) + " of "@ + decimal(members.len()) + " members."@,
            ],
            "\n"@,
        )
    }
}

/// Renders the workspace members as a Markdown table.
pub fn format_workspace_members(members: &[DocmostUser]) -> (r: String)
    ensures
        r@ == members_md(members@),
{
    if members.len() == 0 {
        return owned("No Docmost workspace members were found.");
    }
    let mut lines: Vec<String> = Vec::new();
    push_line(&mut lines, owned("## Workspace Members"));
    push_line(&mut lines, String::new());
    push_line(&mut lines, owned("| Name | Email | Role | ID |"));
    push_line(&mut lines, owned("| --- | --- | --- | --- |"));
    let ghost head = strs(lines@);
    assert(head =~= seq![
        "## Workspace Members"@,
        Seq::<char>::empty(),
        "| Name | Email | Role | ID |"@,
        "| --- | --- | --- | --- |"@,
    ]);
    let shown: usize = if members.len() < 20 {
        members.len()
    } else {
        20
    };
    let mut i: usize = 0;
    while i < shown
        invariant
            i <= shown <= members@.len(),
            strs(lines@) == head + Seq::new(i as nat, |k: int| member_row(members@[k])),
        decreases shown - i,
    {
        let m = &members[i];
        let mut row = cat("| ", or_else_exec(&m.name, "Unknown").as_str());
        row.append(" | ");
        row.append(or_else_exec(&m.email, "Unknown").as_str());
        row.append(" | ");
        row.append(or_else_exec(&m.role, "Unknown").as_str());
        row.append(" | ");
        row.append(m.id.as_str());
        row.append(" |");
        push_line(&mut lines, row);
        i += 1;
        assert(strs(lines@) =~= head + Seq::new(i as nat, |k: int| member_row(members@[k])));
    }
    let ghost body = strs(lines@);
    push_line(&mut lines, String::new());
    let mut last = cat("Showing ", decimal_string(shown as u64).as_str());
    last.append(" of ");
    last.append(decimal_string(members.len() as u64).as_str());
    last.append(" members.");
    push_line(&mut lines, last);
    assert(strs(lines@) =~= body + seq![
        Seq::<char>::empty(),
        "Showing "@ + decimal(shown as nat) + " of "@ + decimal(members@.len()) + " members."@,
    ]);
    join_strings(&lines, "\n")
}

/// The current user and their workspace.
pub open spec fn current_user_md(r: DocmostCurrentUserResponse) -> Seq<char> {
    join(
        seq![
            "# Current Docmost User"@,
            Seq::empty(),
            "Name: "@ + or_else(opt_string(r.user.name), "Unknown"@),
            "User ID: `"@ + r.user.id@ + "`"@,
            "Email: "@ + or_else(opt_string(r.user.email), "Unknown"@),
            "Role: "@ + or_else(opt_string(r.user.role), "Unknown"@),
            Seq::empty(),
            "## Workspace"@,
            Seq::empty(),
            "Name: "@ + or_else(opt_string(r.workspace.name), "Unknown"@),
            "Workspace ID: `"@ + r.workspace.id@ + "`"@,
            "Hostname: "@ + or_else(opt_string(r.workspace.hostname), "Unknown"@),
            "Member count: "@ + match r.workspace.member_count {
                Some(n) => crate::text::signed_decimal(n as int),
                None => "Unknown"@,
            },
        ],
        "\n"@,
    )
}

/// Renders the current user and workspace as Markdown.
pub fn format_current_user(response: &DocmostCurrentUserResponse) -> (r: String)
    ensures
        r@ == current_user_md(*response),
{
    let u = &response.user;
    let w = &response.workspace;
    let mut lines: Vec<String> = Vec::new();
    push_line(&mut lines, owned("# Current Docmost User"));
    push_line(&mut lines, String::new());
    push_line(&mut lines, cat("Name: ", or_else_exec(&u.name, "Unknown").as_str()));
    push_line(&mut lines, cat3("User ID: `", u.id.as_str(), "`"));
    push_line(&mut lines, cat("Email: ", or_else_exec(&u.email, "Unknown").as_str()));
    push_line(&mut lines, cat("Role: ", or_else_exec(&u.role, "Unknown").as_str()));
    push_line(&mut lines, String::new());
    push_line(&mut lines, owned("## Workspace"));
    push_line(&mut lines, String::new());
    push_line(&mut lines, cat("Name: ", or_else_exec(&w.name, "Unknown").as_str()));
    push_line(&mut lines, cat3("Workspace ID: `", w.id.as_str(), "`"));
    push_line(&mut lines, cat("Hostname: ", or_else_exec(&w.hostname, "Unknown").as_str()));
    let count = match w.member_count {
        Some(n) => crate::text::signed_decimal_string(n),
        None => owned("Unknown"),
    };
    push_line(&mut lines, cat("Member count: ", count.as_str()));
    assert(strs(lines@) =~= seq![
        "# Current Docmost User"@,
        Seq::<char>::empty(),
        "Name: "@ + or_else(opt_string(u.name), "Unknown"@),
        "User ID: `"@ + u.id@ + "`"@,
        "Email: "@ + or_else(opt_string(u.email), "Unknown"@),
        "Role: "@ + or_else(opt_string(u.role), "Unknown"@),
        Seq::<char>::empty(),
        "## Workspace"@,
        Seq::<char>::empty(),
        "Name: "@ + or_else(opt_string(w.name), "Unknown"@),
        "Workspace ID: `"@ + w.id@ + "`"@,
        "Hostname: "@ + or_else(opt_string(w.hostname), "Unknown"@),
        "Member count: "@ + match w.member_count {
            Some(n) => crate::text::signed_decimal(n as int),
            None => "Unknown"@,
        },
    ]);
    join_strings(&lines, "\n")
}

} // verus!
