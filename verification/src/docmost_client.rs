//! The Docmost API calls the server makes: which endpoint each operation
//! posts to with which JSON payload, how list responses are read, where a
//! moved page goes, and when a request is retried.
//!
//! Sending the requests (HTTP, sign-in, reading responses) happens outside
//! the library; this module decides what is sent and what a reply means.

use vstd::prelude::*;
use crate::json::{Json, JsonNumber, JVal, JNum, entry_views, entry_push};
use crate::types::DocmostPageListItem;
use crate::position::base62::lex_lt;
use crate::position::arith::lex_less;
use crate::text::{owned, chars_of, trim, trimmed, cat3, is_blank};

verus! {

/// A list response: a bare array, or an object with an `items` array.
pub enum ListResult<T> {
    List(Vec<T>),
    Wrapped { items: Option<Vec<T>> },
}

/// A cursor-paginated list response.
pub struct CursorListResult<T> {
    pub items: Option<Vec<T>>,
}

/// The items of a list response; none for a missing response or items.
pub fn normalize_list_result<T>(result: Option<ListResult<T>>) -> (r: Vec<T>)
    ensures
        r@ == match result {
            Some(ListResult::List(items)) => items@,
            Some(ListResult::Wrapped { items: Some(items) }) => items@,
            _ => Seq::<T>::empty(),
        },
{
    match result {
        Some(ListResult::List(items)) => items,
        Some(ListResult::Wrapped { items }) => match items {
            Some(v) => v,
            None => Vec::new(),
        },
        None => Vec::new(),
    }
}

/// The items of a cursor-paginated response; none when missing.
pub fn normalize_cursor_list_result<T>(result: CursorListResult<T>) -> (r: Vec<T>)
    ensures
        r@ == match result.items {
            Some(items) => items@,
            None => Seq::<T>::empty(),
        },
{
    match result.items {
        Some(v) => v,
        None => Vec::new(),
    }
}

/// One API call: the endpoint path and the JSON body.
pub struct ApiCall {
    pub endpoint: String,
    pub payload: Json,
}

/// An entry when the value is present.
pub open spec fn opt_entry(key: Seq<char>, v: Option<JVal>) -> Seq<(Seq<char>, JVal)> {
    match v {
        Some(x) => seq![(key, x)],
        None => Seq::empty(),
    }
}

pub open spec fn str_val(v: Option<&str>) -> Option<JVal> {
    match v {
        Some(s) => Some(JVal::Str(s@)),
        None => None,
    }
}

pub open spec fn u32_val(v: Option<u32>) -> Option<JVal> {
    match v {
        Some(n) => Some(JVal::Number(JNum::Unsigned(n as u64))),
        None => None,
    }
}

pub open spec fn bool_val(v: Option<bool>) -> Option<JVal> {
    match v {
        Some(b) => Some(JVal::Bool(b)),
        None => None,
    }
}

/// Whether `c` posts `payload` to `endpoint`.
pub open spec fn is_call(c: ApiCall, endpoint: Seq<char>, payload: Seq<(Seq<char>, JVal)>) -> bool {
    c.endpoint@ == endpoint && c.payload@ == JVal::Object(payload)
}

fn put_str(es: &mut Vec<(String, Json)>, key: &str, v: &str)
    ensures
        entry_views(final(es)@) == entry_views(old(es)@).push((key@, JVal::Str(v@))),
{
    entry_push(es, owned(key), Json::String(owned(v)));
}

fn put_opt_str(es: &mut Vec<(String, Json)>, key: &str, v: Option<&str>)
    ensures
        entry_views(final(es)@) == entry_views(old(es)@) + opt_entry(key@, str_val(v)),
{
    match v {
        Some(s) => put_str(es, key, s),
        None => {},
    }
    assert(entry_views(es@) =~= entry_views(old(es)@) + opt_entry(key@, str_val(v)));
}

fn put_opt_u32(es: &mut Vec<(String, Json)>, key: &str, v: Option<u32>)
    ensures
        entry_views(final(es)@) == entry_views(old(es)@) + opt_entry(key@, u32_val(v)),
{
    match v {
        Some(n) => entry_push(es, owned(key), Json::Number(JsonNumber::Unsigned(n as u64))),
        None => {},
    }
    assert(entry_views(es@) =~= entry_views(old(es)@) + opt_entry(key@, u32_val(v)));
}

fn put_opt_bool(es: &mut Vec<(String, Json)>, key: &str, v: Option<bool>)
    ensures
        entry_views(final(es)@) == entry_views(old(es)@) + opt_entry(key@, bool_val(v)),
{
    match v {
        Some(b) => entry_push(es, owned(key), Json::Bool(b)),
        None => {},
    }
    assert(entry_views(es@) =~= entry_views(old(es)@) + opt_entry(key@, bool_val(v)));
}

fn no_entries() -> (es: Vec<(String, Json)>)
    ensures
        entry_views(es@) == Seq::<(Seq<char>, JVal)>::empty(),
{
    let es: Vec<(String, Json)> = Vec::new();
    proof {
        crate::json::lemma_entry_views(es@);
    }
    es
}

fn call(endpoint: &str, es: Vec<(String, Json)>) -> (c: ApiCall)
    ensures
        c.endpoint@ == endpoint@,
        c.payload@ == JVal::Object(entry_views(es@)),
{
    ApiCall { endpoint: owned(endpoint), payload: Json::Object(es) }
}

/// `list_spaces`: the first hundred spaces.
pub fn list_spaces_call() -> (c: ApiCall)
    ensures
        is_call(
            c,
            "/api/spaces"@,
            seq![("page"@, JVal::Number(JNum::Unsigned(1))), ("limit"@, JVal::Number(JNum::Unsigned(100)))],
        ),
{
    let mut es = no_entries();
    entry_push(&mut es, owned("page"), Json::Number(JsonNumber::Unsigned(1)));
    entry_push(&mut es, owned("limit"), Json::Number(JsonNumber::Unsigned(100)));
    assert(entry_views(es@) =~= seq![("page"@, JVal::Number(JNum::Unsigned(1))), ("limit"@, JVal::Number(JNum::Unsigned(100)))]);
    call("/api/spaces", es)
}

/// `search_docs`: the query, scoped to a space when one is given.
pub fn search_docs_call(query: &str, space_id: Option<&str>) -> (c: ApiCall)
    ensures
        is_call(c, "/api/search"@, seq![("query"@, JVal::Str(query@))] + opt_entry("spaceId"@, str_val(space_id))),
{
    let mut es = no_entries();
    put_str(&mut es, "query", query);
    put_opt_str(&mut es, "spaceId", space_id);
    assert(entry_views(es@) =~= seq![("query"@, JVal::Str(query@))] + opt_entry("spaceId"@, str_val(space_id)));
    call("/api/search", es)
}

/// `get_space`.
pub fn get_space_call(space_id: &str) -> (c: ApiCall)
    ensures
        is_call(c, "/api/spaces/info"@, seq![("spaceId"@, JVal::Str(space_id@))]),
{
    let mut es = no_entries();
    put_str(&mut es, "spaceId", space_id);
    assert(entry_views(es@) =~= seq![("spaceId"@, JVal::Str(space_id@))]);
    call("/api/spaces/info", es)
}

/// `get_page`, by slug id (or page id).
pub fn get_page_call(slug_id: &str) -> (c: ApiCall)
    ensures
        is_call(c, "/api/pages/info"@, seq![("pageId"@, JVal::Str(slug_id@))]),
{
    let mut es = no_entries();
    put_str(&mut es, "pageId", slug_id);
    assert(entry_views(es@) =~= seq![("pageId"@, JVal::Str(slug_id@))]);
    call("/api/pages/info", es)
}

/// A paged listing under one id: the id, then `limit` and `cursor` when
/// given.
pub open spec fn paged(id_key: Seq<char>, id: Seq<char>, limit: Option<u32>, cursor: Option<&str>) -> Seq<
    (Seq<char>, JVal),
> {
    seq![(id_key, JVal::Str(id))] + opt_entry("limit"@, u32_val(limit)) + opt_entry(
        "cursor"@,
        str_val(cursor),
    )
}

fn paged_call(endpoint: &str, id_key: &str, id: &str, limit: Option<u32>, cursor: Option<&str>) -> (c: ApiCall)
    ensures
        is_call(c, endpoint@, paged(id_key@, id@, limit, cursor)),
{
    let mut es = no_entries();
    put_str(&mut es, id_key, id);
    put_opt_u32(&mut es, "limit", limit);
    put_opt_str(&mut es, "cursor", cursor);
    assert(entry_views(es@) =~= paged(id_key@, id@, limit, cursor));
    call(endpoint, es)
}

/// `list_pages`: a space's recent pages.
pub fn list_pages_call(space_id: &str, limit: Option<u32>, cursor: Option<&str>) -> (c: ApiCall)
    ensures
        is_call(c, "/api/pages/recent"@, paged("spaceId"@, space_id@, limit, cursor)),
{
    paged_call("/api/pages/recent", "spaceId", space_id, limit, cursor)
}

/// `list_child_pages`: a page's children.
pub fn list_child_pages_call(page_id: &str, limit: Option<u32>, cursor: Option<&str>) -> (c: ApiCall)
    ensures
        is_call(c, "/api/pages/sidebar-pages"@, paged("pageId"@, page_id@, limit, cursor)),
{
    paged_call("/api/pages/sidebar-pages", "pageId", page_id, limit, cursor)
}

/// `get_comments`: a page's comments.
pub fn get_comments_call(page_id: &str, limit: Option<u32>, cursor: Option<&str>) -> (c: ApiCall)
    ensures
        is_call(c, "/api/comments"@, paged("pageId"@, page_id@, limit, cursor)),
{
    paged_call("/api/comments", "pageId", page_id, limit, cursor)
}

/// `list_workspace_members`: only the filters given.
pub fn list_workspace_members_call(
    limit: Option<u32>,
    cursor: Option<&str>,
    query: Option<&str>,
    admin_view: Option<bool>,
) -> (c: ApiCall)
    ensures
        is_call(
            c,
            "/api/workspace/members"@,
            opt_entry("limit"@, u32_val(limit)) + opt_entry("cursor"@, str_val(cursor)) + opt_entry(
                "query"@,
                str_val(query),
            ) + opt_entry("adminView"@, bool_val(admin_view)),
        ),
{
    let mut es = no_entries();
    put_opt_u32(&mut es, "limit", limit);
    put_opt_str(&mut es, "cursor", cursor);
    put_opt_str(&mut es, "query", query);
    put_opt_bool(&mut es, "adminView", admin_view);
    assert(entry_views(es@) =~= opt_entry("limit"@, u32_val(limit)) + opt_entry("cursor"@, str_val(cursor)) + opt_entry(
        "query"@,
        str_val(query),
    ) + opt_entry("adminView"@, bool_val(admin_view)));
    call("/api/workspace/members", es)
}

/// `get_current_user`.
pub fn get_current_user_call() -> (c: ApiCall)
    ensures
        is_call(c, "/api/users/me"@, Seq::empty()),
{
    call("/api/users/me", no_entries())
}

/// The server's version (`POST /api/version`, answered with `{ currentVersion }`).
pub fn version_call() -> (c: ApiCall)
    ensures
        is_call(c, "/api/version"@, Seq::empty()),
{
    call("/api/version", no_entries())
}

/// How a page is created.
pub enum CreatePageRequest {
    /// Upload `document` as a Markdown file to the import endpoint.
    Import { space_id: String, document: String },
    /// Post to the create endpoint.
    Create(ApiCall),
}

/// The Markdown document imported for a page: the title as a level-1
/// heading, a blank line, then the body.
pub open spec fn import_document(title: Seq<char>, markdown: Seq<char>) -> Seq<char> {
    "# "@ + title + "\n\n"@ + markdown
}

/// `create_page`: a non-blank body goes through the import endpoint (which
/// takes no parent); otherwise the page is created from its title, under the
/// parent when one is given.
pub fn create_page_request(
    space_id: &str,
    title: &str,
    markdown: Option<&str>,
    parent_page_id: Option<&str>,
) -> (r: CreatePageRequest)
    ensures
        match markdown {
            Some(md) if trim(md@).len() > 0 => r matches CreatePageRequest::Import { space_id: s, document: d }
                && s@ == space_id@ && d@ == import_document(title@, md@),
            _ => r matches CreatePageRequest::Create(c) && is_call(
                c,
                "/api/pages/create"@,
                seq![("spaceId"@, JVal::Str(space_id@)), ("title"@, JVal::Str(title@))] + opt_entry(
                    "parentPageId"@,
                    str_val(parent_page_id),
                ),
            ),
        },
{
    match markdown {
        Some(md) => {
            if !is_blank(md) {
                let mut document = cat3("# ", title, "\n\n");
                document.append(md);
                return CreatePageRequest::Import { space_id: owned(space_id), document };
            }
        },
        None => {},
    }
    let mut es = no_entries();
    put_str(&mut es, "spaceId", space_id);
    put_str(&mut es, "title", title);
    put_opt_str(&mut es, "parentPageId", parent_page_id);
    assert(entry_views(es@) =~= seq![("spaceId"@, JVal::Str(space_id@)), ("title"@, JVal::Str(title@))] + opt_entry(
        "parentPageId"@,
        str_val(parent_page_id),
    ));
    CreatePageRequest::Create(call("/api/pages/create", es))
}

/// `update_page`: the title when given, and with new content also the
/// `replace` operation and `json` format Docmost needs to apply it.
pub fn update_page_call(page_id: &str, title: Option<&str>, content: Option<Json>) -> (c: ApiCall)
    ensures
        is_call(
            c,
            "/api/pages/update"@,
            seq![("pageId"@, JVal::Str(page_id@))] + opt_entry("title"@, str_val(title)) + match content {
                Some(j) => seq![
                    ("content"@, j@),
                    ("operation"@, JVal::Str("replace"@)),
                    ("format"@, JVal::Str("json"@)),
                ],
                None => Seq::empty(),
            },
        ),
{
    let mut es = no_entries();
    put_str(&mut es, "pageId", page_id);
    put_opt_str(&mut es, "title", title);
    let ghost e1 = entry_views(es@);
    let ghost cv = content;
    match content {
        Some(j) => {
            entry_push(&mut es, owned("content"), j);
            put_str(&mut es, "operation", "replace");
            put_str(&mut es, "format", "json");
        },
        None => {},
    }
    assert(entry_views(es@) =~= e1 + match cv {
        Some(j) => seq![
            ("content"@, j@),
            ("operation"@, JVal::Str("replace"@)),
            ("format"@, JVal::Str("json"@)),
        ],
        None => Seq::empty(),
    });
    call("/api/pages/update", es)
}

/// `duplicate_page`; with a space, a copy into that space.
pub fn duplicate_page_call(page_id: &str, space_id: Option<&str>) -> (c: ApiCall)
    ensures
        is_call(c, "/api/pages/duplicate"@, seq![("pageId"@, JVal::Str(page_id@))] + opt_entry("spaceId"@, str_val(space_id))),
{
    let mut es = no_entries();
    put_str(&mut es, "pageId", page_id);
    put_opt_str(&mut es, "spaceId", space_id);
    assert(entry_views(es@) =~= seq![("pageId"@, JVal::Str(page_id@))] + opt_entry("spaceId"@, str_val(space_id)));
    call("/api/pages/duplicate", es)
}

/// `move_page_to_space`.
pub fn move_page_to_space_call(page_id: &str, space_id: &str) -> (c: ApiCall)
    ensures
        is_call(c, "/api/pages/move-to-space"@, seq![("pageId"@, JVal::Str(page_id@)), ("spaceId"@, JVal::Str(space_id@))]),
{
    let mut es = no_entries();
    put_str(&mut es, "pageId", page_id);
    put_str(&mut es, "spaceId", space_id);
    assert(entry_views(es@) =~= seq![("pageId"@, JVal::Str(page_id@)), ("spaceId"@, JVal::Str(space_id@))]);
    call("/api/pages/move-to-space", es)
}

/// The sibling listing a move consults: the parent's children, or the
/// space's root pages.
pub fn sidebar_call(space_id: &str, parent_page_id: Option<&str>) -> (c: ApiCall)
    ensures
        is_call(c, "/api/pages/sidebar-pages"@, seq![("spaceId"@, JVal::Str(space_id@))] + opt_entry("pageId"@, str_val(parent_page_id))),
{
    let mut es = no_entries();
    put_str(&mut es, "spaceId", space_id);
    put_opt_str(&mut es, "pageId", parent_page_id);
    assert(entry_views(es@) =~= seq![("spaceId"@, JVal::Str(space_id@))] + opt_entry("pageId"@, str_val(parent_page_id)));
    call("/api/pages/sidebar-pages", es)
}

/// `move_page`: the page, its new position, and the parent unless it goes
/// to the space root.
pub fn move_page_call(page_id: &str, position: &str, parent_page_id: Option<&str>) -> (c: ApiCall)
    ensures
        is_call(
            c,
            "/api/pages/move"@,
            seq![("pageId"@, JVal::Str(page_id@)), ("position"@, JVal::Str(position@))] + opt_entry(
                "parentPageId"@,
                str_val(parent_page_id),
            ),
        ),
{
    let mut es = no_entries();
    put_str(&mut es, "pageId", page_id);
    put_str(&mut es, "position", position);
    put_opt_str(&mut es, "parentPageId", parent_page_id);
    assert(entry_views(es@) =~= seq![("pageId"@, JVal::Str(page_id@)), ("position"@, JVal::Str(position@))] + opt_entry(
        "parentPageId"@,
        str_val(parent_page_id),
    ));
    call("/api/pages/move", es)
}

/// `create_space`: name and slug, and the description when given.
pub fn create_space_call(name: &str, slug: &str, description: Option<&str>) -> (c: ApiCall)
    ensures
        is_call(
            c,
            "/api/spaces/create"@,
            seq![("name"@, JVal::Str(name@)), ("slug"@, JVal::Str(slug@))] + opt_entry(
                "description"@,
                str_val(description),
            ),
        ),
{
    let mut es = no_entries();
    put_str(&mut es, "name", name);
    put_str(&mut es, "slug", slug);
    put_opt_str(&mut es, "description", description);
    assert(entry_views(es@) =~= seq![("name"@, JVal::Str(name@)), ("slug"@, JVal::Str(slug@))] + opt_entry(
        "description"@,
        str_val(description),
    ));
    call("/api/spaces/create", es)
}

/// `update_space`: only the fields given.
pub fn update_space_call(
    space_id: &str,
    name: Option<&str>,
    slug: Option<&str>,
    description: Option<&str>,
) -> (c: ApiCall)
    ensures
        is_call(
            c,
            "/api/spaces/update"@,
            seq![("spaceId"@, JVal::Str(space_id@))] + opt_entry("name"@, str_val(name)) + opt_entry(
                "slug"@,
                str_val(slug),
            ) + opt_entry("description"@, str_val(description)),
        ),
{
    let mut es = no_entries();
    put_str(&mut es, "spaceId", space_id);
    put_opt_str(&mut es, "name", name);
    put_opt_str(&mut es, "slug", slug);
    put_opt_str(&mut es, "description", description);
    assert(entry_views(es@) =~= seq![("spaceId"@, JVal::Str(space_id@))] + opt_entry("name"@, str_val(name)) + opt_entry(
        "slug"@,
        str_val(slug),
    ) + opt_entry("description"@, str_val(description)));
    call("/api/spaces/update", es)
}

/// `create_comment`: the body goes as a JSON string (the serialized
/// ProseMirror document), as Docmost validates it.
pub fn create_comment_call(page_id: &str, content_json: &str) -> (c: ApiCall)
    ensures
        is_call(c, "/api/comments/create"@, seq![("pageId"@, JVal::Str(page_id@)), ("content"@, JVal::Str(content_json@))]),
{
    let mut es = no_entries();
    put_str(&mut es, "pageId", page_id);
    put_str(&mut es, "content", content_json);
    assert(entry_views(es@) =~= seq![("pageId"@, JVal::Str(page_id@)), ("content"@, JVal::Str(content_json@))]);
    call("/api/comments/create", es)
}

/// `update_comment`, with the same stringified body.
pub fn update_comment_call(comment_id: &str, content_json: &str) -> (c: ApiCall)
    ensures
        is_call(c, "/api/comments/update"@, seq![("commentId"@, JVal::Str(comment_id@)), ("content"@, JVal::Str(content_json@))]),
{
    let mut es = no_entries();
    put_str(&mut es, "commentId", comment_id);
    put_str(&mut es, "content", content_json);
    assert(entry_views(es@) =~= seq![("commentId"@, JVal::Str(comment_id@)), ("content"@, JVal::Str(content_json@))]);
    call("/api/comments/update", es)
}

/// What follows a response with HTTP status `status` to a request that may
/// (`retry_on_unauthorized`) still be sent again after a 401: `Some(a)` to
/// sign in again and resend with `a` as the new allowance, `None` to hand
/// the response over.
pub open spec fn next_attempt(status: u16, retry_on_unauthorized: bool) -> Option<bool> {
    if status == 401 && retry_on_unauthorized {
        Some(false)
    } else {
        None
    }
}

/// The step of the request loop: decides, from the response's status and
/// the allowance, whether to sign in again and resend.
pub fn after_response(status: u16, retry_on_unauthorized: bool) -> (r: Option<bool>)
    ensures
        r == next_attempt(status, retry_on_unauthorized),
{
    if status == 401 && retry_on_unauthorized {
        Some(false)
    } else {
        None
    }
}

/// How many times the request loop signs in again when the server answers
/// its attempts with `statuses`, in order, starting with the allowance
/// `retry_on_unauthorized` (answers after the loop has stopped are unread).
pub open spec fn relogin_count(statuses: Seq<u16>, retry_on_unauthorized: bool) -> nat
    decreases statuses.len(),
{
    if statuses.len() == 0 {
        0
    } else {
        match next_attempt(statuses[0], retry_on_unauthorized) {
            Some(a) => 1 + relogin_count(statuses.drop_first(), a),
            None => 0,
        }
    }
}

/// How many times the request loop sends the request when the server
/// answers with `statuses`, in order (the last attempt may be unanswered).
pub open spec fn attempt_count(statuses: Seq<u16>, retry_on_unauthorized: bool) -> nat
    decreases statuses.len(),
{
    if statuses.len() == 0 {
        0
    } else {
        match next_attempt(statuses[0], retry_on_unauthorized) {
            Some(a) => 1 + attempt_count(statuses.drop_first(), a),
            None => 1,
        }
    }
}

/// A request signs in again at most once, and not at all when no retry is
/// allowed; it is sent at most twice, whatever the server answers.
pub proof fn law_at_most_one_relogin(statuses: Seq<u16>, retry_on_unauthorized: bool)
    ensures
        relogin_count(statuses, retry_on_unauthorized) <= 1,
        !retry_on_unauthorized ==> relogin_count(statuses, retry_on_unauthorized) == 0,
        attempt_count(statuses, retry_on_unauthorized) <= 2,
{
    if statuses.len() > 0 {
        let rest = statuses.drop_first();
        assert(relogin_count(rest, false) == 0);
        assert(attempt_count(rest, false) <= 1);
    }
}

/// The error for a failed request: `Docmost API request failed ({status}).
/// {details}`, trimmed.
pub fn request_failed_message(status: &str, details: &str) -> (r: String)
    ensures
        r@ == trim("Docmost API request failed ("@ + status@ + "). "@ + details@),
{
    let mut m = cat3("Docmost API request failed (", status, "). ");
    m.append(details);
    trimmed(m.as_str())
}

/// The positions of the pages other than `exclude`, in order.
pub open spec fn sibling_positions(items: Seq<DocmostPageListItem>, exclude: Option<Seq<char>>) -> Seq<
    Seq<char>,
>
    decreases items.len(),
{
    if items.len() == 0 {
        Seq::empty()
    } else {
        let p = items.last();
        sibling_positions(items.drop_last(), exclude) + if Some(p.id@) != exclude && p.position is Some {
            seq![p.position->0@]
        } else {
            Seq::empty()
        }
    }
}

/// The greatest string of `s` (the last of equal ones), if any.
pub open spec fn seq_max(s: Seq<Seq<char>>) -> Option<Seq<char>>
    decreases s.len(),
{
    if s.len() == 0 {
        None
    } else {
        match seq_max(s.drop_last()) {
            None => Some(s.last()),
            Some(m) => if lex_lt(s.last(), m) {
                Some(m)
            } else {
                Some(s.last())
            },
        }
    }
}

/// The greatest `position` among the listed pages, ignoring the page
/// `exclude_id` (the one being moved); `None` without other positioned
/// siblings.
pub fn last_sibling_position(items: &Vec<DocmostPageListItem>, exclude_id: Option<&str>) -> (r: Option<String>)
    ensures
        match r {
            Some(s) => seq_max(sibling_positions(items@, crate::startup_config::opt_view(exclude_id))) == Some(s@),
            None => seq_max(sibling_positions(items@, crate::startup_config::opt_view(exclude_id))) is None,
        },
{
    let ghost ex = crate::startup_config::opt_view(exclude_id);
    let mut best: Option<String> = None;
    let mut i: usize = 0;
    while i < items.len()
        invariant
            i <= items@.len(),
            ex == crate::startup_config::opt_view(exclude_id),
            match best {
                Some(s) => seq_max(sibling_positions(items@.take(i as int), ex)) == Some(s@),
                None => seq_max(sibling_positions(items@.take(i as int), ex)) is None,
            },
        decreases items@.len() - i,
    {
        assert(items@.take(i + 1).drop_last() =~= items@.take(i as int));
        let p = &items[i];
        let keep = match exclude_id {
            Some(e) => !crate::text::same_text(p.id.as_str(), e),
            None => true,
        };
        let ghost before = sibling_positions(items@.take(i as int), ex);
        if keep {
            match &p.position {
                Some(pos) => {
                    let ghost now = before + seq![pos@];
                    assert(now.drop_last() =~= before);
                    best = match best {
                        None => Some(pos.clone()),
                        Some(m) => {
                            let pv = chars_of(pos.as_str());
                            let mv = chars_of(m.as_str());
                            if lex_less(&pv, &mv) {
                                Some(m)
                            } else {
                                Some(pos.clone())
                            }
                        },
                    };
                },
                None => {
                    assert(before + Seq::<Seq<char>>::empty() =~= before);
                },
            }
        } else {
            assert(before + Seq::<Seq<char>>::empty() =~= before);
        }
        i += 1;
    }
    assert(items@.take(items@.len() as int) =~= items@);
    best
}

} // verus!
