use docmost_local_mcp::docmost_client::{
    CreatePageRequest, create_comment_call, create_page_request, create_space_call,
    duplicate_page_call, last_sibling_position, list_pages_call, list_spaces_call,
    list_workspace_members_call, move_page_call, move_page_to_space_call, request_failed_message,
    after_response, sidebar_call, update_page_call, update_space_call, version_call,
};
use docmost_local_mcp::json::Json;
use docmost_local_mcp::types::DocmostPageListItem;

fn keys(j: &Json) -> Vec<String> {
    match j {
        Json::Object(es) => es.iter().map(|(k, _)| k.clone()).collect(),
        _ => panic!("not an object"),
    }
}

fn text<'a>(j: &'a Json, key: &str) -> Option<&'a str> {
    j.get(key).and_then(Json::as_str)
}

#[test]
fn create_page_with_body_uses_import_and_prepends_title() {
    match create_page_request("space-1", "My Page", Some("Hello **world**"), Some("parent")) {
        CreatePageRequest::Import { space_id, document } => {
            assert_eq!(space_id, "space-1");
            assert_eq!(document, "# My Page\n\nHello **world**");
        }
        CreatePageRequest::Create(_) => panic!("body must go through import"),
    }
}

#[test]
fn create_page_title_only_uses_create_endpoint() {
    // No body: the plain create endpoint, parent honoured, no content.
    match create_page_request("space-1", "Title only", None, Some("parent-1")) {
        CreatePageRequest::Create(call) => {
            assert_eq!(call.endpoint, "/api/pages/create");
            assert_eq!(text(&call.payload, "spaceId"), Some("space-1"));
            assert_eq!(text(&call.payload, "title"), Some("Title only"));
            assert_eq!(text(&call.payload, "parentPageId"), Some("parent-1"));
            assert!(call.payload.get("content").is_none(), "title-only create must not send content");
        }
        CreatePageRequest::Import { .. } => panic!("title-only create should not use import"),
    }
}

#[test]
fn create_page_title_only_without_parent_omits_parent_field() {
    match create_page_request("space-1", "Root Page", None, None) {
        CreatePageRequest::Create(call) => {
            assert_eq!(text(&call.payload, "spaceId"), Some("space-1"));
            assert_eq!(text(&call.payload, "title"), Some("Root Page"));
            assert!(call.payload.get("parentPageId").is_none());
        }
        CreatePageRequest::Import { .. } => panic!("no body"),
    }
}

#[test]
fn create_page_blank_markdown_falls_back_to_title_only() {
    // Whitespace-only markdown is treated as no body.
    match create_page_request("space-1", "Blanky", Some("   \n  "), None) {
        CreatePageRequest::Create(call) => {
            assert_eq!(call.endpoint, "/api/pages/create");
            assert_eq!(keys(&call.payload), vec!["spaceId", "title"]);
            assert_eq!(text(&call.payload, "title"), Some("Blanky"));
        }
        CreatePageRequest::Import { .. } => panic!("blank markdown should not trigger import"),
    }
}

#[test]
fn update_page_sends_operation_and_format_only_with_content() {
    let call = update_page_call("page-1", Some("New Title"), Some(Json::String("doc".to_string())));
    assert_eq!(call.endpoint, "/api/pages/update");
    assert_eq!(keys(&call.payload), vec!["pageId", "title", "content", "operation", "format"]);
    assert_eq!(text(&call.payload, "operation"), Some("replace"));
    assert_eq!(text(&call.payload, "format"), Some("json"));
    let bare = update_page_call("page-9", None, None);
    assert_eq!(keys(&bare.payload), vec!["pageId"]);
}

#[test]
fn structure_and_space_calls() {
    assert_eq!(keys(&duplicate_page_call("p", None).payload), vec!["pageId"]);
    assert_eq!(keys(&duplicate_page_call("p", Some("s")).payload), vec!["pageId", "spaceId"]);
    assert_eq!(move_page_to_space_call("p", "s").endpoint, "/api/pages/move-to-space");
    assert_eq!(keys(&move_page_call("p", "a2", None).payload), vec!["pageId", "position"]);
    assert_eq!(keys(&sidebar_call("s", Some("par")).payload), vec!["spaceId", "pageId"]);
    assert_eq!(keys(&create_space_call("Docs", "docs", None).payload), vec!["name", "slug"]);
    assert_eq!(keys(&update_space_call("s", Some("Renamed"), None, None).payload), vec!["spaceId", "name"]);
    assert_eq!(text(&create_comment_call("p", "{}").payload, "content"), Some("{}"));
    assert_eq!(list_spaces_call().payload.get("limit").and_then(Json::as_u64), Some(100));
    let list = list_pages_call("s", Some(5), None);
    assert_eq!(list.endpoint, "/api/pages/recent");
    assert_eq!(list.payload.get("limit").and_then(Json::as_u64), Some(5));
    assert_eq!(keys(&list_workspace_members_call(None, None, Some("ja"), Some(true)).payload), vec!["query", "adminView"]);
}

fn item(id: &str, position: Option<&str>) -> DocmostPageListItem {
    DocmostPageListItem {
        id: id.to_string(),
        slug_id: format!("slug-{id}"),
        title: None,
        icon: None,
        parent_page_id: None,
        has_children: None,
        space_id: None,
        updated_at: None,
        space: None,
        position: position.map(str::to_string),
    }
}

#[test]
fn last_sibling_position_excludes_the_moved_page() {
    let items = vec![item("a", Some("a1")), item("self", Some("a5")), item("b", None), item("c", Some("a0V"))];
    assert_eq!(last_sibling_position(&items, Some("self")).as_deref(), Some("a1"));
    assert_eq!(last_sibling_position(&items, None).as_deref(), Some("a5"));
    assert_eq!(last_sibling_position(&[item("self", Some("a5"))].to_vec(), Some("self")), None);
}

#[test]
fn retry_and_error_messages() {
    assert_eq!(after_response(401, true), Some(false));
    assert_eq!(after_response(401, false), None);
    assert_eq!(after_response(403, true), None);
    assert_eq!(after_response(200, true), None);
    assert_eq!(request_failed_message("403 Forbidden", ""), "Docmost API request failed (403 Forbidden).");
    assert_eq!(
        request_failed_message("500 Internal Server Error", "Response: boom"),
        "Docmost API request failed (500 Internal Server Error). Response: boom"
    );
}

#[test]
fn version_call_posts_an_empty_body() {
    let call = version_call();
    assert_eq!(call.endpoint, "/api/version");
    assert!(keys(&call.payload).is_empty());
}

#[test]
fn request_signs_in_again_at_most_once() {
    // The server keeps answering 401: the loop resends once, then hands the
    // second 401 over.
    let mut allowance = true;
    let mut relogins = 0;
    let mut attempts = 0;
    for status in [401u16, 401, 401, 401] {
        attempts += 1;
        match after_response(status, allowance) {
            Some(a) => {
                relogins += 1;
                allowance = a;
            }
            None => break,
        }
    }
    assert_eq!(relogins, 1);
    assert_eq!(attempts, 2);
}
