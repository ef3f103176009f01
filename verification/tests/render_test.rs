use docmost_local_mcp::server::render::{
    format_comments, format_current_user, format_page_list, format_search_results,
    format_workspace_members, sanitize_highlight,
};
use docmost_local_mcp::types::{
    DocmostComment, DocmostCurrentUserResponse, DocmostPageListItem, DocmostSearchResult,
    DocmostSearchSpace, DocmostUser, DocmostUserSummary, DocmostWorkspace,
};

fn hit(n: usize) -> DocmostSearchResult {
    DocmostSearchResult {
        id: Some(format!("id-{n}")),
        slug_id: format!("slug-{n}"),
        title: Some(format!("Page {n}")),
        highlight: Some("a <b>bold</b>\n  match".to_string()),
        icon: None,
        parent_page_id: None,
        creator_id: None,
        created_at: None,
        updated_at: None,
        space: Some(DocmostSearchSpace { id: None, name: Some("Docs".to_string()), slug: None }),
    }
}

#[test]
fn sanitize_highlight_strips_tags_and_collapses_whitespace() {
    assert_eq!(sanitize_highlight(Some("  <em>Hello</em>\n\n  <b>world</b> ")), "Hello world");
    assert_eq!(sanitize_highlight(Some("a <> b")), "a <> b");
    assert_eq!(sanitize_highlight(None), "");
}

#[test]
fn search_results_show_at_most_five_hits() {
    let results: Vec<DocmostSearchResult> = (0..7).map(hit).collect();
    let text = format_search_results("match", &results);
    assert!(text.starts_with("## Search Results for \"match\"\n\n### 1. Page 0\n- Space: Docs\n- Page ID: `id-0`\n- Slug ID: `slug-0`\n- Preview: a bold match\n"));
    assert!(text.contains("### 5. Page 4"));
    assert!(!text.contains("### 6."));
    assert!(text.ends_with("Showing 5 of 7 results.\nUse `get_page` with a slug ID to retrieve the full page."));
    assert_eq!(format_search_results("x", &[]), "No Docmost results were found for \"x\".");
}

#[test]
fn page_list_lines() {
    let page = DocmostPageListItem {
        id: "p1".to_string(),
        slug_id: "s1".to_string(),
        title: None,
        icon: Some("📄".to_string()),
        parent_page_id: None,
        has_children: Some(true),
        space_id: None,
        updated_at: None,
        space: None,
        position: None,
    };
    let text = format_page_list("Recent Pages", "space `x`", &[page]);
    assert_eq!(
        text,
        "## Recent Pages\n\n### 1. 📄 Untitled\n- Page ID: `p1`\n- Slug ID: `s1`\n- Parent Page ID: Unknown\n- Has Children: true\n\nShowing 1 of 1 pages."
    );
    assert_eq!(format_page_list("T", "space `x`", &[]), "No Docmost pages were found for space `x`.");
}

#[test]
fn comments_lines() {
    let comment = DocmostComment {
        id: "c1".to_string(),
        page_id: None,
        content: None,
        selection: None,
        parent_comment_id: Some("c0".to_string()),
        creator: Some(DocmostUserSummary { id: None, name: Some("Jane".to_string()), avatar_url: None }),
        resolved_by: None,
        created_at: None,
        updated_at: None,
        resolved_at: Some("2026-01-01".to_string()),
    };
    let text = format_comments("p9", &[comment]);
    assert_eq!(
        text,
        "## Comments for Page `p9`\n\n### 1. Comment `c1`\n- Author: Jane\n- Parent Comment ID: `c0`\n- Selection: None\n- Resolved: Yes\n\nShowing 1 of 1 comments."
    );
    assert_eq!(format_comments("p9", &[]), "No comments were found for page `p9`.");
}

fn member(n: usize) -> DocmostUser {
    DocmostUser {
        id: format!("u{n}"),
        name: Some(format!("User {n}")),
        email: None,
        avatar_url: None,
        role: Some("member".to_string()),
        deactivated_at: None,
    }
}

#[test]
fn members_table_shows_at_most_twenty() {
    let members: Vec<DocmostUser> = (0..25).map(member).collect();
    let text = format_workspace_members(&members);
    assert!(text.starts_with("## Workspace Members\n\n| Name | Email | Role | ID |\n| --- | --- | --- | --- |\n| User 0 | Unknown | member | u0 |\n"));
    assert!(text.contains("| User 19 | Unknown | member | u19 |"));
    assert!(!text.contains("u20 |"));
    assert!(text.ends_with("\n\nShowing 20 of 25 members."));
    assert_eq!(format_workspace_members(&[]), "No Docmost workspace members were found.");
}

#[test]
fn current_user_lines() {
    let response = DocmostCurrentUserResponse {
        user: member(1),
        workspace: DocmostWorkspace {
            id: "w1".to_string(),
            name: None,
            hostname: Some("docs".to_string()),
            default_space_id: None,
            member_count: Some(-3),
            has_license_key: None,
        },
    };
    assert_eq!(
        format_current_user(&response),
        "# Current Docmost User\n\nName: User 1\nUser ID: `u1`\nEmail: Unknown\nRole: member\n\n## Workspace\n\nName: Unknown\nWorkspace ID: `w1`\nHostname: docs\nMember count: -3"
    );
}
