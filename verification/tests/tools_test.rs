use docmost_local_mcp::json::{Json, JsonNumber};
use docmost_local_mcp::server::tools::{
    body_update_note, format_comment_saved, format_created_page, format_duplicated_page,
    format_moved_page, format_moved_to_space, format_page, format_space, format_space_saved,
    format_spaces, format_updated_page, parent_ignored,
};
use docmost_local_mcp::types::{
    DocmostComment, DocmostPage, DocmostPageCreator, DocmostPageSpace, DocmostSpace, DocmostSpaceMembership,
    DocmostSpaceWithMembership,
};
use docmost_local_mcp::version::{Capabilities, ServerVersion};

/// A `serde_json::Value` as the library's `Json`, variant by variant.
fn to_json(v: serde_json::Value) -> Json {
    match v {
        serde_json::Value::Null => Json::Null,
        serde_json::Value::Bool(b) => Json::Bool(b),
        serde_json::Value::Number(n) => Json::Number(match (n.as_u64(), n.as_i64()) {
            (Some(u), _) => JsonNumber::Unsigned(u),
            (None, Some(i)) => JsonNumber::Signed(i),
            (None, None) => JsonNumber::Decimal(n.to_string()),
        }),
        serde_json::Value::String(s) => Json::String(s),
        serde_json::Value::Array(a) => Json::Array(a.into_iter().map(to_json).collect()),
        serde_json::Value::Object(m) => {
            Json::Object(m.into_iter().map(|(k, x)| (k, to_json(x))).collect())
        }
    }
}

fn j(text: &str) -> Json {
    to_json(serde_json::from_str(text).unwrap())
}

fn page(content: Option<Json>) -> DocmostPage {
    DocmostPage {
        id: Some("pid".to_string()),
        slug_id: Some("sid".to_string()),
        title: Some("Guide".to_string()),
        icon: Some("📘".to_string()),
        updated_at: Some("2026-03-12T01:02:03.000Z".to_string()),
        parent_page_id: None,
        space_id: Some("space-1".to_string()),
        space: Some(DocmostPageSpace { id: None, name: Some("Docs".to_string()), slug: None }),
        creator: Some(DocmostPageCreator { id: None, name: Some("Jane".to_string()) }),
        content,
    }
}

#[test]
fn spaces_table_counts_every_space() {
    let spaces = vec![DocmostSpace {
        id: "s1".to_string(),
        name: None,
        slug: "docs".to_string(),
        description: None,
        member_count: None,
        visibility: None,
        default_role: None,
    }];
    assert_eq!(
        format_spaces(&spaces),
        "## Available Documentation Spaces\n\n| Name | Slug | ID |\n| --- | --- | --- |\n| Untitled | docs | s1 |\n\nTotal spaces: 1"
    );
    assert_eq!(format_spaces(&[]), "No Docmost spaces were found.");
}

#[test]
fn space_details() {
    let space = DocmostSpaceWithMembership {
        id: "s1".to_string(),
        name: Some("Docs".to_string()),
        slug: "docs".to_string(),
        description: None,
        member_count: Some(12),
        visibility: Some("open".to_string()),
        default_role: None,
        membership: Some(DocmostSpaceMembership { user_id: None, role: Some("admin".to_string()) }),
    };
    assert_eq!(
        format_space(&space),
        "# Docs\n\nSpace ID: `s1`\nSlug: `docs`\nDescription: None\nVisibility: open\nMember count: 12\nYour role: admin"
    );
}

#[test]
fn page_view_has_header_rule_and_body() {
    let doc = j(r#"{"type":"doc","content":[{"type":"paragraph","content":[{"type":"text","text":"Hello"}]}]}"#);
    let text = format_page("sid", Some(&page(Some(doc))));
    assert_eq!(
        text,
        "# 📘 Guide\n\nSpace: Docs\nPage ID: `pid`\nSlug ID: `sid`\nAuthor: Jane\nLast updated: 2026-03-12\n\n---\n\nHello"
    );
    assert!(format_page("sid", Some(&page(None))).ends_with("---"));
    assert_eq!(format_page("zz", None), "No Docmost page was found for slug ID \"zz\".");
}

#[test]
fn structural_write_answers() {
    let p = page(None);
    assert_eq!(
        format_duplicated_page(&p, None),
        "Duplicated Docmost page \"Guide\".\n\nNew page ID: `pid`\nNew slug ID: `sid`\nSpace ID: `space-1`"
    );
    assert!(format_duplicated_page(&p, Some("s9")).starts_with("Copied Docmost page \"Guide\" into space `s9`."));
    assert!(format_moved_page(&p, None).starts_with("Moved Docmost page \"Guide\" to the space root."));
    assert!(format_moved_page(&p, Some("par")).starts_with("Moved Docmost page \"Guide\" under parent `par`."));
    assert_eq!(
        format_moved_to_space(None, "s2", "p7"),
        "Moved Docmost page \"(page)\" to space `s2`.\n\nPage ID: `p7`\nSlug ID: Unknown"
    );
}

#[test]
fn body_note_only_without_rest_body_updates() {
    let no = Capabilities::for_version(Some(ServerVersion::new(0, 25, 3)));
    let yes = Capabilities::for_version(Some(ServerVersion::new(0, 70, 0)));
    assert_eq!(body_update_note(yes, Some(ServerVersion::new(0, 70, 0))), None);
    let note = body_update_note(no, Some(ServerVersion::new(0, 25, 3))).unwrap();
    assert!(note.starts_with("Note: this Docmost server (v0.25.3) does not apply page-body edits over REST"));
    assert!(body_update_note(no, None).unwrap().starts_with("Note: the Docmost server version could not be determined"));
}

#[test]
fn parent_is_ignored_only_with_a_body() {
    assert!(parent_ignored(Some("body"), Some("p")));
    assert!(!parent_ignored(Some("  \n"), Some("p")));
    assert!(!parent_ignored(Some("body"), None));
    assert!(!parent_ignored(None, Some("p")));
}

#[test]
fn created_page_answer_names_the_page_and_notes_an_ignored_parent() {
    let mut p = page(None);
    p.title = None;
    assert_eq!(
        format_created_page(&p, "Fresh", false),
        "Created Docmost page \"Fresh\".\n\nPage ID: `pid`\nSlug ID: `sid`\nSpace ID: `space-1`"
    );
    let noted = format_created_page(&page(None), "Fresh", true);
    assert!(noted.starts_with("Created Docmost page \"Guide\"."));
    assert!(noted.ends_with("Use move_page afterwards to nest it under a parent."));
    assert!(noted.contains("\n\nNote: this page was created at the space root"));
}

#[test]
fn updated_page_answer_carries_the_body_note() {
    assert_eq!(
        format_updated_page(&page(None), None),
        "Updated Docmost page \"Guide\".\n\nPage ID: `pid`\nSlug ID: `sid`"
    );
    assert_eq!(
        format_updated_page(&page(None), Some("Note: x")),
        "Updated Docmost page \"Guide\".\n\nPage ID: `pid`\nSlug ID: `sid`\n\nNote: x"
    );
}

#[test]
fn space_and_comment_answers() {
    let space = DocmostSpace {
        id: "s1".to_string(),
        name: Some("Docs".to_string()),
        slug: "docs".to_string(),
        description: None,
        member_count: None,
        visibility: None,
        default_role: None,
    };
    assert_eq!(
        format_space_saved(&space, true),
        "Created Docmost space \"Docs\".\n\nSpace ID: `s1`\nSlug: `docs`"
    );
    assert!(format_space_saved(&space, false).starts_with("Updated Docmost space"));
    let comment = DocmostComment {
        id: "c1".to_string(),
        page_id: None,
        content: None,
        selection: None,
        parent_comment_id: None,
        creator: None,
        resolved_by: None,
        created_at: None,
        updated_at: None,
        resolved_at: None,
    };
    assert_eq!(
        format_comment_saved(&comment, false),
        "Updated Docmost comment.\n\nComment ID: `c1`\nPage ID: Unknown"
    );
}
