use docmost_local_mcp::json::{Json, JsonNumber};
use docmost_local_mcp::prosemirror::ids::uuid_v4;
use docmost_local_mcp::prosemirror::{markdown_to_prosemirror, prosemirror_to_markdown};

/// A `serde_json::Value` as the library's `Json`, variant by variant.
fn to_json(v: serde_json::Value) -> Json {
    match v {
        serde_json::Value::Null => Json::Null,
        serde_json::Value::Bool(b) => Json::Bool(b),
        serde_json::Value::Number(n) => Json::Number(match (n.as_u64(), n.as_i64()) {
            (Some(u), _) => JsonNumber::Unsigned(u),
            (None, Some(i)) => JsonNumber::Signed(i),
            (None, None) => JsonNumber::Decimal(n.to_string()),
        }),
        serde_json::Value::String(s) => Json::String(s),
        serde_json::Value::Array(a) => Json::Array(a.into_iter().map(to_json).collect()),
        serde_json::Value::Object(m) => {
            Json::Object(m.into_iter().map(|(k, x)| (k, to_json(x))).collect())
        }
    }
}

fn j(text: &str) -> Json {
    to_json(serde_json::from_str(text).unwrap())
}

#[test]
fn non_doc_values_render_as_nothing() {
    assert_eq!(prosemirror_to_markdown(&j(r#"{"type":"paragraph"}"#)), "");
    assert_eq!(prosemirror_to_markdown(&j(r#"[1,2]"#)), "");
}

#[test]
fn ordered_lists_number_every_child_and_nest_by_two_spaces() {
    let doc = j(r#"{"type":"doc","content":[{"type":"orderedList","attrs":{"start":7},"content":[
        {"type":"listItem","content":[{"type":"paragraph","content":[{"type":"text","text":"a"}]},
            {"type":"orderedList","content":[{"type":"listItem","content":[{"type":"paragraph","content":[{"type":"text","text":"b"}]}]}]}]},
        {"type":"note"},
        {"type":"listItem","content":[{"type":"paragraph","content":[{"type":"text","text":"c"}]}]}]}]}"#);
    assert_eq!(prosemirror_to_markdown(&doc), "7. a\n  1. b\n9. c");
}

#[test]
fn headings_are_clamped_and_marks_nest_in_order() {
    let doc = j(r#"{"type":"doc","content":[{"type":"heading","attrs":{"level":9},"content":[
        {"type":"text","text":"x","marks":[{"type":"code"},{"type":"bold"},{"type":"link","attrs":{"href":"u"}}]}]}]}"#);
    assert_eq!(prosemirror_to_markdown(&doc), "###### [**`x`**](u)");
}

#[test]
fn blockquotes_tables_images_and_mentions() {
    let doc = j(r#"{"type":"doc","content":[
        {"type":"blockquote","content":[{"type":"paragraph","content":[{"type":"text","text":"one"},{"type":"hardBreak"},{"type":"text","text":"two"}]}]},
        {"type":"table","content":[{"type":"tableRow","content":[{"type":"tableHeader","content":[{"type":"paragraph","content":[{"type":"text","text":"A  b"}]}]}]},
                                   {"type":"tableRow","content":[{"type":"tableCell","content":[{"type":"paragraph","content":[{"type":"text","text":"1"}]}]}]}]},
        {"type":"image","attrs":{"src":"s.png"}},
        {"type":"embed","attrs":{"src":"https://e"}},
        {"type":"paragraph","content":[{"type":"mention","attrs":{"label":"Jane","entityType":"user","entityId":"u1"}}]}]}"#);
    assert_eq!(
        prosemirror_to_markdown(&doc),
        "> one\n> two\n\n| A b |\n| --- |\n| 1 |\n\n![image](s.png)\n\n[Embedded content](https://e)\n\n[Jane](user:u1)"
    );
}

#[test]
fn uuid_text_sets_version_and_variant() {
    assert_eq!(uuid_v4([0xff; 16]), "ffffffff-ffff-4fff-bfff-ffffffffffff");
    assert_eq!(uuid_v4([0; 16]), "00000000-0000-4000-8000-000000000000");
}

#[test]
fn mention_ids_are_uuids_and_labels_collect_text() {
    let doc = markdown_to_prosemirror("[Jane *D*](page:p1)");
    let paragraph = doc.get("content").and_then(Json::as_array).unwrap()[0].get("content").and_then(Json::as_array).unwrap();
    let mention = &paragraph[0];
    let attrs = mention.get("attrs").unwrap();
    assert_eq!(attrs.get("label").and_then(Json::as_str), Some("Jane D"));
    assert_eq!(attrs.get("entityType").and_then(Json::as_str), Some("page"));
    let id = attrs.get("id").and_then(Json::as_str).unwrap();
    assert_eq!(id.len(), 36);
    assert_eq!(&id[14..15], "4");
    let plain = markdown_to_prosemirror("[x](user:)");
    let text = plain.get("content").and_then(Json::as_array).unwrap()[0].get("content").and_then(Json::as_array).unwrap()[0].get("marks");
    assert!(text.is_some(), "an empty id leaves an ordinary link");
}

#[test]
fn unrecognised_nodes_add_nothing() {
    let plain = j(r#"{"type":"doc","content":[{"type":"paragraph","content":[{"type":"text","text":"a"}]},{"type":"horizontalRule"}]}"#);
    let with_extra = j(r#"{"type":"doc","content":[{"type":"paragraph","content":[{"type":"text","text":"a"}]},{"type":"callout","content":[{"type":"text","text":"x"}]},{"type":"horizontalRule"},{"kind":"none"}]}"#);
    assert_eq!(prosemirror_to_markdown(&with_extra), prosemirror_to_markdown(&plain));
    assert_eq!(prosemirror_to_markdown(&plain), "a\n\n---");
}

#[test]
fn unrecognised_nodes_inside_a_list_item_add_nothing() {
    let plain = j(r#"{"type":"doc","content":[{"type":"bulletList","content":[{"type":"listItem","content":[{"type":"paragraph","content":[{"type":"text","text":"Parent"}]},{"type":"bulletList","content":[{"type":"listItem","content":[{"type":"paragraph","content":[{"type":"text","text":"Child"}]}]}]}]}]}]}"#);
    let with_extra = j(r#"{"type":"doc","content":[{"type":"bulletList","content":[{"type":"listItem","content":[{"type":"paragraph","content":[{"type":"text","text":"Parent"}]},{"type":"callout","content":[{"type":"text","text":"x"}]},{"type":"bulletList","content":[{"type":"listItem","content":[{"type":"video"},{"type":"paragraph","content":[{"type":"text","text":"Child"}]},{"kind":"none"}]}]}]}]}]}"#);
    assert_eq!(prosemirror_to_markdown(&with_extra), prosemirror_to_markdown(&plain));
    assert_eq!(prosemirror_to_markdown(&plain), "- Parent\n  - Child");
}
