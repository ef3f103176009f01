use docmost_local_mcp::version::{Capabilities, ServerVersion, min_supported_version, version_at_least};

#[test]
fn parses_plain_and_decorated_versions() {
    assert_eq!(
        ServerVersion::parse("0.25.3"),
        Some(ServerVersion::new(0, 25, 3))
    );
    assert_eq!(
        ServerVersion::parse("v0.70.0"),
        Some(ServerVersion::new(0, 70, 0))
    );
    assert_eq!(
        ServerVersion::parse("0.95"),
        Some(ServerVersion::new(0, 95, 0))
    );
    assert_eq!(
        ServerVersion::parse("1.2.3-beta.1"),
        Some(ServerVersion::new(1, 2, 3))
    );
    assert_eq!(ServerVersion::parse("not-a-version"), None);
}

#[test]
fn version_ordering_is_numeric_not_lexical() {
    // "0.9.0" must be less than "0.70.0" numerically (lexical string compare would flip).
    assert!(ServerVersion::new(0, 9, 0) < ServerVersion::new(0, 70, 0));
    assert!(ServerVersion::new(0, 25, 3) < ServerVersion::new(0, 70, 0));
    assert!(ServerVersion::new(0, 70, 0) <= ServerVersion::new(0, 70, 0));
}

#[test]
fn body_update_capability_gates_on_0_70_0() {
    let cap = |v| Capabilities::for_version(v).rest_page_body_update;
    assert!(
        !cap(Some(ServerVersion::new(0, 25, 3))),
        "0.25.3 lacks REST body update"
    );
    assert!(cap(Some(ServerVersion::new(0, 70, 0))), "0.70.0 has it");
    assert!(cap(Some(ServerVersion::new(0, 95, 0))), "0.95.0 has it");
    assert!(
        !cap(None),
        "unknown version => conservative (no capability)"
    );
}

#[test]
fn version_text_and_minimum() {
    assert_eq!(ServerVersion::new(0, 70, 12).to_version_string(), "0.70.12");
    assert!(version_at_least(ServerVersion::new(0, 25, 0), min_supported_version()));
    assert!(!version_at_least(ServerVersion::new(0, 21, 9), min_supported_version()));
}

#[test]
fn version_text_parses_back() {
    for v in [ServerVersion::new(0, 25, 3), ServerVersion::new(4294967295, 0, 12), ServerVersion::new(1, 70, 0)] {
        assert_eq!(ServerVersion::parse(&v.to_version_string()), Some(v));
    }
}
