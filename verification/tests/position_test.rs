use docmost_local_mcp::position::{
    JITTER_RANGE, generate_jittered_key_between, generate_key_between, jittered_with_shift,
};
use docmost_local_mcp::position::arith::PositionError;

// Reference vectors from fractional-indexing-jittered's generateKeyBetween.spec.ts.
#[test]
fn generate_key_between_matches_reference_vectors() {
    let cases = [
        (None, None, "a0"),
        (None, Some("a1"), "a0"),
        (None, Some("a0"), "Zz"),
        (None, Some("b0T"), "b0S"),
        (Some("b0S"), None, "b0T"),
        (Some("a0"), Some("a8"), "a4"),
        (Some("a0"), Some("a1"), "a0V"),
    ];
    for (lower, upper, expected) in cases {
        assert_eq!(
            generate_key_between(lower, upper).unwrap(),
            expected,
            "generate_key_between({lower:?}, {upper:?})"
        );
    }
}

#[test]
fn generate_key_between_rejects_out_of_order() {
    assert!(generate_key_between(Some("a0"), Some("a0")).is_err());
    assert!(generate_key_between(Some("a1"), Some("a0")).is_err());
}

// Reference vectors with Math.random() mocked to 0.5 => shift = floor(0.5 * 47665) = 23832.
#[test]
fn jittered_matches_reference_vectors_at_half_shift() {
    let shift = JITTER_RANGE / 2; // 23832
    let cases = [
        (None, None, "a06CO"),
        (None, Some("a1"), "a06CO"),
        (None, Some("a0"), "Zz6CO"),
        (None, Some("b0T46n"), "b0S6CO"),
        (Some("b0S"), None, "b0T6CO"),
        (Some("a0"), Some("a8"), "a46CO"),
        (Some("a0"), Some("a1"), "a0V6CO"),
    ];
    for (lower, upper, expected) in cases {
        assert_eq!(
            jittered_with_shift(lower, upper, shift).unwrap(),
            expected,
            "jittered_with_shift({lower:?}, {upper:?})"
        );
    }
}

#[test]
fn jittered_output_respects_length_and_ordering() {
    // Append after a series of siblings; every key must sort after the previous one
    // and satisfy Docmost's 5..=12 length rule.
    let mut prev: Option<String> = None;
    for shift in [0u64, 1, 100, 23832, 47664] {
        let key = jittered_with_shift(prev.as_deref(), None, shift).unwrap();
        assert!(
            (5..=12).contains(&key.len()),
            "key {key:?} length {} out of 5..=12",
            key.len()
        );
        if let Some(prev) = &prev {
            assert!(key.as_str() > prev.as_str(), "{key} must sort after {prev}");
        }
        prev = Some(key);
    }
}

#[test]
fn generated_key_sorts_between_neighbors() {
    let a = "a0";
    let b = "a8";
    let mid = generate_key_between(Some(a), Some(b)).unwrap();
    assert!(a < mid.as_str() && mid.as_str() < b, "{a} < {mid} < {b}");
}

#[test]
fn key_after_and_before_sort_outside_their_neighbour() {
    let after = generate_key_between(Some("a5"), None).unwrap();
    assert!(after.as_str() > "a5");
    let before = generate_key_between(None, Some("a5")).unwrap();
    assert!(before.as_str() < "a5");
}

#[test]
fn malformed_keys_are_rejected() {
    assert!(generate_key_between(Some("b1"), None).is_err());
    assert!(generate_key_between(None, Some("a")).is_err());
}

#[test]
fn random_jittered_key_sorts_between_neighbours() {
    let key = generate_jittered_key_between(Some("a0"), Some("a8")).unwrap();
    assert!("a0" < key.as_str() && key.as_str() < "a8", "{key}");
    assert!(key.len() >= 5);
}

#[test]
fn jittered_key_after_a_last_key_sorts_after_it() {
    for lower in ["a0", "a1V", "Zz", "b00"] {
        for shift in [0u64, 1, JITTER_RANGE - 1] {
            let key = jittered_with_shift(Some(lower), None, shift).unwrap();
            assert!(key.as_str() > lower, "{key} after {lower}");
        }
    }
}

#[test]
fn position_error_messages() {
    assert_eq!(
        PositionError::InvalidOrderKeyLength { key: "b1".to_string() }.message(),
        "invalid order key length: b1"
    );
    assert_eq!(PositionError::NegativeSubtraction.message(), "subtraction result is negative");
    assert_eq!(
        PositionError::OutOfOrder { lower: "a1".to_string(), upper: "a0".to_string() }.message(),
        "a1 >= a0"
    );
}

#[test]
fn jittered_key_between_neighbours_for_extreme_shifts() {
    for (lower, upper) in [("a0", "a1"), ("a0", "a8"), ("Zz", "a0"), ("a0V", "a1")] {
        for shift in [0u64, JITTER_RANGE - 1] {
            let key = jittered_with_shift(Some(lower), Some(upper), shift).unwrap();
            assert!(lower < key.as_str() && key.as_str() < upper, "{lower} < {key} < {upper}");
            assert!(key.len() >= 5, "{key}");
        }
    }
}

#[test]
fn jittered_key_before_a_first_key_sorts_before_it() {
    for upper in ["a0", "a5", "b00", "a0V"] {
        for shift in [0u64, JITTER_RANGE - 1] {
            let key = jittered_with_shift(None, Some(upper), shift).unwrap();
            assert!(key.as_str() < upper, "{key} before {upper}");
        }
    }
}

#[test]
fn long_append_chain_keeps_length_and_order() {
    // Sixty-two appends, each with the largest shift: every key has five
    // characters and sorts after the one before it.
    let mut prev: Option<String> = None;
    for _ in 0..62 {
        let key = jittered_with_shift(prev.as_deref(), None, JITTER_RANGE - 1).unwrap();
        assert_eq!(key.len(), 5, "{key}");
        if let Some(p) = &prev {
            assert!(key.as_str() > p.as_str(), "{key} must sort after {p}");
        }
        prev = Some(key);
    }
}

#[test]
fn keys_outside_base62_with_a_short_integer_part_are_rejected() {
    // `!` reads as a digit of value -1: the head claims an integer of 38
    // characters, longer than the key.
    let err = generate_key_between(None, Some("!x")).unwrap_err();
    assert_eq!(err.message(), "invalid order key length: !x");
    assert_eq!(
        generate_key_between(Some("a0"), Some("!x")).unwrap_err().message(),
        "invalid order key length: !x"
    );
    assert!(docmost_local_mcp::position::jitter_supported(Some("!x"), None));
    assert!(matches!(
        jittered_with_shift(Some("!x"), None, 0),
        Err(PositionError::InvalidOrderKeyLength { .. })
    ));
    // Keys whose integer part parses must be base 62 to be worked on.
    assert!(!docmost_local_mcp::position::jitter_supported(Some("a!"), None));
    assert!(!docmost_local_mcp::position::jitter_supported(Some("é0"), None));
}

#[test]
fn key_before_the_smallest_integer_does_not_exist() {
    let zeros = "0".repeat(37);
    assert_eq!(
        generate_key_between(None, Some(&zeros)).unwrap_err().message(),
        "subtraction result is negative"
    );
    assert_eq!(generate_key_between(None, Some("a0")).unwrap(), "Zz");
}

#[test]
fn key_after_the_last_negative_integer_falls_back() {
    // The integer `Az` followed by 26 `z` digits has no successor with the
    // same head: the next integer restarts at the bare `A` head, which sorts
    // lower. This is the case the ordering law leaves out.
    let lower = format!("Az{}", "z".repeat(26));
    let key = generate_key_between(Some(&lower), None).unwrap();
    assert_eq!(key, format!("A{}", "0".repeat(27)));
    assert!(key < lower);
}
