use vibetunnel_pty::activity::{Activity, ActivityDetector};

#[test]
fn test_activity_detector_new() {
    let detector = ActivityDetector::new();
    assert!(detector.is_ok());
}

#[test]
fn test_activity_detector_creation() {
    let detector = ActivityDetector::new();
    assert!(detector.is_ok(), "ActivityDetector should be created successfully");
}

#[test]
fn activity_detection_scenarios() {
    let detector = ActivityDetector::new().unwrap();

    let a = detector
        .detect("\x1b[32m✻ Crafting…\x1b[0m (205s · ↑ 6.0k tokens · esc to interrupt)".as_bytes())
        .unwrap();
    assert_eq!(a.status, "✻ Crafting");
    assert_eq!(a.details.as_deref(), Some("205s, ↑6.0k"));

    let b = detector.detect("⏺ Calculating… (0s)".as_bytes()).unwrap();
    assert_eq!(b.status, "⏺ Calculating");
    assert_eq!(b.details.as_deref(), Some("0s"));

    assert!(detector.detect("Normal terminal output".as_bytes()).is_none());
}

#[test]
fn detection_is_stable_up_to_timestamp() {
    let detector = ActivityDetector::new().unwrap();
    let input = "✻ Working… (12s · ↑ 3.4k tokens · esc to interrupt)".as_bytes();
    let first = detector.detect(input).unwrap();
    let second = detector.detect(input).unwrap();
    assert_eq!(first.status, second.status);
    assert_eq!(first.details, second.details);
}

#[test]
fn test_detect_no_activity() {
    let detector = ActivityDetector::new().unwrap();

    let test_cases = vec![
        "Regular console output",
        "Some error message",
        "✻ Missing ellipsis and parentheses",
        "Missing star … (with parentheses)",
        "✻ Missing closing paren… (incomplete",
        "✻ … (missing duration)",
        "",
        "✻",
        "(just parentheses)",
        "✻ Not the expected format (different format)",
    ];

    for input in test_cases {
        let activity = detector.detect(input.as_bytes());
        assert!(activity.is_none(), "Unexpected activity detected for: {}", input);
    }
}

#[test]
fn test_no_activity_detection() {
    let detector = ActivityDetector::new().unwrap();

    let test_cases = vec![
        "Normal terminal output",
        "✻ Not a status (missing ellipsis)",
        "Crafting… (no indicator)",
        "✻ Crafting (no ellipsis or duration)",
        "✻ Crafting… no parentheses",
        "✻ Crafting… (not a number)",
        "",
    ];

    for input in test_cases {
        let activity = detector.detect(input.as_bytes());
        assert!(activity.is_none(), "Should not detect activity in: '{}'", input);
    }
}

#[test]
fn test_detect_invalid_utf8() {
    let detector = ActivityDetector::new().unwrap();

    let invalid_utf8 = vec![0xFF, 0xFE, 0xFD];
    let activity = detector.detect(&invalid_utf8);
    assert!(activity.is_none());
}

#[test]
fn test_invalid_utf8_handling() {
    let detector = ActivityDetector::new().unwrap();

    let mut invalid_bytes = "✻ Crafting… (10s)".as_bytes().to_vec();
    invalid_bytes.insert(5, 0xFF);

    let _activity = detector.detect(&invalid_bytes);
}

#[test]
fn lossy_decoding_replaces_invalid_bytes() {
    let detector = ActivityDetector::new().unwrap();

    // An invalid byte inside the action word must decode to the replacement
    // character, which still counts as an action character.
    let mut bytes = Vec::new();
    bytes.extend_from_slice("✻ T".as_bytes());
    bytes.push(0xFF);
    bytes.extend_from_slice("e… (1s)".as_bytes());

    let activity = detector.detect(&bytes).unwrap();
    assert_eq!(activity.status, "✻ T\u{FFFD}e");
    assert_eq!(activity.details.as_deref(), Some("1s"));
}

#[test]
fn test_empty_buffer() {
    let detector = ActivityDetector::new().unwrap();

    let activity = detector.detect(&[]);
    assert!(activity.is_none());
}

#[test]
fn test_ansi_code_stripping() {
    let detector = ActivityDetector::new().unwrap();

    let colored_input =
        "\x1b[32m✻ Crafting…\x1b[0m \x1b[1m(205s · ↑ 6.0k tokens · esc to interrupt)\x1b[0m";
    let activity = detector.detect(colored_input.as_bytes());
    assert!(activity.is_some(), "Should detect activity despite ANSI codes");

    let activity = activity.unwrap();
    assert_eq!(activity.status, "✻ Crafting");
    assert_eq!(activity.details.as_deref(), Some("205s, ↑6.0k"));
}

#[test]
fn test_edge_cases() {
    let detector = ActivityDetector::new().unwrap();

    let long_action = "✻ VeryLongActionNameThatGoesOnAndOnAndOn… (10s)";
    let activity = detector.detect(long_action.as_bytes());
    assert!(activity.is_some());

    let large_duration = "✻ Processing… (999999s · ↑ 999.9k tokens · esc to interrupt)";
    let activity = detector.detect(large_duration.as_bytes());
    assert!(activity.is_some());
    assert_eq!(activity.unwrap().details.as_deref(), Some("999999s, ↑999.9k"));

    let unicode_action = "✻ Analyzing文字… (5s)";
    let activity = detector.detect(unicode_action.as_bytes());
    assert!(activity.is_some());
}

#[test]
fn test_various_indicators() {
    let detector = ActivityDetector::new().unwrap();

    let indicators = vec!["✻", "⏺", "✳", "●", "◆", "▶", "★", "✓", "⚡"];

    for indicator in indicators {
        let input = format!("{} Testing… (1s)", indicator);
        let activity = detector.detect(input.as_bytes());
        assert!(activity.is_some(), "Should detect activity with indicator: {}", indicator);
        assert_eq!(activity.unwrap().status, format!("{} Testing", indicator));
    }
}

#[test]
fn test_partial_buffer_handling() {
    let detector = ActivityDetector::new().unwrap();

    let partial1 = "Some output ✻ Craft";
    let partial2 = "ing… (10s)";

    assert!(detector.detect(partial1.as_bytes()).is_none());
    assert!(detector.detect(partial2.as_bytes()).is_none());

    let combined = format!("{}{}", partial1, partial2);
    let activity = detector.detect(combined.as_bytes());
    assert!(activity.is_some());
}

#[test]
fn test_performance_large_buffer() {
    let detector = ActivityDetector::new().unwrap();

    let mut large_text = String::with_capacity(1_000_000);
    for _ in 0..10000 {
        large_text.push_str("This is some normal terminal output that doesn't match\n");
    }
    large_text.push_str("✻ Processing… (42s · ↑ 100k tokens · esc to interrupt)");

    let start = std::time::Instant::now();
    let activity = detector.detect(large_text.as_bytes());
    let duration = start.elapsed();

    assert!(activity.is_some());
    assert!(
        duration.as_millis() < 100,
        "Detection should be fast even on large buffers: {:?}",
        duration
    );
}

#[test]
fn test_filter_status() {
    let detector = ActivityDetector::new().unwrap();

    let input = "Before\n✻ Processing… (10s)\nAfter";
    let filtered = detector.filter_status(input);
    assert_eq!(filtered.trim(), "Before\n\nAfter");

    let input_ansi =
        "\x1b[32mBefore\n✻ Processing… (10s · 500 tokens · esc to interrupt)\nAfter\x1b[0m";
    let filtered_ansi = detector.filter_status(input_ansi);
    assert_eq!(filtered_ansi.trim(), "Before\n\nAfter");
}

#[test]
fn test_empty_status_or_details() {
    let detector = ActivityDetector::new().unwrap();

    let test_cases = vec!["✻  (empty status)", "✻ Status ()"];

    for input in test_cases {
        let activity = detector.detect(input.as_bytes());
        if let Some(act) = activity {
            assert!(
                !act.status.trim().is_empty()
                    || act.details.as_ref().map_or(true, |d| !d.trim().is_empty())
            );
        }
    }
}

#[test]
fn timestamp_is_current_wall_time() {
    let detector = ActivityDetector::new().unwrap();
    let before = chrono::Utc::now().timestamp_millis();
    let activity = detector.detect("✻ Working… (5s)".as_bytes()).unwrap();
    let after = chrono::Utc::now().timestamp_millis();
    assert!(activity.timestamp_millis >= before);
    assert!(activity.timestamp_millis <= after);
}

#[test]
fn activity_struct_holds_its_fields() {
    let activity = Activity {
        timestamp_millis: 1234567890,
        status: "✻ Testing".to_string(),
        details: Some("10s".to_string()),
    };
    assert_eq!(activity.timestamp_millis, 1234567890);
    assert_eq!(activity.status, "✻ Testing");
    assert_eq!(activity.details, Some("10s".to_string()));

    let no_details =
        Activity { timestamp_millis: 0, status: String::new(), details: None };
    assert!(no_details.details.is_none());
}
