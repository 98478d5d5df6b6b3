use std::str::FromStr;

use vibetunnel_pty::forwarder::{parse_forward_args, plan_forward, term_environment, FwdPlan, TitleMode};
use vibetunnel_pty::ids::SessionId;
use vibetunnel_pty::paths::{base_dir, control_dir, session_json_path, socket_path, stdin_path, stdout_path};
use vibetunnel_pty::status::{activity_state, detect_app_from_command, SpecificStatus};

#[test]
fn test_title_mode_parsing() {
    let modes = vec![TitleMode::NoTitle, TitleMode::Filter, TitleMode::Static, TitleMode::Dynamic];

    for mode in modes {
        let mode_str = format!("{mode:?}").to_lowercase();
        assert!(!mode_str.is_empty());
    }
}

#[test]
fn title_mode_labels_and_parsing() {
    assert_eq!(TitleMode::NoTitle.label(), "none");
    assert_eq!(TitleMode::Filter.label(), "filter");
    assert_eq!(TitleMode::Static.label(), "static");
    assert_eq!(TitleMode::Dynamic.label(), "dynamic");

    assert_eq!(TitleMode::from_str("none").unwrap(), TitleMode::NoTitle);
    assert_eq!(TitleMode::from_str("filter").unwrap(), TitleMode::Filter);
    assert_eq!(TitleMode::from_str("static").unwrap(), TitleMode::Static);
    assert_eq!(TitleMode::from_str("dynamic").unwrap(), TitleMode::Dynamic);
    assert!(TitleMode::from_str("bogus").is_err());

    assert_eq!(TitleMode::lenient_parse("dynamic"), TitleMode::Dynamic);
    assert_eq!(TitleMode::lenient_parse("bogus"), TitleMode::NoTitle);
}

#[test]
fn parse_forward_args_picks_options_and_command() {
    let args: Vec<String> = ["vt-pipe", "--session-id", "abc", "--title-mode", "static", "top", "-b"]
        .iter()
        .map(|s| s.to_string())
        .collect();
    let parsed = parse_forward_args(&args);
    assert_eq!(parsed.session_id.as_deref(), Some("abc"));
    assert_eq!(parsed.title_mode, TitleMode::Static);
    assert_eq!(parsed.command, vec!["top".to_string(), "-b".to_string()]);
}

#[test]
fn parse_forward_args_skips_unknown_options_and_defaults() {
    let args: Vec<String> =
        ["vt-pipe", "--verbose", "bash"].iter().map(|s| s.to_string()).collect();
    let parsed = parse_forward_args(&args);
    assert_eq!(parsed.session_id, None);
    assert_eq!(parsed.title_mode, TitleMode::NoTitle);
    assert_eq!(parsed.command, vec!["bash".to_string()]);

    let empty: Vec<String> = vec!["vt-pipe".to_string()];
    let parsed = parse_forward_args(&empty);
    assert!(parsed.command.is_empty());
}

#[test]
fn plan_forward_decides_the_invocation() {
    match plan_forward(Some("new title".to_string()), Some("sid".to_string()), 0) {
        FwdPlan::UpdateTitle { session_id, title } => {
            assert_eq!(session_id, "sid");
            assert_eq!(title, "new title");
        },
        other => panic!("expected UpdateTitle, got a different plan: {}", plan_name(&other)),
    }
    assert!(matches!(plan_forward(Some("t".to_string()), None, 3), FwdPlan::MissingSessionId));
    assert!(matches!(plan_forward(None, None, 0), FwdPlan::NoCommand));
    assert!(matches!(plan_forward(None, None, 2), FwdPlan::Run));
}

fn plan_name(p: &FwdPlan) -> &'static str {
    match p {
        FwdPlan::UpdateTitle { .. } => "UpdateTitle",
        FwdPlan::MissingSessionId => "MissingSessionId",
        FwdPlan::NoCommand => "NoCommand",
        FwdPlan::Run => "Run",
    }
}

#[test]
fn term_environment_defaults_and_passthrough() {
    let env = term_environment(None, None, None, None);
    assert_eq!(env.len(), 1);
    assert_eq!(env[0].0, "TERM");
    assert_eq!(env[0].1, "xterm-256color");

    let env = term_environment(
        Some("screen".to_string()),
        Some("truecolor".to_string()),
        None,
        Some("1.2".to_string()),
    );
    assert_eq!(env[0], ("TERM".to_string(), "screen".to_string()));
    assert_eq!(env[1], ("COLORTERM".to_string(), "truecolor".to_string()));
    assert_eq!(env[2], ("TERM_PROGRAM_VERSION".to_string(), "1.2".to_string()));
    assert_eq!(env.len(), 3);
}

#[test]
fn session_id_renders_like_a_hyphenated_uuid() {
    let bits: u128 = 0x123e4567e89b12d3a456426614174000;
    let id = SessionId { bits };
    let rendered = id.render();
    assert_eq!(rendered, "123e4567-e89b-12d3-a456-426614174000");
    assert_eq!(rendered.len(), 36);
    // The rendering agrees with the uuid crate's canonical form.
    assert_eq!(rendered, uuid::Uuid::from_u128(bits).to_string());

    let zero = SessionId { bits: 0 };
    assert_eq!(zero.render(), "00000000-0000-0000-0000-000000000000");
}

#[test]
fn test_session_id_generation() {
    let id1 = uuid::Uuid::new_v4().to_string();
    let id2 = uuid::Uuid::new_v4().to_string();

    assert_eq!(id1.len(), 36);
    assert_eq!(id2.len(), 36);

    assert_ne!(id1, id2);
}

#[test]
fn new_session_ids_are_fresh() {
    let a = vibetunnel_pty::ids::new_session_id();
    let b = vibetunnel_pty::ids::new_session_id();
    assert_eq!(a.render().len(), 36);
    assert_ne!(a.render(), b.render());
}

#[test]
fn control_paths_follow_the_layout() {
    let base = base_dir(&None, &Some("/home/u".to_string())).unwrap();
    assert_eq!(base, "/home/u/.vibetunnel");
    let base = base_dir(&Some("/custom".to_string()), &Some("/home/u".to_string())).unwrap();
    assert_eq!(base, "/custom");
    assert!(base_dir(&None, &None).is_none());

    let dir = control_dir("/custom", "abc-123");
    assert_eq!(dir, "/custom/control/abc-123");
    assert_eq!(socket_path(&dir), "/custom/control/abc-123/ipc.sock");
    assert_eq!(session_json_path(&dir), "/custom/control/abc-123/session.json");
    assert_eq!(stdout_path(&dir), "/custom/control/abc-123/stdout");
    assert_eq!(stdin_path(&dir), "/custom/control/abc-123/stdin");
}

#[test]
fn app_detection_from_command() {
    assert_eq!(detect_app_from_command(&vec![], "helper"), "unknown");
    assert_eq!(
        detect_app_from_command(&vec!["cargo".to_string(), "build".to_string()], "helper"),
        "cargo"
    );
    assert_eq!(detect_app_from_command(&vec!["/usr/bin/python3".to_string()], "helper"), "python");
    assert_eq!(detect_app_from_command(&vec!["/usr/bin/PYTHON3".to_string()], "helper"), "python");
    assert_eq!(detect_app_from_command(&vec!["kubectl".to_string()], "helper"), "kubernetes");
    assert_eq!(detect_app_from_command(&vec!["/opt/tools/mytool".to_string()], "helper"), "mytool");
    assert_eq!(detect_app_from_command(&vec!["mytool".to_string()], "helper"), "mytool");
}

#[test]
fn app_detection_prefers_the_named_assistant() {
    // The assistant's name wins over the tool table, from any token of the
    // command line, case-insensitively.
    assert_eq!(detect_app_from_command(&vec!["helper".to_string()], "helper"), "helper");
    assert_eq!(
        detect_app_from_command(
            &vec!["npx".to_string(), "Helper-code".to_string()],
            "helper"
        ),
        "helper"
    );
    assert_eq!(
        detect_app_from_command(&vec!["cargo-helper".to_string()], "helper"),
        "helper"
    );
    // With no assistant named, the table decides.
    assert_eq!(detect_app_from_command(&vec!["cargo-helper".to_string()], ""), "cargo");
}

#[test]
fn activity_state_classification() {
    let status = SpecificStatus { app: "cargo".to_string(), status: "Working (5s)".to_string() };
    let with_status = activity_state(100_000, 90_000, None, Some(status));
    assert!(with_status.is_active);
    assert_eq!(with_status.last_activity_millis, 90_000);

    let recent = activity_state(100_000, 90_000, Some(80_000), None);
    assert!(recent.is_active, "meaningful output 20s ago counts as active");

    let stale = activity_state(100_000, 90_000, Some(60_000), None);
    assert!(!stale.is_active, "meaningful output 40s ago does not count");

    let silent = activity_state(100_000, 90_000, None, None);
    assert!(!silent.is_active);
}
