use now_playing::executor::{conclude, decode_output, is_bundled_helper, is_help_text};
use now_playing::executor::{plan_launch, reject_help_text, ExecutionError, LaunchPath};

#[test]
fn plan_for_the_bundled_helper() {
    let launch = plan_launch("playerctl -p spotify status").unwrap();
    assert_eq!(launch.path, LaunchPath::BundledHelper);
    assert_eq!(launch.program, "playerctl");
    assert_eq!(launch.args, vec!["-p", "spotify", "status"]);
}

#[test]
fn plan_for_a_host_process() {
    let launch = plan_launch("osascript -e true").unwrap();
    assert_eq!(launch.path, LaunchPath::HostProcess);
    assert_eq!(launch.program, "osascript");
    assert_eq!(launch.args, vec!["-e", "true"]);
}

#[test]
fn plan_splits_on_any_white_space() {
    let launch = plan_launch("  playerctl\t-l \n").unwrap();
    assert_eq!(launch.path, LaunchPath::BundledHelper);
    assert_eq!(launch.program, "playerctl");
    assert_eq!(launch.args, vec!["-l"]);
}

#[test]
fn plan_without_arguments() {
    let launch = plan_launch("date").unwrap();
    assert_eq!(launch.path, LaunchPath::HostProcess);
    assert_eq!(launch.program, "date");
    assert!(launch.args.is_empty());
}

#[test]
fn plan_knows_no_quoting() {
    let launch = plan_launch("playerctl -p \"my player\" status").unwrap();
    assert_eq!(launch.args, vec!["-p", "\"my", "player\"", "status"]);
}

#[test]
fn helper_name_must_match_exactly() {
    assert!(is_bundled_helper("playerctl"));
    assert!(!is_bundled_helper("Playerctl"));
    assert!(!is_bundled_helper("playerctl2"));
    assert!(!is_bundled_helper("/usr/bin/playerctl"));
    assert_eq!(plan_launch("/usr/bin/playerctl -l").unwrap().path, LaunchPath::HostProcess);
}

#[test]
fn plan_for_an_empty_line_fails_like_a_launch() {
    assert_eq!(plan_launch("").err(), Some(ExecutionError::SpawnFailed));
    assert_eq!(plan_launch("  \t ").err(), Some(ExecutionError::SpawnFailed));
}

#[test]
fn decodes_utf8_output() {
    assert_eq!(decode_output(b"Playing\n".to_vec()), Ok("Playing\n".to_string()));
    assert_eq!(decode_output(Vec::new()), Ok(String::new()));
    assert_eq!(
        decode_output(vec![0x42, 0x6a, 0xc3, 0xb6, 0x72, 0x6b]),
        Ok("Bj\u{f6}rk".to_string())
    );
}

#[test]
fn rejects_output_that_is_not_utf8() {
    assert_eq!(decode_output(vec![0x50, 0xff, 0x51]), Err(ExecutionError::InvalidEncoding));
    assert_eq!(decode_output(vec![0xc3]), Err(ExecutionError::InvalidEncoding));
    assert_eq!(decode_output(vec![0xed, 0xa0, 0x80]), Err(ExecutionError::InvalidEncoding));
}

#[test]
fn conclude_tells_the_three_outcomes_apart() {
    assert_eq!(conclude(None), Err(ExecutionError::SpawnFailed));
    assert_eq!(conclude(Some(vec![0xff])), Err(ExecutionError::InvalidEncoding));
    assert_eq!(conclude(Some(b"spotify\n".to_vec())), Ok("spotify\n".to_string()));
}

#[test]
fn conclude_lets_a_usage_banner_through() {
    assert_eq!(conclude(Some(b"Usage: x".to_vec())), Ok("Usage: x".to_string()));
}

#[test]
fn help_text_is_detected_by_each_marker() {
    assert!(is_help_text("Usage:\n  playerctl [OPTION...] COMMAND"));
    assert!(is_help_text("bla\nHelp Options:\n  -h"));
    assert!(is_help_text("Available Commands:"));
    assert!(is_help_text("xxUsage:yy"));
    assert!(!is_help_text(""));
    assert!(!is_help_text("Playing"));
    assert!(!is_help_text("usage:"));
    assert!(!is_help_text("Usage"));
    assert!(!is_help_text("Help  Options:"));
}

#[test]
fn help_text_is_rejected() {
    assert_eq!(
        reject_help_text("Usage:\n  playerctl [OPTION...] COMMAND".to_string()),
        Err(ExecutionError::HelpTextDetected)
    );
    assert_eq!(
        reject_help_text("Available Commands:\n  play".to_string()),
        Err(ExecutionError::HelpTextDetected)
    );
}

#[test]
fn other_output_passes_unchanged() {
    assert_eq!(reject_help_text(" Playing \n".to_string()), Ok(" Playing \n".to_string()));
    assert_eq!(reject_help_text(String::new()), Ok(String::new()));
}
