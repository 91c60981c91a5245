use now_playing::backend::Backend;
use now_playing::error::PlaybackError;
use now_playing::registry::{collect_entries, is_diagnostic, is_running_reply};
use now_playing::registry::{known_applications, native_entries, parse_player_list, read_probe};
use now_playing::registry::{running_applications, Probe, RunningProbe, MAX_ENTRY_LEN};
use now_playing::resolver::{PlayerEntry, SelectionState};
use now_playing::status::PlaybackStatus;

fn probe(id: &str, reply: Result<&str, PlaybackError>) -> Probe {
    Probe { id: id.to_string(), reply: reply.map(|t| t.to_string()) }
}

fn pairs(entries: &Vec<PlayerEntry>) -> Vec<(String, PlaybackStatus)> {
    entries.iter().map(|e| (e.id.clone(), e.status)).collect()
}

#[test]
fn player_list_has_one_identifier_per_line() {
    assert_eq!(parse_player_list("spotify\nfirefox.instance_1_23\nvlc\n"), vec![
        "spotify",
        "firefox.instance_1_23",
        "vlc"
    ]);
    assert_eq!(parse_player_list("\n  spotify\n"), vec!["spotify"]);
}

#[test]
fn empty_list_reply_has_no_players() {
    assert!(parse_player_list("").is_empty());
    assert!(parse_player_list(" \n\n").is_empty());
}

#[test]
fn player_list_leaves_out_diagnostic_lines() {
    let reply = "Usage:\n  playerctl [OPTION...] COMMAND\nspotify\n\nHelp text";
    assert_eq!(parse_player_list(reply), vec!["spotify", "", "Help text"]);
}

#[test]
fn player_list_leaves_out_overlong_lines() {
    assert_eq!(MAX_ENTRY_LEN, 100);
    let fits = "p".repeat(100);
    let overlong = "p".repeat(101);
    let reply = format!("{}\n{}\nvlc", overlong, fits);
    assert_eq!(parse_player_list(&reply), vec![fits.as_str(), "vlc"]);
}

#[test]
fn length_is_counted_in_characters() {
    assert!(!is_diagnostic(&"\u{f6}".repeat(100)));
    assert!(is_diagnostic(&"\u{f6}".repeat(101)));
}

#[test]
fn diagnostic_markers() {
    assert!(is_diagnostic("Usage:"));
    assert!(is_diagnostic("  playerctl [OPTION...] COMMAND"));
    assert!(!is_diagnostic("spotify"));
    assert!(!is_diagnostic("command"));
    assert!(!is_diagnostic(""));
}

#[test]
fn probe_with_a_status_reply() {
    let cli = Backend::CliMultiplexer;
    assert_eq!(read_probe(cli, &probe("a", Ok("Playing\n"))), Some(PlaybackStatus::Playing));
    assert_eq!(read_probe(cli, &probe("a", Ok("Paused"))), Some(PlaybackStatus::Paused));
    assert_eq!(read_probe(cli, &probe("a", Ok("what"))), Some(PlaybackStatus::Unknown));
}

#[test]
fn failed_probe_keeps_the_player_as_unknown() {
    let cli = Backend::CliMultiplexer;
    assert_eq!(
        read_probe(cli, &probe("a", Err(PlaybackError::SpawnFailed))),
        Some(PlaybackStatus::Unknown)
    );
    assert_eq!(
        read_probe(cli, &probe("a", Err(PlaybackError::InvalidEncoding))),
        Some(PlaybackStatus::Unknown)
    );
    assert_eq!(
        read_probe(cli, &probe("a", Err(PlaybackError::NoActiveSession))),
        Some(PlaybackStatus::Unknown)
    );
}

#[test]
fn probe_that_looks_like_diagnostics_leaves_the_player_out() {
    let cli = Backend::CliMultiplexer;
    assert_eq!(read_probe(cli, &probe("a", Err(PlaybackError::HelpTextDetected))), None);
    assert_eq!(read_probe(cli, &probe("a", Ok("Usage:\n  playerctl"))), None);
    assert_eq!(read_probe(cli, &probe("a", Ok(&"x".repeat(101)))), None);
    assert_eq!(read_probe(cli, &probe("COMMAND", Ok("Playing"))), None);
}

#[test]
fn enumeration_keeps_order_and_absorbs_failures() {
    let probes = vec![
        probe("a", Ok("Stopped\n")),
        probe("b", Err(PlaybackError::SpawnFailed)),
        probe("Usage: playerctl", Ok("Playing")),
        probe("c", Ok("Playing\n")),
        probe("d", Err(PlaybackError::HelpTextDetected)),
        probe("e", Ok("Paused\n")),
    ];
    let entries = collect_entries(Backend::CliMultiplexer, &probes);
    assert_eq!(pairs(&entries), vec![
        ("a".to_string(), PlaybackStatus::Stopped),
        ("b".to_string(), PlaybackStatus::Unknown),
        ("c".to_string(), PlaybackStatus::Playing),
        ("e".to_string(), PlaybackStatus::Paused),
    ]);
    let mut state = SelectionState::new();
    assert_eq!(state.resolve(&entries), Ok("c".to_string()));
}

#[test]
fn enumeration_of_nothing_is_empty() {
    assert!(collect_entries(Backend::CliMultiplexer, &Vec::new()).is_empty());
}

#[test]
fn enumeration_reads_the_words_of_its_backend() {
    let probes = vec![probe("Spotify", Ok("playing\n")), probe("Music", Ok("Playing\n"))];
    let entries = collect_entries(Backend::ScriptingBridge, &probes);
    assert_eq!(pairs(&entries), vec![
        ("Spotify".to_string(), PlaybackStatus::Playing),
        ("Music".to_string(), PlaybackStatus::Unknown),
    ]);
}

#[test]
fn native_session_is_one_made_up_player() {
    let entries = native_entries(Some(5));
    assert_eq!(pairs(&entries), vec![("Generic Player".to_string(), PlaybackStatus::Paused)]);
    let mut state = SelectionState::new();
    assert_eq!(state.resolve(&entries), Ok("Generic Player".to_string()));
}

#[test]
fn native_session_that_cannot_be_asked_is_unknown() {
    let entries = native_entries(None);
    assert_eq!(pairs(&entries), vec![("Generic Player".to_string(), PlaybackStatus::Unknown)]);
    let closed = native_entries(Some(0));
    assert_eq!(pairs(&closed), vec![("Generic Player".to_string(), PlaybackStatus::Unknown)]);
}

#[test]
fn bridge_asks_about_three_applications() {
    assert_eq!(known_applications(), vec!["Spotify", "Music", "Apple Music"]);
}

#[test]
fn running_reply_is_the_word_true() {
    assert!(is_running_reply("true\n"));
    assert!(is_running_reply(" true "));
    assert!(!is_running_reply("false\n"));
    assert!(!is_running_reply("True"));
    assert!(!is_running_reply(""));
    assert!(!is_running_reply("true true"));
}

#[test]
fn bridge_enumerates_the_applications_that_run() {
    let probes = vec![
        RunningProbe { application: "Spotify".to_string(), reply: "false\n".to_string() },
        RunningProbe { application: "Music".to_string(), reply: "true\n".to_string() },
        RunningProbe { application: "Apple Music".to_string(), reply: " true".to_string() },
    ];
    assert_eq!(running_applications(&probes), vec!["Music", "Apple Music"]);
    assert!(running_applications(&Vec::new()).is_empty());
}
