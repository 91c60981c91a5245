use now_playing::controller::{bridge_position, cli_position, describe_track};
use now_playing::controller::{describe_track_from_replies, describe_track_from_summary};
use now_playing::backend::{Backend, Request};
use now_playing::controller::{native_failure, native_position, read_reply, request_text};
use now_playing::controller::NativeCall;
use now_playing::error::PlaybackError;
use now_playing::executor::ExecutionError;
use now_playing::resolver::ResolutionError;

fn s(t: &str) -> String {
    t.to_string()
}

#[test]
fn usage_banner_fails_the_operation() {
    let stdout = b"Usage:\n  playerctl [OPTION...] COMMAND - Controls MPRIS players\n".to_vec();
    assert_eq!(read_reply(Some(stdout)), Err(PlaybackError::HelpTextDetected));
    assert_eq!(
        read_reply(Some(b"x\nHelp Options:\n".to_vec())),
        Err(PlaybackError::HelpTextDetected)
    );
    assert_eq!(
        read_reply(Some(b"Available Commands:\n".to_vec())),
        Err(PlaybackError::HelpTextDetected)
    );
}

#[test]
fn reply_is_the_decoded_output() {
    assert_eq!(read_reply(Some(b"Playing\n".to_vec())), Ok(s("Playing\n")));
    assert_eq!(read_reply(Some(Vec::new())), Ok(String::new()));
}

#[test]
fn reply_failures() {
    assert_eq!(read_reply(None), Err(PlaybackError::SpawnFailed));
    assert_eq!(read_reply(Some(vec![0x80])), Err(PlaybackError::InvalidEncoding));
}

#[test]
fn every_error_kind_has_its_message() {
    assert_eq!(PlaybackError::SpawnFailed.message(), "Failed to execute command");
    assert_eq!(PlaybackError::InvalidEncoding.message(), "Invalid UTF-8 output");
    assert_eq!(
        PlaybackError::HelpTextDetected.message(),
        "The player command answered with its usage text"
    );
    assert_eq!(PlaybackError::NoPlayersDetected.message(), "No media players detected");
    assert_eq!(PlaybackError::NoActiveSession.message(), "Play a song to see the lyrics");
    assert_eq!(PlaybackError::NoTrackPlaying.message(), "Play a song to see the lyrics");
    assert_eq!(PlaybackError::ParseFailure.message(), "Failed to fetch metadata");
    assert_eq!(
        PlaybackError::BackendUnavailable.message(),
        "Media control not implemented for this platform"
    );
}

#[test]
fn errors_of_the_parts_become_errors_of_the_operation() {
    assert_eq!(
        PlaybackError::from_execution(ExecutionError::SpawnFailed),
        PlaybackError::SpawnFailed
    );
    assert_eq!(
        PlaybackError::from_execution(ExecutionError::InvalidEncoding),
        PlaybackError::InvalidEncoding
    );
    assert_eq!(
        PlaybackError::from_execution(ExecutionError::HelpTextDetected),
        PlaybackError::HelpTextDetected
    );
    assert_eq!(
        PlaybackError::from_resolution(ResolutionError::NoPlayersDetected),
        PlaybackError::NoPlayersDetected
    );
}

#[test]
fn track_from_fields() {
    let track = describe_track(s("Artist"), s("Title"), s("Album")).unwrap();
    assert_eq!(track.artist, "Artist");
    assert_eq!(track.title, "Title");
    assert_eq!(track.album, "Album");
}

#[test]
fn track_with_one_of_artist_and_title() {
    let only_title = describe_track(s(""), s("Title"), s("")).unwrap();
    assert_eq!(only_title.artist, "");
    assert_eq!(only_title.title, "Title");
    assert_eq!(only_title.album, "");
    let only_artist = describe_track(s("Artist"), s(""), s("")).unwrap();
    assert_eq!(only_artist.artist, "Artist");
}

#[test]
fn no_track_without_artist_and_title() {
    assert_eq!(describe_track(s(""), s(""), s("")).err(), Some(PlaybackError::NoTrackPlaying));
    assert_eq!(
        describe_track(s(""), s(""), s("Album")).err(),
        Some(PlaybackError::NoTrackPlaying)
    );
}

#[test]
fn fields_are_taken_as_they_are() {
    let track = describe_track(s(" "), s(""), s("")).unwrap();
    assert_eq!(track.artist, " ");
}

#[test]
fn track_from_replies_is_trimmed() {
    let track = describe_track_from_replies("Artist\n", " Title \n", "Album\n").unwrap();
    assert_eq!(track.artist, "Artist");
    assert_eq!(track.title, "Title");
    assert_eq!(track.album, "Album");
    assert_eq!(
        describe_track_from_replies("\n", " \n", "Album\n").err(),
        Some(PlaybackError::NoTrackPlaying)
    );
}

#[test]
fn track_from_summary() {
    let track = describe_track_from_summary("Artist\nTitle\nAlbum\n").unwrap();
    assert_eq!(track.artist, "Artist");
    assert_eq!(track.title, "Title");
    assert_eq!(track.album, "Album");
    let more = describe_track_from_summary("Artist\nTitle\nAlbum\nmore").unwrap();
    assert_eq!(more.album, "Album");
    let no_title = describe_track_from_summary("Artist\n\nAlbum").unwrap();
    assert_eq!(no_title.title, "");
}

#[test]
fn summary_with_too_few_lines_is_malformed() {
    assert_eq!(describe_track_from_summary("").err(), Some(PlaybackError::ParseFailure));
    assert_eq!(
        describe_track_from_summary("Artist\nTitle\n").err(),
        Some(PlaybackError::ParseFailure)
    );
    assert_eq!(
        describe_track_from_summary("\nTitle\nAlbum\n").err(),
        Some(PlaybackError::ParseFailure)
    );
}

#[test]
fn position_of_the_command_line_tool() {
    assert_eq!(cli_position("123.456\n"), 123_456_000_000);
    assert_eq!(cli_position(" 0.5 "), 500_000_000);
}

#[test]
fn position_of_the_command_line_tool_degrades_to_zero() {
    assert_eq!(cli_position(""), 0);
    assert_eq!(cli_position("\n"), 0);
    assert_eq!(cli_position("notanumber"), 0);
    assert_eq!(cli_position("12,5"), 0);
}

#[test]
fn position_of_the_bridge_accepts_a_decimal_comma() {
    assert_eq!(bridge_position("12,5\n"), Ok(12_500_000_000));
    assert_eq!(bridge_position("12.5\n"), Ok(12_500_000_000));
    assert_eq!(bridge_position("7"), Ok(7_000_000_000));
}

#[test]
fn position_of_the_bridge_fails_on_other_text() {
    assert_eq!(bridge_position(""), Err(PlaybackError::ParseFailure));
    assert_eq!(bridge_position("missing value"), Err(PlaybackError::ParseFailure));
    assert_eq!(bridge_position("1,2,3"), Err(PlaybackError::ParseFailure));
}

#[test]
fn position_of_the_native_session_is_in_ticks() {
    assert_eq!(native_position(1_234_560_000), Ok(123_456_000_000));
    assert_eq!(native_position(0), Ok(0));
    assert_eq!(native_position(i64::MAX), Err(PlaybackError::ParseFailure));
}

#[test]
fn request_text_is_that_of_the_backend() {
    let status = Request::Status { player: s("vlc") };
    assert_eq!(request_text(Backend::CliMultiplexer, &status), Ok(s("playerctl -p vlc status")));
    assert_eq!(
        request_text(Backend::ScriptingBridge, &status),
        Ok(s("tell application \"vlc\" to player state as string"))
    );
}

#[test]
fn request_that_a_backend_cannot_be_asked_is_unavailable() {
    let status = Request::Status { player: s("vlc") };
    assert_eq!(
        request_text(Backend::NativeSession, &status),
        Err(PlaybackError::BackendUnavailable)
    );
    assert_eq!(
        request_text(Backend::ScriptingBridge, &Request::ListPlayers),
        Err(PlaybackError::BackendUnavailable)
    );
    assert_eq!(
        request_text(Backend::CliMultiplexer, &Request::TrackSummary { player: s("vlc") }),
        Err(PlaybackError::BackendUnavailable)
    );
}

#[test]
fn failures_of_the_native_session_manager() {
    assert_eq!(native_failure(NativeCall::RequestManager), PlaybackError::BackendUnavailable);
    assert_eq!(native_failure(NativeCall::CurrentSession), PlaybackError::NoActiveSession);
    assert_eq!(native_failure(NativeCall::ReadSession), PlaybackError::NoActiveSession);
    assert_eq!(native_failure(NativeCall::ControlSession), PlaybackError::NoActiveSession);
}
