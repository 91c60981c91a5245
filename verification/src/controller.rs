//! The outward operations: what each one reads from a backend's reply, and
//! the one error type in which every failure reaches the caller.

use crate::backend::command_line;
use crate::backend::command_text;
use crate::backend::script;
use crate::backend::script_text;
use crate::backend::Backend;
use crate::backend::Request;
use crate::decimal::parse_nanos;
use crate::decimal::parse_seconds;
use crate::executor::conclude;
use crate::executor::concluded;
use crate::executor::looks_like_help;
use crate::executor::reject_help_text;
use crate::error::execution_failure;
use crate::error::PlaybackError;
use crate::position::nanos_of;
use crate::position::ticks_to_nanos;
use crate::text::lines;
use crate::text::point_for_comma;
use crate::text::replace_char;
use crate::text::split_lines;
use crate::text::trim;
use crate::text::trimmed;
use vstd::prelude::*;

verus! {

/// The reply that an operation works on, given what the backend's process
/// printed, or `None` if it never started. A usage banner is a failure
/// although the process succeeded.
pub open spec fn reply_of(stdout: Option<Seq<u8>>) -> Result<Seq<char>, PlaybackError> {
    match concluded(stdout) {
        Ok(text) => if looks_like_help(text) {
            Err(PlaybackError::HelpTextDetected)
        } else {
            Ok(text)
        },
        Err(e) => Err(execution_failure(e)),
    }
}

/// The characters of a textual result.
pub open spec fn reply_view(r: Result<String, PlaybackError>) -> Result<Seq<char>, PlaybackError> {
    match r {
        Ok(text) => Ok(text@),
        Err(e) => Err(e),
    }
}

/// Reads what a backend's process printed as the reply to a request.
pub fn read_reply(stdout: Option<Vec<u8>>) -> (r: Result<String, PlaybackError>)
    ensures
        reply_view(r) == reply_of(
            match stdout {
                Some(bytes) => Some(bytes@),
                None => None,
            },
        ),
{
    match conclude(stdout) {
        Ok(text) => match reject_help_text(text) {
            Ok(text) => Ok(text),
            Err(e) => Err(PlaybackError::from_execution(e)),
        },
        Err(e) => Err(PlaybackError::from_execution(e)),
    }
}

/// The text that puts `request` to `backend`: `None` if the backend does
/// not know the request, or, as the native session manager, is not asked in
/// text at all.
pub open spec fn request_text_of(backend: Backend, request: Request) -> Option<Seq<char>> {
    match backend {
        Backend::CliMultiplexer => command_text(request),
        Backend::ScriptingBridge => script_text(request),
        Backend::NativeSession => None,
    }
}

/// The text that puts `request` to `backend`. A request that the backend
/// cannot be asked fails with `BackendUnavailable`.
pub fn request_text(backend: Backend, request: &Request) -> (r: Result<String, PlaybackError>)
    ensures
        match request_text_of(backend, *request) {
            Some(text) => reply_view(r) == Ok::<Seq<char>, PlaybackError>(text),
            None => r == Err::<String, PlaybackError>(PlaybackError::BackendUnavailable),
        },
{
    let text = match backend {
        Backend::CliMultiplexer => command_line(request),
        Backend::ScriptingBridge => script(request),
        Backend::NativeSession => None,
    };
    match text {
        Some(t) => Ok(t),
        None => Err(PlaybackError::BackendUnavailable),
    }
}

/// A call to the native session manager that can fail.
#[derive(Clone, Copy, Debug, PartialEq, Eq, Structural)]
pub enum NativeCall {
    /// Asking for the session manager itself.
    RequestManager,
    /// Asking the manager for its current session.
    CurrentSession,
    /// Reading status, timeline or track description of the session.
    ReadSession,
    /// Telling the session to play, pause, skip or move.
    ControlSession,
}

/// The failure of an operation that a failed call to the native session
/// manager amounts to: without the manager the backend is unavailable;
/// every other failure means that no media session is current.
pub open spec fn native_failure_of(call: NativeCall) -> PlaybackError {
    if call == NativeCall::RequestManager {
        PlaybackError::BackendUnavailable
    } else {
        PlaybackError::NoActiveSession
    }
}

/// Executable form of [`native_failure_of`].
pub fn native_failure(call: NativeCall) -> (r: PlaybackError)
    ensures
        r == native_failure_of(call),
{
    match call {
        NativeCall::RequestManager => PlaybackError::BackendUnavailable,
        NativeCall::CurrentSession => PlaybackError::NoActiveSession,
        NativeCall::ReadSession => PlaybackError::NoActiveSession,
        NativeCall::ControlSession => PlaybackError::NoActiveSession,
    }
}

/// Artist, title and album of a track. An empty text stands for a field that
/// is unknown or not set.
#[derive(Debug)]
pub struct Metadata {
    pub artist: String,
    pub title: String,
    pub album: String,
}

/// Mathematical content of a [`Metadata`].
pub struct Track {
    pub artist: Seq<char>,
    pub title: Seq<char>,
    pub album: Seq<char>,
}

impl View for Metadata {
    type V = Track;

    open spec fn view(&self) -> Track {
        Track { artist: self.artist@, title: self.title@, album: self.album@ }
    }
}

/// The track that three fields describe: none, if neither artist nor title
/// is known.
pub open spec fn described(artist: Seq<char>, title: Seq<char>, album: Seq<char>) -> Result<
    Track,
    PlaybackError,
> {
    if artist.len() == 0 && title.len() == 0 {
        Err(PlaybackError::NoTrackPlaying)
    } else {
        Ok(Track { artist, title, album })
    }
}

/// The track that the three replies to the field requests describe, each
/// taken without the white space around it.
pub open spec fn described_by_replies(
    artist: Seq<char>,
    title: Seq<char>,
    album: Seq<char>,
) -> Result<Track, PlaybackError> {
    described(trimmed(artist), trimmed(title), trimmed(album))
}

/// The track that a summary reply describes. Its first three lines, the
/// white space around the reply removed, are artist, title and album; with
/// fewer lines the reply is malformed.
pub open spec fn described_by_summary(reply: Seq<char>) -> Result<Track, PlaybackError> {
    let rows = split_lines(trimmed(reply));
    if rows.len() >= 3 {
        described(rows[0], rows[1], rows[2])
    } else {
        Err(PlaybackError::ParseFailure)
    }
}

/// The content of a metadata result.
pub open spec fn track_view(r: Result<Metadata, PlaybackError>) -> Result<Track, PlaybackError> {
    match r {
        Ok(m) => Ok(m@),
        Err(e) => Err(e),
    }
}

/// Makes the track description from its three fields as they are.
pub fn describe_track(artist: String, title: String, album: String) -> (r: Result<
    Metadata,
    PlaybackError,
>)
    ensures
        track_view(r) == described(artist@, title@, album@),
{
    if artist.as_str().unicode_len() == 0 && title.as_str().unicode_len() == 0 {
        Err(PlaybackError::NoTrackPlaying)
    } else {
        Ok(Metadata { artist, title, album })
    }
}

/// Makes the track description from the replies to the three field
/// requests.
pub fn describe_track_from_replies(artist: &str, title: &str, album: &str) -> (r: Result<
    Metadata,
    PlaybackError,
>)
    ensures
        track_view(r) == described_by_replies(artist@, title@, album@),
{
    describe_track(trim(artist), trim(title), trim(album))
}

/// Makes the track description from a summary reply.
pub fn describe_track_from_summary(reply: &str) -> (r: Result<Metadata, PlaybackError>)
    ensures
        track_view(r) == described_by_summary(reply@),
{
    let body = trim(reply);
    let rows = lines(body.as_str());
    if rows.len() >= 3 {
        describe_track(rows[0].clone(), rows[1].clone(), rows[2].clone())
    } else {
        Err(PlaybackError::ParseFailure)
    }
}

/// The position that the command-line multiplexer's reply denotes. A reply
/// that is no number, an empty one too, counts as the start of the track.
pub open spec fn cli_position_of(reply: Seq<char>) -> i64 {
    match parse_nanos(trimmed(reply)) {
        Some(p) => p,
        None => 0,
    }
}

/// The position that the scripting bridge's reply denotes. The bridge may
/// answer with a decimal comma. A reply that is no number is a failure.
pub open spec fn bridge_position_of(reply: Seq<char>) -> Result<i64, PlaybackError> {
    match parse_nanos(replace_char(trimmed(reply), ',', '.')) {
        Some(p) => Ok(p),
        None => Err(PlaybackError::ParseFailure),
    }
}

/// The position that a tick count of the native session manager denotes;
/// a failure if it does not fit in an `i64` of nanoseconds.
pub open spec fn native_position_of(ticks: i64) -> Result<i64, PlaybackError> {
    if i64::MIN <= nanos_of(ticks as int) <= i64::MAX {
        Ok(nanos_of(ticks as int) as i64)
    } else {
        Err(PlaybackError::ParseFailure)
    }
}

/// Reads the command-line multiplexer's reply to a position request, in
/// nanoseconds.
pub fn cli_position(reply: &str) -> (r: i64)
    ensures
        r == cli_position_of(reply@),
{
    let body = trim(reply);
    match parse_seconds(body.as_str()) {
        Some(p) => p,
        None => 0,
    }
}

/// Reads the scripting bridge's reply to a position request, in
/// nanoseconds.
pub fn bridge_position(reply: &str) -> (r: Result<i64, PlaybackError>)
    ensures
        r == bridge_position_of(reply@),
{
    let body = trim(reply);
    let plain = point_for_comma(body.as_str());
    match parse_seconds(plain.as_str()) {
        Some(p) => Ok(p),
        None => Err(PlaybackError::ParseFailure),
    }
}

/// Reads a position of the native session manager, given in ticks, in
/// nanoseconds.
pub fn native_position(ticks: i64) -> (r: Result<i64, PlaybackError>)
    ensures
        r == native_position_of(ticks),
{
    match ticks_to_nanos(ticks) {
        Some(p) => Ok(p),
        None => Err(PlaybackError::ParseFailure),
    }
}

/// Output that holds `Usage:` fails the operation that asked for it, also
/// where the process itself reported success.
pub proof fn law_usage_banner_fails_operation(stdout: Seq<u8>)
    requires
        vstd::utf8::valid_utf8(stdout),
        crate::text::contains_seq(vstd::utf8::decode_utf8(stdout), "Usage:"@),
    ensures
        reply_of(Some(stdout)) == Err::<Seq<char>, PlaybackError>(PlaybackError::HelpTextDetected),
{
}

} // verus!
