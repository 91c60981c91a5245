//! The one error type in which every failure of an operation reaches the
//! caller, and the text shown for it.

use crate::executor::ExecutionError;
use crate::resolver::ResolutionError;
use vstd::prelude::*;

verus! {

/// Every way an operation can fail. A failure ends the operation; nothing
/// is tried again.
#[derive(Clone, Copy, Debug, PartialEq, Eq, Structural)]
pub enum PlaybackError {
    /// The process of the backend could not be started.
    SpawnFailed,
    /// The backend printed bytes that are not UTF-8 text.
    InvalidEncoding,
    /// The backend printed a usage banner in place of data.
    HelpTextDetected,
    /// No player is enumerated.
    NoPlayersDetected,
    /// The backend knows no current media session.
    NoActiveSession,
    /// There is a session, but no track to show.
    NoTrackPlaying,
    /// A reply did not have the expected shape.
    ParseFailure,
    /// The capability of the platform could not be set up.
    BackendUnavailable,
}

/// The failure of an operation that a failed command amounts to.
pub open spec fn execution_failure(e: ExecutionError) -> PlaybackError {
    match e {
        ExecutionError::SpawnFailed => PlaybackError::SpawnFailed,
        ExecutionError::InvalidEncoding => PlaybackError::InvalidEncoding,
        ExecutionError::HelpTextDetected => PlaybackError::HelpTextDetected,
    }
}

/// The failure of an operation that a failed resolution amounts to.
pub open spec fn resolution_failure(e: ResolutionError) -> PlaybackError {
    match e {
        ResolutionError::NoPlayersDetected => PlaybackError::NoPlayersDetected,
    }
}

/// The short text shown to the user for a failure.
pub open spec fn message_text(e: PlaybackError) -> Seq<char> {
    match e {
        PlaybackError::SpawnFailed => "Failed to execute command"@,
        PlaybackError::InvalidEncoding => "Invalid UTF-8 output"@,
        PlaybackError::HelpTextDetected => "The player command answered with its usage text"@,
        PlaybackError::NoPlayersDetected => "No media players detected"@,
        PlaybackError::NoActiveSession => "Play a song to see the lyrics"@,
        PlaybackError::NoTrackPlaying => "Play a song to see the lyrics"@,
        PlaybackError::ParseFailure => "Failed to fetch metadata"@,
        PlaybackError::BackendUnavailable => "Media control not implemented for this platform"@,
    }
}

impl PlaybackError {
    /// Executable form of [`execution_failure`].
    pub fn from_execution(e: ExecutionError) -> (r: PlaybackError)
        ensures
            r == execution_failure(e),
    {
        match e {
            ExecutionError::SpawnFailed => PlaybackError::SpawnFailed,
            ExecutionError::InvalidEncoding => PlaybackError::InvalidEncoding,
            ExecutionError::HelpTextDetected => PlaybackError::HelpTextDetected,
        }
    }

    /// Executable form of [`resolution_failure`].
    pub fn from_resolution(e: ResolutionError) -> (r: PlaybackError)
        ensures
            r == resolution_failure(e),
    {
        match e {
            ResolutionError::NoPlayersDetected => PlaybackError::NoPlayersDetected,
        }
    }

    /// The short text shown to the user for this failure.
    pub fn message(&self) -> (r: String)
        ensures
            r@ == message_text(*self),
    {
        let text = match self {
            PlaybackError::SpawnFailed => "Failed to execute command",
            PlaybackError::InvalidEncoding => "Invalid UTF-8 output",
            PlaybackError::HelpTextDetected => "The player command answered with its usage text",
            PlaybackError::NoPlayersDetected => "No media players detected",
            PlaybackError::NoActiveSession => "Play a song to see the lyrics",
            PlaybackError::NoTrackPlaying => "Play a song to see the lyrics",
            PlaybackError::ParseFailure => "Failed to fetch metadata",
            PlaybackError::BackendUnavailable => "Media control not implemented for this platform",
        };
        String::from_str(text)
    }
}

} // verus!
