//! Playback status of a single player.

use vstd::prelude::*;

verus! {

/// What a player reports about its playback.
///
/// `Unknown` stands for a status query that failed or answered with text that
/// is not one of the three known words.
#[derive(Clone, Copy, Debug, PartialEq, Eq, Structural)]
pub enum PlaybackStatus {
    Playing,
    Paused,
    Stopped,
    Unknown,
}

/// The three groups that the selection policy sorts players into.
#[derive(Clone, Copy, Debug, PartialEq, Eq, Structural)]
pub enum StatusClass {
    Playing,
    Paused,
    Other,
}

impl PlaybackStatus {
    /// The group a status belongs to: `Stopped` and `Unknown` are both `Other`.
    pub open spec fn class(self) -> StatusClass {
        match self {
            PlaybackStatus::Playing => StatusClass::Playing,
            PlaybackStatus::Paused => StatusClass::Paused,
            PlaybackStatus::Stopped => StatusClass::Other,
            PlaybackStatus::Unknown => StatusClass::Other,
        }
    }

    /// Whether the player holds a track it could continue: playing or paused.
    pub open spec fn is_active(self) -> bool {
        self == PlaybackStatus::Playing || self == PlaybackStatus::Paused
    }

    /// Whether the player is playing right now.
    pub fn is_playing(self) -> (b: bool)
        ensures
            b == (self == PlaybackStatus::Playing),
    {
        match self {
            PlaybackStatus::Playing => true,
            PlaybackStatus::Paused => false,
            PlaybackStatus::Stopped => false,
            PlaybackStatus::Unknown => false,
        }
    }

    /// Executable form of [`PlaybackStatus::class`].
    pub fn classify(self) -> (c: StatusClass)
        ensures
            c == self.class(),
    {
        match self {
            PlaybackStatus::Playing => StatusClass::Playing,
            PlaybackStatus::Paused => StatusClass::Paused,
            PlaybackStatus::Stopped => StatusClass::Other,
            PlaybackStatus::Unknown => StatusClass::Other,
        }
    }

    /// Executable form of [`PlaybackStatus::is_active`].
    pub fn holds_track(self) -> (b: bool)
        ensures
            b == self.is_active(),
    {
        match self {
            PlaybackStatus::Playing => true,
            PlaybackStatus::Paused => true,
            PlaybackStatus::Stopped => false,
            PlaybackStatus::Unknown => false,
        }
    }
}

} // verus!
