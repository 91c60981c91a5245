//! Active-player resolution and playback state tracking for a desktop
//! "now playing" surface.
//!
//! Playback is observed and controlled through one of three backends: a
//! command-line multiplexer that addresses players by name, the native
//! session manager of the operating system, and a scripting bridge. This
//! library holds what is decided and computed around them. It starts no
//! process and calls no platform API: the caller does that, hands the
//! library what came back, and acts on what the library returns.
//!
//! - [`executor`]: the launch plan for a command line, and the reading of
//!   what the process printed.
//! - [`backend`]: the text of each request, and the reading of a status.
//! - [`registry`]: the enumeration of players from the backend's replies.
//! - [`resolver`]: the choice of the one active player.
//! - [`position`]: change detection over repeated position samples, and the
//!   native tick unit.
//! - [`decimal`]: the decimal text form of a time.
//! - [`controller`]: what each outward operation reads from a reply.
//! - [`error`]: the failures of an operation.
//! - [`status`], [`text`]: the playback status, and helpers on text.
//!
//! Times are whole nanoseconds in an `i64` throughout.

pub mod backend;
pub mod controller;
pub mod decimal;
pub mod error;
pub mod executor;
pub mod position;
pub mod registry;
pub mod resolver;
pub mod status;
pub mod text;
