//! The three playback backends and the text of the requests sent to them.
//!
//! The command-line multiplexer is asked with one command line per request,
//! the scripting bridge with one scripted statement per request. The native
//! session manager is called through its API and has no request text.

use crate::decimal::format_seconds;
use crate::decimal::lemma_render_is_word;
use crate::decimal::render_nanos;
use crate::executor::is_plan_for;
use crate::executor::Launch;
use crate::executor::LaunchPath;
use crate::status::PlaybackStatus;
use crate::text::is_word;
use crate::text::join_words;
use crate::text::law_split_inverts_join;
use crate::text::same_text;
use crate::text::strings_view;
use crate::text::text_view;
use crate::text::trim;
use crate::text::trimmed;
use vstd::prelude::*;

verus! {

/// The mechanism through which playback is observed and controlled.
#[derive(Clone, Copy, Debug, PartialEq, Eq, Structural)]
pub enum Backend {
    /// A command-line tool that addresses each player by name.
    CliMultiplexer,
    /// The session manager of the operating system, which knows one current
    /// session and no player names.
    NativeSession,
    /// A scripting bridge that talks to a few well-known applications.
    ScriptingBridge,
}

impl Backend {
    /// Whether requests to this backend name the player they are meant for.
    /// The native session manager works on its current session only.
    pub open spec fn names_players(self) -> bool {
        self != Backend::NativeSession
    }

    /// Executable form of [`Backend::names_players`].
    pub fn addresses_players(self) -> (r: bool)
        ensures
            r == self.names_players(),
    {
        match self {
            Backend::CliMultiplexer => true,
            Backend::NativeSession => false,
            Backend::ScriptingBridge => true,
        }
    }
}

/// A transport control.
#[derive(Clone, Copy, Debug, PartialEq, Eq, Structural)]
pub enum TransportAction {
    TogglePlayPause,
    Next,
    Previous,
}

/// One field of the track description.
#[derive(Clone, Copy, Debug, PartialEq, Eq, Structural)]
pub enum MetadataField {
    Artist,
    Title,
    Album,
}

/// A request to a backend.
#[derive(Debug)]
pub enum Request {
    /// Which players are there?
    ListPlayers,
    /// Is the command-line tool installed? Only its presence matters.
    VersionProbe,
    /// Is this application running?
    IsRunning { application: String },
    /// What is this player's playback status?
    Status { player: String },
    /// One field of the current track of this player.
    Metadata { player: String, field: MetadataField },
    /// Artist, title and album of the current track, one per line.
    TrackSummary { player: String },
    /// Where in the track is this player?
    Position { player: String },
    /// Move this player to a position, given in nanoseconds.
    Seek { player: String, nanos: i64 },
    /// Toggle, skip forward or skip back.
    Transport { player: String, action: TransportAction },
}

/// The word of the command-line tool for a transport control.
pub open spec fn action_word(action: TransportAction) -> Seq<char> {
    match action {
        TransportAction::TogglePlayPause => "play-pause"@,
        TransportAction::Next => "next"@,
        TransportAction::Previous => "previous"@,
    }
}

/// The word of the command-line tool for a metadata field.
pub open spec fn field_word(field: MetadataField) -> Seq<char> {
    match field {
        MetadataField::Artist => "artist"@,
        MetadataField::Title => "title"@,
        MetadataField::Album => "album"@,
    }
}

/// The scripted statement for a transport control.
pub open spec fn action_statement(action: TransportAction) -> Seq<char> {
    match action {
        TransportAction::TogglePlayPause => "playpause"@,
        TransportAction::Next => "next track"@,
        TransportAction::Previous => "previous track"@,
    }
}

/// The command line that puts `request` to the command-line multiplexer:
/// plain words joined by single spaces, nothing quoted. `None` for a request
/// that this backend does not know.
pub open spec fn command_text(request: Request) -> Option<Seq<char>> {
    match request {
        Request::ListPlayers => Some("playerctl -l"@),
        Request::VersionProbe => Some("playerctl --version"@),
        Request::IsRunning { application } => None,
        Request::Status { player } => Some("playerctl -p "@ + player@ + " status"@),
        Request::Metadata { player, field } => Some(
            "playerctl -p "@ + player@ + " metadata "@ + field_word(field),
        ),
        Request::TrackSummary { player } => None,
        Request::Position { player } => Some("playerctl -p "@ + player@ + " position"@),
        Request::Seek { player, nanos } => Some(
            "playerctl -p "@ + player@ + " position "@ + render_nanos(nanos as int),
        ),
        Request::Transport { player, action } => Some(
            "playerctl -p "@ + player@ + " "@ + action_word(action),
        ),
    }
}

/// The scripted statement that puts `request` to the scripting bridge.
/// `None` for a request that this backend does not know.
pub open spec fn script_text(request: Request) -> Option<Seq<char>> {
    match request {
        Request::ListPlayers => None,
        Request::VersionProbe => None,
        Request::IsRunning { application } => Some(
            "application \""@ + application@ + "\" is running"@,
        ),
        Request::Status { player } => Some(
            "tell application \""@ + player@ + "\" to player state as string"@,
        ),
        Request::Metadata { player, field } => None,
        Request::TrackSummary { player } => Some(
            "tell application \""@ + player@
                + "\"\nset t_artist to artist of current track\nset t_title to name of current track\nset t_album to album of current track\nreturn t_artist & \"\\n\" & t_title & \"\\n\" & t_album\nend tell"@,
        ),
        Request::Position { player } => Some(
            "tell application \""@ + player@ + "\" to player position as string"@,
        ),
        Request::Seek { player, nanos } => Some(
            "tell application \""@ + player@ + "\" to set player position to "@ + render_nanos(
                nanos as int,
            ),
        ),
        Request::Transport { player, action } => Some(
            "tell application \""@ + player@ + "\" to "@ + action_statement(action),
        ),
    }
}

/// Executable form of [`action_word`].
pub fn action_word_str(action: TransportAction) -> (r: &'static str)
    ensures
        r@ == action_word(action),
{
    match action {
        TransportAction::TogglePlayPause => "play-pause",
        TransportAction::Next => "next",
        TransportAction::Previous => "previous",
    }
}

/// Executable form of [`field_word`].
pub fn field_word_str(field: MetadataField) -> (r: &'static str)
    ensures
        r@ == field_word(field),
{
    match field {
        MetadataField::Artist => "artist",
        MetadataField::Title => "title",
        MetadataField::Album => "album",
    }
}

/// Executable form of [`action_statement`].
pub fn action_statement_str(action: TransportAction) -> (r: &'static str)
    ensures
        r@ == action_statement(action),
{
    match action {
        TransportAction::TogglePlayPause => "playpause",
        TransportAction::Next => "next track",
        TransportAction::Previous => "previous track",
    }
}

/// `head`, then `player`, then `tail`.
fn around(head: &str, player: &String, tail: &str) -> (r: String)
    ensures
        r@ == head@ + player@ + tail@,
{
    let mut out = String::from_str(head);
    out.append(player.as_str());
    out.append(tail);
    out
}

/// The command line that puts `request` to the command-line multiplexer.
pub fn command_line(request: &Request) -> (r: Option<String>)
    ensures
        text_view(r) == command_text(*request),
{
    match request {
        Request::ListPlayers => Some(String::from_str("playerctl -l")),
        Request::VersionProbe => Some(String::from_str("playerctl --version")),
        Request::IsRunning { application } => None,
        Request::Status { player } => Some(around("playerctl -p ", player, " status")),
        Request::Metadata { player, field } => {
            let mut out = around("playerctl -p ", player, " metadata ");
            out.append(field_word_str(*field));
            Some(out)
        },
        Request::TrackSummary { player } => None,
        Request::Position { player } => Some(around("playerctl -p ", player, " position")),
        Request::Seek { player, nanos } => {
            let mut out = around("playerctl -p ", player, " position ");
            let time = format_seconds(*nanos);
            out.append(time.as_str());
            Some(out)
        },
        Request::Transport { player, action } => {
            let mut out = around("playerctl -p ", player, " ");
            out.append(action_word_str(*action));
            Some(out)
        },
    }
}

/// The scripted statement that puts `request` to the scripting bridge.
pub fn script(request: &Request) -> (r: Option<String>)
    ensures
        text_view(r) == script_text(*request),
{
    match request {
        Request::ListPlayers => None,
        Request::VersionProbe => None,
        Request::IsRunning { application } => Some(
            around("application \"", application, "\" is running"),
        ),
        Request::Status { player } => Some(
            around("tell application \"", player, "\" to player state as string"),
        ),
        Request::Metadata { player, field } => None,
        Request::TrackSummary { player } => Some(
            around(
                "tell application \"",
                player,
                "\"\nset t_artist to artist of current track\nset t_title to name of current track\nset t_album to album of current track\nreturn t_artist & \"\\n\" & t_title & \"\\n\" & t_album\nend tell",
            ),
        ),
        Request::Position { player } => Some(
            around("tell application \"", player, "\" to player position as string"),
        ),
        Request::Seek { player, nanos } => {
            let mut out = around("tell application \"", player, "\" to set player position to ");
            let time = format_seconds(*nanos);
            out.append(time.as_str());
            Some(out)
        },
        Request::Transport { player, action } => {
            let mut out = around("tell application \"", player, "\" to ");
            out.append(action_statement_str(*action));
            Some(out)
        },
    }
}

/// The status that a status word of `backend` stands for. The command-line
/// multiplexer answers `Playing`, `Paused` or `Stopped`; the scripting bridge
/// answers the same words in lower case. Anything else is `Unknown`, and so
/// is every word for the native session manager, which answers in codes.
pub open spec fn status_of_word(backend: Backend, word: Seq<char>) -> PlaybackStatus {
    match backend {
        Backend::CliMultiplexer => if word == "Playing"@ {
            PlaybackStatus::Playing
        } else if word == "Paused"@ {
            PlaybackStatus::Paused
        } else if word == "Stopped"@ {
            PlaybackStatus::Stopped
        } else {
            PlaybackStatus::Unknown
        },
        Backend::ScriptingBridge => if word == "playing"@ {
            PlaybackStatus::Playing
        } else if word == "paused"@ {
            PlaybackStatus::Paused
        } else if word == "stopped"@ {
            PlaybackStatus::Stopped
        } else {
            PlaybackStatus::Unknown
        },
        Backend::NativeSession => PlaybackStatus::Unknown,
    }
}

/// The status that the reply to a status request stands for: that of the
/// reply without the white space around it.
pub open spec fn status_of_reply(backend: Backend, reply: Seq<char>) -> PlaybackStatus {
    status_of_word(backend, trimmed(reply))
}

/// The status that a code of the native session manager stands for: 3 is
/// stopped, 4 playing, 5 paused; closed (0), opened (1), changing (2) and
/// every other code are `Unknown`.
pub open spec fn status_of_code(code: i32) -> PlaybackStatus {
    if code == 4 {
        PlaybackStatus::Playing
    } else if code == 5 {
        PlaybackStatus::Paused
    } else if code == 3 {
        PlaybackStatus::Stopped
    } else {
        PlaybackStatus::Unknown
    }
}

/// Reads the reply to a status request.
pub fn parse_status(backend: Backend, reply: &str) -> (r: PlaybackStatus)
    ensures
        r == status_of_reply(backend, reply@),
{
    let word = trim(reply);
    match backend {
        Backend::CliMultiplexer => {
            if same_text(word.as_str(), "Playing") {
                PlaybackStatus::Playing
            } else if same_text(word.as_str(), "Paused") {
                PlaybackStatus::Paused
            } else if same_text(word.as_str(), "Stopped") {
                PlaybackStatus::Stopped
            } else {
                PlaybackStatus::Unknown
            }
        },
        Backend::ScriptingBridge => {
            if same_text(word.as_str(), "playing") {
                PlaybackStatus::Playing
            } else if same_text(word.as_str(), "paused") {
                PlaybackStatus::Paused
            } else if same_text(word.as_str(), "stopped") {
                PlaybackStatus::Stopped
            } else {
                PlaybackStatus::Unknown
            }
        },
        Backend::NativeSession => PlaybackStatus::Unknown,
    }
}

/// Reads a status code of the native session manager.
pub fn status_from_code(code: i32) -> (r: PlaybackStatus)
    ensures
        r == status_of_code(code),
{
    if code == 4 {
        PlaybackStatus::Playing
    } else if code == 5 {
        PlaybackStatus::Paused
    } else if code == 3 {
        PlaybackStatus::Stopped
    } else {
        PlaybackStatus::Unknown
    }
}

/// The player or application that `request` addresses, if it addresses
/// one.
pub open spec fn addressee(request: Request) -> Option<Seq<char>> {
    match request {
        Request::ListPlayers => None,
        Request::VersionProbe => None,
        Request::IsRunning { application } => Some(application@),
        Request::Status { player } => Some(player@),
        Request::Metadata { player, field } => Some(player@),
        Request::TrackSummary { player } => Some(player@),
        Request::Position { player } => Some(player@),
        Request::Seek { player, nanos } => Some(player@),
        Request::Transport { player, action } => Some(player@),
    }
}

/// The words of the command line of `request`: the helper's name first, then
/// its arguments.
pub open spec fn command_words(request: Request) -> Option<Seq<Seq<char>>> {
    match request {
        Request::ListPlayers => Some(seq!["playerctl"@, "-l"@]),
        Request::VersionProbe => Some(seq!["playerctl"@, "--version"@]),
        Request::IsRunning { application } => None,
        Request::Status { player } => Some(seq!["playerctl"@, "-p"@, player@, "status"@]),
        Request::Metadata { player, field } => Some(
            seq!["playerctl"@, "-p"@, player@, "metadata"@, field_word(field)],
        ),
        Request::TrackSummary { player } => None,
        Request::Position { player } => Some(seq!["playerctl"@, "-p"@, player@, "position"@]),
        Request::Seek { player, nanos } => Some(
            seq!["playerctl"@, "-p"@, player@, "position"@, render_nanos(nanos as int)],
        ),
        Request::Transport { player, action } => Some(
            seq!["playerctl"@, "-p"@, player@, action_word(action)],
        ),
    }
}

/// Makes known what the literal words of the command lines hold.
proof fn reveal_command_literals()
    ensures
        "playerctl -l"@ == "playerctl"@ + seq![' '] + "-l"@,
        "playerctl --version"@ == "playerctl"@ + seq![' '] + "--version"@,
        "playerctl -p "@ == "playerctl"@ + seq![' '] + "-p"@ + seq![' '],
        " status"@ == seq![' '] + "status"@,
        " metadata "@ == seq![' '] + "metadata"@ + seq![' '],
        " position"@ == seq![' '] + "position"@,
        " position "@ == seq![' '] + "position"@ + seq![' '],
        " "@ == seq![' '],
        is_word("playerctl"@),
        is_word("-l"@),
        is_word("--version"@),
        is_word("-p"@),
        is_word("status"@),
        is_word("metadata"@),
        is_word("position"@),
        forall|field: MetadataField| is_word(#[trigger] field_word(field)),
        forall|action: TransportAction| is_word(#[trigger] action_word(action)),
{
    reveal_strlit("playerctl -l");
    reveal_strlit("playerctl --version");
    reveal_strlit("playerctl -p ");
    reveal_strlit(" status");
    reveal_strlit(" metadata ");
    reveal_strlit(" position");
    reveal_strlit(" position ");
    reveal_strlit(" ");
    reveal_strlit("playerctl");
    reveal_strlit("-l");
    reveal_strlit("--version");
    reveal_strlit("-p");
    reveal_strlit("status");
    reveal_strlit("metadata");
    reveal_strlit("position");
    reveal_strlit("artist");
    reveal_strlit("title");
    reveal_strlit("album");
    reveal_strlit("play-pause");
    reveal_strlit("next");
    reveal_strlit("previous");
    assert("playerctl -l"@ =~= "playerctl"@ + seq![' '] + "-l"@);
    assert("playerctl --version"@ =~= "playerctl"@ + seq![' '] + "--version"@);
    assert("playerctl -p "@ =~= "playerctl"@ + seq![' '] + "-p"@ + seq![' ']);
    assert(" status"@ =~= seq![' '] + "status"@);
    assert(" metadata "@ =~= seq![' '] + "metadata"@ + seq![' ']);
    assert(" position"@ =~= seq![' '] + "position"@);
    assert(" position "@ =~= seq![' '] + "position"@ + seq![' ']);
    assert(" "@ =~= seq![' ']);
    assert(is_word("artist"@) && is_word("title"@) && is_word("album"@));
    assert(is_word("play-pause"@) && is_word("next"@) && is_word("previous"@));
}

/// The command line of every request is its words joined by single spaces.
pub proof fn law_command_line_joins_its_words(request: Request)
    requires
        command_words(request) is Some,
    ensures
        command_text(request) == Some(join_words(command_words(request)->0)),
{
    reveal_command_literals();
    reveal_with_fuel(join_words, 6);
    let words = command_words(request)->0;
    let line = command_text(request)->0;
    assert(words.drop_first().len() == words.len() - 1);
    assert(line =~= join_words(words)) by {
        let w1 = words.drop_first();
        assert(w1[0] == words[1]);
        if words.len() > 2 {
            let w2 = w1.drop_first();
            assert(w2[0] == words[2]);
            if words.len() > 3 {
                let w3 = w2.drop_first();
                assert(w3[0] == words[3]);
                if words.len() > 4 {
                    let w4 = w3.drop_first();
                    assert(w4[0] == words[4]);
                }
            }
        }
    }
}

/// A launch planned from the command line of a request starts the bundled
/// helper with the words of that request as its arguments, provided the
/// name of the player addressed is a single word. A name with a space in it
/// would come apart into several arguments.
pub proof fn law_command_line_launches_helper(request: Request, launch: Launch)
    requires
        command_words(request) is Some,
        addressee(request) matches Some(name) ==> is_word(name),
        is_plan_for(launch, command_text(request)->0),
    ensures
        launch.path == LaunchPath::BundledHelper,
        launch.program@ == "playerctl"@,
        strings_view(launch.args@) == command_words(request)->0.skip(1),
{
    reveal_command_literals();
    law_command_line_joins_its_words(request);
    let words = command_words(request)->0;
    match request {
        Request::Seek { player, nanos } => {
            lemma_render_is_word(nanos as int);
        },
        _ => {},
    }
    assert forall|i: int| 0 <= i < words.len() implies is_word(#[trigger] words[i]) by {}
    law_split_inverts_join(words);
}

} // verus!
