//! Enumeration of players: reading the list that a backend reports, probing
//! each player's status, and leaving out what looks like diagnostic output
//! of a misbehaving backend.

use crate::backend::parse_status;
use crate::backend::status_from_code;
use crate::backend::status_of_code;
use crate::backend::status_of_reply;
use crate::backend::Backend;
use crate::error::PlaybackError;
use crate::resolver::PlayerEntry;
use crate::status::PlaybackStatus;
use crate::text::contains;
use crate::text::contains_seq;
use crate::text::lines;
use crate::text::same_text;
use crate::text::split_lines;
use crate::text::strings_view;
use crate::text::trim;
use crate::text::trimmed;
use vstd::prelude::*;

verus! {

/// An identifier or a status text of more characters than this is taken
/// for diagnostic output.
pub const MAX_ENTRY_LEN: usize = 100;

/// Whether `text` resembles diagnostic or help output in place of an
/// identifier or a status: it is overlong, or holds `Usage:` or `COMMAND`.
pub open spec fn looks_like_diagnostic(text: Seq<char>) -> bool {
    ||| text.len() > MAX_ENTRY_LEN
    ||| contains_seq(text, "Usage:"@)
    ||| contains_seq(text, "COMMAND"@)
}

/// The entries of `entries` that do not look like diagnostic output, in
/// their order.
pub open spec fn keep_identifiers(entries: Seq<Seq<char>>) -> Seq<Seq<char>>
    decreases entries.len(),
{
    if entries.len() == 0 {
        Seq::empty()
    } else if looks_like_diagnostic(entries.last()) {
        keep_identifiers(entries.drop_last())
    } else {
        keep_identifiers(entries.drop_last()).push(entries.last())
    }
}

/// The player identifiers in the reply to a list request: its lines, the
/// white space around the reply removed, without those that look like
/// diagnostic output.
pub open spec fn listed_players(reply: Seq<char>) -> Seq<Seq<char>> {
    keep_identifiers(split_lines(trimmed(reply)))
}

/// One enumerated identifier with the outcome of its status request.
#[derive(Debug)]
pub struct Probe {
    pub id: String,
    pub reply: Result<String, PlaybackError>,
}

/// What a probe says about its player: `None` if the player is left out of
/// the enumeration, else its status.
///
/// A player is left out if its identifier or its status text looks like
/// diagnostic output. A status request that failed otherwise makes the
/// status `Unknown` and keeps the player.
pub open spec fn probed_status(backend: Backend, probe: Probe) -> Option<PlaybackStatus> {
    if looks_like_diagnostic(probe.id@) {
        None
    } else {
        match probe.reply {
            Ok(text) => if looks_like_diagnostic(text@) {
                None
            } else {
                Some(status_of_reply(backend, text@))
            },
            Err(PlaybackError::HelpTextDetected) => None,
            Err(_) => Some(PlaybackStatus::Unknown),
        }
    }
}

/// Identifier and status of each entry.
pub open spec fn entries_view(entries: Seq<PlayerEntry>) -> Seq<(Seq<char>, PlaybackStatus)> {
    Seq::new(entries.len(), |i: int| (entries[i].id@, entries[i].status))
}

/// The enumeration that a run of probes yields: one entry for each probe
/// that is not left out, in the order of the probes.
pub open spec fn enumerated(backend: Backend, probes: Seq<Probe>) -> Seq<
    (Seq<char>, PlaybackStatus),
>
    decreases probes.len(),
{
    if probes.len() == 0 {
        Seq::empty()
    } else {
        match probed_status(backend, probes.last()) {
            Some(status) => enumerated(backend, probes.drop_last()).push(
                (probes.last().id@, status),
            ),
            None => enumerated(backend, probes.drop_last()),
        }
    }
}

/// Executable form of [`looks_like_diagnostic`].
pub fn is_diagnostic(text: &str) -> (r: bool)
    ensures
        r == looks_like_diagnostic(text@),
{
    text.unicode_len() > MAX_ENTRY_LEN || contains(text, "Usage:") || contains(text, "COMMAND")
}

/// Reads the reply to a list request, one identifier per line.
pub fn parse_player_list(reply: &str) -> (r: Vec<String>)
    ensures
        strings_view(r@) == listed_players(reply@),
{
    let body = trim(reply);
    let rows = lines(body.as_str());
    let ghost all = split_lines(trimmed(reply@));
    let mut out: Vec<String> = Vec::new();
    let mut i: usize = 0;
    proof {
        assert(all.take(0).len() == 0);
        assert(strings_view(out@) =~= keep_identifiers(all.take(0)));
    }
    while i < rows.len()
        invariant
            i <= rows@.len(),
            all == split_lines(trimmed(reply@)),
            strings_view(rows@) == all,
            strings_view(out@) == keep_identifiers(all.take(i as int)),
        decreases rows@.len() - i,
    {
        let ghost before = strings_view(out@);
        proof {
            assert(all.take(i + 1).drop_last() == all.take(i as int));
            assert(all.take(i + 1).last() == rows@[i as int]@);
        }
        if !is_diagnostic(rows[i].as_str()) {
            out.push(rows[i].clone());
            proof {
                assert(strings_view(out@) =~= before.push(rows@[i as int]@));
            }
        }
        i = i + 1;
    }
    proof {
        assert(all.take(i as int) == all);
    }
    out
}

/// Reads one probe, as [`probed_status`] defines it.
pub fn read_probe(backend: Backend, probe: &Probe) -> (r: Option<PlaybackStatus>)
    ensures
        r == probed_status(backend, *probe),
{
    if is_diagnostic(probe.id.as_str()) {
        return None;
    }
    match &probe.reply {
        Ok(text) => {
            if is_diagnostic(text.as_str()) {
                None
            } else {
                Some(parse_status(backend, text.as_str()))
            }
        },
        Err(e) => {
            match e {
                PlaybackError::HelpTextDetected => None,
                _ => Some(PlaybackStatus::Unknown),
            }
        },
    }
}

/// Builds the enumeration from the probes of all listed players. A failed
/// status request never fails the enumeration.
pub fn collect_entries(backend: Backend, probes: &Vec<Probe>) -> (r: Vec<PlayerEntry>)
    ensures
        entries_view(r@) == enumerated(backend, probes@),
{
    let mut out: Vec<PlayerEntry> = Vec::new();
    let mut i: usize = 0;
    proof {
        assert(probes@.take(0).len() == 0);
        assert(entries_view(out@) =~= enumerated(backend, probes@.take(0)));
    }
    while i < probes.len()
        invariant
            i <= probes@.len(),
            entries_view(out@) == enumerated(backend, probes@.take(i as int)),
        decreases probes@.len() - i,
    {
        let ghost before = entries_view(out@);
        proof {
            assert(probes@.take(i + 1).drop_last() == probes@.take(i as int));
            assert(probes@.take(i + 1).last() == probes@[i as int]);
        }
        match read_probe(backend, &probes[i]) {
            Some(status) => {
                out.push(PlayerEntry { id: probes[i].id.clone(), status });
                proof {
                    assert(entries_view(out@) =~= before.push((probes@[i as int].id@, status)));
                }
            },
            None => {},
        }
        i = i + 1;
    }
    proof {
        assert(probes@.take(i as int) == probes@);
    }
    out
}

/// The identifier under which the native session manager's one current
/// session is enumerated.
pub open spec fn native_player_name() -> Seq<char> {
    "Generic Player"@
}

/// The status of the native session manager's current session, given the
/// status code it reported, or `None` if it could not be asked.
pub open spec fn native_status(code: Option<i32>) -> PlaybackStatus {
    match code {
        Some(c) => status_of_code(c),
        None => PlaybackStatus::Unknown,
    }
}

/// The enumeration of the native session manager: its current session as
/// the only player, under a made-up name. A session that could not be asked
/// for its status is enumerated all the same, with status `Unknown`.
pub fn native_entries(code: Option<i32>) -> (r: Vec<PlayerEntry>)
    ensures
        entries_view(r@) == seq![(native_player_name(), native_status(code))],
{
    let status = match code {
        Some(c) => status_from_code(c),
        None => PlaybackStatus::Unknown,
    };
    let mut out: Vec<PlayerEntry> = Vec::new();
    out.push(PlayerEntry { id: String::from_str("Generic Player"), status });
    proof {
        assert(entries_view(out@) =~= seq![(native_player_name(), native_status(code))]);
    }
    out
}

/// The applications that the scripting bridge asks about, in the order in
/// which they are probed.
pub open spec fn known_application_names() -> Seq<Seq<char>> {
    seq!["Spotify"@, "Music"@, "Apple Music"@]
}

/// The applications that the scripting bridge asks about.
pub fn known_applications() -> (r: Vec<String>)
    ensures
        strings_view(r@) == known_application_names(),
{
    let mut out: Vec<String> = Vec::new();
    out.push(String::from_str("Spotify"));
    out.push(String::from_str("Music"));
    out.push(String::from_str("Apple Music"));
    proof {
        assert(strings_view(out@) =~= known_application_names());
    }
    out
}

/// Whether the reply to an is-running request says yes: it is the word
/// `true`, white space around it aside.
pub open spec fn says_running(reply: Seq<char>) -> bool {
    trimmed(reply) == "true"@
}

/// Executable form of [`says_running`].
pub fn is_running_reply(reply: &str) -> (r: bool)
    ensures
        r == says_running(reply@),
{
    let word = trim(reply);
    same_text(word.as_str(), "true")
}

/// One application of the scripting bridge with the reply to its
/// is-running request.
#[derive(Debug)]
pub struct RunningProbe {
    pub application: String,
    pub reply: String,
}

/// The applications among `probes` whose reply says that they run, in the
/// order of the probes.
pub open spec fn running_among(probes: Seq<RunningProbe>) -> Seq<Seq<char>>
    decreases probes.len(),
{
    if probes.len() == 0 {
        Seq::empty()
    } else if says_running(probes.last().reply@) {
        running_among(probes.drop_last()).push(probes.last().application@)
    } else {
        running_among(probes.drop_last())
    }
}

/// The enumeration of the scripting bridge: of the applications asked, those
/// that run.
pub fn running_applications(probes: &Vec<RunningProbe>) -> (r: Vec<String>)
    ensures
        strings_view(r@) == running_among(probes@),
{
    let mut out: Vec<String> = Vec::new();
    let mut i: usize = 0;
    proof {
        assert(probes@.take(0).len() == 0);
        assert(strings_view(out@) =~= running_among(probes@.take(0)));
    }
    while i < probes.len()
        invariant
            i <= probes@.len(),
            strings_view(out@) == running_among(probes@.take(i as int)),
        decreases probes@.len() - i,
    {
        let ghost before = strings_view(out@);
        proof {
            assert(probes@.take(i + 1).drop_last() == probes@.take(i as int));
            assert(probes@.take(i + 1).last() == probes@[i as int]);
        }
        if is_running_reply(probes[i].reply.as_str()) {
            out.push(probes[i].application.clone());
            proof {
                assert(strings_view(out@) =~= before.push(probes@[i as int].application@));
            }
        }
        i = i + 1;
    }
    proof {
        assert(probes@.take(i as int) == probes@);
    }
    out
}

/// Nothing that looks like diagnostic output is ever listed as a player,
/// and no more players are listed than the entries hold.
pub proof fn law_listed_players_are_plain(entries: Seq<Seq<char>>)
    ensures
        keep_identifiers(entries).len() <= entries.len(),
        forall|i: int|
            0 <= i < keep_identifiers(entries).len() ==> !looks_like_diagnostic(
                #[trigger] keep_identifiers(entries)[i],
            ),
    decreases entries.len(),
{
    if entries.len() > 0 {
        law_listed_players_are_plain(entries.drop_last());
        let front = keep_identifiers(entries.drop_last());
        let kept = keep_identifiers(entries);
        assert forall|i: int| 0 <= i < kept.len() implies !looks_like_diagnostic(
            #[trigger] kept[i],
        ) by {
            if i < front.len() {
                assert(kept[i] == front[i]);
            }
        }
    }
}

/// An enumeration holds no player whose name looks like diagnostic output,
/// and no more players than were probed.
pub proof fn law_enumeration_is_plain(backend: Backend, probes: Seq<Probe>)
    ensures
        enumerated(backend, probes).len() <= probes.len(),
        forall|i: int|
            0 <= i < enumerated(backend, probes).len() ==> !looks_like_diagnostic(
                (#[trigger] enumerated(backend, probes)[i]).0,
            ),
    decreases probes.len(),
{
    if probes.len() > 0 {
        law_enumeration_is_plain(backend, probes.drop_last());
        let front = enumerated(backend, probes.drop_last());
        let all = enumerated(backend, probes);
        assert forall|i: int| 0 <= i < all.len() implies !looks_like_diagnostic(
            (#[trigger] all[i]).0,
        ) by {
            if i < front.len() {
                assert(all[i] == front[i]);
            }
        }
    }
}

} // verus!
