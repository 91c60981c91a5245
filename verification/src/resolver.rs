//! Selection of the single active player among the enumerated ones.
//!
//! The policy, first match wins: a manual pin that is still enumerated; the
//! previous choice while it is playing or paused; the first playing player;
//! the first paused one; the first of the rest.

use crate::status::PlaybackStatus;
use crate::status::StatusClass;
use crate::text::text_view;
use vstd::prelude::*;

verus! {

/// One enumerated player with the status it reported.
#[derive(Debug)]
pub struct PlayerEntry {
    pub id: String,
    pub status: PlaybackStatus,
}

/// Why no player could be selected.
#[derive(Clone, Copy, Debug, PartialEq, Eq, Structural)]
pub enum ResolutionError {
    /// The enumeration was empty.
    NoPlayersDetected,
}

/// The caller's pin and the resolver's last decision.
#[derive(Debug)]
pub struct SelectionState {
    manual_pin: Option<String>,
    sticky_choice: Option<String>,
}

/// Mathematical content of a [`SelectionState`].
pub struct Selection {
    pub manual_pin: Option<Seq<char>>,
    pub sticky_choice: Option<Seq<char>>,
}

/// Index of the first entry of `players` named `id`, if there is one.
pub open spec fn first_with_id(players: Seq<PlayerEntry>, id: Seq<char>) -> Option<int>
    decreases players.len(),
{
    if players.len() == 0 {
        None
    } else {
        match first_with_id(players.drop_last(), id) {
            Some(i) => Some(i),
            None => if players.last().id@ == id {
                Some(players.len() - 1)
            } else {
                None
            },
        }
    }
}

/// Index of the first entry of `players` whose status falls in `class`, if
/// there is one.
pub open spec fn first_in_class(players: Seq<PlayerEntry>, class: StatusClass) -> Option<int>
    decreases players.len(),
{
    if players.len() == 0 {
        None
    } else {
        match first_in_class(players.drop_last(), class) {
            Some(i) => Some(i),
            None => if players.last().status.class() == class {
                Some(players.len() - 1)
            } else {
                None
            },
        }
    }
}

/// Index chosen by status alone: the first playing entry, else the first
/// paused one, else the first of the others, else the first entry.
pub open spec fn priority_choice(players: Seq<PlayerEntry>) -> Option<int> {
    if first_in_class(players, StatusClass::Playing) is Some {
        first_in_class(players, StatusClass::Playing)
    } else if first_in_class(players, StatusClass::Paused) is Some {
        first_in_class(players, StatusClass::Paused)
    } else if first_in_class(players, StatusClass::Other) is Some {
        first_in_class(players, StatusClass::Other)
    } else if players.len() > 0 {
        Some(0)
    } else {
        None
    }
}

/// Whether the pin names an enumerated player.
pub open spec fn pin_applies(sel: Selection, players: Seq<PlayerEntry>) -> bool {
    sel.manual_pin is Some && first_with_id(players, sel.manual_pin->0) is Some
}

/// Whether the previous choice is enumerated and playing or paused.
pub open spec fn sticky_applies(sel: Selection, players: Seq<PlayerEntry>) -> bool {
    &&& sel.sticky_choice is Some
    &&& first_with_id(players, sel.sticky_choice->0) matches Some(i)
    &&& players[i].status.is_active()
}

/// Index of the active player for a selection state and an enumeration;
/// `None` exactly when nothing is enumerated.
pub open spec fn resolve_choice(sel: Selection, players: Seq<PlayerEntry>) -> Option<int> {
    if players.len() == 0 {
        None
    } else if pin_applies(sel, players) {
        first_with_id(players, sel.manual_pin->0)
    } else if sticky_applies(sel, players) {
        first_with_id(players, sel.sticky_choice->0)
    } else {
        priority_choice(players)
    }
}

/// The selection state that a resolution leaves behind: the choice becomes
/// the sticky one, and the pin is never touched.
pub open spec fn after_resolve(sel: Selection, players: Seq<PlayerEntry>) -> Selection {
    match resolve_choice(sel, players) {
        Some(i) => Selection { manual_pin: sel.manual_pin, sticky_choice: Some(players[i].id@) },
        None => sel,
    }
}

/// `first_with_id` finds the least index that carries the name.
pub proof fn lemma_first_with_id(players: Seq<PlayerEntry>, id: Seq<char>)
    ensures
        match first_with_id(players, id) {
            Some(i) => {
                &&& 0 <= i < players.len()
                &&& players[i].id@ == id
                &&& forall|j: int| 0 <= j < i ==> players[j].id@ != id
            },
            None => forall|j: int| 0 <= j < players.len() ==> players[j].id@ != id,
        },
    decreases players.len(),
{
    if players.len() > 0 {
        let front = players.drop_last();
        lemma_first_with_id(front, id);
        assert(forall|j: int| 0 <= j < front.len() ==> front[j] == players[j]);
        if first_with_id(front, id) is None {
            assert forall|j: int| 0 <= j < front.len() implies players[j].id@ != id by {
                assert(front[j].id@ != id);
            }
        }
    }
}

/// `first_in_class` finds the least index whose status is in the class.
pub proof fn lemma_first_in_class(players: Seq<PlayerEntry>, class: StatusClass)
    ensures
        match first_in_class(players, class) {
            Some(i) => {
                &&& 0 <= i < players.len()
                &&& players[i].status.class() == class
                &&& forall|j: int| 0 <= j < i ==> players[j].status.class() != class
            },
            None => forall|j: int| 0 <= j < players.len() ==> players[j].status.class() != class,
        },
    decreases players.len(),
{
    if players.len() > 0 {
        let front = players.drop_last();
        lemma_first_in_class(front, class);
        assert(forall|j: int| 0 <= j < front.len() ==> front[j] == players[j]);
        if first_in_class(front, class) is None {
            assert forall|j: int| 0 <= j < front.len() implies players[j].status.class()
                != class by {
                assert(front[j].status.class() != class);
            }
        }
    }
}

/// Position of the first entry named `id`.
pub fn find_player(players: &Vec<PlayerEntry>, id: &String) -> (r: Option<usize>)
    ensures
        match r {
            Some(i) => first_with_id(players@, id@) == Some(i as int),
            None => first_with_id(players@, id@) is None,
        },
{
    let mut k: usize = 0;
    while k < players.len()
        invariant
            k <= players.len(),
            first_with_id(players@.take(k as int), id@) is None,
        decreases players.len() - k,
    {
        if players[k].id == *id {
            proof {
                lemma_found_extends_id(players@, id@, k as int);
            }
            return Some(k);
        }
        proof {
            assert(players@.take(k + 1).drop_last() == players@.take(k as int));
        }
        k = k + 1;
    }
    proof {
        assert(players@.take(k as int) == players@);
    }
    None
}

/// Position of the first entry whose status falls in `class`.
pub fn find_class(players: &Vec<PlayerEntry>, class: StatusClass) -> (r: Option<usize>)
    ensures
        match r {
            Some(i) => first_in_class(players@, class) == Some(i as int),
            None => first_in_class(players@, class) is None,
        },
{
    let mut k: usize = 0;
    while k < players.len()
        invariant
            k <= players.len(),
            first_in_class(players@.take(k as int), class) is None,
        decreases players.len() - k,
    {
        if players[k].status.classify() == class {
            proof {
                lemma_found_extends_class(players@, class, k as int);
            }
            return Some(k);
        }
        proof {
            assert(players@.take(k + 1).drop_last() == players@.take(k as int));
        }
        k = k + 1;
    }
    proof {
        assert(players@.take(k as int) == players@);
    }
    None
}

/// A hit at `k` with no hit before it is the answer for the whole sequence.
proof fn lemma_found_extends_id(players: Seq<PlayerEntry>, id: Seq<char>, k: int)
    requires
        0 <= k < players.len(),
        first_with_id(players.take(k), id) is None,
        players[k].id@ == id,
    ensures
        first_with_id(players, id) == Some(k),
{
    lemma_first_with_id(players.take(k), id);
    lemma_first_with_id(players, id);
    assert(forall|j: int| 0 <= j < k ==> players.take(k)[j] == players[j]);
}

/// A hit at `k` with no hit before it is the answer for the whole sequence.
proof fn lemma_found_extends_class(players: Seq<PlayerEntry>, class: StatusClass, k: int)
    requires
        0 <= k < players.len(),
        first_in_class(players.take(k), class) is None,
        players[k].status.class() == class,
    ensures
        first_in_class(players, class) == Some(k),
{
    lemma_first_in_class(players.take(k), class);
    lemma_first_in_class(players, class);
    assert(forall|j: int| 0 <= j < k ==> players.take(k)[j] == players[j]);
}

/// Position chosen by status alone among a non-empty enumeration.
fn priority_index(players: &Vec<PlayerEntry>) -> (r: usize)
    requires
        players@.len() > 0,
    ensures
        priority_choice(players@) == Some(r as int),
        r < players@.len(),
{
    proof {
        lemma_first_in_class(players@, StatusClass::Playing);
        lemma_first_in_class(players@, StatusClass::Paused);
        lemma_first_in_class(players@, StatusClass::Other);
    }
    match find_class(players, StatusClass::Playing) {
        Some(i) => i,
        None => match find_class(players, StatusClass::Paused) {
            Some(i) => i,
            None => match find_class(players, StatusClass::Other) {
                Some(i) => i,
                None => 0,
            },
        },
    }
}

impl View for SelectionState {
    type V = Selection;

    closed spec fn view(&self) -> Selection {
        Selection {
            manual_pin: match self.manual_pin {
                Some(p) => Some(p@),
                None => None,
            },
            sticky_choice: match self.sticky_choice {
                Some(p) => Some(p@),
                None => None,
            },
        }
    }
}

impl SelectionState {
    /// The state at process start: nothing pinned, nothing chosen yet.
    pub fn new() -> (s: SelectionState)
        ensures
            s@ == (Selection { manual_pin: None, sticky_choice: None }),
    {
        SelectionState { manual_pin: None, sticky_choice: None }
    }

    /// Pins `id`, whether or not a player of that name is known; the pin is
    /// checked against the enumeration at each resolution.
    pub fn set_pin(&mut self, id: String)
        ensures
            final(self)@ == (Selection {
                manual_pin: Some(id@),
                sticky_choice: old(self)@.sticky_choice,
            }),
    {
        self.manual_pin = Some(id);
    }

    /// Removes the pin and leaves the previous choice in place.
    pub fn clear_pin(&mut self)
        ensures
            final(self)@ == (Selection {
                manual_pin: None,
                sticky_choice: old(self)@.sticky_choice,
            }),
    {
        self.manual_pin = None;
    }

    /// The pinned name, if one is pinned.
    pub fn pinned(&self) -> (r: Option<String>)
        ensures
            text_view(r) == self@.manual_pin,
    {
        match &self.manual_pin {
            Some(p) => Some(p.clone()),
            None => None,
        }
    }

    /// The name that the last successful resolution chose, if there was one.
    pub fn last_choice(&self) -> (r: Option<String>)
        ensures
            text_view(r) == self@.sticky_choice,
    {
        match &self.sticky_choice {
            Some(p) => Some(p.clone()),
            None => None,
        }
    }

    /// Selects the active player among `players` and remembers the choice.
    ///
    /// Fails only on an empty enumeration, and then changes nothing.
    pub fn resolve(&mut self, players: &Vec<PlayerEntry>) -> (r: Result<String, ResolutionError>)
        ensures
            final(self)@ == after_resolve(old(self)@, players@),
            match resolve_choice(old(self)@, players@) {
                Some(i) => 0 <= i < players@.len() && (r matches Ok(id) && id@ == players@[i].id@),
                None => r == Err::<String, ResolutionError>(ResolutionError::NoPlayersDetected),
            },
            r is Err <==> players@.len() == 0,
    {
        if players.len() == 0 {
            return Err(ResolutionError::NoPlayersDetected);
        }
        let mut chosen: Option<usize> = None;
        match &self.manual_pin {
            Some(pin) => {
                proof {
                    lemma_first_with_id(players@, pin@);
                }
                chosen = find_player(players, pin);
            },
            None => {},
        }
        if chosen.is_none() {
            match &self.sticky_choice {
                Some(previous) => {
                    proof {
                        lemma_first_with_id(players@, previous@);
                    }
                    match find_player(players, previous) {
                        Some(i) => {
                            if players[i].status.holds_track() {
                                chosen = Some(i);
                            }
                        },
                        None => {},
                    }
                },
                None => {},
            }
        }
        let index: usize = match chosen {
            Some(i) => i,
            None => priority_index(players),
        };
        let id = players[index].id.clone();
        self.sticky_choice = Some(id.clone());
        Ok(id)
    }
}

/// A resolution fails exactly when nothing is enumerated, whatever the
/// selection state holds; otherwise it names an enumerated player.
pub proof fn law_fails_only_on_empty_enumeration(sel: Selection, players: Seq<PlayerEntry>)
    ensures
        resolve_choice(sel, players) is None <==> players.len() == 0,
        resolve_choice(sel, players) matches Some(i) ==> 0 <= i < players.len(),
{
    if sel.manual_pin is Some {
        lemma_first_with_id(players, sel.manual_pin->0);
    }
    if sel.sticky_choice is Some {
        lemma_first_with_id(players, sel.sticky_choice->0);
    }
    lemma_first_in_class(players, StatusClass::Playing);
    lemma_first_in_class(players, StatusClass::Paused);
    lemma_first_in_class(players, StatusClass::Other);
}

/// With neither pin nor previous choice in force, status decides: the first
/// playing player if any plays, else the first paused one if any is paused,
/// else the first enumerated player.
pub proof fn law_priority_by_status(sel: Selection, players: Seq<PlayerEntry>)
    requires
        players.len() > 0,
        !pin_applies(sel, players),
        !sticky_applies(sel, players),
    ensures
        resolve_choice(sel, players) matches Some(i) && {
            &&& 0 <= i < players.len()
            &&& forall|j: int|
                0 <= j < i ==> players[j].status.class() != players[i].status.class()
            &&& forall|j: int|
                0 <= j < players.len() && players[j].status == PlaybackStatus::Playing
                    ==> players[i].status == PlaybackStatus::Playing
            &&& forall|j: int|
                0 <= j < players.len() && players[j].status == PlaybackStatus::Paused
                    ==> players[i].status.is_active()
        },
{
    lemma_first_in_class(players, StatusClass::Playing);
    lemma_first_in_class(players, StatusClass::Paused);
    lemma_first_in_class(players, StatusClass::Other);
}

/// A pinned name that is enumerated is the one resolved, whatever any
/// player's status is.
pub proof fn law_enumerated_pin_wins(sel: Selection, players: Seq<PlayerEntry>, at: int)
    requires
        sel.manual_pin is Some,
        0 <= at < players.len(),
        players[at].id@ == sel.manual_pin->0,
    ensures
        resolve_choice(sel, players) matches Some(i) && 0 <= i <= at && players[i].id@
            == sel.manual_pin->0,
        after_resolve(sel, players).sticky_choice == sel.manual_pin,
{
    lemma_first_with_id(players, sel.manual_pin->0);
}

/// A pinned name that is not enumerated is passed over as if nothing were
/// pinned, and it stays pinned.
pub proof fn law_absent_pin_is_bypassed(sel: Selection, players: Seq<PlayerEntry>)
    requires
        sel.manual_pin is Some,
        forall|j: int| 0 <= j < players.len() ==> players[j].id@ != sel.manual_pin->0,
    ensures
        resolve_choice(sel, players) == resolve_choice(
            Selection { manual_pin: None, sticky_choice: sel.sticky_choice },
            players,
        ),
        after_resolve(sel, players).manual_pin == sel.manual_pin,
{
    lemma_first_with_id(players, sel.manual_pin->0);
}

/// Once a player was resolved, the next resolution names it again as long as
/// it is still enumerated and playing or paused, unless an enumerated pin
/// overrides it. What other players do in between does not matter.
pub proof fn law_choice_is_sticky(
    sel: Selection,
    earlier: Seq<PlayerEntry>,
    later: Seq<PlayerEntry>,
)
    requires
        resolve_choice(sel, earlier) is Some,
        first_with_id(later, earlier[resolve_choice(sel, earlier)->0].id@) matches Some(j)
            && later[j].status.is_active(),
        !pin_applies(after_resolve(sel, earlier), later),
    ensures
        resolve_choice(after_resolve(sel, earlier), later) matches Some(k) && {
            &&& 0 <= k < later.len()
            &&& later[k].id@ == earlier[resolve_choice(sel, earlier)->0].id@
        },
{
    let chosen = earlier[resolve_choice(sel, earlier)->0].id@;
    lemma_first_with_id(later, chosen);
}

} // verus!
