//! Playback positions: change detection across repeated samples, the
//! reading of a raw sample, and the native tick unit.
//!
//! A position is a whole number of nanoseconds, held in an `i64`. A sample
//! holds one position per session, in the order in which the sessions are
//! listed; the place in that order is the slot. Slots say nothing about who
//! plays: if the order of the sessions changes between two samples, a change
//! is noticed in a slot that may belong to another player by then.

use crate::decimal::parse_nanos;
use crate::decimal::parse_seconds;
use crate::text::lines;
use crate::text::split_lines;
use crate::text::strings_view;
use crate::text::trim;
use crate::text::trimmed;
use std::collections::HashMap;
use vstd::prelude::*;

verus! {

broadcast use vstd::std_specs::hash::group_hash_axioms;

/// Two samples of a slot that differ by more than this many nanoseconds
/// (one microsecond) count as a change.
pub const CHANGE_THRESHOLD_NANOS: i64 = 1_000;

/// Whether a slot moved from `previous` to `current` by more than the
/// threshold, in either direction.
pub open spec fn moved(previous: i64, current: i64) -> bool {
    current - previous > CHANGE_THRESHOLD_NANOS || previous - current > CHANGE_THRESHOLD_NANOS
}

/// Whether slot `slot` holds a stored position from which `current` differs
/// by more than the threshold. A slot never seen before has not changed.
pub open spec fn slot_changed(stored: Map<usize, i64>, slot: int, current: i64) -> bool {
    &&& 0 <= slot <= usize::MAX
    &&& stored.contains_key(slot as usize)
    &&& moved(stored[slot as usize], current)
}

/// The lowest slot of `positions` that changed against `stored`, if any did.
pub open spec fn first_changed(stored: Map<usize, i64>, positions: Seq<i64>) -> Option<int>
    decreases positions.len(),
{
    if positions.len() == 0 {
        None
    } else {
        match first_changed(stored, positions.drop_last()) {
            Some(i) => Some(i),
            None => if slot_changed(stored, positions.len() - 1, positions.last()) {
                Some(positions.len() - 1)
            } else {
                None
            },
        }
    }
}

/// What a sample reports: the position in the lowest changed slot.
pub open spec fn reported(stored: Map<usize, i64>, positions: Seq<i64>) -> Option<i64> {
    match first_changed(stored, positions) {
        Some(i) => Some(positions[i]),
        None => None,
    }
}

/// The store after a sample: every sampled slot holds the new position, every
/// other slot keeps what it held.
pub open spec fn overwritten(stored: Map<usize, i64>, positions: Seq<i64>) -> Map<usize, i64> {
    Map::new(
        |k: usize| k < positions.len() || stored.contains_key(k),
        |k: usize|
            if k < positions.len() {
                positions[k as int]
            } else {
                stored[k]
            },
    )
}

/// `first_changed` finds the least changed slot.
pub proof fn lemma_first_changed(stored: Map<usize, i64>, positions: Seq<i64>)
    ensures
        match first_changed(stored, positions) {
            Some(i) => {
                &&& 0 <= i < positions.len()
                &&& slot_changed(stored, i, positions[i])
                &&& forall|j: int| 0 <= j < i ==> !slot_changed(stored, j, positions[j])
            },
            None => forall|j: int|
                0 <= j < positions.len() ==> !slot_changed(stored, j, positions[j]),
        },
    decreases positions.len(),
{
    if positions.len() > 0 {
        let front = positions.drop_last();
        lemma_first_changed(stored, front);
        assert(forall|j: int| 0 <= j < front.len() ==> front[j] == positions[j]);
        if first_changed(stored, front) is None {
            assert forall|j: int| 0 <= j < front.len() implies !slot_changed(
                stored,
                j,
                positions[j],
            ) by {
                assert(!slot_changed(stored, j, front[j]));
            }
        }
    }
}

/// Executable form of [`moved`].
pub fn has_moved(previous: i64, current: i64) -> (r: bool)
    ensures
        r == moved(previous, current),
{
    let delta: i128 = current as i128 - previous as i128;
    delta > CHANGE_THRESHOLD_NANOS as i128 || -delta > CHANGE_THRESHOLD_NANOS as i128
}

/// The last position seen in each slot. A slot is the place of a session in
/// the list that one sample reports.
pub struct PositionTracker {
    last_seen: HashMap<usize, i64>,
}

impl View for PositionTracker {
    type V = Map<usize, i64>;

    closed spec fn view(&self) -> Map<usize, i64> {
        self.last_seen@
    }
}

impl PositionTracker {
    /// A tracker that has seen no slot yet.
    pub fn new() -> (t: PositionTracker)
        ensures
            t@ == Map::<usize, i64>::empty(),
    {
        PositionTracker { last_seen: HashMap::new() }
    }

    /// The position last stored for `slot`, if the slot was ever sampled.
    pub fn last_position(&self, slot: usize) -> (r: Option<i64>)
        ensures
            r == (if self@.contains_key(slot) {
                Some(self@[slot])
            } else {
                None
            }),
    {
        match self.last_seen.get(&slot) {
            Some(p) => Some(*p),
            None => None,
        }
    }

    /// Takes one sample, one position per slot in slot order.
    ///
    /// Reports the position in the lowest slot that changed against what was
    /// stored, and stores every position of the sample, changed or not.
    pub fn sample(&mut self, positions: &Vec<i64>) -> (r: Option<i64>)
        ensures
            r == reported(old(self)@, positions@),
            final(self)@ == overwritten(old(self)@, positions@),
    {
        let mut changed: Option<i64> = None;
        let mut i: usize = 0;
        proof {
            assert(self@ =~= overwritten(old(self)@, positions@.take(0)));
        }
        while i < positions.len()
            invariant
                i <= positions@.len(),
                self@ == overwritten(old(self)@, positions@.take(i as int)),
                changed == reported(old(self)@, positions@.take(i as int)),
                changed is None ==> first_changed(old(self)@, positions@.take(i as int)) is None,
            decreases positions@.len() - i,
        {
            let current = positions[i];
            let ghost seen = positions@.take(i as int);
            let ghost next = positions@.take(i + 1);
            proof {
                assert(next.drop_last() == seen);
                assert(next.last() == current);
                lemma_first_changed(old(self)@, seen);
                lemma_first_changed(old(self)@, next);
            }
            if changed.is_none() {
                match self.last_seen.get(&i) {
                    Some(previous) => {
                        if has_moved(*previous, current) {
                            changed = Some(current);
                        }
                    },
                    None => {},
                }
            }
            self.last_seen.insert(i, current);
            proof {
                assert(self@ =~= overwritten(old(self)@, next));
            }
            i = i + 1;
        }
        proof {
            assert(positions@.take(i as int) == positions@);
        }
        changed
    }
}

/// The positions that the lines of one raw sample denote, each line trimmed
/// first: `None` as soon as one line is no number.
pub open spec fn parse_batch(lines: Seq<Seq<char>>) -> Option<Seq<i64>>
    decreases lines.len(),
{
    if lines.len() == 0 {
        Some(Seq::empty())
    } else {
        match (parse_batch(lines.drop_last()), parse_nanos(trimmed(lines.last()))) {
            (Some(front), Some(p)) => Some(front.push(p)),
            _ => None,
        }
    }
}

/// The lines of a raw sample: the lines of the reply without the white
/// space around it.
pub open spec fn sample_lines(raw: Seq<char>) -> Seq<Seq<char>> {
    split_lines(trimmed(raw))
}

/// A batch is read line by line: it has one position per line, each the
/// number on that line, and is rejected as a whole exactly when some line
/// holds no number.
pub proof fn lemma_parse_batch(lines: Seq<Seq<char>>)
    ensures
        match parse_batch(lines) {
            Some(positions) => {
                &&& positions.len() == lines.len()
                &&& forall|j: int|
                    0 <= j < lines.len() ==> parse_nanos(trimmed(#[trigger] lines[j])) == Some(
                        positions[j],
                    )
            },
            None => exists|j: int|
                0 <= j < lines.len() && parse_nanos(trimmed(#[trigger] lines[j])) is None,
        },
    decreases lines.len(),
{
    if lines.len() > 0 {
        let front = lines.drop_last();
        lemma_parse_batch(front);
        assert(forall|j: int| 0 <= j < front.len() ==> front[j] == lines[j]);
        match parse_batch(front) {
            Some(head) => {
                match parse_nanos(trimmed(lines.last())) {
                    Some(p) => {
                        let positions = head.push(p);
                        assert forall|j: int| 0 <= j < lines.len() implies parse_nanos(
                            trimmed(#[trigger] lines[j]),
                        ) == Some(positions[j]) by {
                            if j < front.len() {
                                assert(front[j] == lines[j]);
                                assert(positions[j] == head[j]);
                            }
                        }
                    },
                    None => {
                        assert(parse_nanos(trimmed(lines[lines.len() - 1])) is None);
                    },
                }
            },
            None => {
                let j = choose|j: int|
                    0 <= j < front.len() && parse_nanos(trimmed(#[trigger] front[j])) is None;
                assert(front[j] == lines[j]);
                assert(parse_nanos(trimmed(lines[j])) is None);
            },
        }
    }
}

/// Reads a raw sample, one position per line.
pub fn parse_positions(raw: &str) -> (r: Option<Vec<i64>>)
    ensures
        match parse_batch(sample_lines(raw@)) {
            Some(positions) => r matches Some(v) && v@ == positions,
            None => r is None,
        },
{
    let body = trim(raw);
    let rows = lines(body.as_str());
    let ghost all = sample_lines(raw@);
    let mut out: Vec<i64> = Vec::new();
    let mut i: usize = 0;
    proof {
        assert(strings_view(rows@) == all);
        assert(all.take(0).len() == 0);
    }
    while i < rows.len()
        invariant
            i <= rows@.len(),
            all == sample_lines(raw@),
            strings_view(rows@) == all,
            parse_batch(all.take(i as int)) == Some(out@),
        decreases rows@.len() - i,
    {
        proof {
            assert(all.take(i + 1).drop_last() == all.take(i as int));
            assert(all.take(i + 1).last() == rows@[i as int]@);
        }
        let line = trim(rows[i].as_str());
        match parse_seconds(line.as_str()) {
            Some(p) => {
                out.push(p);
            },
            None => {
                proof {
                    assert(parse_nanos(trimmed(all.take(i + 1).last())) is None);
                    assert(parse_batch(all.take(i + 1)) is None);
                    lemma_batch_fails_from(all, i + 1);
                }
                return None;
            },
        }
        i = i + 1;
    }
    proof {
        assert(all.take(i as int) == all);
    }
    Some(out)
}

/// A batch whose first `k` lines are rejected is rejected.
proof fn lemma_batch_fails_from(lines: Seq<Seq<char>>, k: int)
    requires
        0 <= k <= lines.len(),
        parse_batch(lines.take(k)) is None,
    ensures
        parse_batch(lines) is None,
    decreases lines.len() - k,
{
    if k < lines.len() {
        assert(lines.take(k + 1).drop_last() == lines.take(k));
        lemma_batch_fails_from(lines, k + 1);
    } else {
        assert(lines.take(k) == lines);
    }
}

impl PositionTracker {
    /// Takes one sample from the raw reply of the position query, which
    /// holds one position per line.
    ///
    /// A reply in which any line is no number is discarded as a whole:
    /// nothing is reported and nothing stored changes.
    pub fn sample_raw(&mut self, raw: &str) -> (r: Option<i64>)
        ensures
            match parse_batch(sample_lines(raw@)) {
                Some(positions) => {
                    &&& r == reported(old(self)@, positions)
                    &&& final(self)@ == overwritten(old(self)@, positions)
                },
                None => r is None && final(self)@ == old(self)@,
            },
    {
        match parse_positions(raw) {
            Some(positions) => self.sample(&positions),
            None => None,
        }
    }
}

/// Nanoseconds in one tick of the native session manager.
pub const NANOS_PER_TICK: i64 = 100;

/// The ticks in `nanos` nanoseconds, rounded toward zero.
pub open spec fn ticks_of(nanos: int) -> int {
    if nanos >= 0 {
        nanos / 100
    } else {
        -((-nanos) / 100)
    }
}

/// The nanoseconds in `ticks` ticks.
pub open spec fn nanos_of(ticks: int) -> int {
    ticks * 100
}

/// Converts a position to the native tick unit, rounding toward zero.
pub fn nanos_to_ticks(nanos: i64) -> (ticks: i64)
    ensures
        ticks == ticks_of(nanos as int),
{
    if nanos >= 0 {
        nanos / NANOS_PER_TICK
    } else if nanos == i64::MIN {
        -92_233_720_368_547_758
    } else {
        -((-nanos) / NANOS_PER_TICK)
    }
}

/// Converts native ticks to a position; `None` if the position does not fit
/// in an `i64` of nanoseconds.
pub fn ticks_to_nanos(ticks: i64) -> (r: Option<i64>)
    ensures
        r == (if i64::MIN <= nanos_of(ticks as int) <= i64::MAX {
            Some(nanos_of(ticks as int) as i64)
        } else {
            None
        }),
{
    ticks.checked_mul(NANOS_PER_TICK)
}

/// A position converted to ticks and back differs from itself by less than
/// one tick, never grows in size, and the way back always fits.
pub proof fn law_tick_round_trip(nanos: i64)
    ensures
        i64::MIN <= nanos_of(ticks_of(nanos as int)) <= i64::MAX,
        -100 < nanos_of(ticks_of(nanos as int)) - nanos < 100,
        nanos >= 0 ==> 0 <= nanos_of(ticks_of(nanos as int)) <= nanos,
        nanos <= 0 ==> nanos <= nanos_of(ticks_of(nanos as int)) <= 0,
{
}

/// Ticks converted to a position and back are the same ticks.
pub proof fn law_ticks_survive_round_trip(ticks: int)
    ensures
        ticks_of(nanos_of(ticks)) == ticks,
{
}

/// A sample taken twice in a row reports nothing the second time: the store
/// is a cache of the latest values, and a change is reported once.
pub proof fn law_repeated_sample_is_quiet(stored: Map<usize, i64>, positions: Seq<i64>)
    ensures
        reported(overwritten(stored, positions), positions) is None,
{
    lemma_first_changed(overwritten(stored, positions), positions);
}

/// One line that is no number makes the whole raw sample void.
pub proof fn law_malformed_line_voids_batch(lines: Seq<Seq<char>>, at: int)
    requires
        0 <= at < lines.len(),
        parse_nanos(trimmed(lines[at])) is None,
    ensures
        parse_batch(lines) is None,
{
    lemma_parse_batch(lines);
}

} // verus!
