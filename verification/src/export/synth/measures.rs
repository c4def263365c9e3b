//! Which measured movements of a pitch become expression of a note. Pitches are in
//! millionths of a semitone.

use crate::analysis::frame::NoteEvent;
use super::notes::VibratoShape;
use vstd::prelude::*;

verus! {

/// The least audible vibrato or slide.
pub const MIN_PITCH_EFFECT: i64 = 50_000;

/// How many frames a chirp lasts at most.
pub const MAX_CHIRP_FRAMES: u32 = 8;

/// How far off its pitch a note with a chirp opens at least.
pub const MIN_CHIRP: i64 = 1_000_000;

/// How close to a pitch counts as there.
pub const CHIRP_SETTLE: i64 = 500_000;

/// The greatest pitch.
pub const MAX_PITCH: i64 = 1_000_000_000;

/// A chirp at the onset of a note.
#[derive(Debug, Clone, Copy, PartialEq, Eq, Structural)]
pub struct Chirp {
    /// Where the pitch opens, above where it settles.
    pub from: i64,
    /// After how many frames it settles.
    pub frames: u32,
}

/// The pitch some frames into a note, if it has one.
pub open spec fn pitch_at(pitches: Seq<Option<i64>>, k: int) -> Option<i64> {
    if 0 <= k < pitches.len() {
        pitches[k]
    } else {
        None
    }
}

/// Whether two pitches are at most so far apart.
pub open spec fn within(a: i64, b: i64, most: i64) -> bool {
    -most <= a - b <= most
}

/// Whether the pitch some frames into a note is close to another.
pub open spec fn is_near(pitches: Seq<Option<i64>>, k: int, to: i64) -> bool {
    pitch_at(pitches, k) matches Some(p) && within(p, to, CHIRP_SETTLE)
}

/// The frame before which a chirp is looked for: the end of the note, and never later
/// than a chirp can last.
pub open spec fn chirp_limit(event: NoteEvent) -> int {
    match event.end_frame {
        Some(e) => if e - event.start_frame > MAX_CHIRP_FRAMES + 1 {
            MAX_CHIRP_FRAMES + 1
        } else {
            e - event.start_frame
        },
        None => MAX_CHIRP_FRAMES + 1,
    }
}

/// Whether the pitch of a note first comes close to where it settles after `k` frames.
pub open spec fn settles_at(pitches: Seq<Option<i64>>, settled: i64, limit: int, k: int) -> bool {
    1 <= k < limit && is_near(pitches, k, settled) && forall|j: int|
        1 <= j < k ==> !#[trigger] is_near(pitches, j, settled)
}

/// Whether the pitch of a note comes back to where it opened, having settled.
pub open spec fn swings_back(pitches: Seq<Option<i64>>, initial: i64, limit: int, k: int) -> bool {
    exists|j: int| k < j < limit && #[trigger] is_near(pitches, j, initial)
}

/// Whether a note opens with a chirp: away from its pitch, on which it settles soon
/// and for good.
pub open spec fn is_chirp(c: Chirp, event: NoteEvent, settled_midi: u8, pitches: Seq<Option<i64>>) -> bool {
    let settled = (1_000_000 * settled_midi) as i64;
    pitch_at(pitches, 0) matches Some(initial) && c.from == initial - settled && !within(
        initial,
        settled,
        (MIN_CHIRP - 1) as i64,
    ) && settles_at(pitches, settled, chirp_limit(event), c.frames as int) && !swings_back(
        pitches,
        initial,
        chirp_limit(event),
        c.frames as int,
    )
}

/// Whether pitches are within bounds.
pub open spec fn pitches_fit(pitches: Seq<Option<i64>>) -> bool {
    forall|k: int|
        0 <= k < pitches.len() ==> ((#[trigger] pitches[k]) matches Some(p) ==> -MAX_PITCH <= p
            <= MAX_PITCH)
}

fn near(pitches: &[Option<i64>], k: usize, to: i64) -> (r: bool)
    requires
        pitches_fit(pitches@),
        -MAX_PITCH <= to <= MAX_PITCH,
    ensures
        r == is_near(pitches@, k as int, to),
{
    if k >= pitches.len() {
        return false;
    }
    assert(pitches@[k as int] matches Some(p) ==> -MAX_PITCH <= p <= MAX_PITCH);
    match pitches[k] {
        Some(p) => {
            let d: i64 = p - to;
            -CHIRP_SETTLE <= d && d <= CHIRP_SETTLE
        },
        None => false,
    }
}

/// Finds the chirp with which a note opens. `pitches` holds the pitch at each of its
/// first frames.
pub fn onset_chirp(event: &NoteEvent, settled_midi: u8, pitches: &[Option<i64>]) -> (r: Option<
    Chirp,
>)
    requires
        pitches_fit(pitches@),
    ensures
        match r {
            Some(c) => is_chirp(c, *event, settled_midi, pitches@),
            None => forall|c: Chirp| !is_chirp(c, *event, settled_midi, pitches@),
        },
{
    if pitches.len() == 0 {
        return None;
    }
    assert(pitches@[0] matches Some(p) ==> -MAX_PITCH <= p <= MAX_PITCH);
    let initial: i64 = match pitches[0] {
        Some(p) => p,
        None => {
            return None;
        },
    };
    let settled: i64 = 1_000_000 * settled_midi as i64;
    let from: i64 = initial - settled;
    if -MIN_CHIRP < from && from < MIN_CHIRP {
        return None;
    }
    let limit: u32 = match event.end_frame {
        Some(e) => if e <= event.start_frame {
            0
        } else if e - event.start_frame > MAX_CHIRP_FRAMES + 1 {
            MAX_CHIRP_FRAMES + 1
        } else {
            e - event.start_frame
        },
        None => MAX_CHIRP_FRAMES + 1,
    };
    let ghost bound = chirp_limit(*event);
    let mut k: u32 = 1;
    while k < limit && !near(pitches, k as usize, settled)
        invariant
            1 <= k,
            k <= limit || k == 1,
            limit <= MAX_CHIRP_FRAMES + 1,
            pitches_fit(pitches@),
            -MAX_PITCH <= settled <= MAX_PITCH,
            forall|j: int| 1 <= j < k ==> !#[trigger] is_near(pitches@, j, settled),
        decreases limit - k,
    {
        k += 1;
    }
    if k >= limit {
        assert forall|c: Chirp| !is_chirp(c, *event, settled_midi, pitches@) by {
            if settles_at(pitches@, settled, bound, c.frames as int) {
                assert(is_near(pitches@, c.frames as int, settled));
            }
        }
        return None;
    }
    let chirp: Chirp = Chirp { from, frames: k };
    assert(settles_at(pitches@, settled, bound, k as int));
    assert forall|c: Chirp| is_chirp(c, *event, settled_midi, pitches@) implies c.frames == k by {
        assert(is_near(pitches@, c.frames as int, settled));
    }
    let mut j: u32 = k + 1;
    while j < limit
        invariant
            k < j,
            j <= limit || j == k + 1,
            limit <= MAX_CHIRP_FRAMES + 1,
            limit == bound,
            pitches_fit(pitches@),
            -MAX_PITCH <= initial <= MAX_PITCH,
            pitch_at(pitches@, 0) == Some(initial),
            forall|i: int| k < i < j ==> !#[trigger] is_near(pitches@, i, initial),
            forall|c: Chirp| is_chirp(c, *event, settled_midi, pitches@) ==> c.frames == k,
            bound == chirp_limit(*event),
        decreases limit - j,
    {
        if near(pitches, j as usize, initial) {
            assert(swings_back(pitches@, initial, bound, k as int));
            return None;
        }
        j += 1;
    }
    Some(chirp)
}

/// What was measured of a vibrato.
#[derive(Debug, Clone, Copy)]
pub struct VibratoMeasure {
    /// From the lowest to the highest pitch.
    pub excursion: i64,
    pub frames: u32,
    /// How often the pitch turns round.
    pub reversals: u32,
    pub delay_frames: u32,
    pub shape: VibratoShape,
}

/// Tells whether a measured vibrato is one: it is deep enough to hear, and its rate is
/// not zero.
pub fn vibrato_is_audible(m: &VibratoMeasure) -> (r: bool)
    ensures
        r == (m.excursion >= 2 * MIN_PITCH_EFFECT && m.frames > 0 && m.reversals > 0),
{
    m.excursion >= 2 * MIN_PITCH_EFFECT && m.frames > 0 && m.reversals > 0
}

/// What was measured of a slide.
#[derive(Debug, Clone, Copy)]
pub struct SlideMeasure {
    /// The note that it ends on, if its pitch is one.
    pub dest: Option<u8>,
    /// Where it starts, above where it ends.
    pub from: i64,
    pub frames: u32,
}

/// Finds the note that a slide leads to, unless it has no pitch or the slide is too
/// small to hear.
pub fn slide_destination(m: &SlideMeasure) -> (r: Option<u8>)
    ensures
        r == if within(m.from, 0, (MIN_PITCH_EFFECT - 1) as i64) {
            None
        } else {
            m.dest
        },
{
    if -MIN_PITCH_EFFECT < m.from && m.from < MIN_PITCH_EFFECT {
        None
    } else {
        m.dest
    }
}

/// A note opens with a chirp where its first pitch is a semitone at least from the one that
/// it settles on, it comes within half a semitone of that within eight frames, and it does
/// not swing back.
pub proof fn chirps_open_away_and_settle_soon(
    c: Chirp,
    event: NoteEvent,
    settled_midi: u8,
    pitches: Seq<Option<i64>>,
)
    requires
        is_chirp(c, event, settled_midi, pitches),
    ensures
        1 <= c.frames <= 8,
        event.end_frame matches Some(e) ==> event.start_frame + c.frames < e,
        c.from <= -1_000_000 || 1_000_000 <= c.from,
        pitches.len() > c.frames,
        pitches[0] is Some && pitches[0]->0 == 1_000_000 * settled_midi + c.from,
        pitches[c.frames as int] is Some,
        -500_000 <= pitches[c.frames as int]->0 - 1_000_000 * settled_midi <= 500_000,
        forall|j: int|
            1 <= j < c.frames && (#[trigger] pitches[j]) is Some ==> pitches[j]->0 - 1_000_000
                * settled_midi > 500_000 || pitches[j]->0 - 1_000_000 * settled_midi < -500_000,
        forall|j: int|
            c.frames < j < 9 && j < pitches.len() && (event.end_frame matches Some(e) ==> j < e
                - event.start_frame) && (#[trigger] pitches[j]) is Some ==> pitches[j]->0
                - pitches[0]->0 > 500_000 || pitches[j]->0 - pitches[0]->0 < -500_000,
{
    let settled = (1_000_000 * settled_midi) as i64;
    assert forall|j: int|
        1 <= j < c.frames && (#[trigger] pitches[j]) is Some implies pitches[j]->0 - 1_000_000
        * settled_midi > 500_000 || pitches[j]->0 - 1_000_000 * settled_midi < -500_000 by {
        assert(!is_near(pitches, j, settled));
    }
    assert forall|j: int|
        c.frames < j < 9 && j < pitches.len() && (event.end_frame matches Some(e) ==> j < e
            - event.start_frame) && (#[trigger] pitches[j]) is Some implies pitches[j]->0
        - pitches[0]->0 > 500_000 || pitches[j]->0 - pitches[0]->0 < -500_000 by {
        if is_near(pitches, j, pitches[0]->0) {
            assert(swings_back(pitches, pitches[0]->0, chirp_limit(event), c.frames as int));
        }
    }
}

} // verus!
