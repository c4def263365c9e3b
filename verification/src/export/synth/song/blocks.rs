//! Cutting the notes of a track into the blocks that its driver played.

use crate::analysis::program::VoiceId;
use super::SongNote;
use super::super::emission::ONE_BITS;
use super::super::notes::{is_not_negative, ticks, to_ticks};
use vstd::prelude::*;

verus! {

/// Where a driver started one of its patterns on a voice.
#[derive(Debug, Clone, Copy, PartialEq, Eq, Structural)]
pub struct DriverPlacement {
    pub start_frame: u32,
    pub pattern_number: u32,
    pub transpose: i8,
}

/// Where the first entry of a voice stands in the structure of a song, from `k` on.
pub open spec fn entry_of(
    structure: Seq<(VoiceId, Vec<DriverPlacement>)>,
    voice: VoiceId,
    k: int,
) -> Option<int>
    decreases structure.len() - k,
{
    if k < 0 || k >= structure.len() {
        None
    } else if structure[k].0 == voice {
        Some(k)
    } else {
        entry_of(structure, voice, k + 1)
    }
}

/// The placements of a voice: those of its first entry, if it has any.
pub open spec fn placements_of(
    structure: Seq<(VoiceId, Vec<DriverPlacement>)>,
    voice: VoiceId,
) -> Option<Seq<DriverPlacement>> {
    match entry_of(structure, voice, 0) {
        Some(k) => if structure[k].1@.len() > 0 {
            Some(structure[k].1@)
        } else {
            None
        },
        None => None,
    }
}

/// Finds the placements of a voice in the structure of a song: those of its first
/// entry, if it has any.
pub fn voice_placements<'a>(
    structure: &'a [(VoiceId, Vec<DriverPlacement>)],
    voice: VoiceId,
) -> (r: Option<&'a [DriverPlacement]>)
    ensures
        match r {
            Some(p) => placements_of(structure@, voice) == Some(p@),
            None => placements_of(structure@, voice) is None,
        },
{
    let mut k: usize = 0;
    while k < structure.len()
        invariant
            k <= structure@.len(),
            entry_of(structure@, voice, 0) == entry_of(structure@, voice, k as int),
        decreases structure@.len() - k,
    {
        if structure[k].0 == voice {
            let placements: &'a Vec<DriverPlacement> = &structure[k].1;
            return if placements.len() > 0 {
                Some(placements.as_slice())
            } else {
                None
            };
        }
        k += 1;
    }
    None
}

/// The notes of a placement, counted from its first note and without its
/// transposition.
#[derive(Debug)]
pub struct RawBlock {
    pub notes: Vec<SongNote>,
    pub pattern_number: u32,
    /// The transposition that was taken out.
    pub applied: i32,
    /// The tick of the first note.
    pub start: u32,
    /// The ticks from the first note to the end of the placement.
    pub span: u32,
}

/// A block as plain values.
pub struct RawBlockView {
    pub notes: Seq<SongNote>,
    pub pattern_number: u32,
    pub applied: i32,
    pub start: u32,
    pub span: u32,
}

impl RawBlock {
    /// The block as plain values.
    pub open spec fn view(self) -> RawBlockView {
        RawBlockView {
            notes: self.notes@,
            pattern_number: self.pattern_number,
            applied: self.applied,
            start: self.start,
            span: self.span,
        }
    }
}

/// How many notes at the beginning of a list start before a tick.
pub open spec fn leading(notes: Seq<SongNote>, tick: u32) -> nat
    decreases notes.len(),
{
    if notes.len() == 0 || notes[0].start >= tick {
        0
    } else {
        1 + leading(notes.drop_first(), tick)
    }
}

proof fn leading_is(notes: Seq<SongNote>, tick: u32, n: int)
    requires
        0 <= n <= notes.len(),
        forall|i: int| 0 <= i < n ==> (#[trigger] notes[i]).start < tick,
        n < notes.len() ==> notes[n].start >= tick,
    ensures
        leading(notes, tick) == n,
    decreases notes.len(),
{
    if n > 0 {
        let t = notes.drop_first();
        assert forall|i: int| 0 <= i < n - 1 implies (#[trigger] t[i]).start < tick by {
            assert(notes[i + 1].start < tick);
        }
        assert(notes[0].start < tick);
        leading_is(t, tick, n - 1);
    }
}

proof fn leading_bounds(notes: Seq<SongNote>, lo: u32, hi: u32)
    requires
        lo <= hi,
    ensures
        leading(notes, lo) <= leading(notes, hi) <= notes.len(),
    decreases notes.len(),
{
    if notes.len() > 0 {
        leading_bounds(notes.drop_first(), lo, hi);
    }
}

/// The difference of two ticks, or none.
pub open spec fn tick_difference(a: int, b: int) -> int {
    if a > b {
        a - b
    } else {
        0
    }
}

/// The least distance of a note from a tick.
pub open spec fn least_distance(notes: Seq<SongNote>, base: u32) -> int
    decreases notes.len(),
{
    if notes.len() == 0 {
        0
    } else {
        let here = tick_difference(notes.last().start as int, base as int);
        if notes.len() == 1 {
            here
        } else {
            let before = least_distance(notes.drop_last(), base);
            if before < here {
                before
            } else {
                here
            }
        }
    }
}

/// Whether a transposition can be taken out of notes: it is one, and no pitch
/// would fall below zero.
pub open spec fn is_liftable(notes: Seq<SongNote>, transpose: i8) -> bool {
    transpose != 0 && forall|i: int| 0 <= i < notes.len() ==> (#[trigger] notes[i]).pitch >= transpose
}

/// The frame at which a placement ends: where the next one starts.
pub open spec fn placement_end(
    placements: Seq<DriverPlacement>,
    k: int,
    frame_count: u32,
) -> u32 {
    if k + 1 < placements.len() {
        placements[k + 1].start_frame
    } else {
        frame_count
    }
}

/// The block that a window of notes makes up.
pub open spec fn block_of(
    window: Seq<SongNote>,
    p: DriverPlacement,
    end: u32,
    tpr: u32,
) -> RawBlockView {
    let base = ticks(p.start_frame as int, tpr as int);
    let applied = if is_liftable(window, p.transpose) {
        p.transpose as int
    } else {
        0
    };
    let lead = least_distance(window, base);
    let start = base + lead;
    RawBlockView {
        notes: Seq::new(
            window.len(),
            |k: int|
                SongNote {
                    id: k as u32,
                    start: tick_difference(
                        tick_difference(window[k].start as int, base as int),
                        lead,
                    ) as u32,
                    pitch: (window[k].pitch - applied) as u32,
                    ..window[k]
                },
        ),
        pattern_number: p.pattern_number,
        applied: applied as i32,
        start: if start > u32::MAX {
            u32::MAX
        } else {
            start as u32
        },
        span: tick_difference(ticks(end - p.start_frame, tpr as int) as int, lead) as u32,
    }
}

/// The notes that a placement plays.
pub open spec fn placement_window(
    notes: Seq<SongNote>,
    p: DriverPlacement,
    end: u32,
    tpr: u32,
) -> Seq<SongNote> {
    notes.subrange(
        leading(notes, ticks(p.start_frame as int, tpr as int)) as int,
        leading(notes, ticks(end as int, tpr as int)) as int,
    )
}

/// The blocks of the first `k` placements. A placement without length or without
/// notes has none.
pub open spec fn blocks_of(
    notes: Seq<SongNote>,
    placements: Seq<DriverPlacement>,
    frame_count: u32,
    tpr: u32,
    k: int,
) -> Seq<RawBlockView>
    decreases k,
{
    if k <= 0 {
        Seq::empty()
    } else {
        let before = blocks_of(notes, placements, frame_count, tpr, k - 1);
        let p = placements[k - 1];
        let end = placement_end(placements, k - 1, frame_count);
        let window = placement_window(notes, p, end, tpr);
        if p.start_frame < end && window.len() > 0 {
            before.push(block_of(window, p, end, tpr))
        } else {
            before
        }
    }
}

/// What machine limits ask of pitches: a transposition can be taken out.
pub open spec fn pitches_fit(notes: Seq<SongNote>) -> bool {
    forall|i: int| 0 <= i < notes.len() ==> (#[trigger] notes[i]).pitch + 128 <= i32::MAX
}

fn count_leading(notes: &[SongNote], tick: u32) -> (r: usize)
    ensures
        r == leading(notes@, tick),
        r <= notes@.len(),
{
    let mut n: usize = 0;
    while n < notes.len() && notes[n].start < tick
        invariant
            n <= notes@.len(),
            forall|i: int| 0 <= i < n ==> (#[trigger] notes@[i]).start < tick,
        decreases notes@.len() - n,
    {
        n += 1;
    }
    proof {
        leading_is(notes@, tick, n as int);
    }
    n
}

fn minus(a: u32, b: u32) -> (r: u32)
    ensures
        r == tick_difference(a as int, b as int),
{
    if a > b {
        a - b
    } else {
        0
    }
}

proof fn ticks_ascend(a: int, b: int, tpr: int)
    requires
        0 <= a <= b,
        0 <= tpr,
    ensures
        ticks(a, tpr) <= ticks(b, tpr),
{
    assert(0 <= a * tpr <= b * tpr) by (nonlinear_arith)
        requires
            0 <= a <= b,
            0 <= tpr,
    ;
}

fn make_block(notes: &[SongNote], from: usize, to: usize, p: &DriverPlacement, end: u32, tpr: u32) -> (r:
    RawBlock)
    requires
        from < to <= notes@.len(),
        p.start_frame < end,
        pitches_fit(notes@),
    ensures
        r.view() == block_of(notes@.subrange(from as int, to as int), *p, end, tpr),
{
    let ghost window = notes@.subrange(from as int, to as int);
    let base: u32 = to_ticks(p.start_frame, tpr);
    let mut lead: u32 = 0;
    let mut lowest: bool = true;
    let mut i: usize = from;
    assert(window.take(0) =~= Seq::<SongNote>::empty());
    while i < to
        invariant
            from <= i <= to <= notes@.len(),
            pitches_fit(notes@),
            window == notes@.subrange(from as int, to as int),
            lead == least_distance(window.take(i - from), base),
            lowest == forall|j: int|
                0 <= j < i - from ==> (#[trigger] window[j]).pitch >= p.transpose,
        decreases to - i,
    {
        proof {
            assert(window.take(i + 1 - from).drop_last() =~= window.take(i - from));
            assert(window[i - from] == notes@[i as int]);
            assert(pitches_fit(notes@));
        }
        let here: u32 = minus(notes[i].start, base);
        if i == from || here <= lead {
            lead = here;
        }
        if (notes[i].pitch as i32) < p.transpose as i32 {
            lowest = false;
        }
        i += 1;
    }
    assert(window.take(window.len() as int) =~= window);
    let applied: i32 = if p.transpose != 0 && lowest {
        p.transpose as i32
    } else {
        0
    };
    let ghost wanted = block_of(window, *p, end, tpr);
    let mut out: Vec<SongNote> = Vec::new();
    let mut k: usize = 0;
    while k < to - from
        invariant
            k <= to - from,
            from < to <= notes@.len(),
            pitches_fit(notes@),
            window == notes@.subrange(from as int, to as int),
            base == ticks(p.start_frame as int, tpr as int),
            lead == least_distance(window, base),
            applied == (if is_liftable(window, p.transpose) {
                p.transpose as int
            } else {
                0
            }),
            wanted == block_of(window, *p, end, tpr),
            out@ == wanted.notes.take(k as int),
        decreases to - from - k,
    {
        proof {
            assert(window[k as int] == notes@[from + k]);
            assert(pitches_fit(notes@));
        }
        let mut note: SongNote = notes[from + k];
        note.id = k as u32;
        note.start = minus(minus(note.start, base), lead);
        note.pitch = (note.pitch as i32 - applied) as u32;
        assert(note == wanted.notes[k as int]);
        out.push(note);
        assert(wanted.notes.take(k + 1) =~= wanted.notes.take(k as int).push(
            wanted.notes[k as int],
        ));
        k += 1;
    }
    assert(wanted.notes.take(wanted.notes.len() as int) =~= wanted.notes);
    RawBlock {
        notes: out,
        pattern_number: p.pattern_number,
        applied,
        start: base.saturating_add(lead),
        span: minus(to_ticks(end - p.start_frame, tpr), lead),
    }
}

/// Blocks as plain values.
pub open spec fn block_views(blocks: Seq<RawBlock>) -> Seq<RawBlockView> {
    Seq::new(blocks.len(), |i: int| blocks[i].view())
}

/// Cuts the notes of a track into the blocks that its driver played.
pub fn cut_blocks(
    notes: &[SongNote],
    placements: &[DriverPlacement],
    frame_count: u32,
    tpr: u32,
) -> (r: Vec<RawBlock>)
    requires
        pitches_fit(notes@),
    ensures
        block_views(r@) == blocks_of(
            notes@,
            placements@,
            frame_count,
            tpr,
            placements@.len() as int,
        ),
{
    let mut out: Vec<RawBlock> = Vec::new();
    let mut k: usize = 0;
    assert(block_views(out@) =~= Seq::<RawBlockView>::empty());
    while k < placements.len()
        invariant
            k <= placements@.len(),
            pitches_fit(notes@),
            block_views(out@) == blocks_of(notes@, placements@, frame_count, tpr, k as int),
        decreases placements@.len() - k,
    {
        let p: DriverPlacement = placements[k];
        let end: u32 = if k + 1 < placements.len() {
            placements[k + 1].start_frame
        } else {
            frame_count
        };
        let ghost so_far = out@;
        if p.start_frame < end {
            let lo: u32 = to_ticks(p.start_frame, tpr);
            let hi: u32 = to_ticks(end, tpr);
            proof {
                ticks_ascend(p.start_frame as int, end as int, tpr as int);
                leading_bounds(notes@, lo, hi);
            }
            let from: usize = count_leading(notes, lo);
            let to: usize = count_leading(notes, hi);
            if from < to {
                let block: RawBlock = make_block(notes, from, to, &p, end, tpr);
                out.push(block);
                assert(block_views(out@) =~= block_views(so_far).push(block.view()));
            }
        }
        k += 1;
    }
    out
}

proof fn least_distance_bounds(notes: Seq<SongNote>, base: u32, i: int)
    requires
        0 <= i < notes.len(),
    ensures
        0 <= least_distance(notes, base) <= tick_difference(notes[i].start as int, base as int),
    decreases notes.len(),
{
    if notes.len() > 1 {
        if i < notes.len() - 1 {
            least_distance_bounds(notes.drop_last(), base, i);
        } else {
            least_distance_bounds(notes.drop_last(), base, 0);
        }
    }
}

/// Placing a block gives back its notes: their ticks counted from the block's
/// start, and their pitches with the transposition that was taken out. All else of a
/// note but its number stays as it was.
pub proof fn blocks_give_back_their_notes(
    window: Seq<SongNote>,
    p: DriverPlacement,
    end: u32,
    tpr: u32,
    k: int,
)
    requires
        0 <= k < window.len(),
        pitches_fit(window),
        forall|i: int|
            0 <= i < window.len() ==> (#[trigger] window[i]).start >= ticks(
                p.start_frame as int,
                tpr as int,
            ),
    ensures
        ({
            let block = block_of(window, p, end, tpr);
            &&& block.notes[k].start + block.start == window[k].start
            &&& block.notes[k].pitch + block.applied == window[k].pitch
            &&& block.notes[k].duration == window[k].duration
            &&& block.notes[k].id == k as u32
            &&& block.notes[k].velocity == window[k].velocity
            &&& block.notes[k].track == window[k].track
            &&& block.notes[k].vibrato == window[k].vibrato
            &&& block.notes[k].glide == window[k].glide
            &&& block.notes[k].legato == window[k].legato
        }),
{
    let base = ticks(p.start_frame as int, tpr as int);
    least_distance_bounds(window, base, k);
    assert(window[k].start >= base);
    assert(window[k].pitch + 128 <= i32::MAX);
}

/// Whether the velocities of notes are not negative. Such patterns order as their
/// numbers do.
pub open spec fn velocities_fit(notes: Seq<SongNote>) -> bool {
    forall|i: int| 0 <= i < notes.len() ==> is_not_negative((#[trigger] notes[i]).velocity)
}

/// The greatest velocity of some notes; zero if there are none.
pub open spec fn peak_velocity(notes: Seq<SongNote>) -> u32
    decreases notes.len(),
{
    if notes.len() == 0 {
        0
    } else {
        let before = peak_velocity(notes.drop_last());
        if notes.last().velocity > before {
            notes.last().velocity
        } else {
            before
        }
    }
}

/// Finds the velocity that is taken out of a pattern to become the gain of its
/// placements: the greatest one, if it is above zero and below one.
pub fn find_pattern_gain(notes: &[SongNote]) -> (r: Option<u32>)
    requires
        velocities_fit(notes@),
    ensures
        r == (if 0 < peak_velocity(notes@) < ONE_BITS {
            Some(peak_velocity(notes@))
        } else {
            None
        }),
{
    let mut peak: u32 = 0;
    let mut i: usize = 0;
    assert(notes@.take(0) =~= Seq::<SongNote>::empty());
    while i < notes.len()
        invariant
            i <= notes@.len(),
            peak == peak_velocity(notes@.take(i as int)),
        decreases notes@.len() - i,
    {
        assert(notes@.take(i + 1).drop_last() =~= notes@.take(i as int));
        if notes[i].velocity > peak {
            peak = notes[i].velocity;
        }
        i += 1;
    }
    assert(notes@.take(notes@.len() as int) =~= notes@);
    if 0 < peak && peak < ONE_BITS {
        Some(peak)
    } else {
        None
    }
}

/// No note of a pattern is louder than the gain that is taken out of it, and one is as
/// loud.
pub proof fn the_gain_is_the_loudest_velocity(notes: Seq<SongNote>)
    ensures
        forall|i: int| 0 <= i < notes.len() ==> (#[trigger] notes[i]).velocity <= peak_velocity(notes),
        notes.len() > 0 ==> exists|i: int|
            0 <= i < notes.len() && (#[trigger] notes[i]).velocity == peak_velocity(notes),
    decreases notes.len(),
{
    if notes.len() > 0 {
        let rest = notes.drop_last();
        the_gain_is_the_loudest_velocity(rest);
        assert forall|i: int| 0 <= i < notes.len() implies (#[trigger] notes[i]).velocity
            <= peak_velocity(notes) by {
            if i < rest.len() {
                assert(rest[i] == notes[i]);
            }
        }
        if notes.last().velocity > peak_velocity(rest) || rest.len() == 0 {
            assert(notes[notes.len() - 1].velocity == peak_velocity(notes));
        } else {
            let i = choose|i: int|
                0 <= i < rest.len() && (#[trigger] rest[i]).velocity == peak_velocity(rest);
            assert(notes[i] == rest[i]);
        }
    }
}

/// Whether a block plays a note when it is placed: at the tick and with the pitch that the
/// note has, and all else of it as it is.
pub open spec fn plays_note(block: RawBlockView, n: int, note: SongNote) -> bool {
    &&& 0 <= n < block.notes.len()
    &&& block.notes[n].start + block.start == note.start
    &&& block.notes[n].pitch + block.applied == note.pitch
    &&& block.notes[n].duration == note.duration
    &&& block.notes[n].velocity == note.velocity
    &&& block.notes[n].track == note.track
    &&& block.notes[n].vibrato == note.vibrato
    &&& block.notes[n].glide == note.glide
    &&& block.notes[n].legato == note.legato
}

proof fn leading_splits(notes: Seq<SongNote>, tick: u32, i: int)
    requires
        0 <= i < notes.len(),
        forall|a: int, b: int| 0 <= a <= b < notes.len() ==> notes[a].start <= notes[b].start,
    ensures
        i < leading(notes, tick) <==> notes[i].start < tick,
        leading(notes, tick) <= notes.len(),
    decreases notes.len(),
{
    if notes[0].start >= tick {
        assert(notes[0].start <= notes[i].start);
    } else if i > 0 {
        let t = notes.drop_first();
        assert forall|a: int, b: int| 0 <= a <= b < t.len() implies t[a].start <= t[b].start by {
            assert(notes[a + 1].start <= notes[b + 1].start);
        }
        leading_splits(t, tick, i - 1);
        assert(t[i - 1] == notes[i]);
    } else {
        leading_bounds(notes, tick, tick);
    }
}

proof fn earlier_blocks_stay(
    notes: Seq<SongNote>,
    placements: Seq<DriverPlacement>,
    frame_count: u32,
    tpr: u32,
    k: int,
    n: int,
)
    requires
        0 <= k <= n <= placements.len(),
    ensures
        ({
            let early = blocks_of(notes, placements, frame_count, tpr, k);
            let late = blocks_of(notes, placements, frame_count, tpr, n);
            &&& early.len() <= late.len()
            &&& forall|b: int| 0 <= b < early.len() ==> #[trigger] late[b] == early[b]
        }),
    decreases n,
{
    if k < n {
        earlier_blocks_stay(notes, placements, frame_count, tpr, k, n - 1);
    }
}

/// Every note that starts while the driver played its placement `k` is played by a block:
/// no note is lost by cutting, and each keeps its tick and its pitch.
pub proof fn every_note_is_in_a_block(
    notes: Seq<SongNote>,
    placements: Seq<DriverPlacement>,
    frame_count: u32,
    tpr: u32,
    k: int,
    i: int,
) -> (r: (int, int))
    requires
        pitches_fit(notes),
        forall|a: int, b: int| 0 <= a <= b < notes.len() ==> notes[a].start <= notes[b].start,
        0 <= k < placements.len(),
        0 <= i < notes.len(),
        ticks(placements[k].start_frame as int, tpr as int) <= notes[i].start,
        notes[i].start < ticks(
            (if k + 1 < placements.len() {
                placements[k + 1].start_frame
            } else {
                frame_count
            }) as int,
            tpr as int,
        ),
    ensures
        ({
            let blocks = blocks_of(notes, placements, frame_count, tpr, placements.len() as int);
            &&& 0 <= r.0 < blocks.len()
            &&& plays_note(blocks[r.0], r.1, notes[i])
        }),
{
    let p = placements[k];
    let end = placement_end(placements, k, frame_count);
    let lo = ticks(p.start_frame as int, tpr as int);
    let hi = ticks(end as int, tpr as int);
    if end <= p.start_frame {
        ticks_ascend(end as int, p.start_frame as int, tpr as int);
    }
    leading_splits(notes, lo, i);
    leading_splits(notes, hi, i);
    let from = leading(notes, lo) as int;
    let window = placement_window(notes, p, end, tpr);
    let n = i - from;
    assert(window[n] == notes[i]);
    assert forall|x: int| 0 <= x < window.len() implies (#[trigger] window[x]).start >= lo by {
        assert(window[x] == notes[from + x]);
        leading_splits(notes, lo, from + x);
    }
    assert(pitches_fit(window)) by {
        assert forall|x: int| 0 <= x < window.len() implies (#[trigger] window[x]).pitch + 128
            <= i32::MAX by {
            assert(window[x] == notes[from + x]);
        }
    }
    blocks_give_back_their_notes(window, p, end, tpr, n);
    let early = blocks_of(notes, placements, frame_count, tpr, k + 1);
    earlier_blocks_stay(notes, placements, frame_count, tpr, k + 1, placements.len() as int);
    assert(early[early.len() - 1] == block_of(window, p, end, tpr));
    (early.len() - 1, n)
}

proof fn distance_is_reached(notes: Seq<SongNote>, base: u32) -> (i: int)
    requires
        notes.len() > 0,
    ensures
        0 <= i < notes.len(),
        least_distance(notes, base) == tick_difference(notes[i].start as int, base as int),
    decreases notes.len(),
{
    let last = notes.len() - 1;
    if notes.len() == 1 {
        0
    } else if least_distance(notes, base) == tick_difference(
        notes[last].start as int,
        base as int,
    ) {
        last
    } else {
        let i = distance_is_reached(notes.drop_last(), base);
        assert(notes.drop_last()[i] == notes[i]);
        i
    }
}

/// A block begins with its first note and ends where the driver's placement ends; it takes
/// the placement's transposition out just where no pitch falls below zero by that.
pub proof fn blocks_are_trimmed(window: Seq<SongNote>, p: DriverPlacement, end: u32, tpr: u32)
    requires
        window.len() > 0,
        p.start_frame < end,
        end * tpr <= u32::MAX,
        pitches_fit(window),
        forall|i: int|
            0 <= i < window.len() ==> p.start_frame * tpr <= (#[trigger] window[i]).start < end * tpr,
    ensures
        ({
            let block = block_of(window, p, end, tpr);
            &&& block.notes.len() == window.len()
            &&& exists|i: int| 0 <= i < window.len() && (#[trigger] block.notes[i]).start == 0
            &&& block.start + block.span == end * tpr
            &&& forall|i: int| 0 <= i < window.len() ==> (#[trigger] block.notes[i]).start < block.span
            &&& block.pattern_number == p.pattern_number
            &&& (forall|i: int| 0 <= i < window.len() ==> (#[trigger] window[i]).pitch >= p.transpose)
                ==> block.applied == p.transpose
            &&& (exists|i: int| 0 <= i < window.len() && (#[trigger] window[i]).pitch < p.transpose)
                ==> block.applied == 0
        }),
{
    let block = block_of(window, p, end, tpr);
    let at = p.start_frame * tpr;
    assert(p.start_frame * tpr <= end * tpr && (end - p.start_frame) * tpr == end * tpr
        - p.start_frame * tpr && 0 <= p.start_frame * tpr) by (nonlinear_arith)
        requires
            p.start_frame < end,
    ;
    let base = ticks(p.start_frame as int, tpr as int);
    let first = distance_is_reached(window, base);
    least_distance_bounds(window, base, first);
    assert(window[first].start >= at);
    assert(block.notes[first].start == 0);
    assert forall|i: int| 0 <= i < window.len() implies (#[trigger] block.notes[i]).start
        < block.span by {
        least_distance_bounds(window, base, i);
        assert(window[i].start >= at);
    }
    if forall|i: int| 0 <= i < window.len() ==> (#[trigger] window[i]).pitch >= p.transpose {
    }
}

} // verus!
