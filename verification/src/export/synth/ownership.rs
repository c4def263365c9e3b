//! Which note a chip voice plays: a note owns its voice until the next one
//! starts.

use crate::analysis::frame::NoteEvent;
use crate::analysis::program::VoiceId;
use super::tracks::{SynthNote, TrackPlan};
use vstd::prelude::*;

verus! {

/// Plans name notes that exist, on voices that exist.
pub open spec fn plans_fit(plans: Seq<TrackPlan>, notes: Seq<SynthNote>) -> bool {
    forall|p: int|
        0 <= p < plans.len() ==> (#[trigger] plans[p]).voice.valid() && timeline_fits(
            plans[p].timeline@,
            notes,
        )
}

/// The entries of a timeline name notes that exist, on voices that exist.
pub open spec fn timeline_fits(timeline: Seq<(usize, usize)>, notes: Seq<SynthNote>) -> bool {
    forall|t: int|
        0 <= t < timeline.len() ==> (#[trigger] timeline[t]).1 < notes.len()
            && notes[timeline[t].1 as int].event.voice.valid()
}

/// Whether a note of some plan of a voice starts at a frame.
pub open spec fn is_start(
    plans: Seq<TrackPlan>,
    notes: Seq<SynthNote>,
    voice: VoiceId,
    f: u32,
) -> bool {
    exists|p: int, t: int|
        0 <= p < plans.len() && 0 <= t < plans[p].timeline@.len() && plans[p].voice == voice
            && notes[(#[trigger] plans[p].timeline@[t]).1 as int].event.start_frame == f
}

/// Whether frames ascend without a repetition.
pub open spec fn strictly_ascends(s: Seq<u32>) -> bool {
    forall|i: int, j: int| 0 <= i < j < s.len() ==> #[trigger] s[i] < #[trigger] s[j]
}

/// The first frame of a list that lies behind another one.
pub open spec fn first_after(s: Seq<u32>, f: u32) -> Option<u32>
    decreases s.len(),
{
    if s.len() == 0 {
        None
    } else {
        match first_after(s.drop_last(), f) {
            Some(x) => Some(x),
            None => if s.last() > f {
                Some(s.last())
            } else {
                None
            },
        }
    }
}

proof fn first_after_is(s: Seq<u32>, f: u32, at: int)
    requires
        0 <= at <= s.len(),
        forall|i: int| 0 <= i < at ==> #[trigger] s[i] <= f,
        at < s.len() ==> s[at] > f,
    ensures
        first_after(s, f) == (if at < s.len() {
            Some(s[at])
        } else {
            None
        }),
    decreases s.len(),
{
    if s.len() > 0 {
        let t = s.drop_last();
        if at < s.len() {
            if at < t.len() {
                first_after_is(t, f, at);
            } else {
                first_after_is(t, f, t.len() as int);
            }
        } else {
            first_after_is(t, f, t.len() as int);
            assert(s[s.len() - 1] <= f);
        }
    }
}

/// A note owns its voice until the next start on it: the start is a later one,
/// and there is no start between.
pub proof fn ownership_ends_at_the_next_start(s: Seq<u32>, f: u32)
    requires
        strictly_ascends(s),
    ensures
        match first_after(s, f) {
            Some(x) => x > f && s.contains(x) && forall|y: u32| #[trigger]
                s.contains(y) && y > f ==> y >= x,
            None => forall|y: u32| #[trigger] s.contains(y) ==> y <= f,
        },
    decreases s.len(),
{
    if s.len() > 0 {
        let t = s.drop_last();
        assert(strictly_ascends(t)) by {
            assert forall|i: int, j: int| 0 <= i < j < t.len() implies #[trigger] t[i]
                < #[trigger] t[j] by {
                assert(s[i] < s[j]);
            }
        }
        ownership_ends_at_the_next_start(t, f);
        assert(s.contains(s[s.len() - 1]));
        assert forall|y: u32| #[trigger] s.contains(y) implies t.contains(y) || y == s.last() by {
            let i = choose|i: int| 0 <= i < s.len() && s[i] == y;
            if i < t.len() {
                assert(t[i] == y);
            }
        }
        match first_after(t, f) {
            Some(x) => {
                let i = choose|i: int| 0 <= i < t.len() && t[i] == x;
                assert(s[i] == x);
                assert(s[i] < s[s.len() - 1]);
            },
            None => {},
        }
    }
}

/// The starts on each voice of the chip.
#[derive(Debug)]
pub struct PhysicalVoiceOwnership {
    starts: [Vec<u32>; 3],
}

fn insert_start(starts: &mut Vec<u32>, f: u32)
    requires
        strictly_ascends(old(starts)@),
    ensures
        strictly_ascends(final(starts)@),
        forall|x: u32| #[trigger] final(starts)@.contains(x) <==> old(starts)@.contains(x) || x == f,
{
    let ghost before = starts@;
    let mut at: usize = starts.len();
    while at > 0 && starts[at - 1] > f
        invariant
            at <= starts@.len(),
            starts@ == before,
            forall|i: int| at <= i < starts@.len() ==> #[trigger] starts@[i] > f,
        decreases at,
    {
        at -= 1;
    }
    if at > 0 && starts[at - 1] == f {
        assert(before[at - 1] == f);
        return;
    }
    starts.insert(at, f);
    proof {
        let after = starts@;
        assert(after == before.insert(at as int, f));
        assert forall|i: int, j: int| 0 <= i < j < after.len() implies #[trigger] after[i]
            < #[trigger] after[j] by {
            if j < at {
                assert(before[i] < before[j]);
            } else if i > at {
                assert(before[i - 1] < before[j - 1]);
            } else if i == at {
                assert(before[j - 1] > f);
            } else if j == at {
                if i < at - 1 {
                    assert(before[i] < before[at - 1]);
                }
            } else {
                assert(before[i] < before[j - 1]);
            }
        }
        assert forall|x: u32| #[trigger] after.contains(x) <==> before.contains(x) || x == f by {
            if before.contains(x) {
                let i = choose|i: int| 0 <= i < before.len() && before[i] == x;
                if i < at {
                    assert(after[i] == x);
                } else {
                    assert(after[i + 1] == x);
                }
            }
            assert(after[at as int] == f);
            if after.contains(x) && x != f {
                let i = choose|i: int| 0 <= i < after.len() && after[i] == x;
                if i < at {
                    assert(before[i] == x);
                } else {
                    assert(before[i - 1] == x);
                }
            }
        }
    }
}

fn voice_starts(plans: &[TrackPlan], notes: &[SynthNote], voice: VoiceId) -> (r: Vec<u32>)
    requires
        plans_fit(plans@, notes@),
    ensures
        strictly_ascends(r@),
        forall|f: u32| #[trigger] r@.contains(f) <==> is_start(plans@, notes@, voice, f),
{
    let mut starts: Vec<u32> = Vec::new();
    let mut p: usize = 0;
    while p < plans.len()
        invariant
            p <= plans@.len(),
            plans_fit(plans@, notes@),
            strictly_ascends(starts@),
            forall|f: u32|
                #[trigger] starts@.contains(f) ==> is_start(plans@, notes@, voice, f),
            forall|q: int, t: int|
                0 <= q < p && 0 <= t < plans@[q].timeline@.len() && plans@[q].voice == voice
                    ==> starts@.contains(
                    notes@[(#[trigger] plans@[q].timeline@[t]).1 as int].event.start_frame,
                ),
        decreases plans@.len() - p,
    {
        if plans[p].voice == voice {
            let mut t: usize = 0;
            while t < plans[p].timeline.len()
                invariant
                    p < plans@.len(),
                    plans@[p as int].voice == voice,
                    t <= plans@[p as int].timeline@.len(),
                    plans_fit(plans@, notes@),
                    strictly_ascends(starts@),
                    forall|f: u32|
                        #[trigger] starts@.contains(f) ==> is_start(plans@, notes@, voice, f),
                    forall|q: int, t: int|
                        0 <= q < p && 0 <= t < plans@[q].timeline@.len() && plans@[q].voice == voice
                            ==> starts@.contains(
                            notes@[(#[trigger] plans@[q].timeline@[t]).1 as int].event.start_frame,
                        ),
                    forall|u: int|
                        0 <= u < t ==> starts@.contains(
                            notes@[(#[trigger] plans@[p as int].timeline@[u]).1 as int].event.start_frame,
                        ),
                decreases plans@[p as int].timeline@.len() - t,
            {
                assert(plans@[p as int].voice.valid());
                assert(plans@[p as int].timeline@[t as int].1 < notes@.len());
                let f: u32 = notes[plans[p].timeline[t].1].event.start_frame;
                assert(is_start(plans@, notes@, voice, f));
                insert_start(&mut starts, f);
                t += 1;
            }
        }
        p += 1;
    }
    assert forall|f: u32| is_start(plans@, notes@, voice, f) implies #[trigger] starts@.contains(
        f,
    ) by {
        let (q, t) = choose|q: int, t: int|
            0 <= q < plans@.len() && 0 <= t < plans@[q].timeline@.len() && plans@[q].voice == voice
                && notes@[(#[trigger] plans@[q].timeline@[t]).1 as int].event.start_frame == f;
        assert(starts@.contains(notes@[plans@[q].timeline@[t].1 as int].event.start_frame));
    }
    starts
}

impl PhysicalVoiceOwnership {
    /// The starts on a voice.
    pub closed spec fn starts_on(self, voice: VoiceId) -> Seq<u32> {
        self.starts@[voice.0 - 1]@
    }

    /// Whether the starts on each voice ascend without a repetition.
    pub open spec fn wf(self) -> bool {
        forall|v: VoiceId| v.valid() ==> strictly_ascends(#[trigger] self.starts_on(v))
    }

    /// Collects the starts of planned notes.
    pub fn from_plans(plans: &[TrackPlan], notes: &[SynthNote]) -> (r: PhysicalVoiceOwnership)
        requires
            plans_fit(plans@, notes@),
        ensures
            r.wf(),
            forall|v: VoiceId, f: u32|
                v.valid() ==> (#[trigger] r.starts_on(v).contains(f) <==> is_start(
                    plans@,
                    notes@,
                    v,
                    f,
                )),
    {
        let a: Vec<u32> = voice_starts(plans, notes, VoiceId(1));
        let b: Vec<u32> = voice_starts(plans, notes, VoiceId(2));
        let c: Vec<u32> = voice_starts(plans, notes, VoiceId(3));
        let r: PhysicalVoiceOwnership = PhysicalVoiceOwnership { starts: [a, b, c] };
        proof {
            assert forall|v: VoiceId| v.valid() implies v == VoiceId(1) || v == VoiceId(2) || v
                == VoiceId(3) by {}
            assert(r.starts_on(VoiceId(1)) == a@);
            assert(r.starts_on(VoiceId(2)) == b@);
            assert(r.starts_on(VoiceId(3)) == c@);
            assert forall|v: VoiceId| v.valid() implies strictly_ascends(
                #[trigger] r.starts_on(v),
            ) by {
                if v == VoiceId(1) {
                } else if v == VoiceId(2) {
                } else {
                    assert(v == VoiceId(3));
                }
            }
            assert forall|v: VoiceId, f: u32| v.valid() implies (#[trigger] r.starts_on(v).contains(
                f,
            ) <==> is_start(plans@, notes@, v, f)) by {
                if v == VoiceId(1) {
                } else if v == VoiceId(2) {
                } else {
                    assert(v == VoiceId(3));
                }
            }
        }
        r
    }

    /// The frame at which a note loses its voice to the next one.
    pub fn end(&self, event: &NoteEvent) -> (r: Option<u32>)
        requires
            self.wf(),
            event.voice.valid(),
        ensures
            r == first_after(self.starts_on(event.voice), event.start_frame),
    {
        let starts: &Vec<u32> = &self.starts[event.voice.to_index()];
        assert(starts@ == self.starts_on(event.voice));
        assert(strictly_ascends(starts@));
        let f: u32 = event.start_frame;
        let mut lo: usize = 0;
        let mut hi: usize = starts.len();
        while lo < hi
            invariant
                lo <= hi <= starts@.len(),
                strictly_ascends(starts@),
                forall|i: int| 0 <= i < lo ==> #[trigger] starts@[i] <= f,
                forall|i: int| hi <= i < starts@.len() ==> #[trigger] starts@[i] > f,
            decreases hi - lo,
        {
            let mid: usize = lo + (hi - lo) / 2;
            if starts[mid] <= f {
                assert forall|i: int| 0 <= i < mid + 1 implies #[trigger] starts@[i] <= f by {
                    if i < mid {
                        assert(starts@[i] < starts@[mid as int]);
                    }
                }
                lo = mid + 1;
            } else {
                assert forall|i: int| mid <= i < starts@.len() implies #[trigger] starts@[i] > f by {
                    if i > mid {
                        assert(starts@[mid as int] < starts@[i]);
                    }
                }
                hi = mid;
            }
        }
        proof {
            first_after_is(starts@, f, lo as int);
        }
        if lo < starts.len() {
            Some(starts[lo])
        } else {
            None
        }
    }
}

/// How often, and for how many calls, notes of different tracks of one voice
/// sound together: as the chip's releases ring, and as notes own their voice.
#[derive(Debug, Clone, Copy, PartialEq, Eq, Structural)]
pub struct PhysicalVoiceCensus {
    pub cross_plan_overlap_pairs: u64,
    pub cross_plan_overlap_calls: u64,
    pub source_release_overlap_pairs: u64,
    pub source_release_overlap_calls: u64,
}

/// A census without limits on its counts.
pub struct Overlaps {
    pub owned_pairs: nat,
    pub owned_calls: nat,
    pub release_pairs: nat,
    pub release_calls: nat,
}

/// Nothing counted.
pub open spec fn no_overlaps() -> Overlaps {
    Overlaps { owned_pairs: 0, owned_calls: 0, release_pairs: 0, release_calls: 0 }
}

/// Two censuses together.
pub open spec fn plus(a: Overlaps, b: Overlaps) -> Overlaps {
    Overlaps {
        owned_pairs: a.owned_pairs + b.owned_pairs,
        owned_calls: a.owned_calls + b.owned_calls,
        release_pairs: a.release_pairs + b.release_pairs,
        release_calls: a.release_calls + b.release_calls,
    }
}

/// The frame at which a note has faded.
pub open spec fn sounds_until(event: NoteEvent, frame_count: u32) -> u32 {
    match event.sound_end {
        Some(f) => f,
        None => match event.end_frame {
            Some(f) => f,
            None => frame_count,
        },
    }
}

/// The frame at which a note has faded or lost its voice.
pub open spec fn owns_until(own: PhysicalVoiceOwnership, event: NoteEvent, frame_count: u32) -> u32 {
    let faded = sounds_until(event, frame_count);
    match first_after(own.starts_on(event.voice), event.start_frame) {
        Some(f) => if f < faded {
            f
        } else {
            faded
        },
        None => faded,
    }
}

/// The number of calls that two spans have in common.
pub open spec fn common(start_a: u32, end_a: u32, start_b: u32, end_b: u32) -> nat {
    let start = if start_a < start_b {
        start_b
    } else {
        start_a
    };
    let end = if end_a < end_b {
        end_a
    } else {
        end_b
    };
    if start < end {
        (end - start) as nat
    } else {
        0
    }
}

/// What two notes add to the census.
pub open spec fn pair_overlaps(
    own: PhysicalVoiceOwnership,
    frame_count: u32,
    a: NoteEvent,
    b: NoteEvent,
) -> Overlaps {
    let owned = common(
        a.start_frame,
        owns_until(own, a, frame_count),
        b.start_frame,
        owns_until(own, b, frame_count),
    );
    let release = common(
        a.start_frame,
        sounds_until(a, frame_count),
        b.start_frame,
        sounds_until(b, frame_count),
    );
    Overlaps {
        owned_pairs: if owned > 0 {
            1
        } else {
            0
        },
        owned_calls: owned,
        release_pairs: if release > 0 {
            1
        } else {
            0
        },
        release_calls: release,
    }
}

/// What a note and those of a timeline, from `j` on, add to the census.
pub open spec fn note_overlaps(
    own: PhysicalVoiceOwnership,
    frame_count: u32,
    notes: Seq<SynthNote>,
    a: NoteEvent,
    right: Seq<(usize, usize)>,
    j: int,
) -> Overlaps
    decreases right.len() - j,
{
    if j < 0 || j >= right.len() {
        no_overlaps()
    } else {
        plus(
            pair_overlaps(own, frame_count, a, notes[right[j].1 as int].event),
            note_overlaps(own, frame_count, notes, a, right, j + 1),
        )
    }
}

/// What the notes of two timelines, in the first from `i` on, add to the census.
pub open spec fn timeline_overlaps(
    own: PhysicalVoiceOwnership,
    frame_count: u32,
    notes: Seq<SynthNote>,
    left: Seq<(usize, usize)>,
    right: Seq<(usize, usize)>,
    i: int,
) -> Overlaps
    decreases left.len() - i,
{
    if i < 0 || i >= left.len() {
        no_overlaps()
    } else {
        plus(
            note_overlaps(own, frame_count, notes, notes[left[i].1 as int].event, right, 0),
            timeline_overlaps(own, frame_count, notes, left, right, i + 1),
        )
    }
}

/// What a plan and those from `b` on add to the census.
pub open spec fn plan_overlaps(
    own: PhysicalVoiceOwnership,
    frame_count: u32,
    notes: Seq<SynthNote>,
    plans: Seq<TrackPlan>,
    a: int,
    b: int,
) -> Overlaps
    decreases plans.len() - b,
{
    if b < 0 || b >= plans.len() {
        no_overlaps()
    } else {
        plus(
            if plans[a].voice == plans[b].voice {
                timeline_overlaps(
                    own,
                    frame_count,
                    notes,
                    plans[a].timeline@,
                    plans[b].timeline@,
                    0,
                )
            } else {
                no_overlaps()
            },
            plan_overlaps(own, frame_count, notes, plans, a, b + 1),
        )
    }
}

/// The census of all pairs of plans, the first of them from `a` on.
pub open spec fn all_overlaps(
    own: PhysicalVoiceOwnership,
    frame_count: u32,
    notes: Seq<SynthNote>,
    plans: Seq<TrackPlan>,
    a: int,
) -> Overlaps
    decreases plans.len() - a,
{
    if a < 0 || a >= plans.len() {
        no_overlaps()
    } else {
        plus(
            plan_overlaps(own, frame_count, notes, plans, a, a + 1),
            all_overlaps(own, frame_count, notes, plans, a + 1),
        )
    }
}

/// Whether a census fits its counters.
pub open spec fn fits(o: Overlaps) -> bool {
    &&& o.owned_pairs <= u64::MAX
    &&& o.owned_calls <= u64::MAX
    &&& o.release_pairs <= u64::MAX
    &&& o.release_calls <= u64::MAX
}

impl PhysicalVoiceCensus {
    /// The counts as plain numbers.
    pub open spec fn view(self) -> Overlaps {
        Overlaps {
            owned_pairs: self.cross_plan_overlap_pairs as nat,
            owned_calls: self.cross_plan_overlap_calls as nat,
            release_pairs: self.source_release_overlap_pairs as nat,
            release_calls: self.source_release_overlap_calls as nat,
        }
    }
}

fn common_calls(start_a: u32, end_a: u32, start_b: u32, end_b: u32) -> (r: u32)
    ensures
        r == common(start_a, end_a, start_b, end_b),
{
    let start: u32 = if start_a < start_b {
        start_b
    } else {
        start_a
    };
    let end: u32 = if end_a < end_b {
        end_a
    } else {
        end_b
    };
    if start < end {
        end - start
    } else {
        0
    }
}

/// The frame at which a note has faded.
pub fn faded_frame(event: &NoteEvent, frame_count: u32) -> (r: u32)
    ensures
        r == sounds_until(*event, frame_count),
{
    match event.sound_end {
        Some(f) => f,
        None => match event.end_frame {
            Some(f) => f,
            None => frame_count,
        },
    }
}

/// The frame at which a note has faded or lost its voice.
pub fn owned_end_frame(own: &PhysicalVoiceOwnership, event: &NoteEvent, frame_count: u32) -> (r: u32)
    requires
        own.wf(),
        event.voice.valid(),
    ensures
        r == owns_until(*own, *event, frame_count),
{
    let faded: u32 = faded_frame(event, frame_count);
    match own.end(event) {
        Some(f) => if f < faded {
            f
        } else {
            faded
        },
        None => faded,
    }
}

/// Counts the notes of different tracks that sound together on one voice.
pub fn physical_voice_census(
    plans: &[TrackPlan],
    notes: &[SynthNote],
    frame_count: u32,
    own: &PhysicalVoiceOwnership,
) -> (r: PhysicalVoiceCensus)
    requires
        own.wf(),
        plans_fit(plans@, notes@),
        fits(all_overlaps(*own, frame_count, notes@, plans@, 0)),
    ensures
        r.view() == all_overlaps(*own, frame_count, notes@, plans@, 0),
{
    checked_voice_census(plans, notes, frame_count, own).unwrap()
}

/// Counts the notes of different tracks that sound together on one voice, unless there
/// are more than can be counted.
pub fn checked_voice_census(
    plans: &[TrackPlan],
    notes: &[SynthNote],
    frame_count: u32,
    own: &PhysicalVoiceOwnership,
) -> (r: Option<PhysicalVoiceCensus>)
    requires
        own.wf(),
        plans_fit(plans@, notes@),
    ensures
        match r {
            Some(c) => c.view() == all_overlaps(*own, frame_count, notes@, plans@, 0),
            None => !fits(all_overlaps(*own, frame_count, notes@, plans@, 0)),
        },
{
    let ghost total = all_overlaps(*own, frame_count, notes@, plans@, 0);
    let mut c: PhysicalVoiceCensus = PhysicalVoiceCensus {
        cross_plan_overlap_pairs: 0,
        cross_plan_overlap_calls: 0,
        source_release_overlap_pairs: 0,
        source_release_overlap_calls: 0,
    };
    let mut a: usize = 0;
    while a < plans.len()
        invariant
            a <= plans@.len(),
            own.wf(),
            plans_fit(plans@, notes@),
            total == all_overlaps(*own, frame_count, notes@, plans@, 0),
            plus(c.view(), all_overlaps(*own, frame_count, notes@, plans@, a as int)) == total,
        decreases plans@.len() - a,
    {
        let ghost rest = all_overlaps(*own, frame_count, notes@, plans@, a + 1);
        let mut b: usize = a + 1;
        while b < plans.len()
            invariant
                a < b <= plans@.len(),
                own.wf(),
                plans_fit(plans@, notes@),
                total == all_overlaps(*own, frame_count, notes@, plans@, 0),
                plus(
                    c.view(),
                    plus(plan_overlaps(*own, frame_count, notes@, plans@, a as int, b as int), rest),
                ) == total,
            decreases plans@.len() - b,
        {
            if plans[a].voice == plans[b].voice {
                match count_timelines(
                    plans[a].timeline.as_slice(),
                    plans[b].timeline.as_slice(),
                    notes,
                    frame_count,
                    own,
                    c,
                ) {
                    Some(more) => {
                        c = more;
                    },
                    None => {
                        return None;
                    },
                }
            }
            b += 1;
        }
        a += 1;
    }
    Some(c)
}

fn count_overlap(pairs: u64, calls: u64, common: u32) -> (r: Option<(u64, u64)>)
    ensures
        ({
            let more = pairs + (if common > 0 {
                1int
            } else {
                0
            });
            match r {
                Some(n) => n.0 == more && n.1 == calls + common,
                None => more > u64::MAX || calls + common > u64::MAX,
            }
        }),
{
    if common == 0 {
        return Some((pairs, calls));
    }
    match (pairs.checked_add(1), calls.checked_add(common as u64)) {
        (Some(p), Some(c)) => Some((p, c)),
        _ => None,
    }
}

fn count_timelines(
    left: &[(usize, usize)],
    right: &[(usize, usize)],
    notes: &[SynthNote],
    frame_count: u32,
    own: &PhysicalVoiceOwnership,
    before: PhysicalVoiceCensus,
) -> (r: Option<PhysicalVoiceCensus>)
    requires
        own.wf(),
        timeline_fits(left@, notes@),
        timeline_fits(right@, notes@),
    ensures
        ({
            let total = plus(
                before.view(),
                timeline_overlaps(*own, frame_count, notes@, left@, right@, 0),
            );
            match r {
                Some(c) => c.view() == total,
                None => !fits(total),
            }
        }),
{
    let ghost total = plus(
        before.view(),
        timeline_overlaps(*own, frame_count, notes@, left@, right@, 0),
    );
    let mut c: PhysicalVoiceCensus = before;
    let mut i: usize = 0;
    while i < left.len()
        invariant
            i <= left@.len(),
            own.wf(),
            timeline_fits(left@, notes@),
            timeline_fits(right@, notes@),
            total == plus(
                before.view(),
                timeline_overlaps(*own, frame_count, notes@, left@, right@, 0),
            ),
            plus(
                c.view(),
                timeline_overlaps(*own, frame_count, notes@, left@, right@, i as int),
            ) == total,
        decreases left@.len() - i,
    {
        let ghost rest = timeline_overlaps(*own, frame_count, notes@, left@, right@, i + 1);
        assert(left@[i as int].1 < notes@.len());
        let x: NoteEvent = notes[left[i].1].event;
        let x_faded: u32 = faded_frame(&x, frame_count);
        let x_owned: u32 = owned_end_frame(own, &x, frame_count);
        let mut j: usize = 0;
        while j < right.len()
            invariant
                j <= right@.len(),
                own.wf(),
                timeline_fits(right@, notes@),
                x_faded == sounds_until(x, frame_count),
                x_owned == owns_until(*own, x, frame_count),
                total == plus(
                    before.view(),
                    timeline_overlaps(*own, frame_count, notes@, left@, right@, 0),
                ),
                plus(
                    c.view(),
                    plus(note_overlaps(*own, frame_count, notes@, x, right@, j as int), rest),
                ) == total,
            decreases right@.len() - j,
        {
            assert(right@[j as int].1 < notes@.len());
            let y: NoteEvent = notes[right[j].1].event;
            let y_faded: u32 = faded_frame(&y, frame_count);
            let y_owned: u32 = owned_end_frame(own, &y, frame_count);
            let release: u32 = common_calls(x.start_frame, x_faded, y.start_frame, y_faded);
            let owned: u32 = common_calls(x.start_frame, x_owned, y.start_frame, y_owned);
            proof {
                let here = pair_overlaps(*own, frame_count, x, y);
                assert(note_overlaps(*own, frame_count, notes@, x, right@, j as int) == plus(
                    here,
                    note_overlaps(*own, frame_count, notes@, x, right@, j + 1),
                ));
                assert(here.release_calls == release && here.owned_calls == owned);
            }
            let released: Option<(u64, u64)> = count_overlap(
                c.source_release_overlap_pairs,
                c.source_release_overlap_calls,
                release,
            );
            let kept: Option<(u64, u64)> = count_overlap(
                c.cross_plan_overlap_pairs,
                c.cross_plan_overlap_calls,
                owned,
            );
            match (released, kept) {
                (Some(r), Some(k)) => {
                    c = PhysicalVoiceCensus {
                        cross_plan_overlap_pairs: k.0,
                        cross_plan_overlap_calls: k.1,
                        source_release_overlap_pairs: r.0,
                        source_release_overlap_calls: r.1,
                    };
                },
                _ => {
                    return None;
                },
            }
            j += 1;
        }
        i += 1;
    }
    Some(c)
}

/// Notes that own their voice in turn do not sound together: two notes of one
/// voice that start at different frames have no call in common.
pub proof fn owned_notes_do_not_overlap(
    own: PhysicalVoiceOwnership,
    frame_count: u32,
    a: NoteEvent,
    b: NoteEvent,
)
    requires
        own.wf(),
        a.voice == b.voice,
        a.voice.valid(),
        a.start_frame != b.start_frame,
        own.starts_on(a.voice).contains(a.start_frame),
        own.starts_on(a.voice).contains(b.start_frame),
    ensures
        pair_overlaps(own, frame_count, a, b).owned_pairs == 0,
        pair_overlaps(own, frame_count, a, b).owned_calls == 0,
{
    let s = own.starts_on(a.voice);
    ownership_ends_at_the_next_start(s, a.start_frame);
    ownership_ends_at_the_next_start(s, b.start_frame);
}

/// A note sounds until its envelope reached zero where that was seen, else until its
/// release, else until the end of the tune. It owns its voice until then or until the next
/// note starts on the voice, whichever comes first.
pub proof fn notes_own_their_voice_until_the_next_start(
    own: PhysicalVoiceOwnership,
    event: NoteEvent,
    frame_count: u32,
    f: u32,
)
    requires
        own.wf(),
        event.voice.valid(),
    ensures
        ({
            let faded = match (event.sound_end, event.end_frame) {
                (Some(e), _) => e,
                (None, Some(e)) => e,
                (None, None) => frame_count,
            };
            let until = owns_until(own, event, frame_count);
            &&& sounds_until(event, frame_count) == faded
            &&& until <= faded
            &&& own.starts_on(event.voice).contains(f) && f > event.start_frame ==> until <= f
            &&& until < faded ==> own.starts_on(event.voice).contains(until) && until
                > event.start_frame
        }),
{
    assert(strictly_ascends(own.starts_on(event.voice)));
    ownership_ends_at_the_next_start(own.starts_on(event.voice), event.start_frame);
}

/// The calls that two spans have in common are those that lie in both.
pub proof fn common_calls_lie_in_both(start_a: u32, end_a: u32, start_b: u32, end_b: u32, f: int)
    ensures
        ({
            let first: int = if start_a < start_b {
                start_b as int
            } else {
                start_a as int
            };
            start_a <= f < end_a && start_b <= f < end_b <==> first <= f < first + common(
                start_a,
                end_a,
                start_b,
                end_b,
            )
        }),
{
}

proof fn one_note_each(
    own: PhysicalVoiceOwnership,
    frame_count: u32,
    notes: Seq<SynthNote>,
    left: Seq<(usize, usize)>,
    right: Seq<(usize, usize)>,
)
    requires
        left.len() == 1,
        right.len() == 1,
    ensures
        timeline_overlaps(own, frame_count, notes, left, right, 0) == pair_overlaps(
            own,
            frame_count,
            notes[left[0].1 as int].event,
            notes[right[0].1 as int].event,
        ),
{
    reveal_with_fuel(timeline_overlaps, 2);
    reveal_with_fuel(note_overlaps, 2);
}

/// Two notes of different tracks of one voice are counted as a pair just where they share a
/// call, with all the calls that they share: once as they own the voice and once as they
/// sound. Tracks of different voices add nothing.
pub proof fn overlaps_are_counted_between_tracks(
    own: PhysicalVoiceOwnership,
    frame_count: u32,
    notes: Seq<SynthNote>,
    plans: Seq<TrackPlan>,
)
    requires
        plans.len() == 2,
        plans[0].timeline@.len() == 1,
        plans[1].timeline@.len() == 1,
    ensures
        ({
            let a = notes[plans[0].timeline@[0].1 as int].event;
            let b = notes[plans[1].timeline@[0].1 as int].event;
            let o = all_overlaps(own, frame_count, notes, plans, 0);
            let sounding = common(
                a.start_frame,
                sounds_until(a, frame_count),
                b.start_frame,
                sounds_until(b, frame_count),
            );
            let owned = common(
                a.start_frame,
                owns_until(own, a, frame_count),
                b.start_frame,
                owns_until(own, b, frame_count),
            );
            &&& plans[0].voice != plans[1].voice ==> o.owned_pairs == 0 && o.owned_calls == 0
                && o.release_pairs == 0 && o.release_calls == 0
            &&& plans[0].voice == plans[1].voice ==> {
                &&& o.owned_calls == owned
                &&& o.release_calls == sounding
                &&& o.owned_pairs == 1 <==> owned > 0
                &&& o.release_pairs == 1 <==> sounding > 0
                &&& o.owned_pairs <= 1 && o.release_pairs <= 1
            }
        }),
{
    reveal_with_fuel(all_overlaps, 3);
    reveal_with_fuel(plan_overlaps, 3);
    one_note_each(own, frame_count, notes, plans[0].timeline@, plans[1].timeline@);
}

} // verus!
