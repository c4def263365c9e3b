//! What is counted over the frames of a trace.

use crate::analysis::frame::{
    DigitalVoice, EnvelopeEvent, EnvelopeEventKind, ProgramFrame, VoiceFrame,
};
use super::super::timbre::{count_bits, ones};
use vstd::prelude::*;

verus! {

/// One for a fact, none for its opposite.
pub open spec fn one_if(fact: bool) -> nat {
    if fact {
        1
    } else {
        0
    }
}

fn count_if(fact: bool) -> (r: u64)
    ensures
        r == one_if(fact),
        r <= 1,
{
    if fact {
        1
    } else {
        0
    }
}

/// How many events of an envelope are of a kind.
pub open spec fn events_of(events: Seq<EnvelopeEvent>, kind: EnvelopeEventKind) -> nat
    decreases events.len(),
{
    if events.len() == 0 {
        0
    } else {
        events_of(events.drop_last(), kind) + one_if(events.last().kind == kind)
    }
}

fn count_events(events: &Vec<EnvelopeEvent>, kind: EnvelopeEventKind) -> (r: u64)
    ensures
        r == events_of(events@, kind),
{
    let mut n: u64 = 0;
    let mut i: usize = 0;
    assert(events@.take(0) =~= Seq::<EnvelopeEvent>::empty());
    while i < events.len()
        invariant
            i <= events@.len(),
            n <= i,
            n == events_of(events@.take(i as int), kind),
        decreases events@.len() - i,
    {
        assert(events@.take(i + 1).drop_last() =~= events@.take(i as int));
        if events[i].kind == kind {
            n += 1;
        }
        i += 1;
    }
    assert(events@.take(events@.len() as int) =~= events@);
    n
}

/// What is counted over voices and frames.
pub struct FrameTotals {
    pub filter_routed: nat,
    pub combined_waveforms: nat,
    pub sync_attacks: nat,
    pub inexact_voices: nat,
    pub sync_active: nat,
    pub sync_inactive: nat,
    pub ring_active: nat,
    pub ring_inactive: nat,
    pub combined_exact: nat,
    pub combined_fallback: nat,
    pub gate_off_nonzero: nat,
    pub gate_on_zero: nat,
    pub active_cycles: nat,
    pub attack_entries: nat,
    pub release_entries: nat,
    pub reached_zero: nat,
    pub blips: nat,
}

/// Nothing counted.
pub open spec fn nothing() -> FrameTotals {
    FrameTotals {
        filter_routed: 0,
        combined_waveforms: 0,
        sync_attacks: 0,
        inexact_voices: 0,
        sync_active: 0,
        sync_inactive: 0,
        ring_active: 0,
        ring_inactive: 0,
        combined_exact: 0,
        combined_fallback: 0,
        gate_off_nonzero: 0,
        gate_on_zero: 0,
        active_cycles: 0,
        attack_entries: 0,
        release_entries: 0,
        reached_zero: 0,
        blips: 0,
    }
}

/// Both counts together.
pub open spec fn sum(a: FrameTotals, b: FrameTotals) -> FrameTotals {
    FrameTotals {
        filter_routed: a.filter_routed + b.filter_routed,
        combined_waveforms: a.combined_waveforms + b.combined_waveforms,
        sync_attacks: a.sync_attacks + b.sync_attacks,
        inexact_voices: a.inexact_voices + b.inexact_voices,
        sync_active: a.sync_active + b.sync_active,
        sync_inactive: a.sync_inactive + b.sync_inactive,
        ring_active: a.ring_active + b.ring_active,
        ring_inactive: a.ring_inactive + b.ring_inactive,
        combined_exact: a.combined_exact + b.combined_exact,
        combined_fallback: a.combined_fallback + b.combined_fallback,
        gate_off_nonzero: a.gate_off_nonzero + b.gate_off_nonzero,
        gate_on_zero: a.gate_on_zero + b.gate_on_zero,
        active_cycles: a.active_cycles + b.active_cycles,
        attack_entries: a.attack_entries + b.attack_entries,
        release_entries: a.release_entries + b.release_entries,
        reached_zero: a.reached_zero + b.reached_zero,
        blips: a.blips + b.blips,
    }
}

/// Whether counts fit their fields.
pub open spec fn fits(t: FrameTotals) -> bool {
    &&& t.filter_routed <= u32::MAX
    &&& t.combined_waveforms <= u32::MAX
    &&& t.sync_attacks <= u32::MAX
    &&& t.inexact_voices <= u64::MAX
    &&& t.sync_active <= u64::MAX
    &&& t.sync_inactive <= u64::MAX
    &&& t.ring_active <= u64::MAX
    &&& t.ring_inactive <= u64::MAX
    &&& t.combined_exact <= u64::MAX
    &&& t.combined_fallback <= u64::MAX
    &&& t.gate_off_nonzero <= u64::MAX
    &&& t.gate_on_zero <= u64::MAX
    &&& t.active_cycles <= u64::MAX
    &&& t.attack_entries <= u64::MAX
    &&& t.release_entries <= u64::MAX
    &&& t.reached_zero <= u64::MAX
    &&& t.blips <= u64::MAX
}

/// Whether a voice plays more than one waveform.
pub open spec fn combines(voice: VoiceFrame) -> bool {
    ones(voice.waveform / 16) >= 2
}

/// What a voice of an exact frame adds. Hard sync acts if the voice was reset;
/// ring modulation acts on a triangle whose source crossed its middle. A gate blip
/// opens and closes the envelope without any sound.
pub open spec fn voice_totals(s: ProgramFrame, v: int) -> FrameTotals {
    let voice = s.voices@[v];
    let digital = s.digital_voices@[v];
    let rings = s.digital_voices@[(v + 2) % 3].source_msb_edges > 0 && voice.waveform / 16 % 2 == 1;
    let attack = events_of(digital.events@, EnvelopeEventKind::EnteredAttack);
    let release = events_of(digital.events@, EnvelopeEventKind::EnteredRelease);
    FrameTotals {
        sync_active: one_if(voice.sync && digital.sync_resets > 0),
        sync_inactive: one_if(voice.sync && digital.sync_resets == 0),
        ring_active: one_if(voice.ring_mod && rings),
        ring_inactive: one_if(voice.ring_mod && !rings),
        combined_exact: one_if(combines(voice) && digital.combined_waveform_exact),
        combined_fallback: one_if(combines(voice) && !digital.combined_waveform_exact),
        gate_off_nonzero: one_if(!voice.gate && digital.level > 0),
        gate_on_zero: one_if(voice.gate && digital.level == 0),
        active_cycles: digital.active_cycles as nat,
        attack_entries: attack,
        release_entries: release,
        reached_zero: events_of(digital.events@, EnvelopeEventKind::ReachedZero),
        blips: one_if(
            attack > 0 && release > 0 && events_of(digital.events@, EnvelopeEventKind::LeftZero)
                == 0 && digital.peak_level == 0,
        ),
        ..nothing()
    }
}

/// What a frame adds: what its registers tell, and if it is exact what its voices
/// did.
pub open spec fn frame_totals(s: ProgramFrame) -> FrameTotals {
    let registers = FrameTotals {
        filter_routed: one_if(
            s.filter.routing@[0] || s.filter.routing@[1] || s.filter.routing@[2],
        ),
        combined_waveforms: one_if(
            combines(s.voices@[0]) || combines(s.voices@[1]) || combines(s.voices@[2]),
        ),
        sync_attacks: one_if(s.voices@[0].sync && s.voices@[0].gate) + one_if(
            s.voices@[1].sync && s.voices@[1].gate,
        ) + one_if(s.voices@[2].sync && s.voices@[2].gate),
        inexact_voices: if s.digital_state_exact {
            0
        } else {
            3
        },
        ..nothing()
    };
    if s.digital_state_exact {
        sum(
            sum(sum(registers, voice_totals(s, 0)), voice_totals(s, 1)),
            voice_totals(s, 2),
        )
    } else {
        registers
    }
}

/// What the first `k` frames add up to.
pub open spec fn totals(states: Seq<ProgramFrame>, k: int) -> FrameTotals
    decreases k,
{
    if k <= 0 {
        nothing()
    } else {
        sum(totals(states, k - 1), frame_totals(states[k - 1]))
    }
}

/// Whether no count is greater than the other.
pub open spec fn at_most(a: FrameTotals, b: FrameTotals) -> bool {
    &&& a.filter_routed <= b.filter_routed
    &&& a.combined_waveforms <= b.combined_waveforms
    &&& a.sync_attacks <= b.sync_attacks
    &&& a.inexact_voices <= b.inexact_voices
    &&& a.sync_active <= b.sync_active
    &&& a.sync_inactive <= b.sync_inactive
    &&& a.ring_active <= b.ring_active
    &&& a.ring_inactive <= b.ring_inactive
    &&& a.combined_exact <= b.combined_exact
    &&& a.combined_fallback <= b.combined_fallback
    &&& a.gate_off_nonzero <= b.gate_off_nonzero
    &&& a.gate_on_zero <= b.gate_on_zero
    &&& a.active_cycles <= b.active_cycles
    &&& a.attack_entries <= b.attack_entries
    &&& a.release_entries <= b.release_entries
    &&& a.reached_zero <= b.reached_zero
    &&& a.blips <= b.blips
}

proof fn totals_grow(states: Seq<ProgramFrame>, k: int, n: int)
    requires
        0 <= k <= n,
    ensures
        at_most(totals(states, k), totals(states, n)),
    decreases n - k,
{
    if k < n {
        totals_grow(states, k, n - 1);
        assert(at_most(totals(states, n - 1), totals(states, n)));
    }
}

/// What is counted over the frames of a trace.
#[derive(Debug, Clone, Copy, PartialEq, Eq, Structural)]
pub struct FrameCensus {
    /// Frames with a voice routed through the filter.
    pub filter_routed: u32,
    /// Frames with a voice that plays more than one waveform.
    pub combined_waveforms: u32,
    /// Gated voice frames with the sync bit set.
    pub sync_attacks: u32,
    pub inexact_voices: u64,
    pub sync_active: u64,
    pub sync_inactive: u64,
    pub ring_active: u64,
    pub ring_inactive: u64,
    pub combined_exact: u64,
    pub combined_fallback: u64,
    pub gate_off_nonzero: u64,
    pub gate_on_zero: u64,
    pub active_cycles: u64,
    pub attack_entries: u64,
    pub release_entries: u64,
    pub reached_zero: u64,
    pub blips: u64,
}

impl FrameCensus {
    /// The counts as numbers.
    pub open spec fn view(self) -> FrameTotals {
        FrameTotals {
            filter_routed: self.filter_routed as nat,
            combined_waveforms: self.combined_waveforms as nat,
            sync_attacks: self.sync_attacks as nat,
            inexact_voices: self.inexact_voices as nat,
            sync_active: self.sync_active as nat,
            sync_inactive: self.sync_inactive as nat,
            ring_active: self.ring_active as nat,
            ring_inactive: self.ring_inactive as nat,
            combined_exact: self.combined_exact as nat,
            combined_fallback: self.combined_fallback as nat,
            gate_off_nonzero: self.gate_off_nonzero as nat,
            gate_on_zero: self.gate_on_zero as nat,
            active_cycles: self.active_cycles as nat,
            attack_entries: self.attack_entries as nat,
            release_entries: self.release_entries as nat,
            reached_zero: self.reached_zero as nat,
            blips: self.blips as nat,
        }
    }

    fn add(&mut self, other: &FrameCensus)
        requires
            fits(sum(old(self).view(), other.view())),
        ensures
            final(self).view() == sum(old(self).view(), other.view()),
    {
        self.filter_routed = self.filter_routed + other.filter_routed;
        self.combined_waveforms = self.combined_waveforms + other.combined_waveforms;
        self.sync_attacks = self.sync_attacks + other.sync_attacks;
        self.inexact_voices = self.inexact_voices + other.inexact_voices;
        self.sync_active = self.sync_active + other.sync_active;
        self.sync_inactive = self.sync_inactive + other.sync_inactive;
        self.ring_active = self.ring_active + other.ring_active;
        self.ring_inactive = self.ring_inactive + other.ring_inactive;
        self.combined_exact = self.combined_exact + other.combined_exact;
        self.combined_fallback = self.combined_fallback + other.combined_fallback;
        self.gate_off_nonzero = self.gate_off_nonzero + other.gate_off_nonzero;
        self.gate_on_zero = self.gate_on_zero + other.gate_on_zero;
        self.active_cycles = self.active_cycles + other.active_cycles;
        self.attack_entries = self.attack_entries + other.attack_entries;
        self.release_entries = self.release_entries + other.release_entries;
        self.reached_zero = self.reached_zero + other.reached_zero;
        self.blips = self.blips + other.blips;
    }
}

fn empty_census() -> (r: FrameCensus)
    ensures
        r.view() == nothing(),
{
    FrameCensus {
        filter_routed: 0,
        combined_waveforms: 0,
        sync_attacks: 0,
        inexact_voices: 0,
        sync_active: 0,
        sync_inactive: 0,
        ring_active: 0,
        ring_inactive: 0,
        combined_exact: 0,
        combined_fallback: 0,
        gate_off_nonzero: 0,
        gate_on_zero: 0,
        active_cycles: 0,
        attack_entries: 0,
        release_entries: 0,
        reached_zero: 0,
        blips: 0,
    }
}

fn combines_waveforms(voice: &VoiceFrame) -> (r: bool)
    ensures
        r == combines(*voice),
{
    count_bits(voice.waveform / 16) >= 2
}

fn count_voice(s: &ProgramFrame, v: usize) -> (r: FrameCensus)
    requires
        v < 3,
    ensures
        r.view() == voice_totals(*s, v as int),
{
    let voice: &VoiceFrame = &s.voices[v];
    let digital: &DigitalVoice = &s.digital_voices[v];
    let rings: bool = s.digital_voices[(v + 2) % 3].source_msb_edges > 0 && voice.waveform / 16 % 2
        == 1;
    let combined: bool = combines_waveforms(voice);
    let attack: u64 = count_events(&digital.events, EnvelopeEventKind::EnteredAttack);
    let release: u64 = count_events(&digital.events, EnvelopeEventKind::EnteredRelease);
    let left: u64 = count_events(&digital.events, EnvelopeEventKind::LeftZero);
    FrameCensus {
        filter_routed: 0,
        combined_waveforms: 0,
        sync_attacks: 0,
        inexact_voices: 0,
        sync_active: count_if(voice.sync && digital.sync_resets > 0),
        sync_inactive: count_if(voice.sync && digital.sync_resets == 0),
        ring_active: count_if(voice.ring_mod && rings),
        ring_inactive: count_if(voice.ring_mod && !rings),
        combined_exact: count_if(combined && digital.combined_waveform_exact),
        combined_fallback: count_if(combined && !digital.combined_waveform_exact),
        gate_off_nonzero: count_if(!voice.gate && digital.level > 0),
        gate_on_zero: count_if(voice.gate && digital.level == 0),
        active_cycles: digital.active_cycles,
        attack_entries: attack,
        release_entries: release,
        reached_zero: count_events(&digital.events, EnvelopeEventKind::ReachedZero),
        blips: count_if(attack > 0 && release > 0 && left == 0 && digital.peak_level == 0),
    }
}

fn count_registers(s: &ProgramFrame) -> (r: FrameCensus)
    ensures
        r.filter_routed == one_if(
            s.filter.routing@[0] || s.filter.routing@[1] || s.filter.routing@[2],
        ),
        r.combined_waveforms == one_if(
            combines(s.voices@[0]) || combines(s.voices@[1]) || combines(s.voices@[2]),
        ),
        r.sync_attacks == one_if(s.voices@[0].sync && s.voices@[0].gate) + one_if(
            s.voices@[1].sync && s.voices@[1].gate,
        ) + one_if(s.voices@[2].sync && s.voices@[2].gate),
        r.inexact_voices == if s.digital_state_exact {
            0int
        } else {
            3
        },
        r.view() == (FrameTotals {
            filter_routed: r.filter_routed as nat,
            combined_waveforms: r.combined_waveforms as nat,
            sync_attacks: r.sync_attacks as nat,
            inexact_voices: r.inexact_voices as nat,
            ..nothing()
        }),
{
    let mut c: FrameCensus = empty_census();
    c.filter_routed = count_if(
        s.filter.routing[0] || s.filter.routing[1] || s.filter.routing[2],
    ) as u32;
    c.combined_waveforms = count_if(
        combines_waveforms(&s.voices[0]) || combines_waveforms(&s.voices[1]) || combines_waveforms(
            &s.voices[2],
        ),
    ) as u32;
    c.sync_attacks = count_if(s.voices[0].sync && s.voices[0].gate) as u32 + count_if(
        s.voices[1].sync && s.voices[1].gate,
    ) as u32 + count_if(s.voices[2].sync && s.voices[2].gate) as u32;
    c.inexact_voices = if s.digital_state_exact {
        0
    } else {
        3
    };
    c
}

proof fn parts_fit(a: FrameTotals, b: FrameTotals)
    requires
        fits(sum(a, b)),
    ensures
        fits(a),
        fits(b),
{
}

fn count_frame(s: &ProgramFrame) -> (r: FrameCensus)
    requires
        fits(frame_totals(*s)),
    ensures
        r.view() == frame_totals(*s),
{
    let mut c: FrameCensus = count_registers(s);
    if s.digital_state_exact {
        let ghost registers = c.view();
        let ghost a = voice_totals(*s, 0);
        let ghost b = voice_totals(*s, 1);
        let ghost d = voice_totals(*s, 2);
        assert(frame_totals(*s) == sum(sum(sum(registers, a), b), d));
        proof {
            parts_fit(sum(sum(registers, a), b), d);
            parts_fit(sum(registers, a), b);
        }
        let first: FrameCensus = count_voice(s, 0);
        c.add(&first);
        let second: FrameCensus = count_voice(s, 1);
        c.add(&second);
        let third: FrameCensus = count_voice(s, 2);
        c.add(&third);
    }
    c
}

/// Counts over the frames of a trace.
pub fn count_frames(states: &[ProgramFrame]) -> (r: FrameCensus)
    requires
        fits(totals(states@, states@.len() as int)),
    ensures
        r.view() == totals(states@, states@.len() as int),
{
    let mut c: FrameCensus = empty_census();
    let mut i: usize = 0;
    while i < states.len()
        invariant
            i <= states@.len(),
            fits(totals(states@, states@.len() as int)),
            c.view() == totals(states@, i as int),
        decreases states@.len() - i,
    {
        proof {
            totals_grow(states@, i + 1, states@.len() as int);
        }
        let ghost here = frame_totals(states@[i as int]);
        assert(totals(states@, i + 1) == sum(c.view(), here));
        proof {
            parts_fit(c.view(), here);
        }
        let frame: FrameCensus = count_frame(&states[i]);
        c.add(&frame);
        i += 1;
    }
    c
}

/// How many of the first `k` frames have another volume than the frame before.
pub open spec fn volume_changes(states: Seq<ProgramFrame>, k: int) -> nat
    decreases k,
{
    if k <= 1 {
        0
    } else {
        volume_changes(states, k - 1) + one_if(states[k - 2].volume != states[k - 1].volume)
    }
}

/// Counts the frames whose volume differs from that of the frame before.
pub fn count_volume_changes(states: &[ProgramFrame]) -> (r: usize)
    ensures
        r == volume_changes(states@, states@.len() as int),
        r <= states@.len(),
{
    let mut n: usize = 0;
    let mut i: usize = 1;
    while i < states.len()
        invariant
            1 <= i,
            i <= states@.len() || i == 1,
            n < i,
            n == volume_changes(states@, i as int),
        decreases states@.len() - i,
    {
        if states[i - 1].volume != states[i].volume {
            n += 1;
        }
        i += 1;
    }
    n
}

/// How often the test bit of a voice changes within the first `k` frames.
pub open spec fn test_changes(states: Seq<ProgramFrame>, k: int) -> nat
    decreases k,
{
    if k <= 1 {
        0
    } else {
        test_changes(states, k - 1) + one_if(
            states[k - 2].voices@[0].test != states[k - 1].voices@[0].test,
        ) + one_if(states[k - 2].voices@[1].test != states[k - 1].voices@[1].test) + one_if(
            states[k - 2].voices@[2].test != states[k - 1].voices@[2].test,
        )
    }
}

/// Counts how often the test bit of a voice changes.
pub fn count_test_changes(states: &[ProgramFrame]) -> (r: u64)
    requires
        states@.len() <= u32::MAX,
    ensures
        r == test_changes(states@, states@.len() as int),
{
    let mut n: u64 = 0;
    let mut i: usize = 1;
    while i < states.len()
        invariant
            1 <= i,
            i <= states@.len() || i == 1,
            states@.len() <= u32::MAX,
            n <= 3 * i,
            n == test_changes(states@, i as int),
        decreases states@.len() - i,
    {
        n += count_if(states[i - 1].voices[0].test != states[i].voices[0].test);
        n += count_if(states[i - 1].voices[1].test != states[i].voices[1].test);
        n += count_if(states[i - 1].voices[2].test != states[i].voices[2].test);
        i += 1;
    }
    n
}

/// Whether a voice plays a mask, and as exactly as asked.
pub open spec fn plays(s: ProgramFrame, v: int, mask: int, exact: bool) -> bool {
    s.voices@[v].waveform / 16 == mask && s.digital_voices@[v].combined_waveform_exact == exact
}

/// How many voice frames among the first `k` frames play a mask.
pub open spec fn mask_frames(states: Seq<ProgramFrame>, k: int, mask: int, exact: bool) -> nat
    decreases k,
{
    if k <= 0 {
        0
    } else {
        mask_frames(states, k - 1, mask, exact) + one_if(plays(states[k - 1], 0, mask, exact))
            + one_if(plays(states[k - 1], 1, mask, exact)) + one_if(
            plays(states[k - 1], 2, mask, exact),
        )
    }
}

/// How often each mask is played: first by voices whose combination is modelled,
/// sixteen places on by the others.
pub open spec fn mask_counts(states: Seq<ProgramFrame>) -> Seq<u64> {
    Seq::new(
        32,
        |i: int| mask_frames(states, states.len() as int, i % 16, i < 16) as u64,
    )
}

fn count_mask(counts: &mut Vec<u64>, s: &ProgramFrame, v: usize)
    requires
        v < 3,
        old(counts)@.len() == 32,
        forall|i: int| 0 <= i < 32 ==> #[trigger] old(counts)@[i] < u64::MAX,
    ensures
        final(counts)@.len() == 32,
        forall|i: int|
            0 <= i < 32 ==> #[trigger] final(counts)@[i] == old(counts)@[i] + one_if(
                plays(*s, v as int, i % 16, i < 16),
            ),
{
    let mask: usize = (s.voices[v].waveform / 16) as usize;
    let at: usize = if s.digital_voices[v].combined_waveform_exact {
        mask
    } else {
        mask + 16
    };
    let before: u64 = counts[at];
    counts.set(at, before + 1);
}

/// Counts how often each mask is played.
pub fn count_masks(states: &[ProgramFrame]) -> (r: Vec<u64>)
    requires
        states@.len() <= u32::MAX,
    ensures
        r@ == mask_counts(states@),
        forall|i: int|
            0 <= i < 32 ==> #[trigger] r@[i] == mask_frames(
                states@,
                states@.len() as int,
                i % 16,
                i < 16,
            ),
{
    let mut counts: Vec<u64> = Vec::new();
    let mut n: usize = 0;
    while n < 32
        invariant
            n <= 32,
            counts@.len() == n,
            forall|i: int| 0 <= i < n ==> #[trigger] counts@[i] == 0,
        decreases 32 - n,
    {
        counts.push(0);
        n += 1;
    }
    let mut k: usize = 0;
    while k < states.len()
        invariant
            k <= states@.len() <= u32::MAX,
            counts@.len() == 32,
            forall|i: int|
                0 <= i < 32 ==> #[trigger] counts@[i] == mask_frames(
                    states@,
                    k as int,
                    i % 16,
                    i < 16,
                ) && counts@[i] <= 3 * k,
        decreases states@.len() - k,
    {
        let s: &ProgramFrame = &states[k];
        let ghost c0 = counts@;
        count_mask(&mut counts, s, 0);
        let ghost c1 = counts@;
        assert forall|i: int| 0 <= i < 32 implies #[trigger] counts@[i] <= 3 * k + 1 by {
            assert(c0[i] <= 3 * k);
        }
        count_mask(&mut counts, s, 1);
        let ghost c2 = counts@;
        assert forall|i: int| 0 <= i < 32 implies #[trigger] counts@[i] <= 3 * k + 2 by {
            assert(c1[i] <= 3 * k + 1);
        }
        count_mask(&mut counts, s, 2);
        assert forall|i: int| 0 <= i < 32 implies #[trigger] counts@[i] == mask_frames(
            states@,
            k + 1,
            i % 16,
            i < 16,
        ) && counts@[i] <= 3 * (k + 1) by {
            assert(c0[i] == mask_frames(states@, k as int, i % 16, i < 16));
            assert(c1[i] == c0[i] + one_if(plays(*s, 0, i % 16, i < 16)));
            assert(c2[i] == c1[i] + one_if(plays(*s, 1, i % 16, i < 16)));
        }
        k += 1;
    }
    counts
}

} // verus!
