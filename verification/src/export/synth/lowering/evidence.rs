//! What the lowering reads out of an analyzed program.

use crate::analysis::program::{
    AnalyzedSidProgram, CausalDependency, CausalSupport, ContinuousOccurrence,
    ContinuousOccurrenceId, EnvPhase, EnvelopePoint, Evidence, EventTimestampQuality,
    EvidenceValidity, SidBusAccess, SidBusEvent, SidBusEventId, SidCallId, SoundRegion,
    SoundRegionKind, TopologyEdgeKind, VoiceId, VoiceSignals,
};
use vstd::prelude::*;

verus! {

/// How many elements satisfy a predicate.
pub open spec fn count_where<A>(s: Seq<A>, f: spec_fn(A) -> bool) -> nat
    decreases s.len(),
{
    if s.len() == 0 {
        0
    } else {
        count_where(s.drop_last(), f) + if f(s.last()) {
            1nat
        } else {
            0
        }
    }
}

/// One more element counts if it satisfies the predicate.
pub proof fn count_where_step<A>(s: Seq<A>, f: spec_fn(A) -> bool, i: int)
    requires
        0 <= i < s.len(),
    ensures
        count_where(s.take(i + 1), f) == count_where(s.take(i), f) + if f(s[i]) {
            1nat
        } else {
            0
        },
{
    assert(s.take(i + 1).drop_last() =~= s.take(i));
}

/// There are never more counted elements than elements, and there is one iff
/// some element satisfies the predicate.
pub proof fn count_where_bounds<A>(s: Seq<A>, f: spec_fn(A) -> bool)
    ensures
        count_where(s, f) <= s.len(),
        count_where(s, f) > 0 <==> exists|i: int| 0 <= i < s.len() && f(#[trigger] s[i]),
    decreases s.len(),
{
    if s.len() > 0 {
        count_where_bounds(s.drop_last(), f);
        let t = s.drop_last();
        if exists|i: int| 0 <= i < t.len() && f(#[trigger] t[i]) {
            let i = choose|i: int| 0 <= i < t.len() && f(#[trigger] t[i]);
            assert(f(s[i]));
        }
        if f(s.last()) {
            assert(f(s[s.len() - 1]));
        }
        if exists|i: int| 0 <= i < s.len() && f(#[trigger] s[i]) {
            let i = choose|i: int| 0 <= i < s.len() && f(#[trigger] s[i]);
            if i < t.len() {
                assert(f(t[i]));
            }
        }
    }
}

/// The seven registers of a voice.
#[derive(Debug, Clone, Copy, PartialEq, Eq)]
#[must_use]
pub struct SidVoiceRegisterState(pub [u8; 7]);

/// How a note starts: the register writes of its call up to the voice gate, and what
/// the registers held before the first of them.
#[derive(Debug, Clone)]
#[must_use]
pub struct OnsetProgramRecipe {
    pub voice: VoiceId,
    pub call: SidCallId,
    pub trigger: SidBusEventId,
    pub initial_registers: SidVoiceRegisterState,
    pub writes: Vec<SidBusEventId>,
    pub timestamp_quality: EventTimestampQuality,
}

/// An onset as plain values.
pub struct OnsetView {
    pub voice: VoiceId,
    pub call: SidCallId,
    pub trigger: SidBusEventId,
    pub initial_registers: Seq<u8>,
    pub writes: Seq<SidBusEventId>,
    pub timestamp_quality: EventTimestampQuality,
}

impl OnsetProgramRecipe {
    /// The onset as plain values.
    pub open spec fn view(self) -> OnsetView {
        OnsetView {
            voice: self.voice,
            call: self.call,
            trigger: self.trigger,
            initial_registers: self.initial_registers.0@,
            writes: self.writes@,
            timestamp_quality: self.timestamp_quality,
        }
    }

    /// Copies the onset.
    pub fn copy(&self) -> (r: OnsetProgramRecipe)
        ensures
            r.view() == self.view(),
    {
        OnsetProgramRecipe {
            voice: self.voice,
            call: self.call,
            trigger: self.trigger,
            initial_registers: self.initial_registers,
            writes: copy_events(&self.writes),
            timestamp_quality: self.timestamp_quality,
        }
    }
}

/// Onsets as plain values.
pub open spec fn onset_views(s: Seq<OnsetProgramRecipe>) -> Seq<OnsetView> {
    s.map_values(|o: OnsetProgramRecipe| o.view())
}

fn copy_events(v: &Vec<SidBusEventId>) -> (r: Vec<SidBusEventId>)
    ensures
        r@ == v@,
{
    let mut out: Vec<SidBusEventId> = Vec::new();
    let mut i: usize = 0;
    while i < v.len()
        invariant
            i <= v@.len(),
            out@ == v@.take(i as int),
        decreases v@.len() - i,
    {
        out.push(v[i]);
        i += 1;
    }
    out
}

/// Copies a list of onsets.
pub fn copy_onsets(v: &Vec<OnsetProgramRecipe>) -> (r: Vec<OnsetProgramRecipe>)
    ensures
        onset_views(r@) == onset_views(v@),
{
    let mut out: Vec<OnsetProgramRecipe> = Vec::new();
    let mut i: usize = 0;
    while i < v.len()
        invariant
            i <= v@.len(),
            onset_views(out@) == onset_views(v@).take(i as int),
        decreases v@.len() - i,
    {
        let ghost before = out@;
        let o: OnsetProgramRecipe = v[i].copy();
        out.push(o);
        assert(onset_views(out@) =~= onset_views(before).push(o.view()));
        i += 1;
        assert(onset_views(out@) =~= onset_views(v@).take(i as int));
    }
    assert(onset_views(v@).take(i as int) =~= onset_views(v@));
    out
}

/// What is known of a voice while its writes are followed: the voice gate, the
/// registers, the call in progress, and the writes of that call that may belong
/// to the next onset, with the registers before them.
pub struct VoiceFollower {
    pub gate: bool,
    pub registers: Seq<u8>,
    pub call: Option<SidCallId>,
    pub pending: Seq<SidBusEventId>,
    pub initial: Seq<u8>,
}

impl VoiceFollower {
    /// A voice after power-on.
    pub open spec fn start() -> VoiceFollower {
        VoiceFollower {
            gate: false,
            registers: Seq::new(7, |i: int| 0u8),
            call: None,
            pending: Seq::empty(),
            initial: Seq::new(7, |i: int| 0u8),
        }
    }

    /// Takes up a write: a new call forgets the pending writes of the old one,
    /// and the first pending write keeps the registers before it.
    pub open spec fn taken(self, e: SidBusEvent) -> VoiceFollower {
        let old = if self.call == Some(e.call) {
            self.pending
        } else {
            Seq::empty()
        };
        VoiceFollower {
            call: Some(e.call),
            pending: old.push(e.id),
            initial: if old.len() == 0 {
                self.registers
            } else {
                self.initial
            },
            ..self
        }
    }

    /// The voice after a write to one of its registers. A rising gate uses up
    /// the pending writes; a falling gate begins them anew with itself.
    pub open spec fn after(self, e: SidBusEvent, offset: int) -> VoiceFollower {
        let t = self.taken(e);
        let registers = t.registers.update(offset, e.value);
        if offset != 4 {
            VoiceFollower { registers, ..t }
        } else {
            let gate = e.value % 2 == 1;
            if !t.gate && gate {
                VoiceFollower { gate, registers, pending: Seq::empty(), ..t }
            } else if t.gate && !gate {
                VoiceFollower {
                    gate,
                    registers,
                    pending: seq![e.id],
                    initial: t.registers,
                    ..t
                }
            } else {
                VoiceFollower { gate, registers, ..t }
            }
        }
    }

    /// Whether a write to one of the voice's registers raises the voice gate.
    pub open spec fn triggered_by(self, e: SidBusEvent, offset: int) -> bool {
        offset == 4 && !self.gate && e.value % 2 == 1
    }
}

/// The offset of the voice register that an event writes, with the index of the
/// voice.
pub open spec fn voice_write(e: SidBusEvent) -> Option<(int, int)> {
    match e.register {
        Some(r) => if e.chip.is_primary() && e.access == SidBusAccess::Write && r.0 < 0x15 {
            Some((r.0 as int / 7, r.0 as int % 7))
        } else {
            None
        },
        None => None,
    }
}

/// Whether one of the listed events has a bounded time only.
pub open spec fn any_bounded(events: Seq<SidBusEvent>, ids: Seq<SidBusEventId>) -> bool {
    exists|i: int|
        0 <= i < ids.len() && (#[trigger] ids[i]).0 < events.len() && events[ids[i].0 as int].timestamp_quality
            == EventTimestampQuality::InstructionStartBounded
}

/// The time quality of an onset: as good as its worst write.
pub open spec fn onset_quality(
    events: Seq<SidBusEvent>,
    ids: Seq<SidBusEventId>,
) -> EventTimestampQuality {
    if any_bounded(events, ids) {
        EventTimestampQuality::InstructionStartBounded
    } else {
        EventTimestampQuality::Exact
    }
}

/// The three voices and the onsets found after the first `n` events.
pub open spec fn follow(events: Seq<SidBusEvent>, n: nat) -> (Seq<VoiceFollower>, Seq<OnsetView>)
    decreases n,
{
    if n == 0 {
        (Seq::new(3, |i: int| VoiceFollower::start()), Seq::empty())
    } else {
        let (voices, onsets) = follow(events, (n - 1) as nat);
        let e = events[n - 1];
        match voice_write(e) {
            None => (voices, onsets),
            Some((v, offset)) => {
                let f = voices[v];
                let t = f.taken(e);
                (
                    voices.update(v, f.after(e, offset)),
                    if f.triggered_by(e, offset) {
                        onsets.push(
                            OnsetView {
                                voice: VoiceId((v + 1) as u8),
                                call: e.call,
                                trigger: e.id,
                                initial_registers: t.initial,
                                writes: t.pending,
                                timestamp_quality: onset_quality(events, t.pending),
                            },
                        )
                    } else {
                        onsets
                    },
                )
            },
        }
    }
}

/// The onsets of a capture.
pub open spec fn onsets_of(events: Seq<SidBusEvent>) -> Seq<OnsetView> {
    follow(events, events.len()).1
}

struct Follower {
    gate: bool,
    registers: [u8; 7],
    call: Option<SidCallId>,
    pending: Vec<SidBusEventId>,
    initial: [u8; 7],
}

impl Follower {
    spec fn view(self) -> VoiceFollower {
        VoiceFollower {
            gate: self.gate,
            registers: self.registers@,
            call: self.call,
            pending: self.pending@,
            initial: self.initial@,
        }
    }

    fn new() -> (r: Follower)
        ensures
            r.view() == VoiceFollower::start(),
    {
        let r: Follower = Follower {
            gate: false,
            registers: [0;7],
            call: None,
            pending: Vec::new(),
            initial: [0;7],
        };
        assert(r.registers@ =~= VoiceFollower::start().registers);
        assert(r.pending@ =~= VoiceFollower::start().pending);
        r
    }

    fn write(&mut self, e: &SidBusEvent, offset: usize, events: &Vec<SidBusEvent>) -> (r: Option<
        OnsetProgramRecipe,
    >)
        requires
            offset < 7,
        ensures
            final(self).view() == old(self).view().after(*e, offset as int),
            match r {
                Some(o) => {
                    let t = old(self).view().taken(*e);
                    &&& old(self).view().triggered_by(*e, offset as int)
                    &&& o.call == e.call
                    &&& o.trigger == e.id
                    &&& o.initial_registers.0@ == t.initial
                    &&& o.writes@ == t.pending
                    &&& o.timestamp_quality == onset_quality(events@, t.pending)
                },
                None => !old(self).view().triggered_by(*e, offset as int),
            },
    {
        let ghost start = self.view();
        let same: bool = match self.call {
            Some(c) => c == e.call,
            None => false,
        };
        if !same {
            self.call = Some(e.call);
            self.pending.clear();
        }
        if self.pending.len() == 0 {
            self.initial = self.registers;
        }
        self.pending.push(e.id);
        assert(self.view() == start.taken(*e)) by {
            assert(self.pending@ =~= start.taken(*e).pending);
        }
        let mut found: Option<OnsetProgramRecipe> = None;
        if offset == 4 {
            let next: bool = e.value % 2 == 1;
            if !self.gate && next {
                let quality: EventTimestampQuality = worst_quality(&self.pending, events);
                found = Some(
                    OnsetProgramRecipe {
                        voice: VoiceId(1),
                        call: e.call,
                        trigger: e.id,
                        initial_registers: SidVoiceRegisterState(self.initial),
                        writes: copy_events(&self.pending),
                        timestamp_quality: quality,
                    },
                );
                self.pending.clear();
            } else if self.gate && !next {
                self.pending.clear();
                self.initial = self.registers;
                self.pending.push(e.id);
                assert(self.pending@ =~= seq![e.id]);
            }
            self.gate = next;
        }
        self.registers[offset] = e.value;
        assert(self.view() == start.after(*e, offset as int)) by {
            assert(self.registers@ =~= start.after(*e, offset as int).registers);
            assert(self.pending@ =~= start.after(*e, offset as int).pending);
        }
        found
    }
}

fn worst_quality(ids: &Vec<SidBusEventId>, events: &Vec<SidBusEvent>) -> (r: EventTimestampQuality)
    ensures
        r == onset_quality(events@, ids@),
{
    let mut i: usize = 0;
    while i < ids.len()
        invariant
            i <= ids@.len(),
            forall|j: int|
                0 <= j < i && (#[trigger] ids@[j]).0 < events@.len()
                    ==> events@[ids@[j].0 as int].timestamp_quality
                    != EventTimestampQuality::InstructionStartBounded,
        decreases ids@.len() - i,
    {
        let id: u64 = ids[i].0;
        if id < events.len() as u64 {
            if events[id as usize].timestamp_quality
                == EventTimestampQuality::InstructionStartBounded {
                assert(any_bounded(events@, ids@)) by {
                    assert(ids@[i as int].0 < events@.len());
                }
                return EventTimestampQuality::InstructionStartBounded;
            }
        }
        i += 1;
    }
    EventTimestampQuality::Exact
}

/// Finds the onsets: for every rising gate of a voice the writes of the same
/// call that lead up to it.
pub fn onset_programs(program: &AnalyzedSidProgram) -> (r: Vec<OnsetProgramRecipe>)
    ensures
        onset_views(r@) == onsets_of(program.events@),
{
    let events: &Vec<SidBusEvent> = &program.events;
    let mut first: Follower = Follower::new();
    let mut second: Follower = Follower::new();
    let mut third: Follower = Follower::new();
    let mut onsets: Vec<OnsetProgramRecipe> = Vec::new();
    let mut i: usize = 0;
    assert(onset_views(onsets@) =~= Seq::empty());
    while i < events.len()
        invariant
            i <= events@.len(),
            events == program.events,
            ({
                let (voices, found) = follow(events@, i as nat);
                &&& voices.len() == 3
                &&& voices[0] == first.view()
                &&& voices[1] == second.view()
                &&& voices[2] == third.view()
                &&& onset_views(onsets@) == found
            }),
        decreases events@.len() - i,
    {
        let e: SidBusEvent = events[i];
        let ghost (voices, found) = follow(events@, i as nat);
        i += 1;
        assert(events@[i - 1] == e);
        if !e.chip.primary() || e.access != SidBusAccess::Write {
            continue;
        }
        let register: u8 = match e.register {
            Some(r) => r.0,
            None => {
                continue;
            },
        };
        if register >= 0x15 {
            continue;
        }
        let voice: u8 = register / 7;
        let offset: usize = (register % 7) as usize;
        let result: Option<OnsetProgramRecipe> = if voice == 0 {
            first.write(&e, offset, events)
        } else if voice == 1 {
            second.write(&e, offset, events)
        } else {
            third.write(&e, offset, events)
        };
        if let Some(found_onset) = result {
            let mut onset: OnsetProgramRecipe = found_onset;
            onset.voice = VoiceId(voice + 1);
            let ghost before = onsets@;
            onsets.push(onset);
            assert(onset_views(onsets@) =~= onset_views(before).push(onset.view()));
        }
    }
    onsets
}

/// Where an oscillator stands when an occurrence starts.
#[derive(Debug, Clone, Copy, PartialEq, Eq, Structural)]
#[must_use]
pub enum OscillatorStartPolicy {
    ExplicitState,
    FreeRunning,
    LegatoContinued,
    SyncReset,
    TestReset,
    Unknown,
}

/// The oscillator start of one occurrence.
#[derive(Debug, Clone, Copy, PartialEq, Eq, Structural)]
#[must_use]
pub struct OscillatorStartRecipe {
    pub occurrence: ContinuousOccurrenceId,
    pub voice: VoiceId,
    pub policy: OscillatorStartPolicy,
}

/// Where a noise generator stands when an occurrence starts.
#[derive(Debug, Clone, Copy, PartialEq, Eq, Structural)]
#[must_use]
pub enum NoiseStartPolicy {
    FreeRunning,
    Seeded,
    TestReset,
    LegatoContinued,
    SequenceRestart,
    Unknown,
}

/// The noise start of one occurrence.
#[derive(Debug, Clone, Copy, PartialEq, Eq, Structural)]
#[must_use]
pub struct NoiseStartRecipe {
    pub occurrence: ContinuousOccurrenceId,
    pub voice: VoiceId,
    pub policy: NoiseStartPolicy,
}

/// The shift register after a chip reset.
pub const NOISE_SEED: u32 = 0x003F_FFFF;

/// How the oscillator of an occurrence starts.
pub open spec fn oscillator_policy(o: ContinuousOccurrence) -> OscillatorStartPolicy {
    if o.oscillator.noise_poisoned {
        OscillatorStartPolicy::Unknown
    } else if o.continues_previous {
        OscillatorStartPolicy::LegatoContinued
    } else if o.oscillator.test_or_reset {
        OscillatorStartPolicy::TestReset
    } else if o.oscillator.accumulator == 0 && o.oscillator.sync_resets > 0 {
        OscillatorStartPolicy::SyncReset
    } else if o.start > 0 {
        OscillatorStartPolicy::FreeRunning
    } else {
        OscillatorStartPolicy::ExplicitState
    }
}

/// Whether a control byte selects noise.
pub open spec fn noise_selected(control: u8) -> bool {
    control >= 0x80
}

/// How the noise generator of an occurrence starts.
pub open spec fn noise_policy(o: ContinuousOccurrence) -> NoiseStartPolicy {
    if o.oscillator.noise_poisoned {
        NoiseStartPolicy::Unknown
    } else if o.continues_previous {
        NoiseStartPolicy::LegatoContinued
    } else if o.oscillator.test_or_reset || o.control / 8 % 2 == 1 {
        NoiseStartPolicy::TestReset
    } else if o.oscillator.noise_shift_register == NOISE_SEED {
        NoiseStartPolicy::Seeded
    } else {
        NoiseStartPolicy::FreeRunning
    }
}

/// The oscillator starts of all occurrences on a voice, in order.
pub open spec fn oscillator_starts_of(s: Seq<ContinuousOccurrence>) -> Seq<OscillatorStartRecipe>
    decreases s.len(),
{
    if s.len() == 0 {
        Seq::empty()
    } else {
        let o = s.last();
        let before = oscillator_starts_of(s.drop_last());
        match o.voice {
            Some(voice) => before.push(
                OscillatorStartRecipe { occurrence: o.id, voice, policy: oscillator_policy(o) },
            ),
            None => before,
        }
    }
}

/// The noise starts of all occurrences on a voice that selects noise, in order.
pub open spec fn noise_starts_of(s: Seq<ContinuousOccurrence>) -> Seq<NoiseStartRecipe>
    decreases s.len(),
{
    if s.len() == 0 {
        Seq::empty()
    } else {
        let o = s.last();
        let before = noise_starts_of(s.drop_last());
        match o.voice {
            Some(voice) => if noise_selected(o.control) {
                before.push(
                    NoiseStartRecipe { occurrence: o.id, voice, policy: noise_policy(o) },
                )
            } else {
                before
            },
            None => before,
        }
    }
}

/// Lists how each occurrence's oscillator starts.
pub fn oscillator_start_recipes(program: &AnalyzedSidProgram) -> (r: Vec<OscillatorStartRecipe>)
    ensures
        r@ == oscillator_starts_of(program.continuous@),
{
    let all: &Vec<ContinuousOccurrence> = &program.continuous;
    let mut out: Vec<OscillatorStartRecipe> = Vec::new();
    let mut i: usize = 0;
    assert(all@.take(0) =~= Seq::<ContinuousOccurrence>::empty());
    while i < all.len()
        invariant
            i <= all@.len(),
            out@ == oscillator_starts_of(all@.take(i as int)),
        decreases all@.len() - i,
    {
        let o: ContinuousOccurrence = all[i];
        assert(all@.take(i + 1).drop_last() =~= all@.take(i as int));
        if let Some(voice) = o.voice {
            let policy: OscillatorStartPolicy = if o.oscillator.noise_poisoned {
                OscillatorStartPolicy::Unknown
            } else if o.continues_previous {
                OscillatorStartPolicy::LegatoContinued
            } else if o.oscillator.test_or_reset {
                OscillatorStartPolicy::TestReset
            } else if o.oscillator.accumulator == 0 && o.oscillator.sync_resets > 0 {
                OscillatorStartPolicy::SyncReset
            } else if o.start > 0 {
                OscillatorStartPolicy::FreeRunning
            } else {
                OscillatorStartPolicy::ExplicitState
            };
            out.push(OscillatorStartRecipe { occurrence: o.id, voice, policy });
        }
        i += 1;
    }
    assert(all@.take(all@.len() as int) =~= all@);
    out
}

/// Lists how each occurrence's noise generator starts.
pub fn noise_start_recipes(program: &AnalyzedSidProgram) -> (r: Vec<NoiseStartRecipe>)
    ensures
        r@ == noise_starts_of(program.continuous@),
{
    let all: &Vec<ContinuousOccurrence> = &program.continuous;
    let mut out: Vec<NoiseStartRecipe> = Vec::new();
    let mut i: usize = 0;
    assert(all@.take(0) =~= Seq::<ContinuousOccurrence>::empty());
    while i < all.len()
        invariant
            i <= all@.len(),
            out@ == noise_starts_of(all@.take(i as int)),
        decreases all@.len() - i,
    {
        let o: ContinuousOccurrence = all[i];
        assert(all@.take(i + 1).drop_last() =~= all@.take(i as int));
        if let Some(voice) = o.voice {
            if o.control >= 0x80 {
                let policy: NoiseStartPolicy = if o.oscillator.noise_poisoned {
                    NoiseStartPolicy::Unknown
                } else if o.continues_previous {
                    NoiseStartPolicy::LegatoContinued
                } else if o.oscillator.test_or_reset || o.control / 8 % 2 == 1 {
                    NoiseStartPolicy::TestReset
                } else if o.oscillator.noise_shift_register == NOISE_SEED {
                    NoiseStartPolicy::Seeded
                } else {
                    NoiseStartPolicy::FreeRunning
                };
                out.push(NoiseStartRecipe { occurrence: o.id, voice, policy });
            }
        }
        i += 1;
    }
    assert(all@.take(all@.len() as int) =~= all@);
    out
}

/// How often an attack begins while the envelope is still sounding.
pub open spec fn sounding_attacks(s: Seq<EnvelopePoint>) -> nat
    decreases s.len(),
{
    if s.len() < 2 {
        0
    } else {
        sounding_attacks(s.drop_last()) + if s[s.len() - 2].level > 0 && s.last().phase
            == EnvPhase::Attack {
            1nat
        } else {
            0
        }
    }
}

/// The sum of a quantity over the voices.
pub open spec fn over_voices(s: Seq<VoiceSignals>, f: spec_fn(VoiceSignals) -> nat) -> nat
    decreases s.len(),
{
    if s.len() == 0 {
        0
    } else {
        over_voices(s.drop_last(), f) + f(s.last())
    }
}

proof fn over_voices_step(s: Seq<VoiceSignals>, f: spec_fn(VoiceSignals) -> nat, i: int)
    requires
        0 <= i < s.len(),
    ensures
        over_voices(s.take(i + 1), f) == over_voices(s.take(i), f) + f(s[i]),
        over_voices(s.take(i + 1), f) <= over_voices(s, f),
    decreases s.len() - i,
{
    assert(s.take(i + 1).drop_last() =~= s.take(i));
    if i + 1 == s.len() {
        assert(s.take(i + 1) =~= s);
    } else {
        over_voices_step(s, f, i + 1);
    }
}

proof fn over_voices_monotone(
    s: Seq<VoiceSignals>,
    f: spec_fn(VoiceSignals) -> nat,
    g: spec_fn(VoiceSignals) -> nat,
)
    requires
        forall|v: VoiceSignals| #[trigger] f(v) <= g(v),
    ensures
        over_voices(s, f) <= over_voices(s, g),
    decreases s.len(),
{
    if s.len() > 0 {
        over_voices_monotone(s.drop_last(), f, g);
    }
}

/// How many envelope points the voices have.
pub open spec fn envelope_total(p: AnalyzedSidProgram) -> nat {
    over_voices(p.voices@, |v: VoiceSignals| v.envelope@.len())
}

/// How many waveform points the voices have.
pub open spec fn waveform_total(p: AnalyzedSidProgram) -> nat {
    over_voices(p.voices@, |v: VoiceSignals| v.waveform@.len())
}

/// How often the voices change their waveform.
pub open spec fn waveform_change_total(p: AnalyzedSidProgram) -> nat {
    over_voices(
        p.voices@,
        |v: VoiceSignals|
            if v.waveform@.len() > 0 {
                (v.waveform@.len() - 1) as nat
            } else {
                0
            },
    )
}

/// How often the voices attack while still sounding.
pub open spec fn history_total(p: AnalyzedSidProgram) -> nat {
    over_voices(p.voices@, |v: VoiceSignals| sounding_attacks(v.envelope@))
}

/// How many waveform points of the voices select noise.
pub open spec fn noise_point_total(p: AnalyzedSidProgram) -> nat {
    over_voices(p.voices@, |v: VoiceSignals| count_where(v.waveform@, |w: u8| noise_selected(w)))
}

/// How many points the filter signals have.
pub open spec fn filter_total(p: AnalyzedSidProgram) -> nat {
    (p.chip.cutoff_points + p.chip.resonance_points + p.chip.routing_points
        + p.chip.filter_mode_points) as nat
}

/// The number of steps of the first `n` interpretations.
pub open spec fn steps_total(p: AnalyzedSidProgram, n: int) -> nat
    decreases n,
{
    if n <= 0 {
        0
    } else {
        steps_total(p, n - 1) + p.interpretations@[n - 1].steps as nat
    }
}

/// The counters of a program fit into machine words.
pub open spec fn countable(p: AnalyzedSidProgram) -> bool {
    &&& envelope_total(p) <= u32::MAX
    &&& waveform_total(p) <= u32::MAX
    &&& filter_total(p) <= usize::MAX
    &&& steps_total(p, p.interpretations@.len() as int) <= u64::MAX
}

proof fn sounding_attacks_bound(s: Seq<EnvelopePoint>)
    ensures
        sounding_attacks(s) <= s.len(),
    decreases s.len(),
{
    if s.len() >= 2 {
        sounding_attacks_bound(s.drop_last());
    }
}

/// Counts the envelope points.
pub fn envelope_points(program: &AnalyzedSidProgram) -> (r: u32)
    requires
        countable(*program),
    ensures
        r == envelope_total(*program),
{
    let voices: &Vec<VoiceSignals> = &program.voices;
    let ghost f = |v: VoiceSignals| v.envelope@.len();
    let mut total: u32 = 0;
    let mut i: usize = 0;
    assert(voices@.take(0) =~= Seq::<VoiceSignals>::empty());
    while i < voices.len()
        invariant
            i <= voices@.len(),
            f == |v: VoiceSignals| v.envelope@.len(),
            over_voices(voices@, f) <= u32::MAX,
            total == over_voices(voices@.take(i as int), f),
        decreases voices@.len() - i,
    {
        proof {
            over_voices_step(voices@, f, i as int);
        }
        total += voices[i].envelope.len() as u32;
        i += 1;
    }
    assert(voices@.take(voices@.len() as int) =~= voices@);
    total
}

/// Counts the waveform points.
pub fn waveform_points(program: &AnalyzedSidProgram) -> (r: u32)
    requires
        countable(*program),
    ensures
        r == waveform_total(*program),
{
    let voices: &Vec<VoiceSignals> = &program.voices;
    let ghost f = |v: VoiceSignals| v.waveform@.len();
    let mut total: u32 = 0;
    let mut i: usize = 0;
    assert(voices@.take(0) =~= Seq::<VoiceSignals>::empty());
    while i < voices.len()
        invariant
            i <= voices@.len(),
            f == |v: VoiceSignals| v.waveform@.len(),
            over_voices(voices@, f) <= u32::MAX,
            total == over_voices(voices@.take(i as int), f),
        decreases voices@.len() - i,
    {
        proof {
            over_voices_step(voices@, f, i as int);
        }
        total += voices[i].waveform.len() as u32;
        i += 1;
    }
    assert(voices@.take(voices@.len() as int) =~= voices@);
    total
}

/// Counts the waveform changes.
pub fn waveform_changes(program: &AnalyzedSidProgram) -> (r: u64)
    requires
        countable(*program),
    ensures
        r == waveform_change_total(*program),
{
    let voices: &Vec<VoiceSignals> = &program.voices;
    let ghost f = |v: VoiceSignals|
        if v.waveform@.len() > 0 {
            (v.waveform@.len() - 1) as nat
        } else {
            0
        };
    let ghost g = |v: VoiceSignals| v.waveform@.len();
    let mut total: u64 = 0;
    let mut i: usize = 0;
    proof {
        assert(voices@.take(0) =~= Seq::<VoiceSignals>::empty());
        over_voices_monotone(voices@, f, g);
    }
    while i < voices.len()
        invariant
            i <= voices@.len(),
            f == |v: VoiceSignals|
                if v.waveform@.len() > 0 {
                    (v.waveform@.len() - 1) as nat
                } else {
                    0
                },
            over_voices(voices@, f) <= u32::MAX,
            total == over_voices(voices@.take(i as int), f),
        decreases voices@.len() - i,
    {
        proof {
            over_voices_step(voices@, f, i as int);
        }
        total += voices[i].waveform.len().saturating_sub(1) as u64;
        i += 1;
    }
    assert(voices@.take(voices@.len() as int) =~= voices@);
    total
}

fn count_sounding_attacks(s: &Vec<EnvelopePoint>) -> (r: u64)
    ensures
        r == sounding_attacks(s@),
{
    let mut count: u64 = 0;
    let mut i: usize = 1;
    if s.len() < 2 {
        return 0;
    }
    while i < s.len()
        invariant
            1 <= i <= s@.len(),
            s@.len() >= 2,
            count < i,
            count == sounding_attacks(s@.take(i as int)),
        decreases s@.len() - i,
    {
        assert(s@.take(i + 1).drop_last() =~= s@.take(i as int));
        if s[i - 1].level > 0 && s[i].phase == EnvPhase::Attack {
            count += 1;
        }
        i += 1;
    }
    assert(s@.take(s@.len() as int) =~= s@);
    count
}

/// Counts the attacks that begin while the envelope is still sounding.
pub fn history_sensitive_retriggers(program: &AnalyzedSidProgram) -> (r: u64)
    requires
        countable(*program),
    ensures
        r == history_total(*program),
{
    let voices: &Vec<VoiceSignals> = &program.voices;
    let ghost f = |v: VoiceSignals| sounding_attacks(v.envelope@);
    let ghost g = |v: VoiceSignals| v.envelope@.len();
    let mut total: u64 = 0;
    let mut i: usize = 0;
    proof {
        assert(voices@.take(0) =~= Seq::<VoiceSignals>::empty());
        assert forall|v: VoiceSignals| #[trigger] f(v) <= g(v) by {
            sounding_attacks_bound(v.envelope@);
        }
        over_voices_monotone(voices@, f, g);
    }
    while i < voices.len()
        invariant
            i <= voices@.len(),
            f == |v: VoiceSignals| sounding_attacks(v.envelope@),
            over_voices(voices@, f) <= u32::MAX,
            total == over_voices(voices@.take(i as int), f),
        decreases voices@.len() - i,
    {
        proof {
            over_voices_step(voices@, f, i as int);
        }
        total += count_sounding_attacks(&voices[i].envelope);
        i += 1;
    }
    assert(voices@.take(voices@.len() as int) =~= voices@);
    total
}

fn count_noise(s: &Vec<u8>) -> (r: u64)
    ensures
        r == count_where(s@, |w: u8| noise_selected(w)),
{
    let ghost f = |w: u8| noise_selected(w);
    let mut count: u64 = 0;
    let mut i: usize = 0;
    assert(s@.take(0) =~= Seq::<u8>::empty());
    while i < s.len()
        invariant
            i <= s@.len(),
            f == |w: u8| noise_selected(w),
            count <= i,
            count == count_where(s@.take(i as int), f),
        decreases s@.len() - i,
    {
        proof {
            count_where_step(s@, f, i as int);
        }
        if s[i] >= 0x80 {
            count += 1;
        }
        i += 1;
    }
    assert(s@.take(s@.len() as int) =~= s@);
    count
}

/// Counts the waveform points that select noise.
pub fn noise_points(program: &AnalyzedSidProgram) -> (r: u64)
    requires
        countable(*program),
    ensures
        r == noise_point_total(*program),
{
    let voices: &Vec<VoiceSignals> = &program.voices;
    let ghost f = |v: VoiceSignals| count_where(v.waveform@, |w: u8| noise_selected(w));
    let ghost g = |v: VoiceSignals| v.waveform@.len();
    let mut total: u64 = 0;
    let mut i: usize = 0;
    proof {
        assert(voices@.take(0) =~= Seq::<VoiceSignals>::empty());
        assert forall|v: VoiceSignals| #[trigger] f(v) <= g(v) by {
            count_where_bounds(v.waveform@, |w: u8| noise_selected(w));
        }
        over_voices_monotone(voices@, f, g);
    }
    while i < voices.len()
        invariant
            i <= voices@.len(),
            f == |v: VoiceSignals| count_where(v.waveform@, |w: u8| noise_selected(w)),
            over_voices(voices@, f) <= u32::MAX,
            total == over_voices(voices@.take(i as int), f),
        decreases voices@.len() - i,
    {
        proof {
            over_voices_step(voices@, f, i as int);
        }
        total += count_noise(&voices[i].waveform);
        i += 1;
    }
    assert(voices@.take(voices@.len() as int) =~= voices@);
    total
}

/// How many occurrences are continued by another.
pub open spec fn continuation_total(p: AnalyzedSidProgram) -> nat {
    count_where(p.continuous@, |o: ContinuousOccurrence| o.continued)
}

/// Counts the occurrences that are continued by another.
pub fn continuation_edge_count(program: &AnalyzedSidProgram) -> (r: u64)
    ensures
        r == continuation_total(*program),
{
    let all: &Vec<ContinuousOccurrence> = &program.continuous;
    let ghost f = |o: ContinuousOccurrence| o.continued;
    let mut count: u64 = 0;
    let mut i: usize = 0;
    assert(all@.take(0) =~= Seq::<ContinuousOccurrence>::empty());
    while i < all.len()
        invariant
            i <= all@.len(),
            f == |o: ContinuousOccurrence| o.continued,
            count <= i,
            count == count_where(all@.take(i as int), f),
        decreases all@.len() - i,
    {
        proof {
            count_where_step(all@, f, i as int);
        }
        if all[i].continued {
            count += 1;
        }
        i += 1;
    }
    assert(all@.take(all@.len() as int) =~= all@);
    count
}

/// Whether an edge joins two voices.
pub open spec fn crosses_voices(e: TopologyEdgeKind) -> bool {
    e == TopologyEdgeKind::Sync || e == TopologyEdgeKind::Ring
}

/// How many edges join two voices.
pub open spec fn cross_voice_total(p: AnalyzedSidProgram) -> nat {
    count_where(p.chip.edges@, |e: TopologyEdgeKind| crosses_voices(e))
}

/// Counts the edges that join two voices.
pub fn cross_voice_edge_count(program: &AnalyzedSidProgram) -> (r: u64)
    ensures
        r == cross_voice_total(*program),
{
    let all: &Vec<TopologyEdgeKind> = &program.chip.edges;
    let ghost f = |e: TopologyEdgeKind| crosses_voices(e);
    let mut count: u64 = 0;
    let mut i: usize = 0;
    assert(all@.take(0) =~= Seq::<TopologyEdgeKind>::empty());
    while i < all.len()
        invariant
            i <= all@.len(),
            f == |e: TopologyEdgeKind| crosses_voices(e),
            count <= i,
            count == count_where(all@.take(i as int), f),
        decreases all@.len() - i,
    {
        proof {
            count_where_step(all@, f, i as int);
        }
        if all[i] == TopologyEdgeKind::Sync || all[i] == TopologyEdgeKind::Ring {
            count += 1;
        }
        i += 1;
    }
    assert(all@.take(all@.len() as int) =~= all@);
    count
}

/// Whether a tune has a stream of volume-register samples.
pub open spec fn digi_stream(p: AnalyzedSidProgram) -> bool {
    exists|i: int|
        0 <= i < p.regions@.len() && (#[trigger] p.regions@[i]).kind == SoundRegionKind::DigiStream
}

/// Whether a time lies in a sample stream.
pub open spec fn in_digi_stream(regions: Seq<SoundRegion>, at: u64) -> bool {
    exists|i: int|
        0 <= i < regions.len() && (#[trigger] regions[i]).kind == SoundRegionKind::DigiStream
            && regions[i].start <= at < regions[i].end
}

/// How many samples lie in a sample stream.
pub open spec fn digi_total(p: AnalyzedSidProgram) -> nat {
    count_where(p.chip.digi@, |at: u64| in_digi_stream(p.regions@, at))
}

/// Tells whether there is a stream of volume-register samples.
pub fn has_digi_stream(program: &AnalyzedSidProgram) -> (r: bool)
    ensures
        r == digi_stream(*program),
{
    let mut i: usize = 0;
    while i < program.regions.len()
        invariant
            i <= program.regions@.len(),
            forall|j: int|
                0 <= j < i ==> (#[trigger] program.regions@[j]).kind != SoundRegionKind::DigiStream,
        decreases program.regions@.len() - i,
    {
        if program.regions[i].kind == SoundRegionKind::DigiStream {
            return true;
        }
        i += 1;
    }
    false
}

fn time_in_digi_stream(regions: &Vec<SoundRegion>, at: u64) -> (r: bool)
    ensures
        r == in_digi_stream(regions@, at),
{
    let mut i: usize = 0;
    while i < regions.len()
        invariant
            i <= regions@.len(),
            forall|j: int|
                0 <= j < i ==> !((#[trigger] regions@[j]).kind == SoundRegionKind::DigiStream
                    && regions@[j].start <= at < regions@[j].end),
        decreases regions@.len() - i,
    {
        if regions[i].kind == SoundRegionKind::DigiStream && regions[i].start <= at && at
            < regions[i].end {
            return true;
        }
        i += 1;
    }
    false
}

/// Counts the samples that lie in a sample stream.
pub fn detected_digi_points(program: &AnalyzedSidProgram) -> (r: usize)
    ensures
        r == digi_total(*program),
{
    let all: &Vec<u64> = &program.chip.digi;
    let ghost f = |at: u64| in_digi_stream(program.regions@, at);
    let mut count: usize = 0;
    let mut i: usize = 0;
    assert(all@.take(0) =~= Seq::<u64>::empty());
    while i < all.len()
        invariant
            i <= all@.len(),
            f == |at: u64| in_digi_stream(program.regions@, at),
            count <= i,
            count == count_where(all@.take(i as int), f),
        decreases all@.len() - i,
    {
        proof {
            count_where_step(all@, f, i as int);
        }
        if time_in_digi_stream(&program.regions, all[i]) {
            count += 1;
        }
        i += 1;
    }
    assert(all@.take(all@.len() as int) =~= all@);
    count
}

/// How many bus events belong to the primary chip.
pub open spec fn primary_total(p: AnalyzedSidProgram) -> nat {
    count_where(p.events@, |e: SidBusEvent| e.chip.is_primary())
}

/// Counts the bus events of the primary chip.
pub fn primary_events(program: &AnalyzedSidProgram) -> (r: usize)
    ensures
        r == primary_total(*program),
{
    let all: &Vec<SidBusEvent> = &program.events;
    let ghost f = |e: SidBusEvent| e.chip.is_primary();
    let mut count: usize = 0;
    let mut i: usize = 0;
    assert(all@.take(0) =~= Seq::<SidBusEvent>::empty());
    while i < all.len()
        invariant
            i <= all@.len(),
            f == |e: SidBusEvent| e.chip.is_primary(),
            count <= i,
            count == count_where(all@.take(i as int), f),
        decreases all@.len() - i,
    {
        proof {
            count_where_step(all@, f, i as int);
        }
        if all[i].chip.primary() {
            count += 1;
        }
        i += 1;
    }
    assert(all@.take(all@.len() as int) =~= all@);
    count
}

/// Whether evidence is strong enough to act on.
pub open spec fn strong(e: Evidence) -> bool {
    e.confidence >= 750 && (e.validity == EvidenceValidity::Valid || e.validity
        == EvidenceValidity::TimingBounded)
}

/// Whether a dependency is clear enough to be wired up: a transform with one
/// consumer, no random source, and strong evidence.
pub open spec fn eligible(d: CausalDependency) -> bool {
    &&& d.support == CausalSupport::ProducerTransformConsumer
    &&& d.consumers@.len() == 1
    &&& !d.random_source
    &&& exists|i: int| 0 <= i < d.evidence@.len() && strong(#[trigger] d.evidence@[i])
}

/// Tells whether a dependency is clear enough to be wired up.
pub fn eligible_causal_dependency(d: &CausalDependency) -> (r: bool)
    ensures
        r == eligible(*d),
{
    if d.support != CausalSupport::ProducerTransformConsumer || d.consumers.len() != 1
        || d.random_source {
        return false;
    }
    let mut i: usize = 0;
    while i < d.evidence.len()
        invariant
            i <= d.evidence@.len(),
            d.support == CausalSupport::ProducerTransformConsumer,
            d.consumers@.len() == 1,
            !d.random_source,
            forall|j: int| 0 <= j < i ==> !strong(#[trigger] d.evidence@[j]),
        decreases d.evidence@.len() - i,
    {
        let e: Evidence = d.evidence[i];
        if e.confidence >= 750 && (e.validity == EvidenceValidity::Valid || e.validity
            == EvidenceValidity::TimingBounded) {
            assert(strong(d.evidence@[i as int]));
            return true;
        }
        i += 1;
    }
    false
}

/// How many dependencies are clear enough to be wired up.
pub open spec fn eligible_total(p: AnalyzedSidProgram) -> nat {
    count_where(p.dependencies@, |d: CausalDependency| eligible(d))
}

/// Counts the dependencies that are clear enough to be wired up.
pub fn eligible_dependencies(program: &AnalyzedSidProgram) -> (r: usize)
    ensures
        r == eligible_total(*program),
{
    let all: &Vec<CausalDependency> = &program.dependencies;
    let ghost f = |d: CausalDependency| eligible(d);
    let mut count: usize = 0;
    let mut i: usize = 0;
    assert(all@.take(0) =~= Seq::<CausalDependency>::empty());
    while i < all.len()
        invariant
            i <= all@.len(),
            f == |d: CausalDependency| eligible(d),
            count <= i,
            count == count_where(all@.take(i as int), f),
        decreases all@.len() - i,
    {
        proof {
            count_where_step(all@, f, i as int);
        }
        if eligible_causal_dependency(&all[i]) {
            count += 1;
        }
        i += 1;
    }
    assert(all@.take(all@.len() as int) =~= all@);
    count
}

} // verus!
