//! The semantic program of a tune: chip signals, bus events, regions and
//! interpretations.

use crate::trace::SidRegister;
use vstd::prelude::*;

verus! {

/// The clock that a tune was written for.
#[derive(Debug, Clone, Copy, PartialEq, Eq, Structural)]
pub enum SystemClock {
    Pal,
    Ntsc,
}

/// One of the three SID voices, counted from one.
#[derive(Debug, Clone, Copy, PartialEq, Eq, Structural, PartialOrd, Ord, Hash)]
#[must_use]
pub struct VoiceId(pub u8);

impl VoiceId {
    /// Whether this is one of the three voices.
    pub open spec fn valid(self) -> bool {
        1 <= self.0 <= 3
    }

    /// The voice with the given index, counted from zero.
    pub fn from_index(index: usize) -> (r: VoiceId)
        requires
            index < 3,
        ensures
            r.valid(),
            r.0 == index + 1,
    {
        VoiceId(index as u8 + 1)
    }

    /// The index of the voice, counted from zero.
    pub fn to_index(self) -> (r: usize)
        requires
            self.valid(),
        ensures
            r == self.0 - 1,
            r < 3,
    {
        self.0 as usize - 1
    }
}

/// Identifies a sound region.
#[derive(Debug, Clone, Copy, PartialEq, Eq, Structural)]
pub struct SoundRegionId(pub u64);

/// Identifies a program definition.
#[derive(Debug, Clone, Copy, PartialEq, Eq, Structural)]
pub struct ProgramDefinitionId(pub u64);

/// Identifies a program occurrence.
#[derive(Debug, Clone, Copy, PartialEq, Eq, Structural)]
pub struct ProgramOccurrenceId(pub u64);

/// Identifies an occurrence of a continuous program.
#[derive(Debug, Clone, Copy, PartialEq, Eq, Structural)]
pub struct ContinuousOccurrenceId(pub u64);

/// Identifies a group of reusable programs.
#[derive(Debug, Clone, Copy, PartialEq, Eq, Structural)]
pub struct ProgramReuseGroupId(pub u64);

/// Identifies the interpretation of a signal.
#[derive(Debug, Clone, Copy, PartialEq, Eq, Structural)]
pub struct SignalInterpretationId(pub u64);

/// The place of a bus event in the capture.
#[derive(Debug, Clone, Copy, PartialEq, Eq, Structural)]
pub struct SidBusEventId(pub u64);

/// Identifies an init or play call.
#[derive(Debug, Clone, Copy, PartialEq, Eq, Structural)]
pub struct SidCallId(pub u64);

/// One of the SID chips, the primary one being zero.
#[derive(Debug, Clone, Copy, PartialEq, Eq, Structural)]
pub struct SidChipId(pub u8);

impl SidChipId {
    /// Whether this is the primary chip.
    pub open spec fn is_primary(self) -> bool {
        self.0 == 0
    }

    /// Whether this is the primary chip.
    pub fn primary(self) -> (r: bool)
        ensures
            r == self.is_primary(),
    {
        self.0 == 0
    }
}

/// What a bus event did.
#[derive(Debug, Clone, Copy, PartialEq, Eq, Structural)]
pub enum SidBusAccess {
    Read,
    Write,
}

/// How well the time of a bus event is known.
#[derive(Debug, Clone, Copy, PartialEq, Eq, Structural)]
pub enum EventTimestampQuality {
    Exact,
    InstructionStartBounded,
}

/// One access to a chip.
#[derive(Debug, Clone, Copy, PartialEq, Eq, Structural)]
pub struct SidBusEvent {
    pub id: SidBusEventId,
    pub call: SidCallId,
    pub chip: SidChipId,
    pub access: SidBusAccess,
    /// The register, where the address belongs to one.
    pub register: Option<SidRegister>,
    pub value: u8,
    pub timestamp_quality: EventTimestampQuality,
}

/// The phase of an envelope generator.
#[derive(Debug, Clone, Copy, PartialEq, Eq, Structural)]
pub enum EnvPhase {
    Attack,
    DecaySustain,
    Release,
}

/// The state of an envelope generator at one point.
#[derive(Debug, Clone, Copy, PartialEq, Eq, Structural)]
pub struct EnvelopePoint {
    pub level: u8,
    pub phase: EnvPhase,
}

/// The signals of one voice.
#[derive(Debug, Clone)]
pub struct VoiceSignals {
    pub voice: VoiceId,
    pub envelope: Vec<EnvelopePoint>,
    /// The waveform control byte at each change.
    pub waveform: Vec<u8>,
}

/// How one voice acts on another.
#[derive(Debug, Clone, Copy, PartialEq, Eq, Structural)]
pub enum TopologyEdgeKind {
    Sync,
    Ring,
    Filter,
    Mix,
}

/// The signals that the voices share.
#[derive(Debug, Clone)]
pub struct ChipSignals {
    /// How many points the cutoff, resonance, mode and routing signals have.
    pub cutoff_points: usize,
    pub resonance_points: usize,
    pub filter_mode_points: usize,
    pub routing_points: usize,
    pub edges: Vec<TopologyEdgeKind>,
    /// When each sample of the volume register was written.
    pub digi: Vec<u64>,
}

/// What a region of a tune sounds like.
#[derive(Debug, Clone, Copy, PartialEq, Eq, Structural)]
pub enum SoundRegionKind {
    Music,
    DigiStream,
}

/// A region of a tune, its end excluded.
#[derive(Debug, Clone, Copy, PartialEq, Eq, Structural)]
pub struct SoundRegion {
    pub id: SoundRegionId,
    pub kind: SoundRegionKind,
    pub start: u64,
    pub end: u64,
}

/// The state of an oscillator at a checkpoint.
#[derive(Debug, Clone, Copy, PartialEq, Eq, Structural)]
pub struct OscillatorCheckpoint {
    pub accumulator: u32,
    pub sync_resets: u64,
    pub test_or_reset: bool,
    pub noise_poisoned: bool,
    pub noise_shift_register: u32,
}

/// An occurrence of a continuous program: where it starts, which voice it
/// belongs to, what it continues, and that voice's chip state at its start.
#[derive(Debug, Clone, Copy, PartialEq, Eq, Structural)]
pub struct ContinuousOccurrence {
    pub id: ContinuousOccurrenceId,
    pub voice: Option<VoiceId>,
    pub continues_previous: bool,
    pub continued: bool,
    pub start: u64,
    pub oscillator: OscillatorCheckpoint,
    pub control: u8,
}

/// Which signal is interpreted.
#[derive(Debug, Clone, Copy, PartialEq, Eq, Structural)]
pub enum InterpretedSignalSource {
    VoiceFrequency,
    VoicePulseWidth,
    ChipCutoff,
    MasterVolume,
    EnvelopeLevel,
}

/// What shape a signal has.
#[derive(Debug, Clone, Copy, PartialEq, Eq, Structural)]
pub enum SignalInterpretationKind {
    Constant,
    Ramp,
    Periodic,
    Table,
    BoundedScript,
}

/// The interpretation of a signal.
#[derive(Debug, Clone, Copy, PartialEq, Eq, Structural)]
pub struct SignalInterpretation {
    pub id: SignalInterpretationId,
    pub source: InterpretedSignalSource,
    pub kind: SignalInterpretationKind,
    /// How many steps the interpretation has.
    pub steps: usize,
}

/// How well a causal dependency is supported.
#[derive(Debug, Clone, Copy, PartialEq, Eq, Structural)]
pub enum CausalSupport {
    Correlation,
    ProducerConsumer,
    ProducerTransformConsumer,
}

/// Whether evidence can be relied on.
#[derive(Debug, Clone, Copy, PartialEq, Eq, Structural)]
pub enum EvidenceValidity {
    Valid,
    TimingBounded,
    Invalid,
}

/// One piece of evidence, its confidence in thousandths.
#[derive(Debug, Clone, Copy, PartialEq, Eq, Structural)]
pub struct Evidence {
    pub confidence: u16,
    pub validity: EvidenceValidity,
}

/// A signal that drives registers.
#[derive(Debug, Clone)]
pub struct CausalDependency {
    pub support: CausalSupport,
    pub random_source: bool,
    pub consumers: Vec<SidRegister>,
    pub evidence: Vec<Evidence>,
}

/// What was found out about a tune.
#[derive(Debug, Clone)]
pub struct AnalyzedSidProgram {
    pub frame_count: usize,
    pub voices: Vec<VoiceSignals>,
    pub chip: ChipSignals,
    pub events: Vec<SidBusEvent>,
    pub regions: Vec<SoundRegion>,
    pub definitions: Vec<ProgramDefinitionId>,
    pub occurrences: Vec<ProgramOccurrenceId>,
    pub continuous: Vec<ContinuousOccurrence>,
    pub reuse_groups: Vec<ProgramReuseGroupId>,
    pub interpretations: Vec<SignalInterpretation>,
    pub dependencies: Vec<CausalDependency>,
}

} // verus!
