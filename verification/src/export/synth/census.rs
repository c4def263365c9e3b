//! What an export counts about itself.

pub mod counted;
pub mod frames;
pub mod notes;
pub mod report;
pub mod shown;

use crate::analysis::frame::{Effect, EffectSpan, ProgramFrame};
use crate::analysis::patch::Patch;
use crate::chars::{from_chars, to_chars};
use crate::header::SidModel;
use crate::numerals::{digit, digit_char, push_text};
use self::frames::{
    count_frames, count_masks, count_test_changes, count_volume_changes, fits, test_changes, totals,
    volume_changes, FrameCensus,
};
use self::notes::{
    all_notes, all_plans, authored_of, count_authored, count_notes, count_plans, count_spans,
    notes_fit, plans_counted, spans_of, NoteCensus, PlanCensus,
};
use super::emission::segments_fit;
use super::notes::is_positive;
use super::options::SynthOptions;
use super::ownership::{
    all_overlaps, physical_voice_census, plans_fit, PhysicalVoiceCensus, PhysicalVoiceOwnership,
};
use super::song::assembly::Song;
use super::song::automation::volume_moves;
use super::song::lanes::{
    drops_volume_lane, moving_volumes_are_kept_or_dropped, volume_lane, volume_lane_dropped,
};
use super::song::{pattern_views, PatternView};
use super::timbre::{combination_policy, combined_waveform_support, ones, Waveform};
use super::tracks::{SynthNote, TrackPlan};
use vstd::prelude::*;

verus! {

/// What a driver's own decoder delivered.
#[derive(Debug, Clone, Copy, PartialEq, Eq, Structural)]
#[must_use]
pub enum NativeCapability {
    /// No decoder ran.
    Absent,
    /// The notes came from the driver's own tables.
    Decoded,
    /// The notes and the structure of the song did.
    Structured,
}

/// Where a value of the analysis comes from.
#[derive(Debug, Clone, Copy, PartialEq, Eq, Structural)]
pub enum Provenance {
    AuthoredVerified,
    AuthoredDecoded,
    AuthoredPartial,
    TraceMeasured,
    RenderMeasured,
    TraceCorrected,
    Inferred,
    Approximated,
    ExactEmulation,
    Unsupported,
    Unknown,
}

/// Where a field of a report comes from.
#[derive(Debug, Clone, Copy, PartialEq, Eq, Structural)]
pub enum FieldProvenance {
    AuthoredVerified,
    AuthoredDecoded,
    AuthoredPartial,
    TraceMeasured,
    TraceCorrected,
    Inferred,
    Unsupported,
}

/// How a report calls the origin of a value.
pub open spec fn reported(provenance: Provenance) -> FieldProvenance {
    match provenance {
        Provenance::AuthoredVerified => FieldProvenance::AuthoredVerified,
        Provenance::AuthoredDecoded => FieldProvenance::AuthoredDecoded,
        Provenance::AuthoredPartial => FieldProvenance::AuthoredPartial,
        Provenance::TraceMeasured | Provenance::RenderMeasured => FieldProvenance::TraceMeasured,
        Provenance::TraceCorrected => FieldProvenance::TraceCorrected,
        Provenance::Inferred | Provenance::Approximated | Provenance::ExactEmulation =>
            FieldProvenance::Inferred,
        Provenance::Unsupported | Provenance::Unknown => FieldProvenance::Unsupported,
    }
}

/// How a report calls the origin of a value.
pub fn native_field_provenance(provenance: Provenance) -> (r: FieldProvenance)
    ensures
        r == reported(provenance),
{
    match provenance {
        Provenance::AuthoredVerified => FieldProvenance::AuthoredVerified,
        Provenance::AuthoredDecoded => FieldProvenance::AuthoredDecoded,
        Provenance::AuthoredPartial => FieldProvenance::AuthoredPartial,
        Provenance::TraceMeasured | Provenance::RenderMeasured => FieldProvenance::TraceMeasured,
        Provenance::TraceCorrected => FieldProvenance::TraceCorrected,
        Provenance::Inferred | Provenance::Approximated | Provenance::ExactEmulation =>
            FieldProvenance::Inferred,
        Provenance::Unsupported | Provenance::Unknown => FieldProvenance::Unsupported,
    }
}

/// What a driver's own decoder tells of a field.
#[derive(Debug)]
pub struct FieldEvidence {
    pub field: String,
    pub provenance: Provenance,
    /// How often the field was compared with the trace.
    pub samples: u64,
    pub mismatches: u64,
}

/// What a driver's own decoder delivered.
#[derive(Debug)]
pub struct NativeExtraction {
    pub driver: String,
    pub extractor: String,
    /// What its validation showed, as a JSON document.
    pub validation: String,
    pub fields: Vec<FieldEvidence>,
    /// The structure of the song as a JSON document, if it was recovered.
    pub recovered_structure: Option<String>,
}

/// What a report tells of a field that a driver's own decoder read.
#[derive(Debug)]
pub struct ProvenanceEvidence {
    pub field: String,
    pub provenance: FieldProvenance,
    pub samples: usize,
    pub mismatches: usize,
}

/// What a report tells of a driver's own decoder.
#[derive(Debug)]
pub struct NativeCensus {
    pub driver: String,
    pub extractor: String,
    /// What its validation showed, as a JSON document.
    pub validation: String,
    pub provenance: Vec<ProvenanceEvidence>,
    /// The structure of the song as a JSON document, if it was recovered.
    pub recovered_structure: Option<String>,
}

/// What a report tells of a field, as plain values.
pub struct EvidenceView {
    pub field: Seq<char>,
    pub provenance: FieldProvenance,
    pub samples: usize,
    pub mismatches: usize,
}

/// What a report tells of a decoder, as plain values.
pub struct NativeView {
    pub driver: Seq<char>,
    pub extractor: Seq<char>,
    pub validation: Seq<char>,
    pub provenance: Seq<EvidenceView>,
    pub recovered_structure: Option<Seq<char>>,
}

impl ProvenanceEvidence {
    /// The evidence as plain values.
    pub open spec fn view(self) -> EvidenceView {
        EvidenceView {
            field: self.field@,
            provenance: self.provenance,
            samples: self.samples,
            mismatches: self.mismatches,
        }
    }
}

/// What a report tells of some fields, as plain values.
pub open spec fn evidence_views(v: Seq<ProvenanceEvidence>) -> Seq<EvidenceView> {
    v.map_values(|e: ProvenanceEvidence| e.view())
}

/// What is to be reported of some fields: everything, with the origin under the name
/// that reports give it.
pub open spec fn reported_evidence(fields: Seq<FieldEvidence>) -> Seq<EvidenceView> {
    fields.map_values(
        |e: FieldEvidence|
            EvidenceView {
                field: e.field@,
                provenance: reported(e.provenance),
                samples: e.samples as usize,
                mismatches: e.mismatches as usize,
            },
    )
}

/// What a report tells of a decoder, if one ran.
pub open spec fn native_view(native: Option<NativeCensus>) -> Option<NativeView> {
    match native {
        Some(n) => Some(
            NativeView {
                driver: n.driver@,
                extractor: n.extractor@,
                validation: n.validation@,
                provenance: evidence_views(n.provenance@),
                recovered_structure: text_of(n.recovered_structure),
            },
        ),
        None => None,
    }
}

/// What is to be reported of a decoder, if one ran.
pub open spec fn reported_native(native: Option<NativeExtraction>) -> Option<NativeView> {
    match native {
        Some(n) => Some(
            NativeView {
                driver: n.driver@,
                extractor: n.extractor@,
                validation: n.validation@,
                provenance: reported_evidence(n.fields@),
                recovered_structure: text_of(n.recovered_structure),
            },
        ),
        None => None,
    }
}

/// Reports what a driver's own decoder tells of some fields.
pub fn report_evidence(fields: &[FieldEvidence]) -> (r: Vec<ProvenanceEvidence>)
    ensures
        evidence_views(r@) == reported_evidence(fields@),
{
    let mut out: Vec<ProvenanceEvidence> = Vec::new();
    let mut i: usize = 0;
    while i < fields.len()
        invariant
            i <= fields@.len(),
            out@.len() == i,
            forall|j: int|
                0 <= j < i ==> (#[trigger] out@[j]).view() == reported_evidence(fields@)[j],
        decreases fields@.len() - i,
    {
        let told: &FieldEvidence = &fields[i];
        out.push(
            ProvenanceEvidence {
                field: copy_text(&told.field),
                provenance: native_field_provenance(told.provenance),
                samples: told.samples as usize,
                mismatches: told.mismatches as usize,
            },
        );
        i += 1;
    }
    assert(evidence_views(out@) =~= reported_evidence(fields@));
    out
}

/// Reports what a driver's own decoder delivered, if one ran.
pub fn native_census(native: Option<NativeExtraction>) -> (r: Option<NativeCensus>)
    ensures
        native_view(r) == reported_native(native),
{
    match native {
        Some(n) => Some(
            NativeCensus {
                provenance: report_evidence(n.fields.as_slice()),
                driver: n.driver,
                extractor: n.extractor,
                validation: n.validation,
                recovered_structure: n.recovered_structure,
            },
        ),
        None => None,
    }
}

/// What the third oscillator's output was used for.
#[derive(Debug, Clone, Copy, PartialEq, Eq, Structural)]
pub enum Osc3Target {
    Pitch,
    PulseWidth,
    FilterCutoff,
    Volume,
    /// Nothing, or nothing that an export carries.
    Other,
}

/// What the reads of the third oscillator were attributed to.
#[derive(Debug)]
pub struct Osc3Attribution {
    pub target: Osc3Target,
    /// What a report calls the target.
    pub label: String,
    pub reads: u64,
    pub evidence: u64,
    pub confidence_percent: u8,
}

/// How confident an attribution has to be, in percent.
pub const OSC3_MIN_CONFIDENCE: u8 = 70;

/// How well the notes of an export agree with the trace. Mean deviations are in
/// cents, as single-precision bit patterns.
#[derive(Debug)]
pub struct NoteFidelity {
    pub notes_ok: u32,
    pub notes_fail: u32,
    pub events_degraded: u32,
    pub notes_unverifiable: u32,
    pub mean_cents: u32,
    /// The mean deviations of the worst notes.
    pub worst: Vec<u32>,
    /// Gated frames that no note covers, per voice.
    pub uncovered_gated_frames: [u32; 3],
}

/// The greatest of some deviations; what is not positive counts as none.
pub open spec fn worst_of(worst: Seq<u32>) -> u32
    decreases worst.len(),
{
    if worst.len() == 0 {
        0
    } else {
        let before = worst_of(worst.drop_last());
        if is_positive(worst.last()) && worst.last() > before {
            worst.last()
        } else {
            before
        }
    }
}

fn find_worst(worst: &[u32]) -> (r: u32)
    ensures
        r == worst_of(worst@),
{
    let mut best: u32 = 0;
    let mut i: usize = 0;
    assert(worst@.take(0) =~= Seq::<u32>::empty());
    while i < worst.len()
        invariant
            i <= worst@.len(),
            best == worst_of(worst@.take(i as int)),
        decreases worst@.len() - i,
    {
        assert(worst@.take(i + 1).drop_last() =~= worst@.take(i as int));
        let here: u32 = worst[i];
        if 0 < here && here <= 0x7F80_0000 && here > best {
            best = here;
        }
        i += 1;
    }
    assert(worst@.take(worst@.len() as int) =~= worst@);
    best
}

/// What is counted over a finished song.
#[derive(Debug, Clone, Copy, PartialEq, Eq, Structural)]
pub struct SongCensus {
    /// Patterns with notes.
    pub patterns: usize,
    /// Patterns with lanes only.
    pub automation_patterns: usize,
    pub serialized_patterns: usize,
    pub placements: usize,
    pub note_graphs: usize,
    pub automation_points: usize,
}

/// How many of the first `k` patterns have notes.
pub open spec fn musical_patterns(patterns: Seq<PatternView>, k: int) -> nat
    decreases k,
{
    if k <= 0 {
        0
    } else {
        musical_patterns(patterns, k - 1) + frames::one_if(patterns[k - 1].notes.len() > 0)
    }
}

/// How many of the first `k` patterns have lanes and no notes.
pub open spec fn lane_patterns(patterns: Seq<PatternView>, k: int) -> nat
    decreases k,
{
    if k <= 0 {
        0
    } else {
        lane_patterns(patterns, k - 1) + frames::one_if(
            patterns[k - 1].notes.len() == 0 && patterns[k - 1].automation.len() > 0,
        )
    }
}

/// How many points the first `k` lanes of a pattern have.
pub open spec fn points_of(lanes: Seq<usize>, points: Seq<usize>, k: int) -> nat
    decreases k,
{
    if k <= 0 {
        0
    } else {
        points_of(lanes, points, k - 1) + points[lanes[k - 1] as int] as nat
    }
}

/// How many points the lanes of the first `k` patterns have.
pub open spec fn all_points(patterns: Seq<PatternView>, points: Seq<usize>, k: int) -> nat
    decreases k,
{
    if k <= 0 {
        0
    } else {
        all_points(patterns, points, k - 1) + points_of(
            patterns[k - 1].automation,
            points,
            patterns[k - 1].automation.len() as int,
        )
    }
}

/// Whether the lanes of all patterns are known.
pub open spec fn lanes_known(patterns: Seq<PatternView>, points: Seq<usize>) -> bool {
    forall|p: int, l: int|
        0 <= p < patterns.len() && 0 <= l < patterns[p].automation.len()
            ==> #[trigger] patterns[p].automation[l] < points.len()
}

proof fn points_grow(patterns: Seq<PatternView>, points: Seq<usize>, k: int, n: int)
    requires
        0 <= k <= n,
    ensures
        all_points(patterns, points, k) <= all_points(patterns, points, n),
    decreases n - k,
{
    if k < n {
        points_grow(patterns, points, k, n - 1);
    }
}

proof fn lane_points_grow(lanes: Seq<usize>, points: Seq<usize>, k: int, n: int)
    requires
        0 <= k <= n,
    ensures
        points_of(lanes, points, k) <= points_of(lanes, points, n),
    decreases n - k,
{
    if k < n {
        lane_points_grow(lanes, points, k, n - 1);
    }
}

/// Counts over a finished song. `points` is the number of points of each lane.
pub fn count_song(song: &Song, points: &[usize]) -> (r: SongCensus)
    requires
        lanes_known(song.view().patterns, points@),
        all_points(song.view().patterns, points@, song.view().patterns.len() as int) <= usize::MAX,
    ensures
        r.patterns == musical_patterns(
            song.view().patterns,
            song.view().patterns.len() as int,
        ),
        r.automation_patterns == lane_patterns(
            song.view().patterns,
            song.view().patterns.len() as int,
        ),
        r.serialized_patterns == song.view().patterns.len(),
        r.placements == song.view().arrangement.len(),
        r.note_graphs == song.view().note_graphs.len(),
        r.automation_points == all_points(
            song.view().patterns,
            points@,
            song.view().patterns.len() as int,
        ),
{
    let ghost views = song.view().patterns;
    let mut c: SongCensus = SongCensus {
        patterns: 0,
        automation_patterns: 0,
        serialized_patterns: song.patterns.len(),
        placements: song.arrangement.len(),
        note_graphs: song.note_graphs.len(),
        automation_points: 0,
    };
    assert(views == pattern_views(song.patterns@));
    let mut p: usize = 0;
    while p < song.patterns.len()
        invariant
            p <= song.patterns@.len(),
            views == pattern_views(song.patterns@),
            lanes_known(views, points@),
            all_points(views, points@, views.len() as int) <= usize::MAX,
            c.patterns <= p && c.automation_patterns <= p,
            c.patterns == musical_patterns(views, p as int),
            c.automation_patterns == lane_patterns(views, p as int),
            c.automation_points == all_points(views, points@, p as int),
            c.serialized_patterns == song.patterns@.len(),
            c.placements == song.arrangement@.len(),
            c.note_graphs == song.note_graphs@.len(),
        decreases song.patterns@.len() - p,
    {
        assert(views[p as int] == song.patterns@[p as int].view());
        if song.patterns[p].notes.len() > 0 {
            c.patterns += 1;
        } else if song.patterns[p].automation.len() > 0 {
            c.automation_patterns += 1;
        }
        let ghost lanes = views[p as int].automation;
        let ghost before = c.automation_points;
        proof {
            points_grow(views, points@, p + 1, views.len() as int);
        }
        let mut l: usize = 0;
        while l < song.patterns[p].automation.len()
            invariant
                p < song.patterns@.len(),
                views == pattern_views(song.patterns@),
                lanes == song.patterns@[p as int].automation@,
                lanes == views[p as int].automation,
                lanes_known(views, points@),
                l <= lanes.len(),
                before + points_of(lanes, points@, lanes.len() as int) <= usize::MAX,
                c.automation_points == before + points_of(lanes, points@, l as int),
                c.patterns <= p + 1 && c.automation_patterns <= p + 1,
                c.patterns == musical_patterns(views, p + 1),
                c.automation_patterns == lane_patterns(views, p + 1),
                c.serialized_patterns == song.patterns@.len(),
                c.placements == song.arrangement@.len(),
                c.note_graphs == song.note_graphs@.len(),
            decreases lanes.len() - l,
        {
            proof {
                assert(views[p as int].automation[l as int] < points@.len());
                lane_points_grow(lanes, points@, l + 1, lanes.len() as int);
            }
            let here: usize = song.patterns[p].automation[l];
            c.automation_points += points[here];
            l += 1;
        }
        p += 1;
    }
    c
}

/// What an export counts about its envelopes.
#[derive(Debug, Clone, Copy, PartialEq, Eq, Structural)]
pub struct EnvelopeCensus {
    pub calls_gate_off_nonzero: u64,
    pub calls_gate_on_zero: u64,
    pub attack_entries: u64,
    pub release_entries: u64,
    pub reached_zero: u64,
    pub gate_blips_never_left_zero: u64,
    pub active_cycles: u64,
    pub inexact_voice_calls_excluded: u64,
    pub measured_velocity_notes: u64,
    pub static_velocity_notes: u64,
    pub automated_notes: u64,
    pub censored_sound_ends: u64,
    pub release_extended_notes: u64,
    pub intra_call_retriggers: u64,
    pub stable_release_tails: u64,
    pub moving_release_tails: u64,
    pub waveform_changed_tails_deferred: u64,
}

/// What an export counts about waveform programs.
#[derive(Debug, Clone, Copy, PartialEq, Eq, Structural)]
pub struct WaveformProgramCensus {
    pub programs: usize,
    pub frequency_override_steps: usize,
    pub deterministic_noise_seeded: usize,
    pub noise_seed_poisoned: usize,
    pub test_transitions_deferred: u64,
}

/// How complex the continuous programs of a tune are.
#[derive(Debug, Clone, Copy, PartialEq, Eq, Structural)]
pub struct ContinuousComplexity {
    pub occurrences: u64,
    pub reusable_groups: u64,
    pub serialized_size: u64,
}

/// What an export counts about itself: what it holds, and what it approximates or
/// drops of what the chip did.
#[derive(Debug)]
pub struct Census {
    pub frames: u32,
    pub instruments: usize,
    pub tracks: usize,
    pub notes_total: usize,
    pub notes_percussion: usize,
    /// Notes of tracks without a sound.
    pub notes_raw: usize,
    pub patches_total: usize,
    pub patches_authored: usize,
    pub filter_routed_frames: u32,
    pub combined_waveform_frames: u32,
    pub d418_volume_changes: usize,
    /// Whether the lane of the volume is dropped because it needs too many points: the
    /// volume then plays samples.
    pub d418_digi_dropped: bool,
    pub d418_pcm_streams: usize,
    pub d418_pcm_events: u64,
    pub vibrato_spans: usize,
    pub vibrato_pitch_automation_notes: usize,
    pub portamento_spans: usize,
    pub arpeggio_spans: usize,
    pub ring_mod_notes: u64,
    /// Notes with hard sync throughout.
    pub hard_sync_notes: u64,
    /// Gated voice frames with the sync bit set.
    pub hard_sync_attack_frames: u32,
    pub hardware_sync_active_frames: u64,
    pub hardware_sync_inactive_frames: u64,
    pub hardware_ring_active_frames: u64,
    pub hardware_ring_inactive_frames: u64,
    pub combined_waveform_exact_frames: u64,
    pub combined_waveform_fallback_frames: u64,
    /// How often each representation of a combined waveform is used.
    pub combined_waveform_policies: Vec<(String, u64)>,
    pub waveform_programs: WaveformProgramCensus,
    pub osc3: Osc3Attribution,
    pub osc3_contours_exported: u32,
    pub song: SongCensus,
    pub serialized_size: u64,
    pub note_fidelity: NoteFidelity,
    pub envelope: EnvelopeCensus,
    pub native: Option<NativeCensus>,
    pub options: SynthOptions,
    pub physical_voices: PhysicalVoiceCensus,
    pub continuous_program: ContinuousComplexity,
    /// What the programs of the chip's voices were found to be, as a JSON document.
    pub chip_programs: String,
}

/// What reports compare of a census.
#[derive(Debug)]
pub struct CensusSummary {
    pub frames: u32,
    pub instruments: usize,
    pub tracks: usize,
    pub notes_total: usize,
    pub patterns: usize,
    pub automation_patterns: usize,
    pub serialized_patterns: usize,
    pub placements: usize,
    pub note_graphs: usize,
    pub automation_points: usize,
    pub serialized_size: u64,
    pub d418_pcm_streams: usize,
    pub d418_pcm_events: u64,
    pub program_occurrences: u64,
    pub reusable_program_groups: u64,
    pub program_serialized_size: u64,
    pub native: NativeCapability,
    pub native_driver: Option<String>,
    pub native_extractor: Option<String>,
    pub notes_ok: u32,
    pub notes_fail: u32,
    pub notes_degraded: u32,
    pub notes_unverifiable: u32,
    /// In cents, as a single-precision bit pattern.
    pub mean_cents: u32,
    /// The greatest mean deviation of a note, in cents as a single-precision bit
    /// pattern.
    pub worst_mean_cents: u32,
    pub uncovered_gated_frames: u32,
}

/// What a driver's own decoder delivered.
pub open spec fn capability(native: Option<NativeCensus>) -> NativeCapability {
    match native {
        None => NativeCapability::Absent,
        Some(n) => if n.recovered_structure is Some {
            NativeCapability::Structured
        } else {
            NativeCapability::Decoded
        },
    }
}

/// The text of an optional string.
pub open spec fn text_of(s: Option<String>) -> Option<Seq<char>> {
    match s {
        Some(t) => Some(t@),
        None => None,
    }
}

/// The driver that a decoder names.
pub open spec fn driver_of(native: Option<NativeCensus>) -> Option<Seq<char>> {
    match native {
        Some(n) => Some(n.driver@),
        None => None,
    }
}

/// The name of a decoder.
pub open spec fn extractor_of(native: Option<NativeCensus>) -> Option<Seq<char>> {
    match native {
        Some(n) => Some(n.extractor@),
        None => None,
    }
}

fn copy_text(s: &String) -> (r: String)
    ensures
        r@ == s@,
{
    from_chars(to_chars(s.as_str()).as_slice())
}

impl Census {
    /// Whether the frames that no note covers can be added up.
    pub open spec fn summable(self) -> bool {
        self.note_fidelity.uncovered_gated_frames@[0]
            + self.note_fidelity.uncovered_gated_frames@[1]
            + self.note_fidelity.uncovered_gated_frames@[2] <= u32::MAX
    }

    /// What reports compare.
    #[must_use]
    pub fn summary(&self) -> (r: CensusSummary)
        requires
            self.summable(),
        ensures
            r.frames == self.frames && r.instruments == self.instruments && r.tracks == self.tracks
                && r.notes_total == self.notes_total,
            r.patterns == self.song.patterns && r.automation_patterns
                == self.song.automation_patterns && r.serialized_patterns
                == self.song.serialized_patterns,
            r.placements == self.song.placements && r.note_graphs == self.song.note_graphs
                && r.automation_points == self.song.automation_points,
            r.serialized_size == self.serialized_size,
            r.d418_pcm_streams == self.d418_pcm_streams && r.d418_pcm_events
                == self.d418_pcm_events,
            r.program_occurrences == self.continuous_program.occurrences,
            r.reusable_program_groups == self.continuous_program.reusable_groups,
            r.program_serialized_size == self.continuous_program.serialized_size,
            r.native == capability(self.native),
            text_of(r.native_driver) == driver_of(self.native),
            text_of(r.native_extractor) == extractor_of(self.native),
            r.notes_ok == self.note_fidelity.notes_ok && r.notes_fail
                == self.note_fidelity.notes_fail,
            r.notes_degraded == self.note_fidelity.events_degraded,
            r.notes_unverifiable == self.note_fidelity.notes_unverifiable,
            r.mean_cents == self.note_fidelity.mean_cents,
            r.worst_mean_cents == worst_of(self.note_fidelity.worst@),
            r.uncovered_gated_frames == self.note_fidelity.uncovered_gated_frames@[0]
                + self.note_fidelity.uncovered_gated_frames@[1]
                + self.note_fidelity.uncovered_gated_frames@[2],
    {
        let (native, native_driver, native_extractor): (
            NativeCapability,
            Option<String>,
            Option<String>,
        ) = match &self.native {
            None => (NativeCapability::Absent, None, None),
            Some(n) => (
                if n.recovered_structure.is_some() {
                    NativeCapability::Structured
                } else {
                    NativeCapability::Decoded
                },
                Some(copy_text(&n.driver)),
                Some(copy_text(&n.extractor)),
            ),
        };
        CensusSummary {
            frames: self.frames,
            instruments: self.instruments,
            tracks: self.tracks,
            notes_total: self.notes_total,
            patterns: self.song.patterns,
            automation_patterns: self.song.automation_patterns,
            serialized_patterns: self.song.serialized_patterns,
            placements: self.song.placements,
            note_graphs: self.song.note_graphs,
            automation_points: self.song.automation_points,
            serialized_size: self.serialized_size,
            d418_pcm_streams: self.d418_pcm_streams,
            d418_pcm_events: self.d418_pcm_events,
            program_occurrences: self.continuous_program.occurrences,
            reusable_program_groups: self.continuous_program.reusable_groups,
            program_serialized_size: self.continuous_program.serialized_size,
            native,
            native_driver,
            native_extractor,
            notes_ok: self.note_fidelity.notes_ok,
            notes_fail: self.note_fidelity.notes_fail,
            notes_degraded: self.note_fidelity.events_degraded,
            notes_unverifiable: self.note_fidelity.notes_unverifiable,
            mean_cents: self.note_fidelity.mean_cents,
            worst_mean_cents: find_worst(self.note_fidelity.worst.as_slice()),
            uncovered_gated_frames: self.note_fidelity.uncovered_gated_frames[0]
                + self.note_fidelity.uncovered_gated_frames[1]
                + self.note_fidelity.uncovered_gated_frames[2],
        }
    }
}

/// What reports call a chip.
pub open spec fn model_text(model: SidModel) -> Seq<char> {
    if model == SidModel::Mos8580 {
        "8580"@
    } else {
        "6581"@
    }
}

/// The name of a representation of a combined waveform.
pub open spec fn policy_key(model: SidModel, mask: u8, exact: bool) -> Seq<char> {
    model_text(model) + ":"@ + seq![digit_char(mask as nat)] + ":"@ + combination_policy(
        model,
        mask,
        exact,
    )
}

/// Whether the exact representation comes first among the names of a chip's
/// representations.
pub open spec fn exact_first(model: SidModel) -> bool {
    model == SidModel::Mos6581 || model == SidModel::Mos8580
}

/// The uses of a representation, if there are any.
pub open spec fn policy_entry(model: SidModel, mask: u8, exact: bool, counts: Seq<u64>) -> Seq<
    (Seq<char>, u64),
> {
    let n = counts[if exact {
        mask as int
    } else {
        mask + 16
    }];
    if n > 0 {
        seq![(policy_key(model, mask, exact), n)]
    } else {
        Seq::empty()
    }
}

/// The uses of all representations of the first `k` masks that combine waveforms,
/// in the order of their names.
pub open spec fn policies(model: SidModel, counts: Seq<u64>, k: int) -> Seq<(Seq<char>, u64)>
    decreases k,
{
    if k <= 0 {
        Seq::empty()
    } else {
        let before = policies(model, counts, k - 1);
        let mask = (k - 1) as u8;
        if ones(mask) < 2 {
            before
        } else {
            before + policy_entry(model, mask, exact_first(model), counts) + policy_entry(
                model,
                mask,
                !exact_first(model),
                counts,
            )
        }
    }
}

/// Names with their numbers.
pub open spec fn named_counts(v: Seq<(String, u64)>) -> Seq<(Seq<char>, u64)> {
    Seq::new(v.len(), |i: int| (v[i].0@, v[i].1))
}

fn push_policy(
    out: &mut Vec<(String, u64)>,
    model: SidModel,
    mask: u8,
    exact: bool,
    counts: &[u64],
)
    requires
        mask < 16,
        counts@.len() == 32,
    ensures
        named_counts(final(out)@) == named_counts(old(out)@) + policy_entry(
            model,
            mask,
            exact,
            counts@,
        ),
{
    let ghost before = out@;
    let n: u64 = counts[if exact {
        mask as usize
    } else {
        mask as usize + 16
    }];
    if n > 0 {
        let mut key: Vec<char> = match model {
            SidModel::Mos8580 => to_chars("8580"),
            _ => to_chars("6581"),
        };
        push_text(&mut key, ":");
        let ghost prefix = key@;
        key.push(digit(mask));
        assert(key@ =~= prefix + seq![digit_char(mask as nat)]);
        push_text(&mut key, ":");
        push_text(&mut key, combined_waveform_support(model, mask, exact));
        let name: String = from_chars(key.as_slice());
        assert(name@ == policy_key(model, mask, exact));
        out.push((name, n));
        assert(named_counts(out@) =~= named_counts(before).push((policy_key(model, mask, exact), n)));
        assert(named_counts(out@) =~= named_counts(before) + policy_entry(
            model,
            mask,
            exact,
            counts@,
        ));
    } else {
        assert(named_counts(out@) =~= named_counts(before) + policy_entry(
            model,
            mask,
            exact,
            counts@,
        ));
    }
}

/// Lists how often each representation of a combined waveform is used. `counts` is
/// how often each mask is played.
pub fn list_policies(model: SidModel, counts: &[u64]) -> (r: Vec<(String, u64)>)
    requires
        counts@.len() == 32,
    ensures
        named_counts(r@) == policies(model, counts@, 16),
{
    let known: bool = match model {
        SidModel::Mos6581 => true,
        SidModel::Mos8580 => true,
        _ => false,
    };
    let mut out: Vec<(String, u64)> = Vec::new();
    let mut mask: u8 = 0;
    assert(named_counts(out@) =~= Seq::<(Seq<char>, u64)>::empty());
    while mask < 16
        invariant
            mask <= 16,
            counts@.len() == 32,
            known == exact_first(model),
            named_counts(out@) == policies(model, counts@, mask as int),
        decreases 16 - mask,
    {
        if super::timbre::count_bits(mask) >= 2 {
            push_policy(&mut out, model, mask, known, counts);
            push_policy(&mut out, model, mask, !known, counts);
        }
        mask += 1;
    }
    out
}

/// Whether a track plays a pulse.
pub open spec fn some_pulse(plans: Seq<TrackPlan>) -> bool {
    exists|p: int| 0 <= p < plans.len() && (#[trigger] plans[p]).shape.waveform == Waveform::Pulse
}

/// Whether a track is filtered.
pub open spec fn some_filter(plans: Seq<TrackPlan>) -> bool {
    exists|p: int| 0 <= p < plans.len() && (#[trigger] plans[p]).shape.filter_kind is Some
}

fn plays_pulse(plans: &[TrackPlan]) -> (r: bool)
    ensures
        r == some_pulse(plans@),
{
    let mut p: usize = 0;
    while p < plans.len()
        invariant
            p <= plans@.len(),
            forall|q: int| 0 <= q < p ==> (#[trigger] plans@[q]).shape.waveform != Waveform::Pulse,
        decreases plans@.len() - p,
    {
        if plans[p].shape.waveform == Waveform::Pulse {
            return true;
        }
        p += 1;
    }
    false
}

fn is_filtered(plans: &[TrackPlan]) -> (r: bool)
    ensures
        r == some_filter(plans@),
{
    let mut p: usize = 0;
    while p < plans.len()
        invariant
            p <= plans@.len(),
            forall|q: int| 0 <= q < p ==> (#[trigger] plans@[q]).shape.filter_kind is None,
        decreases plans@.len() - p,
    {
        if plans[p].shape.filter_kind.is_some() {
            return true;
        }
        p += 1;
    }
    false
}

/// Whether the movement of the third oscillator is carried by an export.
pub open spec fn contour_exported(
    target: Osc3Target,
    confidence: u8,
    plans: Seq<TrackPlan>,
    digi_dropped: bool,
) -> bool {
    confidence >= OSC3_MIN_CONFIDENCE && match target {
        Osc3Target::Pitch => true,
        Osc3Target::PulseWidth => some_pulse(plans),
        Osc3Target::FilterCutoff => some_filter(plans),
        Osc3Target::Volume => !digi_dropped,
        Osc3Target::Other => false,
    }
}

/// Tells whether the movement of the third oscillator is carried by an export.
pub fn exports_contour(
    target: Osc3Target,
    confidence: u8,
    plans: &[TrackPlan],
    digi_dropped: bool,
) -> (r: bool)
    ensures
        r == contour_exported(target, confidence, plans@, digi_dropped),
{
    if confidence < OSC3_MIN_CONFIDENCE {
        return false;
    }
    match target {
        Osc3Target::Pitch => true,
        Osc3Target::PulseWidth => plays_pulse(plans),
        Osc3Target::FilterCutoff => is_filtered(plans),
        Osc3Target::Volume => !digi_dropped,
        Osc3Target::Other => false,
    }
}

/// Whether everything that a census counts fits its fields.
pub open spec fn countable(
    notes: Seq<SynthNote>,
    patches: Seq<Patch>,
    states: Seq<ProgramFrame>,
    plans: Seq<TrackPlan>,
    late: Seq<Vec<bool>>,
    own: PhysicalVoiceOwnership,
) -> bool {
    &&& states.len() <= u32::MAX
    &&& notes.len() <= u32::MAX
    &&& fits(totals(states, states.len() as int))
    &&& plans_counted(all_plans(plans, late, notes, patches, states, plans.len() as int))
    &&& super::ownership::fits(all_overlaps(own, states.len() as u32, notes, plans, 0))
}

/// Whether a census tells what an export holds, approximates and drops.
pub open spec fn counts(
    r: Census,
    notes: Seq<SynthNote>,
    patches: Seq<Patch>,
    effects: Seq<EffectSpan>,
    states: Seq<ProgramFrame>,
    volume_fits: Seq<Vec<bool>>,
    tpr: u32,
    plans: Seq<TrackPlan>,
    late: Seq<Vec<bool>>,
    own: PhysicalVoiceOwnership,
    instruments: usize,
    model: SidModel,
    osc3: Osc3Attribution,
) -> bool {
    &&& r.frames == states.len() && r.instruments == instruments && r.tracks == plans.len()
            && r.notes_total == notes.len()
    &&& r.patches_total == patches.len() && r.patches_authored == authored_of(patches)
    &&& ({
            let t = totals(states, states.len() as int);
            &&& r.filter_routed_frames == t.filter_routed
            &&& r.combined_waveform_frames == t.combined_waveforms
            &&& r.hard_sync_attack_frames == t.sync_attacks
            &&& r.hardware_sync_active_frames == t.sync_active
            &&& r.hardware_sync_inactive_frames == t.sync_inactive
            &&& r.hardware_ring_active_frames == t.ring_active
            &&& r.hardware_ring_inactive_frames == t.ring_inactive
            &&& r.combined_waveform_exact_frames == t.combined_exact
            &&& r.combined_waveform_fallback_frames == t.combined_fallback
            &&& r.envelope.calls_gate_off_nonzero == t.gate_off_nonzero
            &&& r.envelope.calls_gate_on_zero == t.gate_on_zero
            &&& r.envelope.attack_entries == t.attack_entries
            &&& r.envelope.release_entries == t.release_entries
            &&& r.envelope.reached_zero == t.reached_zero
            &&& r.envelope.gate_blips_never_left_zero == t.blips
            &&& r.envelope.active_cycles == t.active_cycles
            &&& r.envelope.inexact_voice_calls_excluded == t.inexact_voices
        })
    &&& ({
            let n = all_notes(notes, states, notes.len() as int);
            &&& r.ring_mod_notes == n.ring_mod
            &&& r.hard_sync_notes == n.hard_sync
            &&& r.envelope.measured_velocity_notes == n.measured_velocity
            &&& r.envelope.static_velocity_notes == n.static_velocity
            &&& r.envelope.censored_sound_ends == n.censored
            &&& r.envelope.release_extended_notes == n.extended
            &&& r.envelope.intra_call_retriggers == n.retriggers
            &&& r.envelope.stable_release_tails == n.stable_tails
            &&& r.envelope.moving_release_tails == n.moving_tails
            &&& r.envelope.waveform_changed_tails_deferred == n.changed_tails
        })
    &&& ({
            let p = all_plans(plans, late, notes, patches, states, plans.len() as int);
            &&& r.notes_percussion == p.percussion
            &&& r.notes_raw == p.raw
            &&& r.vibrato_pitch_automation_notes == p.late_vibrato
            &&& r.envelope.automated_notes == p.automated
            &&& r.waveform_programs.programs == p.programs
            &&& r.waveform_programs.frequency_override_steps == p.override_steps
            &&& r.waveform_programs.deterministic_noise_seeded == p.seeded
            &&& r.waveform_programs.noise_seed_poisoned == p.poisoned
        })
    &&& r.waveform_programs.test_transitions_deferred == test_changes(
            states,
            states.len() as int,
        )
    &&& r.d418_volume_changes == volume_changes(states, states.len() as int)
    &&& r.d418_digi_dropped == volume_lane_dropped(states, states.len() as u32, volume_fits, tpr)
    &&& r.vibrato_spans == spans_of(effects, Effect::Vibrato)
    &&& r.portamento_spans == spans_of(effects, Effect::Portamento)
    &&& r.arpeggio_spans == spans_of(effects, Effect::Arpeggio)
    &&& named_counts(r.combined_waveform_policies@) == policies(
            model,
            frames::mask_counts(states),
            16,
        )
    &&& r.osc3 == osc3
    &&& r.osc3_contours_exported == frames::one_if(
            contour_exported(
                osc3.target,
                osc3.confidence_percent,
                plans,
                r.d418_digi_dropped,
            ),
        )
    &&& r.physical_voices.view() == all_overlaps(
            own,
            states.len() as u32,
            notes,
            plans,
            0,
        )
}

/// Whether nothing is told yet of what is known only of a complete export.
pub open spec fn unfinished(r: Census) -> bool {
    &&& r.d418_pcm_streams == 0 && r.d418_pcm_events == 0
    &&& r.serialized_size == 0
    &&& r.note_fidelity.notes_ok == 0 && r.note_fidelity.notes_fail == 0
    &&& r.note_fidelity.events_degraded == 0 && r.note_fidelity.notes_unverifiable == 0
    &&& r.note_fidelity.mean_cents == 0
    &&& r.note_fidelity.worst@ == Seq::<u32>::empty()
    &&& r.note_fidelity.uncovered_gated_frames@ == seq![0u32, 0u32, 0u32]
    &&& r.continuous_program == (ContinuousComplexity {
        occurrences: 0,
        reusable_groups: 0,
        serialized_size: 0,
    })
    &&& r.chip_programs@ == Seq::<char>::empty()
}

/// Whether two attributions are the same as plain values.
pub open spec fn same_attribution(a: Osc3Attribution, b: Osc3Attribution) -> bool {
    &&& a.target == b.target
    &&& a.label@ == b.label@
    &&& a.reads == b.reads && a.evidence == b.evidence
    &&& a.confidence_percent == b.confidence_percent
}

/// Whether notes agree with two traces alike.
pub open spec fn same_fidelity(a: NoteFidelity, b: NoteFidelity) -> bool {
    &&& a.notes_ok == b.notes_ok && a.notes_fail == b.notes_fail
    &&& a.events_degraded == b.events_degraded
    &&& a.notes_unverifiable == b.notes_unverifiable
    &&& a.mean_cents == b.mean_cents
    &&& a.worst@ == b.worst@
    &&& a.uncovered_gated_frames@ == b.uncovered_gated_frames@
}

/// Whether two censuses agree in every field.
pub open spec fn same_census(a: Census, b: Census) -> bool {
    &&& a.frames == b.frames
    &&& a.instruments == b.instruments
    &&& a.tracks == b.tracks
    &&& a.notes_total == b.notes_total
    &&& a.notes_percussion == b.notes_percussion
    &&& a.notes_raw == b.notes_raw
    &&& a.patches_total == b.patches_total
    &&& a.patches_authored == b.patches_authored
    &&& a.filter_routed_frames == b.filter_routed_frames
    &&& a.combined_waveform_frames == b.combined_waveform_frames
    &&& a.d418_volume_changes == b.d418_volume_changes
    &&& a.d418_digi_dropped == b.d418_digi_dropped
    &&& a.d418_pcm_streams == b.d418_pcm_streams
    &&& a.d418_pcm_events == b.d418_pcm_events
    &&& a.vibrato_spans == b.vibrato_spans
    &&& a.vibrato_pitch_automation_notes == b.vibrato_pitch_automation_notes
    &&& a.portamento_spans == b.portamento_spans
    &&& a.arpeggio_spans == b.arpeggio_spans
    &&& a.ring_mod_notes == b.ring_mod_notes
    &&& a.hard_sync_notes == b.hard_sync_notes
    &&& a.hard_sync_attack_frames == b.hard_sync_attack_frames
    &&& a.hardware_sync_active_frames == b.hardware_sync_active_frames
    &&& a.hardware_sync_inactive_frames == b.hardware_sync_inactive_frames
    &&& a.hardware_ring_active_frames == b.hardware_ring_active_frames
    &&& a.hardware_ring_inactive_frames == b.hardware_ring_inactive_frames
    &&& a.combined_waveform_exact_frames == b.combined_waveform_exact_frames
    &&& a.combined_waveform_fallback_frames == b.combined_waveform_fallback_frames
    &&& named_counts(a.combined_waveform_policies@) == named_counts(b.combined_waveform_policies@)
    &&& a.waveform_programs == b.waveform_programs
    &&& same_attribution(a.osc3, b.osc3)
    &&& a.osc3_contours_exported == b.osc3_contours_exported
    &&& a.song == b.song
    &&& a.serialized_size == b.serialized_size
    &&& same_fidelity(a.note_fidelity, b.note_fidelity)
    &&& a.envelope == b.envelope
    &&& native_view(a.native) == native_view(b.native)
    &&& a.options == b.options
    &&& a.physical_voices == b.physical_voices
    &&& a.continuous_program == b.continuous_program
    &&& a.chip_programs@ == b.chip_programs@
}

/// A census says that samples drove the lane of the volume out only where there is no
/// such lane.
pub proof fn dropped_volume_lanes_are_absent(
    r: Census,
    notes: Seq<SynthNote>,
    patches: Seq<Patch>,
    effects: Seq<EffectSpan>,
    states: Seq<ProgramFrame>,
    volume_fits: Seq<Vec<bool>>,
    tpr: u32,
    plans: Seq<TrackPlan>,
    late: Seq<Vec<bool>>,
    own: PhysicalVoiceOwnership,
    instruments: usize,
    model: SidModel,
    osc3: Osc3Attribution,
)
    requires
        counts(
            r,
            notes,
            patches,
            effects,
            states,
            volume_fits,
            tpr,
            plans,
            late,
            own,
            instruments,
            model,
            osc3,
        ),
    ensures
        r.d418_digi_dropped <==> volume_moves(states, states.len() as u32) && volume_lane(
            states,
            states.len() as u32,
            volume_fits,
            tpr,
        ) is None,
{
    moving_volumes_are_kept_or_dropped(states, states.len() as u32, volume_fits, tpr);
}

/// Counts what an export holds, approximates and drops. `volume_fits` tells which
/// curves fit the volume, `tpr` how many ticks a frame has, and `late` of each note of
/// each track whether its vibrato sets in late. What is known only later, the song and
/// how well its notes agree with the trace, is left empty.
pub fn collect_census(
    notes: &[SynthNote],
    patches: &[Patch],
    effects: &[EffectSpan],
    states: &[ProgramFrame],
    volume_fits: &Vec<Vec<bool>>,
    tpr: u32,
    plans: &[TrackPlan],
    late: &[Vec<bool>],
    own: &PhysicalVoiceOwnership,
    instruments: usize,
    model: SidModel,
    osc3: Osc3Attribution,
    native: Option<NativeExtraction>,
    options: SynthOptions,
) -> (r: Census)
    requires
        own.wf(),
        plans_fit(plans@, notes@),
        notes_fit(notes@, states@),
        forall|p: int|
            0 <= p < plans@.len() ==> segments_fit((#[trigger] plans@[p]).segments@, patches@),
        late@.len() == plans@.len(),
        countable(notes@, patches@, states@, plans@, late@, *own),
    ensures
        counts(
            r,
            notes@,
            patches@,
            effects@,
            states@,
            volume_fits@,
            tpr,
            plans@,
            late@,
            *own,
            instruments,
            model,
            osc3,
        ),
        native_view(r.native) == reported_native(native),
        r.options == options,
        unfinished(r),
        r.song == (SongCensus {
            patterns: 0,
            automation_patterns: 0,
            serialized_patterns: 0,
            placements: 0,
            note_graphs: 0,
            automation_points: 0,
        }),
        r.summable(),
{
    let t: FrameCensus = count_frames(states);
    let n: NoteCensus = count_notes(notes, states);
    let p: PlanCensus = count_plans(plans, late, notes, patches, states);
    let masks: Vec<u64> = count_masks(states);
    let volume: usize = count_volume_changes(states);
    let no_chars: Vec<char> = Vec::new();
    let dropped: bool = drops_volume_lane(states, states.len() as u32, volume_fits, tpr);
    let contour: u32 = if exports_contour(osc3.target, osc3.confidence_percent, plans, dropped) {
        1
    } else {
        0
    };
    Census {
        frames: states.len() as u32,
        instruments,
        tracks: plans.len(),
        notes_total: notes.len(),
        notes_percussion: p.percussion,
        notes_raw: p.raw,
        patches_total: patches.len(),
        patches_authored: count_authored(patches),
        filter_routed_frames: t.filter_routed,
        combined_waveform_frames: t.combined_waveforms,
        d418_volume_changes: volume,
        d418_digi_dropped: dropped,
        d418_pcm_streams: 0,
        d418_pcm_events: 0,
        vibrato_spans: count_spans(effects, Effect::Vibrato),
        vibrato_pitch_automation_notes: p.late_vibrato,
        portamento_spans: count_spans(effects, Effect::Portamento),
        arpeggio_spans: count_spans(effects, Effect::Arpeggio),
        ring_mod_notes: n.ring_mod,
        hard_sync_notes: n.hard_sync,
        hard_sync_attack_frames: t.sync_attacks,
        hardware_sync_active_frames: t.sync_active,
        hardware_sync_inactive_frames: t.sync_inactive,
        hardware_ring_active_frames: t.ring_active,
        hardware_ring_inactive_frames: t.ring_inactive,
        combined_waveform_exact_frames: t.combined_exact,
        combined_waveform_fallback_frames: t.combined_fallback,
        combined_waveform_policies: list_policies(model, masks.as_slice()),
        waveform_programs: WaveformProgramCensus {
            programs: p.programs,
            frequency_override_steps: p.override_steps,
            deterministic_noise_seeded: p.seeded,
            noise_seed_poisoned: p.poisoned,
            test_transitions_deferred: count_test_changes(states),
        },
        osc3,
        osc3_contours_exported: contour,
        song: SongCensus {
            patterns: 0,
            automation_patterns: 0,
            serialized_patterns: 0,
            placements: 0,
            note_graphs: 0,
            automation_points: 0,
        },
        serialized_size: 0,
        note_fidelity: NoteFidelity {
            notes_ok: 0,
            notes_fail: 0,
            events_degraded: 0,
            notes_unverifiable: 0,
            mean_cents: 0,
            worst: Vec::new(),
            uncovered_gated_frames: [0, 0, 0],
        },
        envelope: EnvelopeCensus {
            calls_gate_off_nonzero: t.gate_off_nonzero,
            calls_gate_on_zero: t.gate_on_zero,
            attack_entries: t.attack_entries,
            release_entries: t.release_entries,
            reached_zero: t.reached_zero,
            gate_blips_never_left_zero: t.blips,
            active_cycles: t.active_cycles,
            inexact_voice_calls_excluded: t.inexact_voices,
            measured_velocity_notes: n.measured_velocity,
            static_velocity_notes: n.static_velocity,
            automated_notes: p.automated,
            censored_sound_ends: n.censored,
            release_extended_notes: n.extended,
            intra_call_retriggers: n.retriggers,
            stable_release_tails: n.stable_tails,
            moving_release_tails: n.moving_tails,
            waveform_changed_tails_deferred: n.changed_tails,
        },
        native: native_census(native),
        options,
        physical_voices: physical_voice_census(plans, notes, states.len() as u32, own),
        continuous_program: ContinuousComplexity {
            occurrences: 0,
            reusable_groups: 0,
            serialized_size: 0,
        },
        chip_programs: from_chars(no_chars.as_slice()),
    }
}

} // verus!
