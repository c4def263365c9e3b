//! Putting a whole project together.

use crate::analysis::frame::{EffectSpan, ProgramFrame};
use crate::analysis::patch::Patch;
use crate::analysis::program::{AnalyzedSidProgram, SystemClock, VoiceId};
use crate::header::SidModel;
use super::census::notes::notes_fit;
use super::census::{
    all_points, collect_census, count_song, countable, counts, lanes_known, lane_patterns,
    musical_patterns, native_view, reported_native, same_census,
    unfinished, Census, ContinuousComplexity, NativeExtraction, NoteFidelity, Osc3Attribution,
};
use super::effects::{faithful_chain, MasterEffect, MasterState, MASTER_VOLUME};
use super::emission::segments_fit;
use super::enhance::{
    curve_of, enhance_instruments, enhance_master, enhanced_chain, enhanced_instruments,
};
use super::instruments::select::{
    build_instruments, filter_serves, generic_pulse, instrument_views, shared_filter_spec,
    some_routed, song_instruments, track_instrument, FilterState, InstrumentInput,
};
use super::instruments::wiring::{plain_pulses_are_wired, track_instruments_are_wired};
use super::instruments::{Instrument, InstrumentView};
use super::lowering::agreement::{choices_are_determined, mirrors_agree, same_selection};
use super::lowering::evidence::countable as countable_program;
use super::lowering::{
    gating_leaves_the_rest_uncovered, json_member_keys, plain_budget, right_gating, right_plan,
    select_automatic, uncovered_domains, unrendered_programs_are_covered, AutomaticSelection,
    CandidateRenderEvaluation, CapabilityError, SerializedSize, StateBudget, StateDomain,
    TargetCapabilities,
};
use super::modern::{
    apply_modern_analog, global_state, modern_chain, modern_instruments, remap_automation,
    remapped, MODERN_MASTER_VOLUME,
};
use super::options::{usual_options, Refusal, SynthOptions, SynthStyle};
use super::ownership::{plans_fit, PhysicalVoiceOwnership};
use super::routing::{apply_shared_filter_routing, busses_of, sends_of, FilterRouting};
use super::song::assembly::{
    compose_song, drafted, finished, material_views, most_patterns, FinishedView, Song,
    TrackMaterial,
};
use super::song::automation::LaneKind;
use super::song::lanes::volume_lane;
use super::tracks::{SynthNote, TrackPlan};
use vstd::prelude::*;

verus! {

/// What a project is put together from.
#[derive(Debug)]
pub struct SynthSource<'a> {
    pub name: &'a str,
    pub author: &'a str,
    pub model: SidModel,
    pub clock: SystemClock,
    pub notes: &'a [SynthNote],
    pub patches: &'a [Patch],
    pub effects: &'a [EffectSpan],
    pub states: &'a [ProgramFrame],
    /// How the notes were divided into tracks.
    pub plans: &'a [TrackPlan],
    pub ownership: &'a PhysicalVoiceOwnership,
    /// What was measured of each track.
    pub inputs: &'a [InstrumentInput],
    /// Of each note of each track, whether its vibrato sets in late.
    pub late_vibrato: &'a [Vec<bool>],
    /// What each track plays.
    pub materials: &'a [TrackMaterial],
    /// Whether the driver's own structure is known.
    pub structured: bool,
    /// The length of the song in ticks.
    pub length: u32,
    pub ticks_per_frame: u32,
    /// Which curves fit the volume of the chip.
    pub volume_fits: &'a Vec<Vec<bool>>,
    /// The lane of the volume of the whole mix.
    pub volume_lane: Option<usize>,
    /// What each lane automates; a lane of the whole mix has no kind.
    pub lane_kinds: &'a [Option<LaneKind>],
    /// How many points each lane has.
    pub lane_points: &'a [usize],
    /// What leaks past a shared filter, as a single-precision bit pattern.
    pub filter_leak: u32,
}

/// A project.
#[derive(Debug)]
pub struct Project {
    pub instruments: Vec<Instrument>,
    pub song: Song,
    pub master: MasterState,
    /// How tracks are sent through one filter, if they share it.
    pub routing: Option<FilterRouting>,
    pub census: Census,
}

/// Whether all tracks of a faithful export share one filter.
pub open spec fn shares_filter(s: SynthSource, style: SynthStyle) -> bool {
    style == SynthStyle::SidFaithful && some_routed(s.plans@, s.notes@, s.states@)
        && exists|f: FilterState| #[trigger] filter_serves(s.plans@, s.notes@, s.states@, f)
}

/// The instruments of a project: built for their tracks, and then restyled or
/// enhanced if that was chosen.
pub open spec fn project_instruments(s: SynthSource, options: SynthOptions) -> Seq<InstrumentView> {
    let built = song_instruments(
        s.plans@,
        s.notes@,
        s.patches@,
        s.states@,
        s.model,
        s.clock,
        s.inputs@,
        shares_filter(s, options.style),
    );
    styled_instruments(s, options, built)
}

/// The song of a project.
pub open spec fn project_song(s: SynthSource, style: SynthStyle) -> FinishedView {
    let song = finished(
        s.name@,
        s.author@,
        drafted(material_views(s.materials@), s.structured, s.length, s.volume_lane),
    );
    if style == SynthStyle::ModernAnalog {
        FinishedView { patterns: remapped(song.patterns, s.lane_kinds@), ..song }
    } else {
        song
    }
}

/// The effects on the sum of all tracks.
pub open spec fn project_chain(options: SynthOptions) -> Seq<MasterEffect> {
    let chain = if options.style == SynthStyle::ModernAnalog {
        modern_chain()
    } else {
        faithful_chain()
    };
    match options.enhancement {
        Some(amount) => enhanced_chain(chain, curve_of(amount.level())),
        None => chain,
    }
}

/// Whether the parts of a source fit each other, and everything that is counted fits
/// its field.
pub open spec fn source_fits(s: SynthSource, style: SynthStyle) -> bool {
    &&& s.ownership.wf()
    &&& plans_fit(s.plans@, s.notes@)
    &&& notes_fit(s.notes@, s.states@)
    &&& s.inputs@.len() == s.plans@.len()
    &&& s.late_vibrato@.len() == s.plans@.len()
    &&& forall|p: int|
        0 <= p < s.plans@.len() ==> segments_fit((#[trigger] s.plans@[p]).segments@, s.patches@)
            && s.inputs@[p].resets@.len() == s.plans@[p].timeline@.len()
    &&& countable(
        s.notes@,
        s.patches@,
        s.states@,
        s.plans@,
        s.late_vibrato@,
        *s.ownership,
    )
    &&& s.volume_lane is Some <==> volume_lane(
        s.states@,
        s.states@.len() as u32,
        s.volume_fits@,
        s.ticks_per_frame,
    ) is Some
    &&& s.materials@.len() < u32::MAX
    &&& most_patterns(material_views(s.materials@), s.materials@.len() as int) < u32::MAX
    &&& lanes_known(project_song(s, style).patterns, s.lane_points@)
    &&& all_points(
        project_song(s, style).patterns,
        s.lane_points@,
        project_song(s, style).patterns.len() as int,
    ) <= usize::MAX
}

/// Whether a project is what a source and the options ask for.
pub open spec fn is_project(
    r: Project,
    s: SynthSource,
    osc3: Osc3Attribution,
    native: Option<NativeExtraction>,
    options: SynthOptions,
) -> bool {
    let patterns = project_song(s, options.style).patterns;
    &&& instrument_views(r.instruments@) == project_instruments(s, options)
    &&& r.song.view() == project_song(s, options.style)
    &&& r.master.effects@ == project_chain(options)
    &&& r.master.volume == if options.style == SynthStyle::ModernAnalog {
        MODERN_MASTER_VOLUME
    } else {
        MASTER_VOLUME
    }
    &&& match r.routing {
        Some(f) => {
            &&& shares_filter(s, options.style)
            &&& f.busses@ == busses_of(s.filter_leak)
            &&& f.next_bus == f.busses@.len()
            &&& f.sends@.len() == s.plans@.len()
            &&& forall|p: int|
                0 <= p < s.plans@.len() ==> (#[trigger] f.sends@[p])@ == sends_of(
                    s.plans@[p].shape.view().filter_kind is Some,
                    s.filter_leak,
                )
        },
        None => !shares_filter(s, options.style),
    }
    &&& counts(
        r.census,
        s.notes@,
        s.patches@,
        s.effects@,
        s.states@,
        s.volume_fits@,
        s.ticks_per_frame,
        s.plans@,
        s.late_vibrato@,
        *s.ownership,
        r.instruments@.len() as usize,
        s.model,
        osc3,
    )
    &&& native_view(r.census.native) == reported_native(native)
    &&& unfinished(r.census)
    &&& r.census.options == options
    &&& r.census.song.patterns == musical_patterns(patterns, patterns.len() as int)
    &&& r.census.song.automation_patterns == lane_patterns(patterns, patterns.len() as int)
    &&& r.census.song.serialized_patterns == patterns.len()
    &&& r.census.song.placements == project_song(s, options.style).arrangement.len()
    &&& r.census.song.note_graphs == project_song(s, options.style).note_graphs.len()
    &&& r.census.song.automation_points == all_points(
        patterns,
        s.lane_points@,
        patterns.len() as int,
    )
}

fn build_project_instruments(s: &SynthSource, shared: bool) -> (r: Vec<Instrument>)
    requires
        plans_fit(s.plans@, s.notes@),
        s.inputs@.len() == s.plans@.len(),
        forall|p: int|
            0 <= p < s.plans@.len() ==> segments_fit((#[trigger] s.plans@[p]).segments@, s.patches@)
                && s.inputs@[p].resets@.len() == s.plans@[p].timeline@.len(),
    ensures
        instrument_views(r@) == song_instruments(
            s.plans@,
            s.notes@,
            s.patches@,
            s.states@,
            s.model,
            s.clock,
            s.inputs@,
            shared,
        ),
        forall|i: int| 0 <= i < r@.len() ==> (#[trigger] r@[i]).modules@.len() <= 9,
{
    let instruments: Vec<Instrument> = build_instruments(
        s.plans,
        s.notes,
        s.patches,
        s.states,
        s.model,
        s.clock,
        s.inputs,
        shared,
    );
    proof {
        let views = instrument_views(instruments@);
        let wanted = song_instruments(
            s.plans@,
            s.notes@,
            s.patches@,
            s.states@,
            s.model,
            s.clock,
            s.inputs@,
            shared,
        );
        assert(views == wanted);
        assert(views.len() == instruments@.len());
        assert forall|i: int| 0 <= i < instruments@.len() implies (
        #[trigger] instruments@[i]).modules@.len() <= 9 by {
            assert(views[i] == instruments@[i].view());
            assert(views[i].modules.len() == instruments@[i].modules@.len());
            if s.plans@.len() == 0 {
                assert(wanted[i] == generic_pulse(1, VoiceId(1), s.model, s.clock));
                plain_pulses_are_wired(1, VoiceId(1), s.model, s.clock);
            } else {
                assert(wanted[i] == track_instrument(
                    s.plans@[i],
                    s.notes@,
                    s.patches@,
                    s.states@,
                    s.model,
                    s.clock,
                    s.inputs@[i],
                    shared,
                ));
                track_instruments_are_wired(
                    s.plans@[i],
                    s.notes@,
                    s.patches@,
                    s.states@,
                    s.model,
                    s.clock,
                    s.inputs@[i],
                    shared,
                );
            }
        }
    }
    instruments
}

/// The instruments of a project after those that were built.
pub open spec fn styled_instruments(
    s: SynthSource,
    options: SynthOptions,
    built: Seq<InstrumentView>,
) -> Seq<InstrumentView> {
    let styled = if options.style == SynthStyle::ModernAnalog {
        modern_instruments(s.plans@, s.patches@, built)
    } else {
        built
    };
    match options.enhancement {
        Some(amount) => enhanced_instruments(s.plans@, s.patches@, styled, amount.level()),
        None => styled,
    }
}

fn apply_style(
    s: &SynthSource,
    options: &SynthOptions,
    instruments: &mut Vec<Instrument>,
    song: &mut Song,
) -> (r: MasterState)
    requires
        forall|p: int|
            0 <= p < s.plans@.len() ==> segments_fit((#[trigger] s.plans@[p]).segments@, s.patches@),
        forall|i: int|
            0 <= i < old(instruments)@.len() ==> (#[trigger] old(instruments)@[i]).modules@.len()
                <= 9,
    ensures
        instrument_views(final(instruments)@) == styled_instruments(
            *s,
            *options,
            instrument_views(old(instruments)@),
        ),
        final(song).view() == (if options.style == SynthStyle::ModernAnalog {
            FinishedView {
                patterns: remapped(old(song).view().patterns, s.lane_kinds@),
                ..old(song).view()
            }
        } else {
            old(song).view()
        }),
        r.effects@ == project_chain(*options),
        r.volume == if options.style == SynthStyle::ModernAnalog {
            MODERN_MASTER_VOLUME
        } else {
            MASTER_VOLUME
        },
{
    let mut master: MasterState = if options.style == SynthStyle::ModernAnalog {
        apply_modern_analog(s.plans, s.patches, instruments);
        remap_automation(&mut song.patterns, s.lane_kinds);
        global_state()
    } else {
        MasterState::default()
    };
    if let Some(amount) = options.enhancement {
        enhance_instruments(s.plans, s.patches, instruments, amount);
        enhance_master(&mut master.effects, amount);
    }
    master
}

/// Puts a project together, unless the options do not go together.
pub fn write_synth_source(
    source: &SynthSource,
    osc3: Osc3Attribution,
    native: Option<NativeExtraction>,
    options: SynthOptions,
) -> (r: Result<Project, Refusal>)
    requires
        source_fits(*source, options.style),
    ensures
        match r {
            Ok(project) => options.compatible() && is_project(
                project,
                *source,
                osc3,
                native,
                options,
            ),
            Err(why) => !options.compatible() && why == Refusal::EnhancedModern,
        },
{
    if !options.are_compatible() {
        return Err(Refusal::EnhancedModern);
    }
    let shared: bool = if options.style == SynthStyle::SidFaithful {
        shared_filter_spec(source.plans, source.notes, source.states).is_some()
    } else {
        false
    };
    assert(shared == shares_filter(*source, options.style));
    let mut instruments: Vec<Instrument> = build_project_instruments(source, shared);
    let count: usize = instruments.len();
    let mut census: Census = collect_census(
        source.notes,
        source.patches,
        source.effects,
        source.states,
        source.volume_fits,
        source.ticks_per_frame,
        source.plans,
        source.late_vibrato,
        source.ownership,
        count,
        source.model,
        osc3,
        native,
        options,
    );
    let mut song: Song = compose_song(
        source.name,
        source.author,
        source.materials,
        source.structured,
        source.length,
        source.volume_lane,
    );
    let master: MasterState = apply_style(source, &options, &mut instruments, &mut song);
    let routing: Option<FilterRouting> = if shared {
        Some(apply_shared_filter_routing(source.plans, source.filter_leak))
    } else {
        None
    };
    census.song = count_song(&song, source.lane_points);
    assert(instrument_views(instruments@).len() == instruments@.len());
    Ok(Project { instruments, song, master, routing, census })
}

/// A project, and how each part of its program is represented.
#[derive(Debug)]
pub struct SelectedProject {
    pub project: Project,
    pub selection: AutomaticSelection,
}

/// Puts a project together, unless its program is not covered or the options do not
/// go together. `sizes` holds the size of each representation, and `evaluations` what
/// rendering them showed.
pub fn write_selected_synth(
    program: &AnalyzedSidProgram,
    capabilities: &TargetCapabilities,
    sizes: &[SerializedSize],
    evaluations: &[CandidateRenderEvaluation],
    source: &SynthSource,
    osc3: Osc3Attribution,
    native: Option<NativeExtraction>,
    options: SynthOptions,
) -> (r: Result<SelectedProject, Refusal>)
    requires
        countable_program(*program),
        source_fits(*source, options.style),
    ensures
        ({
            let uncovered = uncovered_domains(
                *program,
                *capabilities,
                plain_budget(),
                evaluations@,
            );
            match r {
                Ok(s) => {
                    &&& uncovered == Set::<StateDomain>::empty()
                    &&& options.compatible()
                    &&& right_plan(s.selection.state, *program, *capabilities, plain_budget(), sizes@)
                    &&& right_gating(s.selection.render, s.selection.state, evaluations@)
                    &&& is_project(s.project, *source, osc3, native, options)
                },
                Err(Refusal::Uncovered(c)) => c@ == uncovered && uncovered != Set::<
                    StateDomain,
                >::empty(),
                Err(Refusal::EnhancedModern) => uncovered == Set::<StateDomain>::empty()
                    && !options.compatible(),
            }
        }),
{
    let selection: AutomaticSelection = select_automatic(
        program,
        capabilities,
        StateBudget::default(),
        sizes,
        evaluations,
    );
    if !selection.render.uncovered.is_empty() {
        return Err(Refusal::Uncovered(selection.render.uncovered));
    }
    match write_synth_source(source, osc3, native, options) {
        Ok(project) => Ok(SelectedProject { project, selection }),
        Err(why) => Err(why),
    }
}

/// Why a project was not written.
#[derive(Debug)]
pub enum WriteError {
    /// What the target can do could not be read.
    Capability(CapabilityError),
    Refused(Refusal),
}

/// Whether a selection is the one for a program on a target with some modules, where
/// nothing was rendered.
pub open spec fn is_unrendered_selection(
    selection: AutomaticSelection,
    program: AnalyzedSidProgram,
    modules: Seq<Seq<char>>,
    sizes: Seq<SerializedSize>,
) -> bool {
    exists|c: TargetCapabilities| #[trigger]
        c.mirrors(modules) && right_plan(selection.state, program, c, plain_budget(), sizes)
            && right_gating(selection.render, selection.state, Seq::empty())
}

/// Whether a result is what writing a program gives, for a target whose modules are
/// described by a JSON text.
pub open spec fn is_written(
    r: Result<SelectedProject, WriteError>,
    program: AnalyzedSidProgram,
    descriptors: Seq<char>,
    sizes: Seq<SerializedSize>,
    s: SynthSource,
    osc3: Osc3Attribution,
    native: Option<NativeExtraction>,
    options: SynthOptions,
) -> bool {
    match json_member_keys(descriptors, "modules"@) {
        Err(m) => r matches Err(WriteError::Capability(CapabilityError::Json(e))) && e@ == m,
        Ok(None) => r matches Err(WriteError::Capability(CapabilityError::MissingModules)),
        Ok(Some(keys)) => if options.compatible() {
            &&& r matches Ok(w)
            &&& is_project(w.project, s, osc3, native, options)
            &&& is_unrendered_selection(w.selection, program, keys, sizes)
            &&& w.selection.render.uncovered@ == Set::<StateDomain>::empty()
        } else {
            r matches Err(WriteError::Refused(Refusal::EnhancedModern))
        },
    }
}

/// Puts a project together for a target whose modules are described by a JSON text,
/// unless that text cannot be read or the options do not go together. Nothing was
/// rendered, so every program is covered.
pub fn write_synth_with_options(
    program: &AnalyzedSidProgram,
    descriptors: &str,
    sizes: &[SerializedSize],
    source: &SynthSource,
    osc3: Osc3Attribution,
    native: Option<NativeExtraction>,
    options: SynthOptions,
) -> (r: Result<SelectedProject, WriteError>)
    requires
        countable_program(*program),
        source_fits(*source, options.style),
    ensures
        is_written(r, *program, descriptors@, sizes@, *source, osc3, native, options),
{
    let capabilities: TargetCapabilities = match TargetCapabilities::from_pinned_mirrors(
        descriptors,
    ) {
        Ok(c) => c,
        Err(e) => {
            return Err(WriteError::Capability(e));
        },
    };
    proof {
        unrendered_programs_are_covered(*program, capabilities, plain_budget());
    }
    let evaluations: Vec<CandidateRenderEvaluation> = Vec::new();
    assert(evaluations@ =~= Seq::<CandidateRenderEvaluation>::empty());
    match write_selected_synth(
        program,
        &capabilities,
        sizes,
        evaluations.as_slice(),
        source,
        osc3,
        native,
        options,
    ) {
        Ok(s) => {
            proof {
                gating_leaves_the_rest_uncovered(
                    s.selection.render,
                    s.selection.state,
                    *program,
                    capabilities,
                    plain_budget(),
                    sizes@,
                    evaluations@,
                );
                assert(capabilities.mirrors(json_member_keys(descriptors@, "modules"@)->Ok_0->0));
            }
            Ok(s)
        },
        Err(why) => Err(WriteError::Refused(why)),
    }
}

/// Puts a project together with the usual options, to be reported on.
pub fn write_synth(
    program: &AnalyzedSidProgram,
    descriptors: &str,
    sizes: &[SerializedSize],
    source: &SynthSource,
    osc3: Osc3Attribution,
    native: Option<NativeExtraction>,
) -> (r: Result<SelectedProject, WriteError>)
    requires
        countable_program(*program),
        source_fits(*source, SynthStyle::SidFaithful),
    ensures
        is_written(r, *program, descriptors@, sizes@, *source, osc3, native, usual_options()),
{
    write_synth_with_options(
        program,
        descriptors,
        sizes,
        source,
        osc3,
        native,
        SynthOptions::default(),
    )
}

/// Puts a project together with the usual options, without a report.
pub fn write_synth_quiet(
    program: &AnalyzedSidProgram,
    descriptors: &str,
    sizes: &[SerializedSize],
    source: &SynthSource,
    osc3: Osc3Attribution,
    native: Option<NativeExtraction>,
) -> (r: Result<SelectedProject, WriteError>)
    requires
        countable_program(*program),
        source_fits(*source, SynthStyle::SidFaithful),
    ensures
        is_written(r, *program, descriptors@, sizes@, *source, osc3, native, usual_options()),
{
    write_synth_with_options(
        program,
        descriptors,
        sizes,
        source,
        osc3,
        native,
        SynthOptions::default(),
    )
}

/// What is only known of an export when it is complete.
#[derive(Debug)]
pub struct ExportFigures {
    pub serialized_size: u64,
    pub pcm_streams: usize,
    pub pcm_events: u64,
    pub complexity: ContinuousComplexity,
    pub fidelity: NoteFidelity,
    /// What the programs of the chip's voices were found to be, as a JSON document.
    pub chip_programs: String,
}

/// The census of a complete export.
pub open spec fn finished_census(census: Census, figures: ExportFigures) -> Census {
    Census {
        serialized_size: figures.serialized_size,
        d418_pcm_streams: figures.pcm_streams,
        d418_pcm_events: figures.pcm_events,
        continuous_program: figures.complexity,
        note_fidelity: figures.fidelity,
        chip_programs: figures.chip_programs,
        ..census
    }
}

/// Completes the census of an export.
pub fn finish_census(census: &mut Census, figures: ExportFigures)
    ensures
        *final(census) == finished_census(*old(census), figures),
{
    census.serialized_size = figures.serialized_size;
    census.d418_pcm_streams = figures.pcm_streams;
    census.d418_pcm_events = figures.pcm_events;
    census.continuous_program = figures.complexity;
    census.note_fidelity = figures.fidelity;
    census.chip_programs = figures.chip_programs;
}

/// Whether two routings are the same as plain values.
pub open spec fn same_routing(a: Option<FilterRouting>, b: Option<FilterRouting>) -> bool {
    match (a, b) {
        (Some(x), Some(y)) => {
            &&& x.sends@.len() == y.sends@.len()
            &&& forall|p: int|
                0 <= p < x.sends@.len() ==> (#[trigger] x.sends@[p])@ == y.sends@[p]@
            &&& x.busses@ == y.busses@
            &&& x.next_bus == y.next_bus
        },
        (None, None) => true,
        _ => false,
    }
}

/// Whether two projects are the same as plain values, their censuses included.
pub open spec fn same_project(a: Project, b: Project) -> bool {
    &&& instrument_views(a.instruments@) == instrument_views(b.instruments@)
    &&& a.song.view() == b.song.view()
    &&& a.master.effects@ == b.master.effects@
    &&& a.master.volume == b.master.volume
    &&& same_routing(a.routing, b.routing)
    &&& same_census(a.census, b.census)
}

/// A source and the options determine the project and its census.
pub proof fn projects_are_determined(
    a: Project,
    b: Project,
    s: SynthSource,
    osc3: Osc3Attribution,
    native: Option<NativeExtraction>,
    options: SynthOptions,
)
    requires
        is_project(a, s, osc3, native, options),
        is_project(b, s, osc3, native, options),
    ensures
        same_project(a, b),
{
    assert(instrument_views(a.instruments@).len() == a.instruments@.len());
    assert(instrument_views(b.instruments@).len() == b.instruments@.len());
    assert(same_routing(a.routing, b.routing)) by {
        if let (Some(x), Some(y)) = (a.routing, b.routing) {
            assert forall|p: int| 0 <= p < x.sends@.len() implies (#[trigger] x.sends@[p])@
                == y.sends@[p]@ by {
                assert(y.sends@[p]@ == sends_of(
                    s.plans@[p].shape.view().filter_kind is Some,
                    s.filter_leak,
                ));
            }
        }
    }
    assert(a.census.song == b.census.song);
    assert(a.census.waveform_programs == b.census.waveform_programs);
    assert(a.census.envelope == b.census.envelope);
    assert(a.census.physical_voices == b.census.physical_voices);
}

/// A quiet export gives what a reported one gives: the same error, or the same project,
/// census and choices. The finished censuses agree too, and tell the size of what was
/// written.
pub proof fn quiet_exports_agree_with_reported_ones(
    reported: Result<SelectedProject, WriteError>,
    quiet: Result<SelectedProject, WriteError>,
    program: AnalyzedSidProgram,
    descriptors: Seq<char>,
    sizes: Seq<SerializedSize>,
    s: SynthSource,
    osc3: Osc3Attribution,
    native: Option<NativeExtraction>,
    figures: ExportFigures,
)
    requires
        is_written(reported, program, descriptors, sizes, s, osc3, native, usual_options()),
        is_written(quiet, program, descriptors, sizes, s, osc3, native, usual_options()),
    ensures
        match (reported, quiet) {
            (Ok(a), Ok(b)) => {
                &&& same_project(a.project, b.project)
                &&& same_selection(a.selection, b.selection)
                &&& same_census(
                    finished_census(a.project.census, figures),
                    finished_census(b.project.census, figures),
                )
                &&& finished_census(b.project.census, figures).serialized_size
                    == figures.serialized_size
            },
            (
                Err(WriteError::Capability(CapabilityError::Json(a))),
                Err(WriteError::Capability(CapabilityError::Json(b))),
            ) => a@ == b@,
            (
                Err(WriteError::Capability(CapabilityError::MissingModules)),
                Err(WriteError::Capability(CapabilityError::MissingModules)),
            ) => true,
            _ => false,
        },
{
    if let (Ok(a), Ok(b)) = (reported, quiet) {
        projects_are_determined(a.project, b.project, s, osc3, native, usual_options());
        let keys = json_member_keys(descriptors, "modules"@)->Ok_0->0;
        let here = choose|c: TargetCapabilities| #[trigger]
            c.mirrors(keys) && right_plan(a.selection.state, program, c, plain_budget(), sizes)
                && right_gating(a.selection.render, a.selection.state, Seq::empty());
        let there = choose|c: TargetCapabilities| #[trigger]
            c.mirrors(keys) && right_plan(b.selection.state, program, c, plain_budget(), sizes)
                && right_gating(b.selection.render, b.selection.state, Seq::empty());
        mirrors_agree(here, there, keys);
        choices_are_determined(
            a.selection,
            b.selection,
            program,
            here,
            there,
            plain_budget(),
            sizes,
            Seq::empty(),
        );
    }
}

/// Where the census of a project says that samples drove the lane of the volume out,
/// the project has no such lane.
pub proof fn dropped_volume_lanes_are_not_played(
    r: Project,
    s: SynthSource,
    osc3: Osc3Attribution,
    native: Option<NativeExtraction>,
    options: SynthOptions,
)
    requires
        source_fits(s, options.style),
        is_project(r, s, osc3, native, options),
    ensures
        r.census.d418_digi_dropped ==> s.volume_lane is None,
{
}

} // verus!
