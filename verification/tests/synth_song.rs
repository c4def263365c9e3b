use sid_analyzer::analysis::frame::{FilterMode, NoteEvent, ProgramFrame};
use sid_analyzer::analysis::patch::{Patch, PatchVoiceProfile, RoleTags};
use sid_analyzer::analysis::program::{SystemClock, VoiceId};
use sid_analyzer::export::synth::emission::{arp_processor_for, Arpeggiator, ONE_BITS};
use sid_analyzer::export::synth::fraction::Fraction;
use sid_analyzer::export::synth::grouping::group_by_key;
use sid_analyzer::export::synth::naming::{clean, pattern_name};
use sid_analyzer::export::synth::notes::{Vibrato, VibratoShape};
use sid_analyzer::export::synth::ownership::{
    checked_voice_census, physical_voice_census, PhysicalVoiceOwnership,
};
use sid_analyzer::export::synth::song::assembly::{
    compose_song, pool_note_graphs, Block, TrackMaterial,
};
use sid_analyzer::export::synth::song::automation::{
    build_adsr_lane, collapse_spans, compact_points, keeps_volume_lane, moving_volumes,
    note_ranges, plan_lane_kinds, AutomationPoint, LaneKind, MAX_VOLUME_LANE_POINTS,
};
use sid_analyzer::export::synth::song::blocks::{
    cut_blocks, find_pattern_gain, voice_placements, DriverPlacement,
};
use sid_analyzer::export::synth::song::canonical::canonicalize_truncated_patterns;
use sid_analyzer::export::synth::song::decimation::rdp_indices;
use sid_analyzer::export::synth::song::lanes::{
    build_delayed_vibrato_pitch_lane, build_envelope_lane, build_master_volume_lane,
    build_param_lane, lane_tolerance, pitch_spans, sample_frames, LaneSpan, Sampled, PITCH_CENTRE,
};
use sid_analyzer::export::synth::song::{
    CanonicalNote, Pattern, PatternPlacement, SongGlide, SongNote,
};
use sid_analyzer::export::synth::tempo::{
    derive_time_base, detect_frames_per_beat, fold_bpm, measure_scale, MIN_TICKS_PER_FRAME,
};
use sid_analyzer::export::synth::timbre::{MergeShape, Waveform};
use sid_analyzer::export::synth::tracks::{Segment, SoundKey, SynthNote, TrackPlan};
use sid_analyzer::trace::Adsr;

fn song_note(start: u32, pitch: u32) -> SongNote {
    SongNote {
        id: 0,
        start,
        duration: 80,
        pitch,
        velocity: 0.75_f32.to_bits(),
        track: None,
        vibrato: None,
        glide: None,
        legato: false,
    }
}

#[test]
fn canonical_note_keeps_musical_identity_separate_from_expression() {
    let plain_note = song_note(40, 64);
    let expressed_note = SongNote {
        vibrato: Some(Vibrato {
            depth: 0.25_f32.to_bits(),
            rate: 6.0_f32.to_bits(),
            delay: 0.0_f32.to_bits(),
            shape: VibratoShape::Triangle,
        }),
        glide: Some(SongGlide {
            from: (-2.0_f32).to_bits(),
            time: 120.0_f32.to_bits(),
        }),
        ..plain_note
    };

    let plain = CanonicalNote::from_note(&plain_note);
    let expressed = CanonicalNote::from_note(&expressed_note);
    assert!(plain.musical == expressed.musical);
    assert!(plain.expression != expressed.expression);
}

fn triad(rate_millihz: u32) -> Arpeggiator {
    Arpeggiator {
        custom: vec![0, 4, 7],
        rate_millihz,
        octaves: 1,
        legato: true,
        gate: ONE_BITS,
    }
}

fn pattern(id: u32, notes: Vec<SongNote>, processors: Vec<Arpeggiator>) -> Pattern {
    Pattern {
        id,
        name: format!("p{id}"),
        length: 40,
        notes,
        automation: Vec::new(),
        next_note_id: 0,
        processors,
        note_graph: None,
    }
}

#[test]
fn identical_arpeggiators_share_one_note_graph() {
    let mut patterns = vec![
        pattern(0, Vec::new(), vec![triad(50_125)]),
        pattern(1, Vec::new(), vec![triad(50_125)]),
    ];
    let graphs = pool_note_graphs(&mut patterns);
    assert_eq!(graphs.len(), 1);
    assert_eq!(patterns[0].note_graph, Some(0));
    assert_eq!(patterns[1].note_graph, Some(0));
    assert!(patterns.iter().all(|pattern| pattern.processors.is_empty()));
}

#[test]
fn different_arpeggiators_keep_their_own_graphs() {
    let mut patterns = vec![
        pattern(0, Vec::new(), vec![triad(50_125)]),
        pattern(1, Vec::new(), Vec::new()),
        pattern(2, Vec::new(), vec![triad(100_250)]),
    ];
    let graphs = pool_note_graphs(&mut patterns);
    assert_eq!(graphs.len(), 2);
    assert_eq!(patterns[1].note_graph, None);
    assert_eq!(patterns[2].note_graph, Some(1));
}

#[test]
fn automation_compaction_removes_only_redundant_step_holds() {
    let points = [
        AutomationPoint {
            tick: 0,
            value: 500_000,
            step: true,
        },
        AutomationPoint {
            tick: 20,
            value: 500_000,
            step: true,
        },
        AutomationPoint {
            tick: 40,
            value: 750_000,
            step: false,
        },
    ];
    let kept = compact_points(&points);
    assert_eq!(kept.len(), 2);
    assert_eq!(points[kept[0]].tick, 0);
    assert_eq!(points[kept[1]].tick, 40);
}

#[test]
fn rdp_collapses_linear_ramp_to_endpoints() {
    // In thousandths.
    let ramp: Vec<i64> = (0..=10).map(|i| i * 100).collect();
    assert_eq!(rdp_indices(&ramp, 10), vec![0, 10]);
}

#[test]
fn rdp_keeps_triangle_turning_point() {
    // Up 0→1 over [0,5], back down 1→0 over [5,10]: the peak at 5 is the only
    // interior anchor a linear reconstruction needs.
    let mut tri: Vec<i64> = (0..=5).map(|i| i * 200).collect();
    tri.extend((1..=5).map(|i| 1000 - i * 200));
    assert_eq!(rdp_indices(&tri, 10), vec![0, 5, 10]);
}

#[test]
fn rdp_coalesces_jitter_within_epsilon() {
    // A flat line dithered by less than the tolerance keeps only the endpoints.
    let jitter = [500, 503, 497, 502, 498, 500];
    assert_eq!(rdp_indices(&jitter, 10), vec![0, 5]);
}

#[test]
fn rdp_short_series_kept_verbatim() {
    assert_eq!(rdp_indices(&[], 10), Vec::<usize>::new());
    assert_eq!(rdp_indices(&[300], 10), vec![0]);
    assert_eq!(rdp_indices(&[300, 700], 10), vec![0, 1]);
}

#[test]
fn lines_between_kept_samples_restore_the_rest() {
    let values: Vec<i64> = (0..40).map(|i: i64| (i - 13) * (i - 29) * 7 % 901).collect();
    let epsilon = 25;
    let kept = rdp_indices(&values, epsilon);
    for pair in kept.windows(2) {
        let (a, b) = (pair[0], pair[1]);
        for k in a..=b {
            let line = values[a] as f64
                + (values[b] - values[a]) as f64 * (k - a) as f64 / (b - a) as f64;
            assert!((values[k] as f64 - line).abs() <= epsilon as f64 + 1e-9);
        }
    }
}

#[test]
fn collapse_spans_per_voice_keeps_ranges_and_drops_empties() {
    let ranges = [(10, 20), (30, 30), (40, 55)];
    // Per-voice (pulse width): one range per note, empty (30,30) dropped.
    assert_eq!(collapse_spans(&ranges, false), vec![(10, 20), (40, 55)]);
}

#[test]
fn collapse_spans_continuous_merges_across_gaps() {
    let ranges = [(10, 20), (40, 55), (70, 90)];
    // Global (cutoff): one contiguous range spanning the rests, so the sweep is
    // sampled through the gaps instead of frozen per note.
    assert_eq!(collapse_spans(&ranges, true), vec![(10, 90)]);
}

#[test]
fn collapse_spans_empty_when_nothing_valid() {
    assert_eq!(collapse_spans(&[(5, 5)], true), Vec::<(u32, u32)>::new());
    assert_eq!(collapse_spans(&[], false), Vec::<(u32, u32)>::new());
}

fn ev_at(start: u32) -> NoteEvent {
    NoteEvent {
        voice: VoiceId::from_index(0),
        start_frame: start,
        end_frame: Some(start + 10),
        sound_end: None,
        midi: 60,
        millicents: 0,
        velocity: 100,
    }
}

fn heard(event: NoteEvent) -> SynthNote {
    SynthNote {
        event,
        patch_id: None,
        characteristics: None,
        has_vibrato: false,
    }
}

fn probe_plan(timeline: Vec<(usize, usize)>) -> TrackPlan {
    TrackPlan {
        instrument_id: 3,
        voice: VoiceId::from_index(0),
        shape: MergeShape {
            is_noise: false,
            waveform: Waveform::Pulse,
            authored_pwm: None,
            secondary_waveform: None,
            has_ring: false,
            has_sync: false,
            filter_kind: None,
            waveform_program: None,
            waveform_loop: None,
            tonal_arp: None,
        },
        drum_drop: false,
        waveform_program: None,
        segments: Vec::new(),
        timeline,
    }
}

#[test]
fn build_adsr_lane_steps_at_changes_and_coalesces_back() {
    // Voice alternates segment 0 (short attack), segment 1 (long), segment 0 again —
    // the lane follows the timeline, stepping A→B→A.
    let notes = vec![heard(ev_at(0)), heard(ev_at(100)), heard(ev_at(200))];
    let plan = probe_plan(vec![(0, 0), (1, 1), (0, 2)]);
    let values = [Some(1_711), Some(620_000)];
    let lane = build_adsr_lane(&plan, &notes, &values, 40).expect("attack varies → a lane");
    assert_eq!(lane.len(), 3, "A→B→A = three steps");
    assert_eq!(lane[0], (0, 0));
    assert_eq!(lane[1], (100 * 40, 1));
    assert_eq!(
        lane[2],
        (200 * 40, 0),
        "stepping back to segment 0 restores its value"
    );
}

#[test]
fn build_adsr_lane_constant_value_yields_none() {
    // Two segments with identical attack — nothing to automate.
    let notes = vec![heard(ev_at(0)), heard(ev_at(100))];
    let plan = probe_plan(vec![(0, 0), (1, 1)]);
    let values = [Some(34_000), Some(34_000)];
    assert!(build_adsr_lane(&plan, &notes, &values, 40).is_none());
}

const PAL_RATE: Fraction = Fraction {
    num: 985_248,
    den: 312 * 63,
};

fn value_of(fraction: Fraction) -> f64 {
    fraction.num as f64 / fraction.den as f64
}

#[test]
fn fold_bpm_normalizes_octaves_into_musical_window() {
    let folded = |num: u64, den: u64| value_of(fold_bpm(Fraction { num, den }));
    // A half-time or double-time pulse folds back to the same tempo.
    assert!((folded(125, 1) - 125.0).abs() < 1e-6);
    assert!((folded(125, 2) - 125.0).abs() < 1e-6, "half-time doubles");
    assert!((folded(250, 1) - 125.0).abs() < 1e-6, "double-time halves");
    assert!((folded(125, 4) - 125.0).abs() < 1e-6, "quarter-time x4");
    // Everything lands inside the window.
    for raw in [30, 95, 140, 175, 400] {
        let b = folded(raw, 1);
        assert!((75.0..150.0).contains(&b), "{raw} -> {b}");
    }
    // Degenerate input falls back to 125.
    assert!((folded(0, 1) - 125.0).abs() < 1e-6);
}

#[test]
fn a_beat_and_its_half_give_the_same_ticks() {
    assert_eq!(measure_scale(PAL_RATE, 24), 40);
    assert_eq!(measure_scale(PAL_RATE, 12), 40);
    assert_eq!(measure_scale(PAL_RATE, 48), 40);
}

#[test]
fn detect_frames_per_beat_finds_periodic_onset_pulse() {
    // Onsets every 24 frames (a 125 BPM beat at PAL) over 50 beats.
    let onsets: Vec<u32> = (0..50).map(|k| k * 24).collect();
    let frames_per_beat =
        detect_frames_per_beat(&onsets, 24 * 50).expect("a periodic pulse is detectable");
    // The detected period folds to a 125 BPM beat regardless of which metrical level
    // was found.
    let bpm = value_of(fold_bpm(Fraction {
        num: 60 * PAL_RATE.num,
        den: PAL_RATE.den * u64::from(frames_per_beat),
    }));
    assert!((bpm - 125.0).abs() < 1.0, "folded BPM {bpm} not ~125");
}

#[test]
fn detect_frames_per_beat_needs_enough_onsets() {
    // Too few onsets → no estimate (the clock's default is used).
    let onsets: Vec<u32> = (0..5).map(|k| k * 24).collect();
    assert!(detect_frames_per_beat(&onsets, 200).is_none());
}

#[test]
fn derived_time_base_preserves_real_time_across_schedules() {
    let ntsc_rate = Fraction {
        num: 1_022_727,
        den: 263 * 65,
    };
    let cia_rate = Fraction {
        num: 985_248,
        den: 9_828,
    };
    let cases = [
        (SystemClock::Pal, PAL_RATE, 24, 40),
        (SystemClock::Ntsc, ntsc_rate, 30, 32),
        (SystemClock::Pal, cia_rate, 30, MIN_TICKS_PER_FRAME),
    ];
    for (clock, rate, onset_period, expected_ticks_per_frame) in cases {
        let onsets: Vec<u32> = (0..50).map(|index| index * onset_period).collect();
        let frame_count = onset_period * 50;
        let scale = detect_frames_per_beat(&onsets, frame_count)
            .map(|frames_per_beat| measure_scale(rate, frames_per_beat));
        let rate = value_of(rate);
        let time_base = derive_time_base(clock, scale, frame_count);
        assert_eq!(time_base.ticks_per_frame, expected_ticks_per_frame);

        // The tempo written with the ticks makes them last as long as the frames.
        let written = f64::from(time_base.ticks_per_frame) * rate / (960.0 / 60.0);
        let tick = f64::from(frame_count * time_base.ticks_per_frame);
        let seconds = tick * 60.0 / (written * 960.0);
        assert!((seconds - f64::from(frame_count) / rate).abs() < 1e-5);
        assert_eq!(time_base.grid_rows, (tick as u32).div_ceil(240));
    }
}

#[test]
fn a_time_base_without_a_tempo_follows_the_clock() {
    let plain = derive_time_base(SystemClock::Ntsc, None, 0);
    assert_eq!((plain.ticks_per_frame, plain.grid_rows), (33, 1));
    let fast = derive_time_base(SystemClock::Pal, Some(1_000), u32::MAX);
    assert_eq!((fast.ticks_per_frame, fast.grid_rows), (96, 65_535));
}

fn states_with_volumes(vols: &[u8]) -> Vec<ProgramFrame> {
    vols.iter()
        .map(|&v| ProgramFrame {
            volume: v,
            ..ProgramFrame::default()
        })
        .collect()
}

#[test]
fn master_volume_lane_tracks_a_swell() {
    // Volume ramps 0 → 15 over 16 frames.
    let vols: Vec<u8> = (0..16).map(|i| i as u8).collect();
    let states = states_with_volumes(&vols);
    let lane =
        build_master_volume_lane(&states, 16, &Vec::new(), 40).expect("a swell yields a lane");
    assert!(lane.len() >= 2);
    for p in &lane {
        assert!((0..=1500).contains(&p.value));
    }
    // A linear ramp decimates to its endpoints.
    assert_eq!(lane.len(), 2);
    assert_eq!(lane[0].value, 0);
    assert_eq!(lane[1].value, 1500);
    assert_eq!(lane[0].curve, Some((0, 15)));
    assert_eq!(lane[1].curve, None);
    assert_eq!(lane[1].tick, 15 * 40);
}

#[test]
fn master_volume_lane_none_for_constant_volume() {
    let states = states_with_volumes(&[15; 64]);
    assert!(moving_volumes(&states, 64).is_none());
    assert!(build_master_volume_lane(&states, 64, &Vec::new(), 40).is_none());
}

#[test]
fn master_volume_lane_none_for_d418_digi_hammer() {
    // A tune hammering the volume register for samples swings it every frame, so
    // decimation can't reduce it; past the cap the lane is dropped.
    let vols: Vec<u8> = (0..2000).map(|i| if i % 2 == 0 { 0 } else { 15 }).collect();
    let states = states_with_volumes(&vols);
    assert!(build_master_volume_lane(&states, vols.len() as u32, &Vec::new(), 40).is_none());
    assert!(keeps_volume_lane(MAX_VOLUME_LANE_POINTS));
    assert!(!keeps_volume_lane(1));
}

#[test]
fn moving_ring_source_becomes_second_oscillator_frequency_automation() {
    let notes = vec![heard(ev_at(0))];
    let mut plan = probe_plan(vec![(0, 0)]);
    plan.shape.has_ring = true;
    let kinds = plan_lane_kinds(&plan, &[], false, false, false);
    assert!(kinds.contains(&LaneKind::SourceFrequency));
    let mut states: Vec<ProgramFrame> = (0..12).map(|_| ProgramFrame::default()).collect();
    for (frame, state) in states.iter_mut().enumerate() {
        state.voices[2].freq = 0x2000 + frame as u16 * 0x40;
    }
    let spans: Vec<LaneSpan> = collapse_spans(&note_ranges(&plan, &notes, 12), false)
        .iter()
        .map(|&(start, end)| LaneSpan {
            start,
            values: sample_frames(Sampled::SourceFrequency, &states, plan.voice, start, end),
            fits: Vec::new(),
        })
        .collect();
    let lane = build_param_lane(&spans, lane_tolerance(Sampled::SourceFrequency), 40)
        .expect("moving physical source lane");
    assert!(lane.len() >= 2);
    assert_eq!(lane[0].value, 0x2000);
    assert_eq!(lane[1].tick, 9 * 40);
}

#[test]
fn curves_that_fit_take_the_place_of_lines() {
    // An ease that lines need several points for.
    let values: Vec<i64> = (0..=30).map(|i: i64| i * i * i).collect();
    let lines = LaneSpan {
        start: 100,
        values: values.clone(),
        fits: Vec::new(),
    };
    let plain = build_param_lane(&[lines], 270, 2).expect("it moves");
    assert!(plain.len() > 2);
    let kept = rdp_indices(&values, 270);
    assert_eq!(plain.len(), kept.len());
    let curved = LaneSpan {
        start: 100,
        values,
        fits: vec![vec![true; kept.len()]],
    };
    let merged = build_param_lane(&[curved], 270, 2).expect("it moves");
    assert_eq!(merged.len(), 2);
    assert_eq!(merged[0].curve, Some((0, 30)));
    assert_eq!((merged[0].tick, merged[1].tick), (200, 260));
}

#[test]
fn a_lane_that_stays_within_its_tolerance_is_dropped() {
    let span = |values: Vec<i64>| LaneSpan {
        start: 0,
        values,
        fits: Vec::new(),
    };
    assert!(build_param_lane(&[span(vec![5, 7, 6]), span(vec![4])], 2, 40).is_none());
    assert!(build_param_lane(&[span(vec![5, 7, 6]), span(vec![2])], 2, 40).is_some());
    assert!(build_param_lane(&[], 2, 40).is_none());
}

#[test]
fn an_envelope_lane_falls_silent_behind_each_note() {
    let notes = vec![heard(ev_at(0)), heard(ev_at(20))];
    let plan = probe_plan(vec![(0, 0), (0, 1)]);
    let own = PhysicalVoiceOwnership::from_plans(std::slice::from_ref(&plan), &notes);
    let mut states: Vec<ProgramFrame> = (0..40).map(|_| ProgramFrame::default()).collect();
    for state in &mut states {
        state.digital_voices[0].end_level = 200;
    }
    let lane = build_envelope_lane(&plan, &notes, &own, &states, 40, &[], 40).expect("a lane");
    let shape: Vec<(u32, i64)> = lane.iter().map(|p| (p.tick, p.value)).collect();
    assert_eq!(
        shape,
        vec![
            (0, 20_000),
            (9 * 40, 20_000),
            (10 * 40, 0),
            (20 * 40, 20_000),
            (29 * 40, 20_000),
            (30 * 40, 0)
        ]
    );
}

#[test]
fn a_bent_pitch_is_centred_unless_the_next_bend_follows() {
    let notes = vec![heard(ev_at(0)), heard(ev_at(10)), heard(ev_at(30))];
    let plan = probe_plan(vec![(0, 0), (0, 1), (0, 2)]);
    let own = PhysicalVoiceOwnership::from_plans(std::slice::from_ref(&plan), &notes);
    let late = [true, true, false];
    let spans = pitch_spans(&plan, &notes, &own, &late, 40, 40);
    assert_eq!(spans, vec![(0, 10, false), (10, 20, true)]);
    let values: Vec<LaneSpan> = spans
        .iter()
        .map(|&(start, end, _)| LaneSpan {
            start,
            values: (start..end).map(|f| 400_000 + 1_000 * i64::from(f % 2)).collect(),
            fits: Vec::new(),
        })
        .collect();
    let lane =
        build_delayed_vibrato_pitch_lane(&plan, &notes, &own, &late, 40, 40, &values, 40)
            .expect("bent");
    assert_eq!(lane[0].tick, 0);
    let last = lane.last().expect("a point");
    assert_eq!((last.tick, last.value, last.curve), (20 * 40, PITCH_CENTRE, None));
    assert!(!lane.iter().any(|p| p.tick == 10 * 40 && p.value == PITCH_CENTRE));
    assert!(build_delayed_vibrato_pitch_lane(
        &plan,
        &notes,
        &own,
        &[false, false, false],
        40,
        40,
        &[],
        40
    )
    .is_none());
}

fn arp_patch() -> Patch {
    Patch {
        id: 0,
        adsr: Adsr::default(),
        waveform: 0x40,
        role_tags: RoleTags::default(),
        authored_effects: false,
        authored_pwm: None,
        voices: vec![PatchVoiceProfile {
            voice: VoiceId(1),
            filter_routed: false,
            filter_mode: FilterMode {
                low_pass: false,
                band_pass: false,
                high_pass: false,
            },
            ring_mod: false,
            hard_sync: false,
            waveform_loop: None,
            arpeggio_loop: Some(vec![0, 4, 7]),
        }],
    }
}

#[test]
fn arpeggiator_recipe_uses_cia_call_rate() {
    let rate = (985_248.0_f64 / 9_828.0 * 1000.0).round() as u32;
    let mut plan = probe_plan(vec![(0, 0)]);
    plan.segments.push(Segment {
        patch: Some(0),
        profile: Some(0),
        events: vec![0],
    });
    let arp = arp_processor_for(&plan, &[arp_patch()], &[Some(true)], rate, true).expect("kept");
    assert_eq!(arp.rate_millihz, rate);
    assert_eq!(arp.custom, vec![0, 4, 7]);
    // A processor that a note disagrees with, or that was not asked for, is dropped.
    assert!(arp_processor_for(&plan, &[arp_patch()], &[Some(false)], rate, true).is_none());
    assert!(arp_processor_for(&plan, &[arp_patch()], &[Some(true)], rate, false).is_none());
}

fn placement(pattern_id: u32, start: u32) -> PatternPlacement {
    PatternPlacement {
        pattern_id,
        track_id: 0,
        start,
        transpose: 0,
        gain: ONE_BITS,
        length_override: None,
    }
}

#[test]
fn a_truncated_pattern_becomes_a_shortened_placement() {
    // The second pattern is a prefix of the first.
    let mut long = pattern(0, vec![song_note(0, 60), song_note(100, 62)], Vec::new());
    long.length = 200;
    let mut short = pattern(1, vec![song_note(0, 60)], Vec::new());
    short.length = 100;
    let mut patterns = vec![long, short];
    let cut = PatternPlacement {
        length_override: Some(100),
        ..placement(1, 200)
    };
    let mut arrangement = vec![placement(0, 0), cut];
    canonicalize_truncated_patterns(&mut patterns, &mut arrangement);
    assert_eq!(patterns.len(), 1);
    assert_eq!(patterns[0].notes.len(), 2);
    assert_eq!(arrangement[1].pattern_id, 0);
    assert_eq!(arrangement[1].length_override, Some(100));
    assert_eq!(arrangement[0].length_override, None);
}

fn material(name: &str, notes: Vec<SongNote>, blocks: Option<Vec<Block>>) -> TrackMaterial {
    TrackMaterial {
        name: name.to_string(),
        base_name: name.to_string(),
        instrument: 1,
        voice_index: 0,
        processor: None,
        notes,
        blocks,
        lanes: Vec::new(),
    }
}

#[test]
fn a_flat_song_has_one_pattern_per_track() {
    let materials = [
        material("A", vec![song_note(0, 60)], None),
        material("B", vec![song_note(40, 64)], None),
    ];
    let song = compose_song("Title", "Author", &materials, false, 400, None);
    assert_eq!(song.patterns.len(), 2);
    assert_eq!(song.tracks.len(), 2);
    assert_eq!(song.arrangement.len(), 2);
    for placed in &song.arrangement {
        assert!(song.patterns.iter().any(|p| p.id == placed.pattern_id));
        assert!(song.tracks.iter().any(|t| t.id == placed.track_id));
    }
    assert_eq!(song.name, "Title");
}

#[test]
fn equal_blocks_share_one_pattern() {
    let block = |start: u32| Block {
        notes: vec![song_note(0, 60)],
        pattern_number: 4,
        applied: 0,
        start,
        span: 100,
        gain: ONE_BITS,
    };
    let materials = [material("A", Vec::new(), Some(vec![block(0), block(100), block(300)]))];
    let song = compose_song("", "", &materials, true, 400, None);
    let musical: Vec<&Pattern> = song.patterns.iter().filter(|p| !p.notes.is_empty()).collect();
    assert_eq!(musical.len(), 1);
    let starts: Vec<u32> = song
        .arrangement
        .iter()
        .filter(|p| p.pattern_id == musical[0].id)
        .map(|p| p.start)
        .collect();
    assert_eq!(starts, vec![0, 100, 300]);
}

#[test]
fn blocks_give_their_notes_back() {
    let notes = vec![song_note(0, 60), song_note(400, 62), song_note(800, 64)];
    let placements = [
        DriverPlacement {
            start_frame: 0,
            pattern_number: 1,
            transpose: 0,
        },
        DriverPlacement {
            start_frame: 10,
            pattern_number: 2,
            transpose: 2,
        },
    ];
    let blocks = cut_blocks(&notes, &placements, 40, 40);
    let back: Vec<(u32, u32)> = blocks
        .iter()
        .flat_map(|b| {
            b.notes
                .iter()
                .map(move |n| (b.start + n.start, (n.pitch as i32 + b.applied) as u32))
        })
        .collect();
    assert_eq!(back, vec![(0, 60), (400, 62), (800, 64)]);
    for (note, source) in blocks.iter().flat_map(|b| &b.notes).zip(&notes) {
        assert_eq!((note.duration, note.velocity), (source.duration, source.velocity));
        assert_eq!((note.glide, note.vibrato), (source.glide, source.vibrato));
        assert_eq!(note.legato, source.legato);
    }
}

#[test]
fn a_voice_belongs_to_a_note_until_the_next_one() {
    let notes = vec![heard(ev_at(0)), heard(ev_at(7)), heard(ev_at(30))];
    let plans = [probe_plan(vec![(0, 0), (0, 2)]), probe_plan(vec![(0, 1)])];
    let own = PhysicalVoiceOwnership::from_plans(&plans, &notes);
    assert_eq!(own.end(&notes[0].event), Some(7));
    assert_eq!(own.end(&notes[1].event), Some(30));
    assert_eq!(own.end(&notes[2].event), None);
    // The first note rings on for three frames after it lost its voice.
    let census = checked_voice_census(&plans, &notes, 40, &own).expect("few enough");
    assert_eq!(census.source_release_overlap_pairs, 1);
    assert_eq!(census.source_release_overlap_calls, 3);
    assert_eq!(census.cross_plan_overlap_pairs, 0);
    assert_eq!(census.cross_plan_overlap_calls, 0);
    assert_eq!(physical_voice_census(&plans, &notes, 40, &own), census);
}

#[test]
fn equal_keys_are_grouped_in_order() {
    let key = |patch: u16, program: Option<Vec<u8>>| SoundKey {
        patch: Some(patch),
        program,
    };
    let keys = [
        key(5, None),
        key(3, None),
        key(5, None),
        key(5, Some(vec![1, 8])),
        key(3, None),
    ];
    assert_eq!(group_by_key(&keys), vec![vec![0, 2], vec![1, 4], vec![3]]);
}

#[test]
fn names_are_cleaned_and_numbered() {
    assert_eq!(clean("  Commando ", "Untitled"), "Commando");
    assert_eq!(clean("   ", "Untitled"), "Untitled");
    assert_ne!(pattern_name("Lead", 1, 0, 4), pattern_name("Lead", 2, 0, 5));
}

#[test]
fn the_loudest_velocity_becomes_the_gain() {
    let with_velocity = |velocity: f32| SongNote {
        velocity: velocity.to_bits(),
        ..song_note(0, 60)
    };
    let quiet = [with_velocity(0.25), with_velocity(0.5), with_velocity(0.125)];
    assert_eq!(find_pattern_gain(&quiet), Some(0.5f32.to_bits()));
    assert_eq!(find_pattern_gain(&[with_velocity(1.0), with_velocity(0.5)]), None);
    assert_eq!(find_pattern_gain(&[with_velocity(0.0)]), None);
    assert_eq!(find_pattern_gain(&[]), None);
}

#[test]
fn a_voice_is_placed_by_its_first_entry() {
    let at = |start_frame: u32| DriverPlacement {
        start_frame,
        pattern_number: 1,
        transpose: 0,
    };
    let structure = [
        (VoiceId(1), vec![at(0), at(64)]),
        (VoiceId(2), vec![]),
        (VoiceId(1), vec![at(7)]),
        (VoiceId(2), vec![at(9)]),
    ];
    assert_eq!(voice_placements(&structure, VoiceId(1)), Some(&[at(0), at(64)][..]));
    assert_eq!(voice_placements(&structure, VoiceId(2)), None, "its first entry is empty");
    assert_eq!(voice_placements(&structure, VoiceId(3)), None);
}
