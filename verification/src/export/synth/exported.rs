//! What an exported project says of the tune that it came from.

use super::census::{Census, NativeExtraction, Osc3Attribution};
use super::effects::faithful_chain;
use super::emission::native_arpeggiator;
use super::modern::modern_chain;
use super::options::SynthOptions;
use super::oscillator::{bit, frequency_mask, with_sequence, OscillatorView};
use super::project::{finished_census, is_project, ExportFigures, Project, SynthSource};
use super::song::{canonical, voice_color, SongNote};
use vstd::prelude::*;

verus! {

/// Two notes count as the same just where they start, last, sound and are played alike,
/// whatever their numbers are.
pub proof fn notes_are_the_same_if_they_sound_alike(a: SongNote, b: SongNote)
    ensures
        canonical(a) == canonical(b) <==> a.start == b.start && a.duration == b.duration && a.pitch
            == b.pitch && a.legato == b.legato && a.velocity == b.velocity && a.vibrato == b.vibrato
            && a.glide == b.glide,
{
}

/// A native arpeggio plays the given steps at the given rate, within one octave, without
/// gaps.
pub proof fn native_arpeggios_play_their_steps(offsets: Seq<i8>, rate: u32)
    ensures
        native_arpeggiator(offsets, rate).custom == offsets,
        native_arpeggiator(offsets, rate).rate_millihz == rate,
        native_arpeggiator(offsets, rate).octaves == 1,
        native_arpeggiator(offsets, rate).legato,
        native_arpeggiator(offsets, rate).gate == 0x3F80_0000,
{
}

/// The voices of a tune have colours of their own.
pub proof fn voices_differ_in_colour(a: int, b: int)
    requires
        0 <= a < b < 3,
    ensures
        voice_color(a) != voice_color(b),
{
}

/// A project has the chain and the volume of its style, shares a filter only if it is a
/// faithful one, and counts the frames, notes and tracks that it was made of.
pub proof fn projects_follow_their_style(
    r: Project,
    s: SynthSource,
    osc3: Osc3Attribution,
    native: Option<NativeExtraction>,
    options: SynthOptions,
)
    requires
        is_project(r, s, osc3, native, options),
    ensures
        options.style is ModernAnalog ==> r.routing is None && r.master.volume == 1_150_000,
        options.style is ModernAnalog && options.enhancement is None ==> r.master.effects@
            == modern_chain(),
        options.style is SidFaithful ==> r.master.volume == 800_000,
        options.style is SidFaithful && options.enhancement is None ==> r.master.effects@
            == faithful_chain(),
        r.routing matches Some(f) ==> f.sends@.len() == s.plans@.len() && f.busses@.len()
            == f.next_bus && forall|p: int|
            0 <= p < s.plans@.len() ==> ((#[trigger] f.sends@[p])@.len() > 0
                <==> s.plans@[p].shape.filter_kind is Some),
        r.census.frames == s.states@.len(),
        r.census.notes_total == s.notes@.len(),
        r.census.tracks == s.plans@.len(),
        r.census.patches_total == s.patches@.len(),
        r.census.instruments == r.instruments.len(),
        r.census.options == options,
        r.census.native is Some <==> native is Some,
        r.census.song.serialized_patterns >= r.census.song.patterns
            + r.census.song.automation_patterns,
{
    if let Some(f) = r.routing {
        assert forall|p: int| 0 <= p < s.plans@.len() implies ((#[trigger] f.sends@[p])@.len() > 0
            <==> s.plans@[p].shape.filter_kind is Some) by {
            assert(s.plans@[p].shape.view().filter_kind == s.plans@[p].shape.filter_kind);
        }
    }
    assert(r.instruments.len() == r.instruments@.len());
    let patterns = super::project::project_song(s, options.style).patterns;
    patterns_are_counted_apart(patterns, patterns.len() as int);
}

proof fn patterns_are_counted_apart(patterns: Seq<super::song::PatternView>, k: int)
    requires
        0 <= k <= patterns.len(),
    ensures
        super::census::musical_patterns(patterns, k) + super::census::lane_patterns(patterns, k)
            <= k,
    decreases k,
{
    if k > 0 {
        patterns_are_counted_apart(patterns, k - 1);
    }
}

/// The figures of a finished export are entered as they are, and nothing that was counted
/// before changes.
pub proof fn figures_complete_a_census(census: Census, figures: ExportFigures)
    ensures
        ({
            let r = finished_census(census, figures);
            &&& r.serialized_size == figures.serialized_size
            &&& r.d418_pcm_streams == figures.pcm_streams
            &&& r.d418_pcm_events == figures.pcm_events
            &&& r.continuous_program == figures.complexity
            &&& r.note_fidelity == figures.fidelity
            &&& r.chip_programs == figures.chip_programs
            &&& r.frames == census.frames && r.notes_total == census.notes_total
            &&& r.tracks == census.tracks && r.instruments == census.instruments
            &&& r.envelope == census.envelope && r.song == census.song
            &&& r.native == census.native && r.options == census.options
            &&& r.physical_voices == census.physical_voices
            &&& r.osc3 == census.osc3
        }),
{
}

proof fn later_bits_are_multiples(freqs: Seq<u16>, i: int, n: int) -> (x: int)
    requires
        0 <= i < n,
    ensures
        frequency_mask(freqs, n) == frequency_mask(freqs, i) + (if freqs[i] > 0 {
            bit(i)
        } else {
            0
        }) + 2 * bit(i) * x,
        bit(n) == 2 * bit(i) * (if n == i + 1 {
            1
        } else {
            bit(n - i - 1)
        }),
    decreases n - i,
{
    if n == i + 1 {
        assert(2 * bit(i) * 0 == 0) by (nonlinear_arith);
        0
    } else {
        let y = later_bits_are_multiples(freqs, i, n - 1);
        let b = bit(i);
        let c = if n - 1 == i + 1 {
            1
        } else {
            bit(n - 1 - i - 1)
        };
        assert(bit(n - i - 1) == 2 * c);
        assert(2 * b * (2 * c) == 2 * (2 * b * c)) by (nonlinear_arith);
        if freqs[n - 1] > 0 {
            assert(2 * b * y + 2 * b * c == 2 * b * (y + c)) by (nonlinear_arith);
            y + c
        } else {
            y
        }
    }
}

proof fn masks_are_small(freqs: Seq<u16>, n: int)
    requires
        0 <= n,
    ensures
        0 <= frequency_mask(freqs, n) < bit(n),
    decreases n,
{
    if n > 0 {
        masks_are_small(freqs, n - 1);
    }
}

/// The mask of a sequence has just those bits set whose steps have a frequency of their own.
pub proof fn masks_mark_the_steps_with_frequencies(freqs: Seq<u16>, i: int)
    requires
        freqs.len() == 16,
        0 <= i < 16,
    ensures
        (frequency_mask(freqs, 16) / bit(i)) % 2 == 1 <==> freqs[i] > 0,
        0 <= frequency_mask(freqs, 16) <= 65535,
        i < 15 ==> bit(i + 1) == 2 * bit(i),
        bit(0) == 1,
{
    let x = later_bits_are_multiples(freqs, i, 16);
    masks_are_small(freqs, i);
    masks_are_small(freqs, 16);
    reveal_with_fuel(bit, 17);
    assert(bit(16) == 65536);
    let one: int = if freqs[i] > 0 {
        1
    } else {
        0
    };
    let q = one + 2 * x;
    let m = frequency_mask(freqs, 16);
    assert(m == q * bit(i) + frequency_mask(freqs, i)) by (nonlinear_arith)
        requires
            m == frequency_mask(freqs, i) + one * bit(i) + 2 * bit(i) * x,
            q == one + 2 * x,
    ;
    vstd::arithmetic::div_mod::lemma_fundamental_div_mod_converse(
        m,
        bit(i),
        q,
        frequency_mask(freqs, i),
    );
}

/// A sequence plays its first steps, at most 16, as the low four bits of each and then
/// nothing, over and over; nothing else of the oscillator changes.
pub proof fn sequences_play_their_steps(o: OscillatorView, steps: Seq<u8>, i: int)
    requires
        0 <= i < 16,
    ensures
        ({
            let r = with_sequence(o, steps);
            &&& r.seq_steps.len() == 16
            &&& i < steps.len() ==> r.seq_steps[i] < 16 && (steps[i] - r.seq_steps[i]) % 16 == 0
            &&& i >= steps.len() ==> r.seq_steps[i] == 0
            &&& r.seq_len <= 16 && r.seq_len <= steps.len()
            &&& r.seq_len == steps.len() || r.seq_len == 16
            &&& r.seq_loop
            &&& r.mask == o.mask && r.pw_reg == o.pw_reg && r.noise_seed == o.noise_seed
            &&& r.ring_mod == o.ring_mod && r.hard_sync == o.hard_sync
            &&& r.freq_reg == o.freq_reg && r.track_pitch == o.track_pitch
        }),
{
}

} // verus!
