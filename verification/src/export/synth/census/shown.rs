//! Where the numbers of a census stand in its report.

use crate::numerals::numeral;
use super::super::naming::number_text;
use super::report::percentage;
use super::Census;
use vstd::prelude::*;

verus! {

/// Whether a line goes on, behind some text, with a word, a number in decimal digits and
/// another word.
pub open spec fn stands_after(
    line: Seq<char>,
    start: Seq<char>,
    before: Seq<char>,
    n: nat,
    after: Seq<char>,
) -> bool {
    (start + before + numeral(n, 10) + after).is_prefix_of(line)
}

/// Whether a line shows a number in decimal digits between two words.
pub open spec fn stands_between(line: Seq<char>, before: Seq<char>, n: nat, after: Seq<char>) -> bool {
    exists|start: Seq<char>| #[trigger] stands_after(line, start, before, n, after)
}

proof fn begins_alike(p: Seq<char>, more: Seq<char>, line: Seq<char>)
    requires
        (p + more).is_prefix_of(line),
    ensures
        p.is_prefix_of(line),
{
    assert(p =~= line.subrange(0, p.len() as int)) by {
        assert((p + more).subrange(0, p.len() as int) =~= p);
    }
}

/// The first line tells the frames, the instruments, the tracks and the notes, each before
/// its word.
pub proof fn sizes_are_reported(c: Census)
    ensures
        stands_between(c.size_line(), "fidelity census: "@, c.frames as nat, " frames · "@),
        stands_between(c.size_line(), " frames · "@, c.instruments as nat, " instruments · "@),
        stands_between(c.size_line(), " instruments · "@, c.tracks as nat, " tracks · "@),
        stands_between(c.size_line(), " tracks · "@, c.notes_total as nat, " notes"@),
{
    let line = c.size_line();
    let p0 = "fidelity census: "@;
    let p1 = p0 + number_text(c.frames as nat);
    let p2 = p1 + " frames · "@;
    let p3 = p2 + number_text(c.instruments as nat);
    let p4 = p3 + " instruments · "@;
    let p5 = p4 + number_text(c.tracks as nat);
    let p6 = p5 + " tracks · "@;
    let p7 = p6 + number_text(c.notes_total as nat);
    let p8 = p7 + " notes"@;
    begins_alike(p7, " notes"@, line);
    begins_alike(p6, number_text(c.notes_total as nat), line);
    begins_alike(p5, " tracks · "@, line);
    begins_alike(p4, number_text(c.tracks as nat), line);
    begins_alike(p3, " instruments · "@, line);
    begins_alike(p2, number_text(c.instruments as nat), line);
    assert(Seq::<char>::empty() + "fidelity census: "@ =~= "fidelity census: "@);
    assert(stands_after(
        line,
        Seq::<char>::empty(),
        "fidelity census: "@,
        c.frames as nat,
        " frames · "@,
    ));
    assert(stands_after(line, p1, " frames · "@, c.instruments as nat, " instruments · "@));
    assert(stands_after(line, p3, " instruments · "@, c.tracks as nat, " tracks · "@));
    assert(stands_after(line, p5, " tracks · "@, c.notes_total as nat, " notes"@));
}

/// The notes of drums and those without a sound stand before their words, and the patches
/// that were authored before their total.
pub proof fn kinds_of_notes_are_reported(c: Census)
    ensures
        stands_between(c.notes_line(), "notes: "@, c.notes_percussion as nat, " percussion · "@),
        stands_between(
            c.notes_line(),
            " percussion · "@,
            c.notes_raw as nat,
            " raw/low-fi · patches "@,
        ),
        stands_between(c.notes_line(), " raw/low-fi · patches "@, c.patches_authored as nat, "/"@),
        stands_between(c.notes_line(), "/"@, c.patches_total as nat, " authored"@),
{
    let line = c.notes_line();
    let p0 = "notes: "@;
    let p1 = p0 + number_text(c.notes_percussion as nat);
    let p2 = p1 + " percussion · "@;
    let p3 = p2 + number_text(c.notes_raw as nat);
    let p4 = p3 + " raw/low-fi · patches "@;
    let p5 = p4 + number_text(c.patches_authored as nat);
    let p6 = p5 + "/"@;
    let p7 = p6 + number_text(c.patches_total as nat);
    let p8 = p7 + " authored"@;
    begins_alike(p7, " authored"@, line);
    begins_alike(p6, number_text(c.patches_total as nat), line);
    begins_alike(p5, "/"@, line);
    begins_alike(p4, number_text(c.patches_authored as nat), line);
    begins_alike(p3, " raw/low-fi · patches "@, line);
    begins_alike(p2, number_text(c.notes_raw as nat), line);
    assert(Seq::<char>::empty() + "notes: "@ =~= "notes: "@);
    assert(stands_after(
        line,
        Seq::<char>::empty(),
        "notes: "@,
        c.notes_percussion as nat,
        " percussion · "@,
    ));
    assert(stands_after(
        line,
        p1,
        " percussion · "@,
        c.notes_raw as nat,
        " raw/low-fi · patches "@,
    ));
    assert(stands_after(line, p3, " raw/low-fi · patches "@, c.patches_authored as nat, "/"@));
    assert(stands_after(line, p5, "/"@, c.patches_total as nat, " authored"@));
}

/// The frames that are filtered and those with combined waveforms stand before their words,
/// each with its share of all frames.
pub proof fn kinds_of_frames_are_reported(c: Census)
    ensures
        stands_between(
            c.frame_line(),
            "frames: "@,
            c.filter_routed_frames as nat,
            " filter-routed ("@,
        ),
        stands_between(
            c.frame_line(),
            " filter-routed ("@,
            percentage(c.filter_routed_frames as nat, c.frames as nat),
            "%) · "@,
        ),
        stands_between(
            c.frame_line(),
            "%) · "@,
            c.combined_waveform_frames as nat,
            " combined-waveform ("@,
        ),
        stands_between(
            c.frame_line(),
            " combined-waveform ("@,
            percentage(c.combined_waveform_frames as nat, c.frames as nat),
            "%)"@,
        ),
{
    let line = c.frame_line();
    let p0 = "frames: "@;
    let p1 = p0 + number_text(c.filter_routed_frames as nat);
    let p2 = p1 + " filter-routed ("@;
    let p3 = p2 + number_text(percentage(c.filter_routed_frames as nat, c.frames as nat));
    let p4 = p3 + "%) · "@;
    let p5 = p4 + number_text(c.combined_waveform_frames as nat);
    let p6 = p5 + " combined-waveform ("@;
    let p7 = p6 + number_text(percentage(c.combined_waveform_frames as nat, c.frames as nat));
    let p8 = p7 + "%)"@;
    begins_alike(p7, "%)"@, line);
    begins_alike(
        p6,
        number_text(percentage(c.combined_waveform_frames as nat, c.frames as nat)),
        line,
    );
    begins_alike(p5, " combined-waveform ("@, line);
    begins_alike(p4, number_text(c.combined_waveform_frames as nat), line);
    begins_alike(p3, "%) · "@, line);
    begins_alike(p2, number_text(percentage(c.filter_routed_frames as nat, c.frames as nat)), line);
    assert(Seq::<char>::empty() + "frames: "@ =~= "frames: "@);
    assert(stands_after(
        line,
        Seq::<char>::empty(),
        "frames: "@,
        c.filter_routed_frames as nat,
        " filter-routed ("@,
    ));
    assert(stands_after(
        line,
        p1,
        " filter-routed ("@,
        percentage(c.filter_routed_frames as nat, c.frames as nat),
        "%) · "@,
    ));
    assert(stands_after(
        line,
        p3,
        "%) · "@,
        c.combined_waveform_frames as nat,
        " combined-waveform ("@,
    ));
    assert(stands_after(
        line,
        p5,
        " combined-waveform ("@,
        percentage(c.combined_waveform_frames as nat, c.frames as nat),
        "%)"@,
    ));
}

/// Changes of volume, samples and spans of effects stand beside their words.
pub proof fn spans_are_reported(c: Census)
    ensures
        stands_between(
            c.span_line(),
            "$D418 volume changes "@,
            c.d418_volume_changes as nat,
            (if c.d418_digi_dropped { " (DIGI — volume lane dropped)"@ } else { ""@ }),
        ),
        stands_between(c.span_line(), " · PCM "@, c.d418_pcm_streams as nat, " streams/"@),
        stands_between(c.span_line(), " streams/"@, c.d418_pcm_events as nat, " events · spans: "@),
        stands_between(c.span_line(), " events · spans: "@, c.vibrato_spans as nat, " vibrato ("@),
        stands_between(
            c.span_line(),
            " vibrato ("@,
            c.vibrato_pitch_automation_notes as nat,
            " pitch automated) · "@,
        ),
        stands_between(
            c.span_line(),
            " pitch automated) · "@,
            c.portamento_spans as nat,
            " portamento · "@,
        ),
        stands_between(c.span_line(), " portamento · "@, c.arpeggio_spans as nat, " arpeggio"@),
{
    let line = c.span_line();
    let p0 = "$D418 volume changes "@;
    let p1 = p0 + number_text(c.d418_volume_changes as nat);
    let p2 = p1 + (if c.d418_digi_dropped { " (DIGI — volume lane dropped)"@ } else { ""@ });
    let p3 = p2 + " · PCM "@;
    let p4 = p3 + number_text(c.d418_pcm_streams as nat);
    let p5 = p4 + " streams/"@;
    let p6 = p5 + number_text(c.d418_pcm_events as nat);
    let p7 = p6 + " events · spans: "@;
    let p8 = p7 + number_text(c.vibrato_spans as nat);
    let p9 = p8 + " vibrato ("@;
    let p10 = p9 + number_text(c.vibrato_pitch_automation_notes as nat);
    let p11 = p10 + " pitch automated) · "@;
    let p12 = p11 + number_text(c.portamento_spans as nat);
    let p13 = p12 + " portamento · "@;
    let p14 = p13 + number_text(c.arpeggio_spans as nat);
    let p15 = p14 + " arpeggio"@;
    begins_alike(p14, " arpeggio"@, line);
    begins_alike(p13, number_text(c.arpeggio_spans as nat), line);
    begins_alike(p12, " portamento · "@, line);
    begins_alike(p11, number_text(c.portamento_spans as nat), line);
    begins_alike(p10, " pitch automated) · "@, line);
    begins_alike(p9, number_text(c.vibrato_pitch_automation_notes as nat), line);
    begins_alike(p8, " vibrato ("@, line);
    begins_alike(p7, number_text(c.vibrato_spans as nat), line);
    begins_alike(p6, " events · spans: "@, line);
    begins_alike(p5, number_text(c.d418_pcm_events as nat), line);
    begins_alike(p4, " streams/"@, line);
    begins_alike(p3, number_text(c.d418_pcm_streams as nat), line);
    begins_alike(p2, " · PCM "@, line);
    assert(Seq::<char>::empty() + "$D418 volume changes "@ =~= "$D418 volume changes "@);
    assert(stands_after(
        line,
        Seq::<char>::empty(),
        "$D418 volume changes "@,
        c.d418_volume_changes as nat,
        (if c.d418_digi_dropped { " (DIGI — volume lane dropped)"@ } else { ""@ }),
    ));
    assert(stands_after(line, p2, " · PCM "@, c.d418_pcm_streams as nat, " streams/"@));
    assert(stands_after(line, p4, " streams/"@, c.d418_pcm_events as nat, " events · spans: "@));
    assert(stands_after(line, p6, " events · spans: "@, c.vibrato_spans as nat, " vibrato ("@));
    assert(stands_after(
        line,
        p8,
        " vibrato ("@,
        c.vibrato_pitch_automation_notes as nat,
        " pitch automated) · "@,
    ));
    assert(stands_after(
        line,
        p10,
        " pitch automated) · "@,
        c.portamento_spans as nat,
        " portamento · "@,
    ));
    assert(stands_after(line, p12, " portamento · "@, c.arpeggio_spans as nat, " arpeggio"@));
}

/// Coupled notes and frames stand beside their words, what is active before what is not.
pub proof fn couplings_are_reported(c: Census)
    ensures
        stands_between(c.hardware_line(), "hardware: "@, c.ring_mod_notes as nat, " ring-mod · "@),
        stands_between(
            c.hardware_line(),
            " ring-mod · "@,
            c.hard_sync_notes as nat,
            " hard-sync notes ("@,
        ),
        stands_between(
            c.hardware_line(),
            " hard-sync notes ("@,
            c.hard_sync_attack_frames as nat,
            " sync-attack frames) · measured sync "@,
        ),
        stands_between(
            c.hardware_line(),
            " sync-attack frames) · measured sync "@,
            c.hardware_sync_active_frames as nat,
            "/"@,
        ),
        stands_between(
            c.hardware_line(),
            "/"@,
            c.hardware_sync_inactive_frames as nat,
            " active/inactive · ring "@,
        ),
        stands_between(
            c.hardware_line(),
            " active/inactive · ring "@,
            c.hardware_ring_active_frames as nat,
            "/"@,
        ),
        stands_between(
            c.hardware_line(),
            "/"@,
            c.hardware_ring_inactive_frames as nat,
            Seq::empty(),
        ),
{
    let line = c.hardware_line();
    let p0 = "hardware: "@;
    let p1 = p0 + number_text(c.ring_mod_notes as nat);
    let p2 = p1 + " ring-mod · "@;
    let p3 = p2 + number_text(c.hard_sync_notes as nat);
    let p4 = p3 + " hard-sync notes ("@;
    let p5 = p4 + number_text(c.hard_sync_attack_frames as nat);
    let p6 = p5 + " sync-attack frames) · measured sync "@;
    let p7 = p6 + number_text(c.hardware_sync_active_frames as nat);
    let p8 = p7 + "/"@;
    let p9 = p8 + number_text(c.hardware_sync_inactive_frames as nat);
    let p10 = p9 + " active/inactive · ring "@;
    let p11 = p10 + number_text(c.hardware_ring_active_frames as nat);
    let p12 = p11 + "/"@;
    let p13 = p12 + number_text(c.hardware_ring_inactive_frames as nat);
    begins_alike(p12, number_text(c.hardware_ring_inactive_frames as nat), line);
    begins_alike(p11, "/"@, line);
    begins_alike(p10, number_text(c.hardware_ring_active_frames as nat), line);
    begins_alike(p9, " active/inactive · ring "@, line);
    begins_alike(p8, number_text(c.hardware_sync_inactive_frames as nat), line);
    begins_alike(p7, "/"@, line);
    begins_alike(p6, number_text(c.hardware_sync_active_frames as nat), line);
    begins_alike(p5, " sync-attack frames) · measured sync "@, line);
    begins_alike(p4, number_text(c.hard_sync_attack_frames as nat), line);
    begins_alike(p3, " hard-sync notes ("@, line);
    begins_alike(p2, number_text(c.hard_sync_notes as nat), line);
    assert(Seq::<char>::empty() + "hardware: "@ =~= "hardware: "@);
    assert(stands_after(
        line,
        Seq::<char>::empty(),
        "hardware: "@,
        c.ring_mod_notes as nat,
        " ring-mod · "@,
    ));
    assert(stands_after(
        line,
        p1,
        " ring-mod · "@,
        c.hard_sync_notes as nat,
        " hard-sync notes ("@,
    ));
    assert(stands_after(
        line,
        p3,
        " hard-sync notes ("@,
        c.hard_sync_attack_frames as nat,
        " sync-attack frames) · measured sync "@,
    ));
    assert(stands_after(
        line,
        p5,
        " sync-attack frames) · measured sync "@,
        c.hardware_sync_active_frames as nat,
        "/"@,
    ));
    assert(stands_after(
        line,
        p7,
        "/"@,
        c.hardware_sync_inactive_frames as nat,
        " active/inactive · ring "@,
    ));
    assert(stands_after(
        line,
        p9,
        " active/inactive · ring "@,
        c.hardware_ring_active_frames as nat,
        "/"@,
    ));
    assert(p13 + Seq::<char>::empty() =~= p13);
    assert(stands_after(
        line,
        p11,
        "/"@,
        c.hardware_ring_inactive_frames as nat,
        Seq::<char>::empty(),
    ));
}

/// Attacks, releases and the kinds of velocities stand beside their words.
pub proof fn envelopes_are_reported(c: Census)
    ensures
        stands_between(
            c.envelope_line(),
            "envelope: "@,
            c.envelope.attack_entries as nat,
            " attacks · "@,
        ),
        stands_between(
            c.envelope_line(),
            " attacks · "@,
            c.envelope.release_entries as nat,
            " releases · "@,
        ),
        stands_between(
            c.envelope_line(),
            " releases · "@,
            c.envelope.reached_zero as nat,
            " reached-zero · velocity "@,
        ),
        stands_between(
            c.envelope_line(),
            " reached-zero · velocity "@,
            c.envelope.measured_velocity_notes as nat,
            "/"@,
        ),
        stands_between(
            c.envelope_line(),
            "/"@,
            c.envelope.static_velocity_notes as nat,
            " measured/static · "@,
        ),
        stands_between(
            c.envelope_line(),
            " measured/static · "@,
            c.envelope.automated_notes as nat,
            " automated · "@,
        ),
        stands_between(
            c.envelope_line(),
            " automated · "@,
            c.envelope.censored_sound_ends as nat,
            " censored · "@,
        ),
        stands_between(
            c.envelope_line(),
            " censored · "@,
            c.envelope.inexact_voice_calls_excluded as nat,
            " inexact voice-calls excluded"@,
        ),
{
    let line = c.envelope_line();
    let p0 = "envelope: "@;
    let p1 = p0 + number_text(c.envelope.attack_entries as nat);
    let p2 = p1 + " attacks · "@;
    let p3 = p2 + number_text(c.envelope.release_entries as nat);
    let p4 = p3 + " releases · "@;
    let p5 = p4 + number_text(c.envelope.reached_zero as nat);
    let p6 = p5 + " reached-zero · velocity "@;
    let p7 = p6 + number_text(c.envelope.measured_velocity_notes as nat);
    let p8 = p7 + "/"@;
    let p9 = p8 + number_text(c.envelope.static_velocity_notes as nat);
    let p10 = p9 + " measured/static · "@;
    let p11 = p10 + number_text(c.envelope.automated_notes as nat);
    let p12 = p11 + " automated · "@;
    let p13 = p12 + number_text(c.envelope.censored_sound_ends as nat);
    let p14 = p13 + " censored · "@;
    let p15 = p14 + number_text(c.envelope.inexact_voice_calls_excluded as nat);
    let p16 = p15 + " inexact voice-calls excluded"@;
    begins_alike(p15, " inexact voice-calls excluded"@, line);
    begins_alike(p14, number_text(c.envelope.inexact_voice_calls_excluded as nat), line);
    begins_alike(p13, " censored · "@, line);
    begins_alike(p12, number_text(c.envelope.censored_sound_ends as nat), line);
    begins_alike(p11, " automated · "@, line);
    begins_alike(p10, number_text(c.envelope.automated_notes as nat), line);
    begins_alike(p9, " measured/static · "@, line);
    begins_alike(p8, number_text(c.envelope.static_velocity_notes as nat), line);
    begins_alike(p7, "/"@, line);
    begins_alike(p6, number_text(c.envelope.measured_velocity_notes as nat), line);
    begins_alike(p5, " reached-zero · velocity "@, line);
    begins_alike(p4, number_text(c.envelope.reached_zero as nat), line);
    begins_alike(p3, " releases · "@, line);
    begins_alike(p2, number_text(c.envelope.release_entries as nat), line);
    assert(Seq::<char>::empty() + "envelope: "@ =~= "envelope: "@);
    assert(stands_after(
        line,
        Seq::<char>::empty(),
        "envelope: "@,
        c.envelope.attack_entries as nat,
        " attacks · "@,
    ));
    assert(stands_after(
        line,
        p1,
        " attacks · "@,
        c.envelope.release_entries as nat,
        " releases · "@,
    ));
    assert(stands_after(
        line,
        p3,
        " releases · "@,
        c.envelope.reached_zero as nat,
        " reached-zero · velocity "@,
    ));
    assert(stands_after(
        line,
        p5,
        " reached-zero · velocity "@,
        c.envelope.measured_velocity_notes as nat,
        "/"@,
    ));
    assert(stands_after(
        line,
        p7,
        "/"@,
        c.envelope.static_velocity_notes as nat,
        " measured/static · "@,
    ));
    assert(stands_after(
        line,
        p9,
        " measured/static · "@,
        c.envelope.automated_notes as nat,
        " automated · "@,
    ));
    assert(stands_after(
        line,
        p11,
        " automated · "@,
        c.envelope.censored_sound_ends as nat,
        " censored · "@,
    ));
    assert(stands_after(
        line,
        p13,
        " censored · "@,
        c.envelope.inexact_voice_calls_excluded as nat,
        " inexact voice-calls excluded"@,
    ));
}

/// Exact combinations and those that fell back stand before their words.
pub proof fn combinations_are_reported(c: Census)
    ensures
        stands_between(
            c.combination_line(),
            "combined waveforms: "@,
            c.combined_waveform_exact_frames as nat,
            " exact · "@,
        ),
        stands_between(
            c.combination_line(),
            " exact · "@,
            c.combined_waveform_fallback_frames as nat,
            " explicit fallback frames"@,
        ),
{
    let line = c.combination_line();
    let p0 = "combined waveforms: "@;
    let p1 = p0 + number_text(c.combined_waveform_exact_frames as nat);
    let p2 = p1 + " exact · "@;
    let p3 = p2 + number_text(c.combined_waveform_fallback_frames as nat);
    let p4 = p3 + " explicit fallback frames"@;
    begins_alike(p3, " explicit fallback frames"@, line);
    begins_alike(p2, number_text(c.combined_waveform_fallback_frames as nat), line);
    assert(Seq::<char>::empty() + "combined waveforms: "@ =~= "combined waveforms: "@);
    assert(stands_after(
        line,
        Seq::<char>::empty(),
        "combined waveforms: "@,
        c.combined_waveform_exact_frames as nat,
        " exact · "@,
    ));
    assert(stands_after(
        line,
        p1,
        " exact · "@,
        c.combined_waveform_fallback_frames as nat,
        " explicit fallback frames"@,
    ));
}

/// What the third oscillator was read for stands beside its words.
pub proof fn readings_are_reported(c: Census)
    ensures
        stands_between(c.osc3_line(), " · "@, c.osc3.reads as nat, " reads · "@),
        stands_between(c.osc3_line(), " reads · "@, c.osc3.evidence as nat, " evidence · "@),
        stands_between(
            c.osc3_line(),
            " evidence · "@,
            c.osc3.confidence_percent as nat,
            "% confidence"@,
        ),
{
    let line = c.osc3_line();
    let p0 = "OSC3: "@;
    let p1 = p0 + c.osc3.label@;
    let p2 = p1 + " · "@;
    let p3 = p2 + number_text(c.osc3.reads as nat);
    let p4 = p3 + " reads · "@;
    let p5 = p4 + number_text(c.osc3.evidence as nat);
    let p6 = p5 + " evidence · "@;
    let p7 = p6 + number_text(c.osc3.confidence_percent as nat);
    let p8 = p7 + "% confidence"@;
    begins_alike(p7, "% confidence"@, line);
    begins_alike(p6, number_text(c.osc3.confidence_percent as nat), line);
    begins_alike(p5, " evidence · "@, line);
    begins_alike(p4, number_text(c.osc3.evidence as nat), line);
    begins_alike(p3, " reads · "@, line);
    begins_alike(p2, number_text(c.osc3.reads as nat), line);
    assert(stands_after(line, p1, " · "@, c.osc3.reads as nat, " reads · "@));
    assert(stands_after(line, p3, " reads · "@, c.osc3.evidence as nat, " evidence · "@));
    assert(stands_after(
        line,
        p5,
        " evidence · "@,
        c.osc3.confidence_percent as nat,
        "% confidence"@,
    ));
}

/// Patterns, placements, graphs, points and bytes stand before their words.
pub proof fn structures_are_reported(c: Census)
    ensures
        stands_between(
            c.structure_line(),
            "structure: "@,
            c.song.patterns as nat,
            " musical patterns + "@,
        ),
        stands_between(
            c.structure_line(),
            " musical patterns + "@,
            c.song.automation_patterns as nat,
            " automation-only ("@,
        ),
        stands_between(
            c.structure_line(),
            " automation-only ("@,
            c.song.serialized_patterns as nat,
            " serialized) · "@,
        ),
        stands_between(
            c.structure_line(),
            " serialized) · "@,
            c.song.placements as nat,
            " placements · "@,
        ),
        stands_between(
            c.structure_line(),
            " placements · "@,
            c.song.note_graphs as nat,
            " note graphs · "@,
        ),
        stands_between(
            c.structure_line(),
            " note graphs · "@,
            c.song.automation_points as nat,
            " automation points · "@,
        ),
        stands_between(
            c.structure_line(),
            " automation points · "@,
            c.serialized_size as nat,
            " bytes"@,
        ),
{
    let line = c.structure_line();
    let p0 = "structure: "@;
    let p1 = p0 + number_text(c.song.patterns as nat);
    let p2 = p1 + " musical patterns + "@;
    let p3 = p2 + number_text(c.song.automation_patterns as nat);
    let p4 = p3 + " automation-only ("@;
    let p5 = p4 + number_text(c.song.serialized_patterns as nat);
    let p6 = p5 + " serialized) · "@;
    let p7 = p6 + number_text(c.song.placements as nat);
    let p8 = p7 + " placements · "@;
    let p9 = p8 + number_text(c.song.note_graphs as nat);
    let p10 = p9 + " note graphs · "@;
    let p11 = p10 + number_text(c.song.automation_points as nat);
    let p12 = p11 + " automation points · "@;
    let p13 = p12 + number_text(c.serialized_size as nat);
    let p14 = p13 + " bytes"@;
    begins_alike(p13, " bytes"@, line);
    begins_alike(p12, number_text(c.serialized_size as nat), line);
    begins_alike(p11, " automation points · "@, line);
    begins_alike(p10, number_text(c.song.automation_points as nat), line);
    begins_alike(p9, " note graphs · "@, line);
    begins_alike(p8, number_text(c.song.note_graphs as nat), line);
    begins_alike(p7, " placements · "@, line);
    begins_alike(p6, number_text(c.song.placements as nat), line);
    begins_alike(p5, " serialized) · "@, line);
    begins_alike(p4, number_text(c.song.serialized_patterns as nat), line);
    begins_alike(p3, " automation-only ("@, line);
    begins_alike(p2, number_text(c.song.automation_patterns as nat), line);
    assert(Seq::<char>::empty() + "structure: "@ =~= "structure: "@);
    assert(stands_after(
        line,
        Seq::<char>::empty(),
        "structure: "@,
        c.song.patterns as nat,
        " musical patterns + "@,
    ));
    assert(stands_after(
        line,
        p1,
        " musical patterns + "@,
        c.song.automation_patterns as nat,
        " automation-only ("@,
    ));
    assert(stands_after(
        line,
        p3,
        " automation-only ("@,
        c.song.serialized_patterns as nat,
        " serialized) · "@,
    ));
    assert(stands_after(line, p5, " serialized) · "@, c.song.placements as nat, " placements · "@));
    assert(stands_after(
        line,
        p7,
        " placements · "@,
        c.song.note_graphs as nat,
        " note graphs · "@,
    ));
    assert(stands_after(
        line,
        p9,
        " note graphs · "@,
        c.song.automation_points as nat,
        " automation points · "@,
    ));
    assert(stands_after(line, p11, " automation points · "@, c.serialized_size as nat, " bytes"@));
}

/// Overlaps of physical voices stand before their words, pairs before calls.
pub proof fn overlaps_are_reported(c: Census)
    ensures
        stands_between(
            c.voice_line(),
            "physical voices: "@,
            c.physical_voices.cross_plan_overlap_pairs as nat,
            " rendered overlap pairs · "@,
        ),
        stands_between(
            c.voice_line(),
            " rendered overlap pairs · "@,
            c.physical_voices.cross_plan_overlap_calls as nat,
            " overlap calls; "@,
        ),
        stands_between(
            c.voice_line(),
            " overlap calls; "@,
            c.physical_voices.source_release_overlap_pairs as nat,
            " source release overlaps choked ("@,
        ),
        stands_between(
            c.voice_line(),
            " source release overlaps choked ("@,
            c.physical_voices.source_release_overlap_calls as nat,
            " calls)"@,
        ),
{
    let line = c.voice_line();
    let p0 = "physical voices: "@;
    let p1 = p0 + number_text(c.physical_voices.cross_plan_overlap_pairs as nat);
    let p2 = p1 + " rendered overlap pairs · "@;
    let p3 = p2 + number_text(c.physical_voices.cross_plan_overlap_calls as nat);
    let p4 = p3 + " overlap calls; "@;
    let p5 = p4 + number_text(c.physical_voices.source_release_overlap_pairs as nat);
    let p6 = p5 + " source release overlaps choked ("@;
    let p7 = p6 + number_text(c.physical_voices.source_release_overlap_calls as nat);
    let p8 = p7 + " calls)"@;
    begins_alike(p7, " calls)"@, line);
    begins_alike(p6, number_text(c.physical_voices.source_release_overlap_calls as nat), line);
    begins_alike(p5, " source release overlaps choked ("@, line);
    begins_alike(p4, number_text(c.physical_voices.source_release_overlap_pairs as nat), line);
    begins_alike(p3, " overlap calls; "@, line);
    begins_alike(p2, number_text(c.physical_voices.cross_plan_overlap_calls as nat), line);
    assert(Seq::<char>::empty() + "physical voices: "@ =~= "physical voices: "@);
    assert(stands_after(
        line,
        Seq::<char>::empty(),
        "physical voices: "@,
        c.physical_voices.cross_plan_overlap_pairs as nat,
        " rendered overlap pairs · "@,
    ));
    assert(stands_after(
        line,
        p1,
        " rendered overlap pairs · "@,
        c.physical_voices.cross_plan_overlap_calls as nat,
        " overlap calls; "@,
    ));
    assert(stands_after(
        line,
        p3,
        " overlap calls; "@,
        c.physical_voices.source_release_overlap_pairs as nat,
        " source release overlaps choked ("@,
    ));
    assert(stands_after(
        line,
        p5,
        " source release overlaps choked ("@,
        c.physical_voices.source_release_overlap_calls as nat,
        " calls)"@,
    ));
}

} // verus!
