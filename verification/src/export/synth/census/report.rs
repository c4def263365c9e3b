//! The report of a census.

use super::Census;
use super::super::naming::{number_text, push_number};
use crate::chars::{from_chars, to_chars};
use crate::numerals::{push_slice, push_text};
use vstd::prelude::*;

verus! {

/// The percentage that a part is of a whole, rounded to the nearest integer, from
/// the middle to the even one; none of nothing.
pub open spec fn percentage(part: nat, whole: nat) -> nat {
    if whole == 0 {
        0
    } else {
        let q = 100 * part / whole;
        let rest = 100 * part % whole;
        if 2 * rest > whole || (2 * rest == whole && q % 2 == 1) {
            q + 1
        } else {
            q
        }
    }
}

fn percent(part: u32, whole: u32) -> (r: u64)
    ensures
        r == percentage(part as nat, whole as nat),
{
    if whole == 0 {
        return 0;
    }
    let scaled: u64 = 100 * part as u64;
    let q: u64 = scaled / whole as u64;
    let rest: u64 = scaled % whole as u64;
    if 2 * rest > whole as u64 || (2 * rest == whole as u64 && q % 2 == 1) {
        q + 1
    } else {
        q
    }
}

impl Census {
    /// The line on how large the export is.
    pub open spec fn size_line(self) -> Seq<char> {
        "fidelity census: "@
            + number_text(self.frames as nat)
            + " frames · "@
            + number_text(self.instruments as nat)
            + " instruments · "@
            + number_text(self.tracks as nat)
            + " tracks · "@
            + number_text(self.notes_total as nat)
            + " notes"@
    }

    fn write_size(&self) -> (r: Vec<char>)
        ensures
            r@ == self.size_line(),
    {
        let mut out: Vec<char> = to_chars("fidelity census: ");
        push_number(&mut out, self.frames as u64);
        push_text(&mut out, " frames · ");
        push_number(&mut out, self.instruments as u64);
        push_text(&mut out, " instruments · ");
        push_number(&mut out, self.tracks as u64);
        push_text(&mut out, " tracks · ");
        push_number(&mut out, self.notes_total as u64);
        push_text(&mut out, " notes");
        out
    }

    /// The line on its notes and sounds.
    pub open spec fn notes_line(self) -> Seq<char> {
        "notes: "@
            + number_text(self.notes_percussion as nat)
            + " percussion · "@
            + number_text(self.notes_raw as nat)
            + " raw/low-fi · patches "@
            + number_text(self.patches_authored as nat)
            + "/"@
            + number_text(self.patches_total as nat)
            + " authored"@
    }

    fn write_notes(&self) -> (r: Vec<char>)
        ensures
            r@ == self.notes_line(),
    {
        let mut out: Vec<char> = to_chars("notes: ");
        push_number(&mut out, self.notes_percussion as u64);
        push_text(&mut out, " percussion · ");
        push_number(&mut out, self.notes_raw as u64);
        push_text(&mut out, " raw/low-fi · patches ");
        push_number(&mut out, self.patches_authored as u64);
        push_text(&mut out, "/");
        push_number(&mut out, self.patches_total as u64);
        push_text(&mut out, " authored");
        out
    }

    /// The line on its filter and its combined waveforms.
    pub open spec fn frame_line(self) -> Seq<char> {
        "frames: "@
            + number_text(self.filter_routed_frames as nat)
            + " filter-routed ("@
            + number_text(percentage(self.filter_routed_frames as nat, self.frames as nat))
            + "%) · "@
            + number_text(self.combined_waveform_frames as nat)
            + " combined-waveform ("@
            + number_text(percentage(self.combined_waveform_frames as nat, self.frames as nat))
            + "%)"@
    }

    fn write_frame(&self) -> (r: Vec<char>)
        ensures
            r@ == self.frame_line(),
    {
        let mut out: Vec<char> = to_chars("frames: ");
        push_number(&mut out, self.filter_routed_frames as u64);
        push_text(&mut out, " filter-routed (");
        push_number(&mut out, percent(self.filter_routed_frames, self.frames));
        push_text(&mut out, "%) · ");
        push_number(&mut out, self.combined_waveform_frames as u64);
        push_text(&mut out, " combined-waveform (");
        push_number(&mut out, percent(self.combined_waveform_frames, self.frames));
        push_text(&mut out, "%)");
        out
    }

    /// The line on the volume and the effects.
    pub open spec fn span_line(self) -> Seq<char> {
        "$D418 volume changes "@
            + number_text(self.d418_volume_changes as nat)
            + (if self.d418_digi_dropped {
            " (DIGI — volume lane dropped)"@
        } else {
            ""@
        })
            + " · PCM "@
            + number_text(self.d418_pcm_streams as nat)
            + " streams/"@
            + number_text(self.d418_pcm_events as nat)
            + " events · spans: "@
            + number_text(self.vibrato_spans as nat)
            + " vibrato ("@
            + number_text(self.vibrato_pitch_automation_notes as nat)
            + " pitch automated) · "@
            + number_text(self.portamento_spans as nat)
            + " portamento · "@
            + number_text(self.arpeggio_spans as nat)
            + " arpeggio"@
    }

    fn write_span(&self) -> (r: Vec<char>)
        ensures
            r@ == self.span_line(),
    {
        let mut out: Vec<char> = to_chars("$D418 volume changes ");
        push_number(&mut out, self.d418_volume_changes as u64);
        push_text(
            &mut out,
            if self.d418_digi_dropped {
                " (DIGI — volume lane dropped)"
            } else {
                ""
            },
        );
        push_text(&mut out, " · PCM ");
        push_number(&mut out, self.d418_pcm_streams as u64);
        push_text(&mut out, " streams/");
        push_number(&mut out, self.d418_pcm_events as u64);
        push_text(&mut out, " events · spans: ");
        push_number(&mut out, self.vibrato_spans as u64);
        push_text(&mut out, " vibrato (");
        push_number(&mut out, self.vibrato_pitch_automation_notes as u64);
        push_text(&mut out, " pitch automated) · ");
        push_number(&mut out, self.portamento_spans as u64);
        push_text(&mut out, " portamento · ");
        push_number(&mut out, self.arpeggio_spans as u64);
        push_text(&mut out, " arpeggio");
        out
    }

    /// The line on ring modulation and hard sync.
    pub open spec fn hardware_line(self) -> Seq<char> {
        "hardware: "@
            + number_text(self.ring_mod_notes as nat)
            + " ring-mod · "@
            + number_text(self.hard_sync_notes as nat)
            + " hard-sync notes ("@
            + number_text(self.hard_sync_attack_frames as nat)
            + " sync-attack frames) · measured sync "@
            + number_text(self.hardware_sync_active_frames as nat)
            + "/"@
            + number_text(self.hardware_sync_inactive_frames as nat)
            + " active/inactive · ring "@
            + number_text(self.hardware_ring_active_frames as nat)
            + "/"@
            + number_text(self.hardware_ring_inactive_frames as nat)
    }

    fn write_hardware(&self) -> (r: Vec<char>)
        ensures
            r@ == self.hardware_line(),
    {
        let mut out: Vec<char> = to_chars("hardware: ");
        push_number(&mut out, self.ring_mod_notes as u64);
        push_text(&mut out, " ring-mod · ");
        push_number(&mut out, self.hard_sync_notes as u64);
        push_text(&mut out, " hard-sync notes (");
        push_number(&mut out, self.hard_sync_attack_frames as u64);
        push_text(&mut out, " sync-attack frames) · measured sync ");
        push_number(&mut out, self.hardware_sync_active_frames as u64);
        push_text(&mut out, "/");
        push_number(&mut out, self.hardware_sync_inactive_frames as u64);
        push_text(&mut out, " active/inactive · ring ");
        push_number(&mut out, self.hardware_ring_active_frames as u64);
        push_text(&mut out, "/");
        push_number(&mut out, self.hardware_ring_inactive_frames as u64);
        out
    }

    /// The line on the envelopes.
    pub open spec fn envelope_line(self) -> Seq<char> {
        "envelope: "@
            + number_text(self.envelope.attack_entries as nat)
            + " attacks · "@
            + number_text(self.envelope.release_entries as nat)
            + " releases · "@
            + number_text(self.envelope.reached_zero as nat)
            + " reached-zero · velocity "@
            + number_text(self.envelope.measured_velocity_notes as nat)
            + "/"@
            + number_text(self.envelope.static_velocity_notes as nat)
            + " measured/static · "@
            + number_text(self.envelope.automated_notes as nat)
            + " automated · "@
            + number_text(self.envelope.censored_sound_ends as nat)
            + " censored · "@
            + number_text(self.envelope.inexact_voice_calls_excluded as nat)
            + " inexact voice-calls excluded"@
    }

    fn write_envelope(&self) -> (r: Vec<char>)
        ensures
            r@ == self.envelope_line(),
    {
        let mut out: Vec<char> = to_chars("envelope: ");
        push_number(&mut out, self.envelope.attack_entries as u64);
        push_text(&mut out, " attacks · ");
        push_number(&mut out, self.envelope.release_entries as u64);
        push_text(&mut out, " releases · ");
        push_number(&mut out, self.envelope.reached_zero as u64);
        push_text(&mut out, " reached-zero · velocity ");
        push_number(&mut out, self.envelope.measured_velocity_notes as u64);
        push_text(&mut out, "/");
        push_number(&mut out, self.envelope.static_velocity_notes as u64);
        push_text(&mut out, " measured/static · ");
        push_number(&mut out, self.envelope.automated_notes as u64);
        push_text(&mut out, " automated · ");
        push_number(&mut out, self.envelope.censored_sound_ends as u64);
        push_text(&mut out, " censored · ");
        push_number(&mut out, self.envelope.inexact_voice_calls_excluded as u64);
        push_text(&mut out, " inexact voice-calls excluded");
        out
    }

    /// The line on how combined waveforms are represented.
    pub open spec fn combination_line(self) -> Seq<char> {
        "combined waveforms: "@
            + number_text(self.combined_waveform_exact_frames as nat)
            + " exact · "@
            + number_text(self.combined_waveform_fallback_frames as nat)
            + " explicit fallback frames"@
    }

    fn write_combination(&self) -> (r: Vec<char>)
        ensures
            r@ == self.combination_line(),
    {
        let mut out: Vec<char> = to_chars("combined waveforms: ");
        push_number(&mut out, self.combined_waveform_exact_frames as u64);
        push_text(&mut out, " exact · ");
        push_number(&mut out, self.combined_waveform_fallback_frames as u64);
        push_text(&mut out, " explicit fallback frames");
        out
    }

    /// The line on what the third oscillator was used for.
    pub open spec fn osc3_line(self) -> Seq<char> {
        "OSC3: "@
            + self.osc3.label@
            + " · "@
            + number_text(self.osc3.reads as nat)
            + " reads · "@
            + number_text(self.osc3.evidence as nat)
            + " evidence · "@
            + number_text(self.osc3.confidence_percent as nat)
            + "% confidence"@
    }

    fn write_osc3(&self) -> (r: Vec<char>)
        ensures
            r@ == self.osc3_line(),
    {
        let mut out: Vec<char> = to_chars("OSC3: ");
        push_text(&mut out, self.osc3.label.as_str());
        push_text(&mut out, " · ");
        push_number(&mut out, self.osc3.reads as u64);
        push_text(&mut out, " reads · ");
        push_number(&mut out, self.osc3.evidence as u64);
        push_text(&mut out, " evidence · ");
        push_number(&mut out, self.osc3.confidence_percent as u64);
        push_text(&mut out, "% confidence");
        out
    }

    /// The line on how the song is put together.
    pub open spec fn structure_line(self) -> Seq<char> {
        "structure: "@
            + number_text(self.song.patterns as nat)
            + " musical patterns + "@
            + number_text(self.song.automation_patterns as nat)
            + " automation-only ("@
            + number_text(self.song.serialized_patterns as nat)
            + " serialized) · "@
            + number_text(self.song.placements as nat)
            + " placements · "@
            + number_text(self.song.note_graphs as nat)
            + " note graphs · "@
            + number_text(self.song.automation_points as nat)
            + " automation points · "@
            + number_text(self.serialized_size as nat)
            + " bytes"@
    }

    fn write_structure(&self) -> (r: Vec<char>)
        ensures
            r@ == self.structure_line(),
    {
        let mut out: Vec<char> = to_chars("structure: ");
        push_number(&mut out, self.song.patterns as u64);
        push_text(&mut out, " musical patterns + ");
        push_number(&mut out, self.song.automation_patterns as u64);
        push_text(&mut out, " automation-only (");
        push_number(&mut out, self.song.serialized_patterns as u64);
        push_text(&mut out, " serialized) · ");
        push_number(&mut out, self.song.placements as u64);
        push_text(&mut out, " placements · ");
        push_number(&mut out, self.song.note_graphs as u64);
        push_text(&mut out, " note graphs · ");
        push_number(&mut out, self.song.automation_points as u64);
        push_text(&mut out, " automation points · ");
        push_number(&mut out, self.serialized_size as u64);
        push_text(&mut out, " bytes");
        out
    }

    /// The line on notes that sound together on one voice.
    pub open spec fn voice_line(self) -> Seq<char> {
        "physical voices: "@
            + number_text(self.physical_voices.cross_plan_overlap_pairs as nat)
            + " rendered overlap pairs · "@
            + number_text(self.physical_voices.cross_plan_overlap_calls as nat)
            + " overlap calls; "@
            + number_text(self.physical_voices.source_release_overlap_pairs as nat)
            + " source release overlaps choked ("@
            + number_text(self.physical_voices.source_release_overlap_calls as nat)
            + " calls)"@
    }

    fn write_voice(&self) -> (r: Vec<char>)
        ensures
            r@ == self.voice_line(),
    {
        let mut out: Vec<char> = to_chars("physical voices: ");
        push_number(&mut out, self.physical_voices.cross_plan_overlap_pairs as u64);
        push_text(&mut out, " rendered overlap pairs · ");
        push_number(&mut out, self.physical_voices.cross_plan_overlap_calls as u64);
        push_text(&mut out, " overlap calls; ");
        push_number(&mut out, self.physical_voices.source_release_overlap_pairs as u64);
        push_text(&mut out, " source release overlaps choked (");
        push_number(&mut out, self.physical_voices.source_release_overlap_calls as u64);
        push_text(&mut out, " calls)");
        out
    }

    /// The report: a line on each subject, and one on how well the notes agree with
    /// the trace.
    pub open spec fn report(self, fidelity: Seq<char>) -> Seq<char> {
        self.size_line()
            + "\n  "@ + self.notes_line()
            + "\n  "@ + self.frame_line()
            + "\n  "@ + self.span_line()
            + "\n  "@ + self.hardware_line()
            + "\n  "@ + self.envelope_line()
            + "\n  "@ + self.combination_line()
            + "\n  "@ + self.osc3_line()
            + "\n  "@ + self.structure_line()
            + "\n  "@ + self.voice_line()
            + "\n  "@ + fidelity
    }

    /// Writes the report. `fidelity` tells how well the notes agree with the trace.
    pub fn stderr_summary(&self, fidelity: &str) -> (r: String)
        ensures
            r@ == self.report(fidelity@),
    {
        let mut out: Vec<char> = self.write_size();
        push_text(&mut out, "\n  ");
        push_slice(&mut out, self.write_notes().as_slice());
        push_text(&mut out, "\n  ");
        push_slice(&mut out, self.write_frame().as_slice());
        push_text(&mut out, "\n  ");
        push_slice(&mut out, self.write_span().as_slice());
        push_text(&mut out, "\n  ");
        push_slice(&mut out, self.write_hardware().as_slice());
        push_text(&mut out, "\n  ");
        push_slice(&mut out, self.write_envelope().as_slice());
        push_text(&mut out, "\n  ");
        push_slice(&mut out, self.write_combination().as_slice());
        push_text(&mut out, "\n  ");
        push_slice(&mut out, self.write_osc3().as_slice());
        push_text(&mut out, "\n  ");
        push_slice(&mut out, self.write_structure().as_slice());
        push_text(&mut out, "\n  ");
        push_slice(&mut out, self.write_voice().as_slice());
        push_text(&mut out, "\n  ");
        push_text(&mut out, fidelity);
        from_chars(out.as_slice())
    }
}

} // verus!
