//! A table of what the chip did, a line for each frame.

use crate::chars::{from_chars, to_chars};
use crate::numerals::{numeral, pad_left, push_decimal, push_text};
use crate::trace::{Adsr, FrameIndex};
use vstd::prelude::*;

verus! {

/// What a line tells of a voice.
#[derive(Debug)]
pub struct VoiceCell {
    pub gate: bool,
    /// The name of the note nearest to the frequency; none for silence.
    pub note: Option<String>,
    pub freq: String,
    pub waveform: String,
    pub adsr: Adsr,
    pub pulse_width: String,
}

/// What a line tells of a frame.
#[derive(Debug)]
pub struct FrameRow {
    pub frame: FrameIndex,
    pub voices: [VoiceCell; 3],
    pub cutoff: String,
    pub resonance: String,
    pub mode: String,
    pub volume: String,
}

/// The digits of an envelope.
pub open spec fn envelope_text(a: Adsr) -> Seq<char> {
    numeral(a.attack as nat, 16) + numeral(a.decay as nat, 16) + numeral(a.sustain as nat, 16)
        + numeral(a.release as nat, 16)
}

/// The column of a note: its name where the voice gate opens, dots while it is open, and
/// dashes while it is closed or without a pitch.
pub open spec fn note_column(cell: VoiceCell, was_open: bool) -> Seq<char> {
    if cell.gate && !was_open {
        match cell.note {
            Some(name) => name@,
            None => "---"@,
        }
    } else if cell.gate {
        "..."@
    } else {
        "---"@
    }
}

/// The columns of a voice.
pub open spec fn voice_columns(cell: VoiceCell, was_open: bool) -> Seq<char> {
    " | "@ + note_column(cell, was_open) + " "@ + cell.freq@ + " "@ + cell.waveform@ + " "@
        + envelope_text(cell.adsr) + " "@ + cell.pulse_width@
}

/// Whether a voice was gated before a row.
pub open spec fn open_before(rows: Seq<FrameRow>, k: int, v: int) -> bool {
    k > 0 && rows[k - 1].voices@[v].gate
}

/// A line of the table.
pub open spec fn row_text(rows: Seq<FrameRow>, k: int) -> Seq<char> {
    let row = rows[k];
    pad_left(numeral(row.frame.0 as nat, 10), 5, ' ') + voice_columns(
        row.voices@[0],
        open_before(rows, k, 0),
    ) + voice_columns(row.voices@[1], open_before(rows, k, 1)) + voice_columns(
        row.voices@[2],
        open_before(rows, k, 2),
    ) + " | "@ + row.cutoff@ + " "@ + row.resonance@ + " "@ + row.mode@ + " | "@ + row.volume@
        + "\n"@
}

/// The head of the table.
pub open spec fn heading() -> Seq<char> {
    "Frame | Note Freq Wave ADSR PW | Note Freq Wave ADSR PW | Note Freq Wave ADSR PW | Cut R Mode | V\n"@
}

/// The head and the first `k` lines of the table.
pub open spec fn table(rows: Seq<FrameRow>, k: int) -> Seq<char>
    decreases k,
{
    if k <= 0 {
        heading()
    } else {
        table(rows, k - 1) + row_text(rows, k - 1)
    }
}

fn note_text(cell: &VoiceCell, was_open: bool) -> (r: &str)
    ensures
        r@ == note_column(*cell, was_open),
{
    if cell.gate && !was_open {
        match &cell.note {
            Some(name) => name.as_str(),
            None => "---",
        }
    } else if cell.gate {
        "..."
    } else {
        "---"
    }
}

fn voice_text(cell: &VoiceCell, was_open: bool) -> (r: Vec<char>)
    ensures
        r@ == voice_columns(*cell, was_open),
{
    let mut out: Vec<char> = to_chars(" | ");
    push_text(&mut out, note_text(cell, was_open));
    push_text(&mut out, " ");
    push_text(&mut out, cell.freq.as_str());
    push_text(&mut out, " ");
    push_text(&mut out, cell.waveform.as_str());
    push_text(&mut out, " ");
    push_text(&mut out, cell.adsr.text().as_str());
    push_text(&mut out, " ");
    push_text(&mut out, cell.pulse_width.as_str());
    out
}

fn line_text(row: &FrameRow, open: [bool; 3]) -> (r: Vec<char>)
    ensures
        r@ == pad_left(numeral(row.frame.0 as nat, 10), 5, ' ') + voice_columns(
            row.voices@[0],
            open@[0],
        ) + voice_columns(row.voices@[1], open@[1]) + voice_columns(row.voices@[2], open@[2])
            + " | "@ + row.cutoff@ + " "@ + row.resonance@ + " "@ + row.mode@ + " | "@ + row.volume@
            + "\n"@,
{
    let mut out: Vec<char> = Vec::new();
    push_decimal(&mut out, row.frame.0 as u64, 5);
    assert(out@ =~= pad_left(numeral(row.frame.0 as nat, 10), 5, ' '));
    crate::numerals::push_slice(&mut out, voice_text(&row.voices[0], open[0]).as_slice());
    crate::numerals::push_slice(&mut out, voice_text(&row.voices[1], open[1]).as_slice());
    crate::numerals::push_slice(&mut out, voice_text(&row.voices[2], open[2]).as_slice());
    push_text(&mut out, " | ");
    push_text(&mut out, row.cutoff.as_str());
    push_text(&mut out, " ");
    push_text(&mut out, row.resonance.as_str());
    push_text(&mut out, " ");
    push_text(&mut out, row.mode.as_str());
    push_text(&mut out, " | ");
    push_text(&mut out, row.volume.as_str());
    push_text(&mut out, "\n");
    out
}

/// Writes the table.
pub fn write_text(rows: &[FrameRow]) -> (r: String)
    ensures
        r@ == table(rows@, rows@.len() as int),
{
    let mut out: Vec<char> = to_chars(
        "Frame | Note Freq Wave ADSR PW | Note Freq Wave ADSR PW | Note Freq Wave ADSR PW | Cut R Mode | V\n",
    );
    let mut open: [bool; 3] = [false, false, false];
    let mut k: usize = 0;
    while k < rows.len()
        invariant
            k <= rows@.len(),
            out@ == table(rows@, k as int),
            forall|v: int| 0 <= v < 3 ==> #[trigger] open@[v] == open_before(rows@, k as int, v),
        decreases rows@.len() - k,
    {
        let line: Vec<char> = line_text(&rows[k], open);
        crate::numerals::push_slice(&mut out, line.as_slice());
        open = [rows[k].voices[0].gate, rows[k].voices[1].gate, rows[k].voices[2].gate];
        k += 1;
    }
    from_chars(out.as_slice())
}

} // verus!
