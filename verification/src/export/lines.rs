//! How the lines of a table follow each other.

use crate::numerals::{numeral, pad_left};
use super::text::{heading, note_column, open_before, row_text, table, FrameRow, VoiceCell};
use vstd::prelude::*;

verus! {

/// A note is named just where its voice gate opens and it has a pitch; it is followed by dots
/// while it is held, and a closed voice shows dashes.
pub proof fn notes_are_named_where_they_start(cell: VoiceCell, was_open: bool)
    ensures
        cell.gate && was_open ==> note_column(cell, was_open) == "..."@,
        !cell.gate ==> note_column(cell, was_open) == "---"@,
        cell.gate && !was_open && cell.note is Some ==> note_column(cell, was_open)
            == cell.note->0@,
        cell.gate && !was_open && cell.note is None ==> note_column(cell, was_open) == "---"@,
{
}

/// A voice was open before a row if the row above says so; before the first row none was.
pub proof fn voices_are_open_after_an_open_row(rows: Seq<FrameRow>, k: int, v: int)
    requires
        0 <= k < rows.len(),
        0 <= v < 3,
    ensures
        k == 0 ==> !open_before(rows, k, v),
        k > 0 ==> open_before(rows, k, v) == rows[k - 1].voices@[v].gate,
{
}

/// A table grows by one line for each frame, below what stands there already, and a line
/// starts with the padded number of its frame and ends where the next begins.
pub proof fn tables_grow_line_by_line(rows: Seq<FrameRow>, k: int)
    requires
        0 <= k < rows.len(),
    ensures
        ({
            let before = table(rows, k);
            let after = table(rows, k + 1);
            let number = pad_left(numeral(rows[k].frame.0 as nat, 10), 5, ' ');
            &&& after.len() > before.len()
            &&& after.take(before.len() as int) == before
            &&& after.skip(before.len() as int).take(number.len() as int) == number
            &&& after.last() == '\n'
        }),
        table(rows, 0) == heading(),
{
    reveal_strlit("\n");
    let before = table(rows, k);
    let line = row_text(rows, k);
    let after = table(rows, k + 1);
    let number = pad_left(numeral(rows[k].frame.0 as nat, 10), 5, ' ');
    assert(line.take(number.len() as int) =~= number);
    assert(after.take(before.len() as int) =~= before);
    assert(after.skip(before.len() as int) =~= line);
}

} // verus!
