# sid_analyzer

Analysis of Commodore 64 SID tunes, and their export as projects for a software
synthesizer. The library under `src/` is verified with Verus; `app/` holds the ordinary
Rust around it: files, floating-point measures, and the written project.

- `header`, `trace`, `support`: the tune file and what was recorded while it played.
- `playerid`, `songlengths`, `stil`: the databases of players, lengths and tune
  information.
- `analysis`: the data that the export works on.
- `export::text`: the table of what the chip did.
- `export::synth`: the export. `tracks` puts notes on tracks, `notes` and `emission`
  write them, `instruments` builds what plays them, `song` assembles patterns and
  automation, `lowering` chooses how each part of a program is represented, `modern`
  and `enhance` restyle the sound, `census` counts what was kept and what was not, and
  `project` puts everything together.

Numbers that the library only carries are bit patterns of single-precision numbers.
Numbers that it computes with are integers or exact fractions.
