//! Register traces: what a tune writes to and reads from the SID, call by call.

use crate::chars::from_chars;
use crate::header::SidModel;
use crate::numerals::{numeral, pad_left, push_decimal, push_hex, push_text};
use vstd::prelude::*;

verus! {

/// The last SID register.
pub const SID_REGISTER_LAST: u8 = 0x1C;

/// Offset from `$D400`, at most [`SID_REGISTER_LAST`].
#[derive(Debug, Clone, Copy, PartialEq, Eq, Structural, PartialOrd, Ord)]
#[must_use]
pub struct SidRegister(pub u8);

/// The name of a voice register by its place among the seven of its voice.
pub open spec fn voice_field(n: int) -> Seq<char> {
    if n == 0 {
        "freq_lo"@
    } else if n == 1 {
        "freq_hi"@
    } else if n == 2 {
        "pw_lo"@
    } else if n == 3 {
        "pw_hi"@
    } else if n == 4 {
        "ctrl"@
    } else if n == 5 {
        "ad"@
    } else {
        "sr"@
    }
}

/// The prefix of a voice's registers.
pub open spec fn voice_prefix(v: int) -> Seq<char> {
    if v == 0 {
        "v1."@
    } else if v == 1 {
        "v2."@
    } else {
        "v3."@
    }
}

/// The label of a register: seven registers for each of the three voices, then
/// the filter, the paddles and the third voice's outputs.
pub open spec fn register_label(n: u8) -> Option<Seq<char>> {
    if n < 21 {
        Some(voice_prefix(n as int / 7) + voice_field(n as int % 7))
    } else if n == 21 {
        Some("filt.cutoff_lo"@)
    } else if n == 22 {
        Some("filt.cutoff_hi"@)
    } else if n == 23 {
        Some("filt.res_routing"@)
    } else if n == 24 {
        Some("filt.mode_vol"@)
    } else if n == 25 {
        Some("paddle_x"@)
    } else if n == 26 {
        Some("paddle_y"@)
    } else if n == 27 {
        Some("v3.osc"@)
    } else if n == 28 {
        Some("v3.env"@)
    } else {
        None
    }
}

proof fn reveal_voice_parts()
    ensures
        "freq_lo"@ =~= seq!['f', 'r', 'e', 'q', '_', 'l', 'o'],
        "freq_hi"@ =~= seq!['f', 'r', 'e', 'q', '_', 'h', 'i'],
        "pw_lo"@ =~= seq!['p', 'w', '_', 'l', 'o'],
        "pw_hi"@ =~= seq!['p', 'w', '_', 'h', 'i'],
        "ctrl"@ =~= seq!['c', 't', 'r', 'l'],
        "ad"@ =~= seq!['a', 'd'],
        "sr"@ =~= seq!['s', 'r'],
        "v1."@ =~= seq!['v', '1', '.'],
        "v2."@ =~= seq!['v', '2', '.'],
        "v3."@ =~= seq!['v', '3', '.'],
{
    reveal_strlit("freq_lo");
    reveal_strlit("freq_hi");
    reveal_strlit("pw_lo");
    reveal_strlit("pw_hi");
    reveal_strlit("ctrl");
    reveal_strlit("ad");
    reveal_strlit("sr");
    reveal_strlit("v1.");
    reveal_strlit("v2.");
    reveal_strlit("v3.");
}

fn label_v1(n: u8) -> (r: &'static str)
    requires
        n < 7,
    ensures
        r@ == "v1."@ + voice_field(n as int),
{
    proof {
        reveal_voice_parts();
        reveal_strlit("v1.freq_lo");
        reveal_strlit("v1.freq_hi");
        reveal_strlit("v1.pw_lo");
        reveal_strlit("v1.pw_hi");
        reveal_strlit("v1.ctrl");
        reveal_strlit("v1.ad");
        reveal_strlit("v1.sr");
    }
    let r: &'static str = match n {
        0 => "v1.freq_lo",
        1 => "v1.freq_hi",
        2 => "v1.pw_lo",
        3 => "v1.pw_hi",
        4 => "v1.ctrl",
        5 => "v1.ad",
        _ => "v1.sr",
    };
    assert(r@ =~= "v1."@ + voice_field(n as int));
    r
}

fn label_v2(n: u8) -> (r: &'static str)
    requires
        n < 7,
    ensures
        r@ == "v2."@ + voice_field(n as int),
{
    proof {
        reveal_voice_parts();
        reveal_strlit("v2.freq_lo");
        reveal_strlit("v2.freq_hi");
        reveal_strlit("v2.pw_lo");
        reveal_strlit("v2.pw_hi");
        reveal_strlit("v2.ctrl");
        reveal_strlit("v2.ad");
        reveal_strlit("v2.sr");
    }
    let r: &'static str = match n {
        0 => "v2.freq_lo",
        1 => "v2.freq_hi",
        2 => "v2.pw_lo",
        3 => "v2.pw_hi",
        4 => "v2.ctrl",
        5 => "v2.ad",
        _ => "v2.sr",
    };
    assert(r@ =~= "v2."@ + voice_field(n as int));
    r
}

fn label_v3(n: u8) -> (r: &'static str)
    requires
        n < 7,
    ensures
        r@ == "v3."@ + voice_field(n as int),
{
    proof {
        reveal_voice_parts();
        reveal_strlit("v3.freq_lo");
        reveal_strlit("v3.freq_hi");
        reveal_strlit("v3.pw_lo");
        reveal_strlit("v3.pw_hi");
        reveal_strlit("v3.ctrl");
        reveal_strlit("v3.ad");
        reveal_strlit("v3.sr");
    }
    let r: &'static str = match n {
        0 => "v3.freq_lo",
        1 => "v3.freq_hi",
        2 => "v3.pw_lo",
        3 => "v3.pw_hi",
        4 => "v3.ctrl",
        5 => "v3.ad",
        _ => "v3.sr",
    };
    assert(r@ =~= "v3."@ + voice_field(n as int));
    r
}

impl SidRegister {
    /// Human label for the register, such as `v1.freq_lo` or `filt.mode_vol`;
    /// `None` past [`SID_REGISTER_LAST`].
    #[must_use]
    pub fn label(self) -> (r: Option<&'static str>)
        ensures
            match r {
                Some(s) => register_label(self.0) == Some(s@),
                None => register_label(self.0) is None,
            },
            r is Some <==> self.0 <= SID_REGISTER_LAST,
    {
        let n: u8 = self.0;
        if n < 7 {
            Some(label_v1(n))
        } else if n < 14 {
            Some(label_v2(n - 7))
        } else if n < 21 {
            Some(label_v3(n - 14))
        } else {
            match n {
                21 => Some("filt.cutoff_lo"),
                22 => Some("filt.cutoff_hi"),
                23 => Some("filt.res_routing"),
                24 => Some("filt.mode_vol"),
                25 => Some("paddle_x"),
                26 => Some("paddle_y"),
                27 => Some("v3.osc"),
                28 => Some("v3.env"),
                _ => None,
            }
        }
    }

    /// The register's address as text.
    pub open spec fn address_text(self) -> Seq<char> {
        "$D4"@ + pad_left(numeral(self.0 as nat, 16), 2, '0')
    }

    /// The register's address as text, such as `$D418`.
    pub fn text(self) -> (r: String)
        ensures
            r@ == self.address_text(),
    {
        let mut out: Vec<char> = Vec::new();
        push_text(&mut out, "$D4");
        push_hex(&mut out, self.0 as u64, 2);
        assert(out@ =~= self.address_text());
        from_chars(out.as_slice())
    }
}

/// ADSR envelope register nibbles: each field is at most 15.
#[derive(Debug, Clone, Copy, PartialEq, Eq, Structural, Hash)]
#[must_use]
pub struct Adsr {
    pub attack: u8,
    pub decay: u8,
    pub sustain: u8,
    pub release: u8,
}

impl Default for Adsr {
    fn default() -> (r: Adsr)
        ensures
            r == (Adsr { attack: 0, decay: 0, sustain: 0, release: 0 }),
    {
        Adsr { attack: 0, decay: 0, sustain: 0, release: 0 }
    }
}

/// Two nibbles in one byte, the first one high.
pub open spec fn nibbles(high: u8, low: u8) -> u8 {
    ((high % 16) * 16 + low % 16) as u8
}

/// The envelope that two register bytes hold.
pub open spec fn adsr_of_bytes(ad: u8, sr: u8) -> Adsr {
    Adsr { attack: ad / 16, decay: ad % 16, sustain: sr / 16, release: sr % 16 }
}

fn join_nibbles(high: u8, low: u8) -> (r: u8)
    ensures
        r == nibbles(high, low),
{
    (high % 16) * 16 + low % 16
}

impl Adsr {
    /// Whether every field is a nibble.
    pub open spec fn valid(self) -> bool {
        self.attack < 16 && self.decay < 16 && self.sustain < 16 && self.release < 16
    }

    /// Encodes the envelope as the two register bytes `AD` and `SR`.
    #[must_use]
    pub fn to_bytes(self) -> (r: (u8, u8))
        ensures
            r.0 == nibbles(self.attack, self.decay),
            r.1 == nibbles(self.sustain, self.release),
            self.valid() ==> adsr_of_bytes(r.0, r.1) == self,
    {
        (join_nibbles(self.attack, self.decay), join_nibbles(self.sustain, self.release))
    }

    /// Decodes the two register bytes `AD` and `SR`.
    pub fn from_bytes(ad: u8, sr: u8) -> (r: Adsr)
        ensures
            r == adsr_of_bytes(ad, sr),
            r.valid(),
    {
        Adsr { attack: ad / 16, decay: ad % 16, sustain: sr / 16, release: sr % 16 }
    }

    /// The four fields as hexadecimal digits.
    pub fn text(self) -> (r: String)
        ensures
            r@ == numeral(self.attack as nat, 16) + numeral(self.decay as nat, 16) + numeral(
                self.sustain as nat,
                16,
            ) + numeral(self.release as nat, 16),
    {
        let mut out: Vec<char> = Vec::new();
        push_hex(&mut out, self.attack as u64, 0);
        push_hex(&mut out, self.decay as u64, 0);
        push_hex(&mut out, self.sustain as u64, 0);
        push_hex(&mut out, self.release as u64, 0);
        assert(out@ =~= numeral(self.attack as nat, 16) + numeral(self.decay as nat, 16) + numeral(
            self.sustain as nat,
            16,
        ) + numeral(self.release as nat, 16));
        from_chars(out.as_slice())
    }
}

/// Encoding and decoding an envelope undo each other: decoded bytes encode to
/// themselves, and an envelope of nibbles comes back from its bytes.
pub proof fn adsr_bytes_round_trip(ad: u8, sr: u8, a: Adsr)
    requires
        a.valid(),
    ensures
        nibbles(adsr_of_bytes(ad, sr).attack, adsr_of_bytes(ad, sr).decay) == ad,
        nibbles(adsr_of_bytes(ad, sr).sustain, adsr_of_bytes(ad, sr).release) == sr,
        adsr_of_bytes(nibbles(a.attack, a.decay), nibbles(a.sustain, a.release)) == a,
{
    byte_splits(ad);
    byte_splits(sr);
    nibbles_come_back(a.attack, a.decay);
    nibbles_come_back(a.sustain, a.release);
}

proof fn byte_splits(b: u8)
    ensures
        nibbles(b / 16, b % 16) == b,
{
}

proof fn nibbles_come_back(high: u8, low: u8)
    requires
        high < 16,
        low < 16,
    ensures
        nibbles(high, low) / 16 == high,
        nibbles(high, low) % 16 == low,
{
}

/// Scheduled play-call index within a trace, from zero.
#[derive(Debug, Clone, Copy, PartialEq, Eq, Structural, PartialOrd, Ord)]
#[must_use]
pub struct FrameIndex(pub u32);

impl FrameIndex {
    /// The index in decimal.
    pub fn text(self) -> (r: String)
        ensures
            r@ == numeral(self.0 as nat, 10),
    {
        let mut out: Vec<char> = Vec::new();
        push_decimal(&mut out, self.0 as u64, 0);
        assert(out@ =~= numeral(self.0 as nat, 10));
        from_chars(out.as_slice())
    }
}

/// Absolute cycle on the SID's clock, with cycle zero at init entry.
#[derive(Debug, Clone, Copy, PartialEq, Eq, Structural, PartialOrd, Ord)]
#[must_use]
pub struct ChipCycle(pub u64);

/// Absolute cycle count of the CPU.
#[derive(Debug, Clone, Copy, PartialEq, Eq, Structural, PartialOrd, Ord)]
#[must_use]
pub struct CpuCycle(pub u64);

/// Elapsed CPU cycles.
#[derive(Debug, Clone, Copy, PartialEq, Eq, Structural, PartialOrd, Ord)]
#[must_use]
pub struct CpuCycles(pub u64);

/// CPU-cycle offset at the start of an instruction within one call. Events with
/// the same offset keep their order in the trace.
#[derive(Debug, Clone, Copy, PartialEq, Eq, Structural, PartialOrd, Ord)]
#[must_use]
pub struct SubFrameOffset(pub u32);

/// One write to a SID register.
#[derive(Debug, Clone, Copy, PartialEq, Eq, Structural)]
#[must_use]
pub struct RegisterWrite {
    pub reg: SidRegister,
    pub value: u8,
    pub offset: SubFrameOffset,
}

/// One read of a SID register.
#[derive(Debug, Clone, Copy, PartialEq, Eq, Structural)]
#[must_use]
pub struct RegisterRead {
    pub reg: SidRegister,
    pub value: u8,
    pub offset: SubFrameOffset,
}

impl SubFrameOffset {
    /// The offset in decimal.
    pub fn text(self) -> (r: String)
        ensures
            r@ == numeral(self.0 as nat, 10),
    {
        let mut out: Vec<char> = Vec::new();
        push_decimal(&mut out, self.0 as u64, 0);
        assert(out@ =~= numeral(self.0 as nat, 10));
        from_chars(out.as_slice())
    }
}

impl RegisterWrite {
    /// The write as a line of a listing.
    pub open spec fn line(self) -> Seq<char> {
        "cycle="@ + pad_left(numeral(self.offset.0 as nat, 10), 5, ' ') + " "@
            + self.reg.address_text() + " = "@ + pad_left(numeral(self.value as nat, 16), 2, '0')
    }

    /// The write as a line of a listing.
    pub fn text(self) -> (r: String)
        ensures
            r@ == self.line(),
    {
        let mut out: Vec<char> = Vec::new();
        push_text(&mut out, "cycle=");
        push_decimal(&mut out, self.offset.0 as u64, 5);
        push_text(&mut out, " ");
        push_text(&mut out, "$D4");
        push_hex(&mut out, self.reg.0 as u64, 2);
        push_text(&mut out, " = ");
        push_hex(&mut out, self.value as u64, 2);
        assert(out@ =~= self.line());
        from_chars(out.as_slice())
    }
}

/// What one play call did.
#[derive(Debug, Clone)]
pub struct FrameTrace {
    pub frame: FrameIndex,
    /// Absolute start of this scheduled play call.
    pub start_cycle: ChipCycle,
    /// CPU time spent executing the play routine.
    pub duration: CpuCycles,
    /// CPU time beyond the originally scheduled next call boundary.
    pub overrun: CpuCycles,
    /// Sampling boundary after the call's writes and idle advancement.
    pub end_cycle: ChipCycle,
    pub writes: Vec<RegisterWrite>,
    pub reads: Vec<RegisterRead>,
}

impl Default for FrameTrace {
    fn default() -> (r: FrameTrace)
        ensures
            r.frame == FrameIndex(0),
            r.start_cycle == ChipCycle(0),
            r.duration == CpuCycles(0),
            r.overrun == CpuCycles(0),
            r.end_cycle == ChipCycle(0),
            r.writes@.len() == 0,
            r.reads@.len() == 0,
    {
        FrameTrace {
            frame: FrameIndex(0),
            start_cycle: ChipCycle(0),
            duration: CpuCycles(0),
            overrun: CpuCycles(0),
            end_cycle: ChipCycle(0),
            writes: Vec::new(),
            reads: Vec::new(),
        }
    }
}

/// The accesses of a whole run.
#[derive(Debug, Clone)]
pub struct Trace {
    /// SID model declared by the file header.
    pub sid_model: SidModel,
    /// Writes during init. Many tunes set master volume and filter routing here
    /// once and never touch them again.
    pub init_writes: Vec<RegisterWrite>,
    pub init_reads: Vec<RegisterRead>,
    pub init_duration: CpuCycles,
    /// Init CPU time beyond the first nominal play-call boundary.
    pub init_overrun: CpuCycles,
    /// Whether scheduled call timing is exact.
    pub timing_exact: bool,
    pub frames: Vec<FrameTrace>,
}

impl Default for Trace {
    fn default() -> (r: Trace)
        ensures
            r.sid_model == SidModel::Unknown,
            r.init_writes@.len() == 0,
            r.init_reads@.len() == 0,
            r.init_duration == CpuCycles(0),
            r.init_overrun == CpuCycles(0),
            r.timing_exact,
            r.frames@.len() == 0,
    {
        Trace {
            sid_model: SidModel::Unknown,
            init_writes: Vec::new(),
            init_reads: Vec::new(),
            init_duration: CpuCycles(0),
            init_overrun: CpuCycles(0),
            timing_exact: true,
            frames: Vec::new(),
        }
    }
}

/// How many writes the play calls made.
pub open spec fn frame_writes(frames: Seq<FrameTrace>) -> nat
    decreases frames.len(),
{
    if frames.len() == 0 {
        0
    } else {
        frame_writes(frames.drop_last()) + frames.last().writes@.len()
    }
}

/// How many of the reads hit a register from `lo` to `hi`.
pub open spec fn reads_between(reads: Seq<RegisterRead>, lo: u8, hi: u8) -> nat
    decreases reads.len(),
{
    if reads.len() == 0 {
        0
    } else {
        reads_between(reads.drop_last(), lo, hi) + if lo <= reads.last().reg.0 <= hi {
            1nat
        } else {
            0
        }
    }
}

/// How many reads of the play calls hit a register.
pub open spec fn frame_reads(frames: Seq<FrameTrace>, reg: u8) -> nat
    decreases frames.len(),
{
    if frames.len() == 0 {
        0
    } else {
        frame_reads(frames.drop_last(), reg) + reads_between(frames.last().reads@, reg, reg)
    }
}

/// How often each play call read the third voice's outputs.
pub open spec fn voice3_reads(frames: Seq<FrameTrace>) -> Seq<u32> {
    Seq::new(frames.len(), |i: int| reads_between(frames[i].reads@, 0x1B, 0x1C) as u32)
}

/// The sum of some counts.
pub open spec fn sum_of(counts: Seq<u32>) -> nat
    decreases counts.len(),
{
    if counts.len() == 0 {
        0
    } else {
        sum_of(counts.drop_last()) + counts.last() as nat
    }
}

proof fn frame_counts_grow(frames: Seq<FrameTrace>, n: int, reg: u8)
    requires
        0 <= n <= frames.len(),
    ensures
        frame_writes(frames.take(n)) <= frame_writes(frames),
        frame_reads(frames.take(n), reg) <= frame_reads(frames, reg),
    decreases frames.len() - n,
{
    if n == frames.len() {
        assert(frames.take(n) =~= frames);
    } else {
        frame_counts_grow(frames, n + 1, reg);
        assert(frames.take(n + 1).drop_last() =~= frames.take(n));
    }
}

fn count_reads(reads: &Vec<RegisterRead>, lo: u8, hi: u8) -> (r: usize)
    ensures
        r == reads_between(reads@, lo, hi),
{
    let mut count: usize = 0;
    let mut i: usize = 0;
    assert(reads@.take(0) =~= Seq::<RegisterRead>::empty());
    while i < reads.len()
        invariant
            i <= reads@.len(),
            count <= i,
            count == reads_between(reads@.take(i as int), lo, hi),
        decreases reads@.len() - i,
    {
        assert(reads@.take(i + 1).drop_last() =~= reads@.take(i as int));
        let reg: u8 = reads[i].reg.0;
        if lo <= reg && reg <= hi {
            count += 1;
        }
        i += 1;
    }
    assert(reads@.take(reads@.len() as int) =~= reads@);
    count
}

impl Trace {
    /// How many writes the whole run made.
    pub open spec fn write_count(self) -> nat {
        self.init_writes@.len() + frame_writes(self.frames@)
    }

    /// How many reads of the whole run hit a register.
    pub open spec fn read_count(self, reg: u8) -> nat {
        reads_between(self.init_reads@, reg, reg) + frame_reads(self.frames@, reg)
    }

    /// How many writes the whole run made.
    #[must_use]
    pub fn total_writes(&self) -> (r: usize)
        requires
            self.write_count() <= usize::MAX,
        ensures
            r == self.write_count(),
    {
        let mut count: usize = self.init_writes.len();
        let mut i: usize = 0;
        assert(self.frames@.take(0) =~= Seq::<FrameTrace>::empty());
        while i < self.frames.len()
            invariant
                i <= self.frames@.len(),
                self.write_count() <= usize::MAX,
                count == self.init_writes@.len() + frame_writes(self.frames@.take(i as int)),
            decreases self.frames@.len() - i,
        {
            assert(self.frames@.take(i + 1).drop_last() =~= self.frames@.take(i as int));
            proof {
                frame_counts_grow(self.frames@, i + 1, 0);
            }
            count += self.frames[i].writes.len();
            i += 1;
        }
        assert(self.frames@.take(self.frames@.len() as int) =~= self.frames@);
        count
    }

    /// How often each play call read the third voice's outputs, `$D41B` and
    /// `$D41C`.
    #[must_use]
    pub fn voice3_reads_per_frame(&self) -> (r: Vec<u32>)
        ensures
            r@ == voice3_reads(self.frames@),
    {
        let mut out: Vec<u32> = Vec::new();
        let mut i: usize = 0;
        while i < self.frames.len()
            invariant
                i <= self.frames@.len(),
                out@.len() == i,
                forall|j: int|
                    0 <= j < i ==> #[trigger] out@[j] == reads_between(
                        self.frames@[j].reads@,
                        0x1B,
                        0x1C,
                    ) as u32,
            decreases self.frames@.len() - i,
        {
            out.push(count_reads(&self.frames[i].reads, 0x1B, 0x1C) as u32);
            i += 1;
        }
        assert(out@ =~= voice3_reads(self.frames@));
        out
    }

    fn count_register_reads(&self, reg: u8) -> (r: usize)
        requires
            self.read_count(reg) <= usize::MAX,
        ensures
            r == self.read_count(reg),
    {
        let mut count: usize = count_reads(&self.init_reads, reg, reg);
        let mut i: usize = 0;
        assert(self.frames@.take(0) =~= Seq::<FrameTrace>::empty());
        while i < self.frames.len()
            invariant
                i <= self.frames@.len(),
                self.read_count(reg) <= usize::MAX,
                count == reads_between(self.init_reads@, reg, reg) + frame_reads(
                    self.frames@.take(i as int),
                    reg,
                ),
            decreases self.frames@.len() - i,
        {
            assert(self.frames@.take(i + 1).drop_last() =~= self.frames@.take(i as int));
            proof {
                frame_counts_grow(self.frames@, i + 1, reg);
            }
            count += count_reads(&self.frames[i].reads, reg, reg);
            i += 1;
        }
        assert(self.frames@.take(self.frames@.len() as int) =~= self.frames@);
        count
    }

    /// How often the third oscillator's output was read.
    #[must_use]
    pub fn osc3_read_count(&self) -> (r: usize)
        requires
            self.read_count(0x1B) <= usize::MAX,
        ensures
            r == self.read_count(0x1B),
    {
        self.count_register_reads(0x1B)
    }

    /// How often the third envelope's output was read.
    #[must_use]
    pub fn env3_read_count(&self) -> (r: usize)
        requires
            self.read_count(0x1C) <= usize::MAX,
        ensures
            r == self.read_count(0x1C),
    {
        self.count_register_reads(0x1C)
    }
}

proof fn reads_are_few(reads: Seq<RegisterRead>, lo: u8, hi: u8)
    ensures
        reads_between(reads, lo, hi) <= reads.len(),
    decreases reads.len(),
{
    if reads.len() > 0 {
        reads_are_few(reads.drop_last(), lo, hi);
    }
}

proof fn frame_reads_add_up(frames: Seq<FrameTrace>)
    requires
        forall|i: int| 0 <= i < frames.len() ==> (#[trigger] frames[i]).reads@.len() <= u32::MAX,
    ensures
        sum_of(voice3_reads(frames)) == frame_reads(frames, 0x1B) + frame_reads(frames, 0x1C),
    decreases frames.len(),
{
    if frames.len() > 0 {
        frame_reads_add_up(frames.drop_last());
        assert(voice3_reads(frames).drop_last() =~= voice3_reads(frames.drop_last()));
        reads_are_few(frames.last().reads@, 0x1B, 0x1C);
        voice3_reads_split(frames.last().reads@);
    }
}

/// The reads of the third voice's outputs that are counted call by call, and those
/// made before the first call, are together those of its oscillator and its envelope.
pub proof fn voice3_reads_add_up(trace: Trace)
    requires
        forall|i: int|
            0 <= i < trace.frames@.len() ==> (#[trigger] trace.frames@[i]).reads@.len() <= u32::MAX,
    ensures
        voice3_reads(trace.frames@).len() == trace.frames@.len(),
        sum_of(voice3_reads(trace.frames@)) + reads_between(trace.init_reads@, 0x1B, 0x1B)
            + reads_between(trace.init_reads@, 0x1C, 0x1C) == trace.read_count(0x1B)
            + trace.read_count(0x1C),
{
    frame_reads_add_up(trace.frames@);
}

/// A read of the third voice's outputs is either one of its oscillator or one
/// of its envelope.
pub proof fn voice3_reads_split(reads: Seq<RegisterRead>)
    ensures
        reads_between(reads, 0x1B, 0x1C) == reads_between(reads, 0x1B, 0x1B) + reads_between(
            reads,
            0x1C,
            0x1C,
        ),
    decreases reads.len(),
{
    if reads.len() > 0 {
        voice3_reads_split(reads.drop_last());
    }
}

/// Every voice has the same seven registers, under its own prefix, in the same order.
pub proof fn voices_have_the_same_registers(n: u8)
    requires
        n < 7,
    ensures
        exists|field: Seq<char>|
            register_label(n) == Some("v1."@ + field) && register_label((n + 7) as u8) == Some(
                #[trigger] ("v2."@ + field),
            ) && register_label((n + 14) as u8) == Some("v3."@ + field),
        register_label(0) == Some("v1."@ + "freq_lo"@),
        register_label(1) == Some("v1."@ + "freq_hi"@),
        register_label(2) == Some("v1."@ + "pw_lo"@),
        register_label(3) == Some("v1."@ + "pw_hi"@),
        register_label(4) == Some("v1."@ + "ctrl"@),
        register_label(5) == Some("v1."@ + "ad"@),
        register_label(6) == Some("v1."@ + "sr"@),
{
    let field = voice_field(n as int);
    assert(register_label((n + 7) as u8) == Some("v2."@ + field));
}

/// The upper half of an envelope's bytes holds its attack and its sustain, the lower half
/// its decay and its release.
pub proof fn envelopes_are_told_from_their_bytes(ad: u8, sr: u8)
    ensures
        adsr_of_bytes(ad, sr).attack == ad >> 4,
        adsr_of_bytes(ad, sr).decay == ad & 0x0F,
        adsr_of_bytes(ad, sr).sustain == sr >> 4,
        adsr_of_bytes(ad, sr).release == sr & 0x0F,
{
    assert(ad / 16 == ad >> 4 && ad % 16 == ad & 0x0F && sr / 16 == sr >> 4 && sr % 16 == sr & 0x0F)
        by (bit_vector);
}

/// Every write of a run counts once, and every read of a register counts for that register
/// and for no other.
pub proof fn accesses_are_counted(
    frames: Seq<FrameTrace>,
    frame: FrameTrace,
    reads: Seq<RegisterRead>,
    read: RegisterRead,
    lo: u8,
    hi: u8,
)
    ensures
        frame_writes(Seq::empty()) == 0,
        frame_writes(frames.push(frame)) == frame_writes(frames) + frame.writes@.len(),
        frame_reads(Seq::empty(), lo) == 0,
        frame_reads(frames.push(frame), lo) == frame_reads(frames, lo) + reads_between(
            frame.reads@,
            lo,
            lo,
        ),
        reads_between(Seq::empty(), lo, hi) == 0,
        reads_between(reads.push(read), lo, hi) == reads_between(reads, lo, hi) + (if lo
            <= read.reg.0 <= hi {
            1int
        } else {
            0
        }),
{
    assert(frames.push(frame).drop_last() =~= frames);
    assert(reads.push(read).drop_last() =~= reads);
}

/// A run's writes are those of its init and of all its play calls; its reads of a register
/// are counted likewise, and the third voice's outputs are the registers `$1B` and `$1C`.
pub proof fn runs_count_their_init(t: Trace, reg: u8, i: int)
    requires
        0 <= i < t.frames@.len(),
        t.frames@[i].reads@.len() <= u32::MAX,
    ensures
        t.frames@.len() == 1 ==> t.write_count() == t.init_writes@.len() + t.frames@[0].writes@.len(),
        t.frames@.len() == 1 ==> t.read_count(reg) == reads_between(t.init_reads@, reg, reg)
            + reads_between(t.frames@[0].reads@, reg, reg),
        voice3_reads(t.frames@)[i] == reads_between(t.frames@[i].reads@, 0x1B, 0x1B) + reads_between(
            t.frames@[i].reads@,
            0x1C,
            0x1C,
        ),
{
    if t.frames@.len() == 1 {
        assert(t.frames@.drop_last() =~= Seq::<FrameTrace>::empty());
        reveal_with_fuel(frame_writes, 2);
        reveal_with_fuel(frame_reads, 2);
    }
    ranges_split(t.frames@[i].reads@);
    reads_are_few(t.frames@[i].reads@, 0x1B, 0x1C);
}

proof fn ranges_split(reads: Seq<RegisterRead>)
    ensures
        reads_between(reads, 0x1B, 0x1C) == reads_between(reads, 0x1B, 0x1B) + reads_between(
            reads,
            0x1C,
            0x1C,
        ),
    decreases reads.len(),
{
    if reads.len() > 0 {
        ranges_split(reads.drop_last());
    }
}

} // verus!
