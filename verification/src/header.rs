//! The PSID/RSID file header.
//!
//! [`parse`] reads and validates a header; [`parse_outcome`] states which
//! header or error belongs to which bytes.

use crate::numerals::{numeral, pad_left, push_decimal, push_hex, push_text, write_numeral};
use crate::chars::{ascii_lower, from_chars, to_ascii_lower};
use encoding_rs::WINDOWS_1252;
use vstd::prelude::*;
use vstd::slice::slice_subrange;

verus! {

const HEADER_V1_SIZE: u16 = 0x76;

const HEADER_V2_SIZE: u16 = 0x7C;

const STRING_FIELD_LEN: usize = 32;

/// The largest number of subtunes that a header can announce.
pub const MAX_SUBTUNES: u16 = 256;

const OFF_VERSION: usize = 0x04;

const OFF_DATA_OFFSET: usize = 0x06;

const OFF_LOAD_ADDRESS: usize = 0x08;

const OFF_INIT_ADDRESS: usize = 0x0A;

const OFF_PLAY_ADDRESS: usize = 0x0C;

const OFF_SONGS: usize = 0x0E;

const OFF_START_SONG: usize = 0x10;

const OFF_SPEED: usize = 0x12;

const OFF_NAME: usize = 0x16;

const OFF_AUTHOR: usize = 0x36;

const OFF_RELEASED: usize = 0x56;

const OFF_FLAGS: usize = 0x76;

const OFF_START_PAGE: usize = 0x78;

const OFF_PAGE_LENGTH: usize = 0x79;

const OFF_SECOND_SID: usize = 0x7A;

const OFF_THIRD_SID: usize = 0x7B;

/// The text of a 16-bit address: a dollar sign and four hexadecimal digits.
pub open spec fn address_text(n: u16) -> Seq<char> {
    seq!['$'] + pad_left(numeral(n as nat, 16), 4, '0')
}

fn push_address(out: &mut Vec<char>, n: u16)
    ensures
        final(out)@ == old(out)@ + address_text(n),
{
    out.push('$');
    push_hex(out, n as u64, 4);
    assert(out@ =~= old(out)@ + address_text(n));
}

fn push_lower_hex(out: &mut Vec<char>, n: u16)
    ensures
        final(out)@ == old(out)@ + lower_hex(n as nat),
{
    let digits: Vec<char> = write_numeral(n as u64, 16);
    let ghost start = out@;
    let mut i: usize = 0;
    while i < digits.len()
        invariant
            i <= digits@.len(),
            digits@ == numeral(n as nat, 16),
            out@ == start + lower_hex(n as nat).take(i as int),
        decreases digits@.len() - i,
    {
        out.push(to_ascii_lower(digits[i]));
        i += 1;
        assert(out@ =~= start + lower_hex(n as nat).take(i as int));
    }
    assert(lower_hex(n as nat).take(i as int) =~= lower_hex(n as nat));
}

fn address_string(n: u16) -> (r: String)
    ensures
        r@ == address_text(n),
{
    let mut out: Vec<char> = Vec::new();
    push_address(&mut out, n);
    assert(out@ =~= address_text(n));
    from_chars(out.as_slice())
}

fn decimal_string(n: u64) -> (r: String)
    ensures
        r@ == numeral(n as nat, 10),
{
    let mut out: Vec<char> = Vec::new();
    push_decimal(&mut out, n, 0);
    assert(out@ =~= numeral(n as nat, 10));
    from_chars(out.as_slice())
}

/// Where the tune data is loaded; zero if the data begins with its address.
#[derive(Debug, Clone, Copy, PartialEq, Eq, Structural, PartialOrd, Ord)]
#[must_use]
pub struct LoadAddress(pub u16);

/// Where the init routine starts.
#[derive(Debug, Clone, Copy, PartialEq, Eq, Structural, PartialOrd, Ord)]
#[must_use]
pub struct InitAddress(pub u16);

/// Where the play routine starts.
#[derive(Debug, Clone, Copy, PartialEq, Eq, Structural, PartialOrd, Ord)]
#[must_use]
pub struct PlayAddress(pub u16);

/// A subtune, counted from one.
#[derive(Debug, Clone, Copy, PartialEq, Eq, Structural)]
#[must_use]
pub struct SubtuneIndex(pub u16);

/// A number of subtunes.
#[derive(Debug, Clone, Copy, PartialEq, Eq, Structural)]
#[must_use]
pub struct SubtuneCount(pub u16);

/// A SID chip base-address byte of the header. The byte holds bits 4-11 of the
/// address in the `$D000` page: `0x42` means `$D420`.
#[derive(Debug, Clone, Copy, PartialEq, Eq, Structural)]
#[must_use]
pub struct SidBaseAddress(pub u8);

/// One timing bit per subtune: set for the CIA timer, clear for the raster.
#[derive(Debug, Clone, Copy, PartialEq, Eq, Structural)]
#[must_use]
pub struct SpeedBitmask(pub u32);

impl LoadAddress {
    /// The address as text, such as `$1000`.
    pub fn text(self) -> (r: String)
        ensures
            r@ == address_text(self.0),
    {
        address_string(self.0)
    }
}

impl InitAddress {
    /// The address as text, such as `$1000`.
    pub fn text(self) -> (r: String)
        ensures
            r@ == address_text(self.0),
    {
        address_string(self.0)
    }
}

impl PlayAddress {
    /// The address as text, such as `$1003`.
    pub fn text(self) -> (r: String)
        ensures
            r@ == address_text(self.0),
    {
        address_string(self.0)
    }
}

impl SubtuneIndex {
    /// The subtune number in decimal.
    pub fn text(self) -> (r: String)
        ensures
            r@ == numeral(self.0 as nat, 10),
    {
        decimal_string(self.0 as u64)
    }
}

impl SubtuneCount {
    /// The number of subtunes in decimal.
    pub fn text(self) -> (r: String)
        ensures
            r@ == numeral(self.0 as nat, 10),
    {
        decimal_string(self.0 as u64)
    }
}

impl SidBaseAddress {
    /// The address that the byte stands for.
    #[must_use]
    pub fn address(self) -> (r: u16)
        ensures
            r == 0xd000 + 16 * self.0,
    {
        let b: u8 = self.0;
        let shifted: u16 = (b as u16) << 4;
        assert(shifted == 16 * b && (0xd000u16 | shifted) == 0xd000 + 16 * b) by (bit_vector)
            requires
                shifted == (b as u16) << 4,
        ;
        0xd000 | shifted
    }

    /// The address as text, such as `$D420`.
    pub fn text(self) -> (r: String)
        ensures
            r@ == "$D"@ + pad_left(numeral(self.0 as nat, 16), 2, '0') + "0"@,
    {
        let mut out: Vec<char> = Vec::new();
        push_text(&mut out, "$D");
        push_hex(&mut out, self.0 as u64, 2);
        push_text(&mut out, "0");
        assert(out@ =~= "$D"@ + pad_left(numeral(self.0 as nat, 16), 2, '0') + "0"@);
        from_chars(out.as_slice())
    }
}

/// Which container a tune comes in.
#[derive(Debug, Clone, Copy, PartialEq, Eq, Structural)]
pub enum Format {
    Psid,
    Rsid,
}

impl Format {
    /// The magic word of the container.
    pub open spec fn name(self) -> Seq<char> {
        match self {
            Format::Psid => "PSID"@,
            Format::Rsid => "RSID"@,
        }
    }

    /// The magic word of the container.
    pub fn text(self) -> (r: &'static str)
        ensures
            r@ == self.name(),
    {
        match self {
            Format::Psid => "PSID",
            Format::Rsid => "RSID",
        }
    }
}

/// The video clock that a tune is made for.
#[derive(Debug, Clone, Copy, PartialEq, Eq, Structural)]
pub enum Clock {
    Unknown,
    Pal,
    Ntsc,
    Both,
}

impl Clock {
    /// The clock that the two low bits of `bits` announce.
    pub open spec fn of_bits(bits: u16) -> Clock {
        match bits % 4 {
            0 => Clock::Unknown,
            1 => Clock::Pal,
            2 => Clock::Ntsc,
            _ => Clock::Both,
        }
    }

    /// The name of the clock.
    pub open spec fn name(self) -> Seq<char> {
        match self {
            Clock::Unknown => "unknown"@,
            Clock::Pal => "PAL"@,
            Clock::Ntsc => "NTSC"@,
            Clock::Both => "PAL+NTSC"@,
        }
    }

    fn from_bits(bits: u16) -> (r: Clock)
        ensures
            r == Clock::of_bits(bits),
    {
        match bits % 4 {
            0 => Clock::Unknown,
            1 => Clock::Pal,
            2 => Clock::Ntsc,
            _ => Clock::Both,
        }
    }

    /// The name of the clock.
    pub fn text(self) -> (r: &'static str)
        ensures
            r@ == self.name(),
    {
        match self {
            Clock::Unknown => "unknown",
            Clock::Pal => "PAL",
            Clock::Ntsc => "NTSC",
            Clock::Both => "PAL+NTSC",
        }
    }
}

impl Default for Clock {
    fn default() -> (r: Clock)
        ensures
            r == Clock::Unknown,
    {
        Clock::Unknown
    }
}

/// The SID chip that a tune is made for.
#[derive(Debug, Clone, Copy, PartialEq, Eq, Structural)]
pub enum SidModel {
    Unknown,
    Mos6581,
    Mos8580,
    Both,
}

impl SidModel {
    /// The model that the two low bits of `bits` announce.
    pub open spec fn of_bits(bits: u16) -> SidModel {
        match bits % 4 {
            0 => SidModel::Unknown,
            1 => SidModel::Mos6581,
            2 => SidModel::Mos8580,
            _ => SidModel::Both,
        }
    }

    /// The name of the model.
    pub open spec fn name(self) -> Seq<char> {
        match self {
            SidModel::Unknown => "unknown"@,
            SidModel::Mos6581 => "MOS6581"@,
            SidModel::Mos8580 => "MOS8580"@,
            SidModel::Both => "MOS6581+MOS8580"@,
        }
    }

    fn from_bits(bits: u16) -> (r: SidModel)
        ensures
            r == SidModel::of_bits(bits),
    {
        match bits % 4 {
            0 => SidModel::Unknown,
            1 => SidModel::Mos6581,
            2 => SidModel::Mos8580,
            _ => SidModel::Both,
        }
    }

    /// The name of the model.
    pub fn text(self) -> (r: &'static str)
        ensures
            r@ == self.name(),
    {
        match self {
            SidModel::Unknown => "unknown",
            SidModel::Mos6581 => "MOS6581",
            SidModel::Mos8580 => "MOS8580",
            SidModel::Both => "MOS6581+MOS8580",
        }
    }
}

impl Default for SidModel {
    fn default() -> (r: SidModel)
        ensures
            r == SidModel::Unknown,
    {
        SidModel::Unknown
    }
}

/// The flag word of a version 2 header.
#[derive(Debug, Clone, Copy, PartialEq, Eq, Structural)]
pub struct Flags {
    pub mus_data: bool,
    pub psid_specific: bool,
    pub clock: Clock,
    pub sid_model: SidModel,
    pub sid_model_2: Option<SidModel>,
    pub sid_model_3: Option<SidModel>,
}

impl Flags {
    /// What a flag word means in a header of the given version.
    pub open spec fn of_raw(raw: u16, version: u16) -> Flags {
        Flags {
            mus_data: raw % 2 == 1,
            psid_specific: raw / 2 % 2 == 1,
            clock: Clock::of_bits(raw / 4),
            sid_model: SidModel::of_bits(raw / 16),
            sid_model_2: if version >= 3 {
                Some(SidModel::of_bits(raw / 64))
            } else {
                None
            },
            sid_model_3: if version >= 4 {
                Some(SidModel::of_bits(raw / 256))
            } else {
                None
            },
        }
    }

    /// The flags of a header without a flag word.
    pub open spec fn absent() -> Flags {
        Flags {
            mus_data: false,
            psid_specific: false,
            clock: Clock::Unknown,
            sid_model: SidModel::Unknown,
            sid_model_2: None,
            sid_model_3: None,
        }
    }

    fn from_raw(raw: u16, version: u16) -> (r: Flags)
        ensures
            r == Flags::of_raw(raw, version),
    {
        Flags {
            mus_data: raw % 2 == 1,
            psid_specific: raw / 2 % 2 == 1,
            clock: Clock::from_bits(raw / 4),
            sid_model: SidModel::from_bits(raw / 16),
            sid_model_2: if version >= 3 {
                Some(SidModel::from_bits(raw / 64))
            } else {
                None
            },
            sid_model_3: if version >= 4 {
                Some(SidModel::from_bits(raw / 256))
            } else {
                None
            },
        }
    }
}

impl Default for Flags {
    fn default() -> (r: Flags)
        ensures
            r == Flags::absent(),
    {
        Flags {
            mus_data: false,
            psid_specific: false,
            clock: Clock::Unknown,
            sid_model: SidModel::Unknown,
            sid_model_2: None,
            sid_model_3: None,
        }
    }
}

/// A validated header.
#[derive(Debug, Clone)]
pub struct Header {
    pub format: Format,
    pub version: u16,
    pub data_offset: u16,
    pub load_address: LoadAddress,
    pub init_address: InitAddress,
    pub play_address: PlayAddress,
    pub songs: SubtuneCount,
    pub start_song: SubtuneIndex,
    pub speed: SpeedBitmask,
    pub name: String,
    pub author: String,
    pub released: String,
    pub flags: Flags,
    pub start_page: u8,
    pub page_length: u8,
    pub second_sid_address: Option<SidBaseAddress>,
    pub third_sid_address: Option<SidBaseAddress>,
}

/// Why bytes are no valid header.
#[derive(Debug)]
pub enum Error {
    TooShort { got: usize, need: usize },
    BadMagic([u8; 4]),
    UnsupportedVersion(u16),
    BadDataOffset(u16, u16),
    MissingEmbeddedLoadAddress,
    InvalidSongCount(SubtuneCount),
    InvalidStartSong { start: SubtuneIndex, songs: SubtuneCount },
    RsidLoadAddress(LoadAddress),
    RsidPlayAddress(PlayAddress),
    RsidSpeed(SpeedBitmask),
    RsidEffectiveLoadAddress(LoadAddress),
    RsidInitAddress(InitAddress),
}

/// The lower-case hexadecimal numeral of `n`.
pub open spec fn lower_hex(n: nat) -> Seq<char> {
    numeral(n, 16).map_values(|c: char| ascii_lower(c))
}

impl Error {
    /// What the error says to a reader.
    pub open spec fn text(self) -> Seq<char> {
        match self {
            Error::TooShort { got, need } => "file too short: "@ + numeral(got as nat, 10)
                + " bytes, need at least "@ + numeral(need as nat, 10),
            Error::BadMagic(m) => "bad magic: ["@ + numeral(m@[0] as nat, 10) + ", "@ + numeral(
                m@[1] as nat,
                10,
            ) + ", "@ + numeral(m@[2] as nat, 10) + ", "@ + numeral(m@[3] as nat, 10)
                + "] (expected PSID or RSID)"@,
            Error::UnsupportedVersion(v) => "unsupported version: "@ + numeral(v as nat, 10),
            Error::BadDataOffset(off, v) => "data offset 0x"@ + lower_hex(off as nat)
                + " inconsistent with version "@ + numeral(v as nat, 10),
            Error::MissingEmbeddedLoadAddress =>
                "load address is 0 but data section has no embedded LE address"@,
            Error::InvalidSongCount(n) => "song count "@ + numeral(n.0 as nat, 10)
                + " is outside 1..=256"@,
            Error::InvalidStartSong { start, songs } => "start song "@ + numeral(start.0 as nat, 10)
                + " is outside 1..="@ + numeral(songs.0 as nat, 10),
            Error::RsidLoadAddress(a) => "RSID header load address must be zero, got "@
                + address_text(a.0),
            Error::RsidPlayAddress(a) => "RSID play address must be zero, got "@ + address_text(
                a.0,
            ),
            Error::RsidSpeed(s) => "RSID speed must be zero, got SpeedBitmask("@ + numeral(
                s.0 as nat,
                10,
            ) + ")"@,
            Error::RsidEffectiveLoadAddress(a) => "RSID effective load address "@ + address_text(
                a.0,
            ) + " is below $07E8"@,
            Error::RsidInitAddress(a) => "invalid RSID init address "@ + address_text(a.0)
                + " (BASIC requires zero; machine code requires $07E8-$9FFF or $C000-$CFFF)"@,
        }
    }

    /// What the error says to a reader.
    pub fn message(&self) -> (r: String)
        ensures
            r@ == self.text(),
    {
        let mut out: Vec<char> = Vec::new();
        match self {
            Error::TooShort { got, need } => {
                push_text(&mut out, "file too short: ");
                push_decimal(&mut out, *got as u64, 0);
                push_text(&mut out, " bytes, need at least ");
                push_decimal(&mut out, *need as u64, 0);
            },
            Error::BadMagic(m) => {
                push_text(&mut out, "bad magic: [");
                push_decimal(&mut out, m[0] as u64, 0);
                push_text(&mut out, ", ");
                push_decimal(&mut out, m[1] as u64, 0);
                push_text(&mut out, ", ");
                push_decimal(&mut out, m[2] as u64, 0);
                push_text(&mut out, ", ");
                push_decimal(&mut out, m[3] as u64, 0);
                push_text(&mut out, "] (expected PSID or RSID)");
            },
            Error::UnsupportedVersion(v) => {
                push_text(&mut out, "unsupported version: ");
                push_decimal(&mut out, *v as u64, 0);
            },
            Error::BadDataOffset(off, v) => {
                push_text(&mut out, "data offset 0x");
                push_lower_hex(&mut out, *off);
                push_text(&mut out, " inconsistent with version ");
                push_decimal(&mut out, *v as u64, 0);
            },
            Error::MissingEmbeddedLoadAddress => {
                push_text(
                    &mut out,
                    "load address is 0 but data section has no embedded LE address",
                );
            },
            Error::InvalidSongCount(n) => {
                push_text(&mut out, "song count ");
                push_decimal(&mut out, n.0 as u64, 0);
                push_text(&mut out, " is outside 1..=256");
            },
            Error::InvalidStartSong { start, songs } => {
                push_text(&mut out, "start song ");
                push_decimal(&mut out, start.0 as u64, 0);
                push_text(&mut out, " is outside 1..=");
                push_decimal(&mut out, songs.0 as u64, 0);
            },
            Error::RsidLoadAddress(a) => {
                push_text(&mut out, "RSID header load address must be zero, got ");
                push_address(&mut out, a.0);
            },
            Error::RsidPlayAddress(a) => {
                push_text(&mut out, "RSID play address must be zero, got ");
                push_address(&mut out, a.0);
            },
            Error::RsidSpeed(s) => {
                push_text(&mut out, "RSID speed must be zero, got SpeedBitmask(");
                push_decimal(&mut out, s.0 as u64, 0);
                push_text(&mut out, ")");
            },
            Error::RsidEffectiveLoadAddress(a) => {
                push_text(&mut out, "RSID effective load address ");
                push_address(&mut out, a.0);
                push_text(&mut out, " is below $07E8");
            },
            Error::RsidInitAddress(a) => {
                push_text(&mut out, "invalid RSID init address ");
                push_address(&mut out, a.0);
                push_text(
                    &mut out,
                    " (BASIC requires zero; machine code requires $07E8-$9FFF or $C000-$CFFF)",
                );
            },
        }
        assert(out@ =~= self.text());
        from_chars(out.as_slice())
    }
}

/// The subtunes of a tune by timing source.
#[derive(Debug, Clone)]
pub struct SpeedSummary {
    pub vblank: Vec<SubtuneIndex>,
    pub cia: Vec<SubtuneIndex>,
}

/// How many subtunes are listed: never more than [`MAX_SUBTUNES`].
pub open spec fn listed_songs(songs: SubtuneCount) -> u16 {
    if songs.0 < 256 {
        songs.0
    } else {
        256
    }
}

/// The speed bit that belongs to a subtune. Version 1 headers and tunes with
/// player-specific data reuse the 32 bits from the start; otherwise the last
/// bit stands for every further subtune.
pub open spec fn speed_bit(h: Header, subtune: u16) -> u16
    recommends
        subtune >= 1,
{
    if h.version == 1 || h.flags.psid_specific {
        ((subtune - 1) % 32) as u16
    } else if subtune - 1 < 31 {
        (subtune - 1) as u16
    } else {
        31
    }
}

/// Whether a subtune is driven by the CIA timer.
pub open spec fn cia_timed(h: Header, subtune: SubtuneIndex) -> bool {
    &&& 1 <= subtune.0 <= listed_songs(h.songs)
    &&& (h.speed.0 >> (speed_bit(h, subtune.0) as u32)) & 1 == 1
}

/// The subtunes among the first `n` whose timing source is the CIA timer
/// (`cia`) or the raster (`!cia`), in ascending order.
pub open spec fn songs_timed(h: Header, n: nat, cia: bool) -> Seq<SubtuneIndex>
    decreases n,
{
    if n == 0 {
        Seq::empty()
    } else {
        let before = songs_timed(h, (n - 1) as nat, cia);
        if cia_timed(h, SubtuneIndex(n as u16)) == cia {
            before.push(SubtuneIndex(n as u16))
        } else {
            before
        }
    }
}

/// The big-endian 16-bit number at `off`.
pub open spec fn be16(bytes: Seq<u8>, off: int) -> u16 {
    (bytes[off] * 256 + bytes[off + 1]) as u16
}

/// The big-endian 32-bit number at `off`.
pub open spec fn be32(bytes: Seq<u8>, off: int) -> u32 {
    (bytes[off] * 0x1000000 + bytes[off + 1] * 0x10000 + bytes[off + 2] * 0x100 + bytes[off
        + 3]) as u32
}

/// The little-endian 16-bit number at `off`.
pub open spec fn le16(bytes: Seq<u8>, off: int) -> u16 {
    (bytes[off] + bytes[off + 1] * 256) as u16
}

/// How many leading bytes are not zero.
pub open spec fn nonzero_run(s: Seq<u8>) -> nat
    decreases s.len(),
{
    if s.len() == 0 || s[0] == 0 {
        0
    } else {
        1 + nonzero_run(s.drop_first())
    }
}

/// The bytes of the text field at `off`: 32 bytes, cut at the first zero.
pub open spec fn text_field(bytes: Seq<u8>, off: int) -> Seq<u8> {
    let raw = bytes.subrange(off, off + 32);
    raw.take(nonzero_run(raw) as int)
}

/// The character that a byte stands for in windows-1252.
pub open spec fn windows_1252_char(b: u8) -> char {
    if 0x80 <= b < 0xA0 {
        seq![
            '\u{20AC}', '\u{0081}', '\u{201A}', '\u{0192}', '\u{201E}', '\u{2026}', '\u{2020}',
            '\u{2021}', '\u{02C6}', '\u{2030}', '\u{0160}', '\u{2039}', '\u{0152}', '\u{008D}',
            '\u{017D}', '\u{008F}', '\u{0090}', '\u{2018}', '\u{2019}', '\u{201C}', '\u{201D}',
            '\u{2022}', '\u{2013}', '\u{2014}', '\u{02DC}', '\u{2122}', '\u{0161}', '\u{203A}',
            '\u{0153}', '\u{009D}', '\u{017E}', '\u{0178}',
        ][b - 0x80]
    } else {
        b as char
    }
}

/// Whether bytes start with a byte order mark of UTF-8 or UTF-16.
pub open spec fn is_marked(bytes: Seq<u8>) -> bool {
    ||| bytes.len() >= 3 && bytes[0] == 0xEF && bytes[1] == 0xBB && bytes[2] == 0xBF
    ||| bytes.len() >= 2 && bytes[0] == 0xFF && bytes[1] == 0xFE
    ||| bytes.len() >= 2 && bytes[0] == 0xFE && bytes[1] == 0xFF
}

/// The text that `encoding_rs` decodes bytes to whose byte order mark overrides the
/// encoding it is asked for.
pub uninterp spec fn marked_text(bytes: Seq<u8>) -> Seq<char>;

/// The text of a header field.
pub open spec fn decoded_text(bytes: Seq<u8>) -> Seq<char> {
    if is_marked(bytes) {
        marked_text(bytes)
    } else {
        bytes.map_values(|b: u8| windows_1252_char(b))
    }
}

/// `encoding_rs::Encoding::decode` on `WINDOWS_1252`. Each byte stands for one
/// character, unless a leading byte order mark switches the encoding; the text then
/// depends on the bytes alone, and what it is is not stated.
#[verifier::external_body]
fn decode_windows_1252(bytes: &[u8]) -> (r: String)
    requires
        bytes@.len() <= 32,
    ensures
        is_marked(bytes@) ==> r@ == marked_text(bytes@),
        !is_marked(bytes@) ==> r@ == bytes@.map_values(|b: u8| windows_1252_char(b)),
{
    let (decoded, _, _) = WINDOWS_1252.decode(bytes);
    decoded.into_owned()
}

/// ASCII in a header field stands for itself.
pub proof fn ascii_stands_for_itself(bytes: Seq<u8>)
    requires
        forall|i: int| 0 <= i < bytes.len() ==> #[trigger] bytes[i] < 0x80,
    ensures
        decoded_text(bytes) == bytes.map_values(|b: u8| b as char),
{
    assert(decoded_text(bytes) =~= bytes.map_values(|b: u8| b as char));
}

/// The load address of a tune: the one in the header, or else the first two
/// data bytes.
pub open spec fn effective_load(load: LoadAddress, data_offset: u16, bytes: Seq<u8>) -> Option<
    LoadAddress,
> {
    if load.0 != 0 {
        Some(load)
    } else if bytes.len() < data_offset + 2 {
        None
    } else {
        Some(LoadAddress(le16(bytes, data_offset as int)))
    }
}

/// The format that the first four bytes announce.
pub open spec fn magic_format(bytes: Seq<u8>) -> Option<Format> {
    if bytes[1] == 0x53 && bytes[2] == 0x49 && bytes[3] == 0x44 {
        if bytes[0] == 0x50 {
            Some(Format::Psid)
        } else if bytes[0] == 0x52 {
            Some(Format::Rsid)
        } else {
            None
        }
    } else {
        None
    }
}

/// The header size that belongs to a version.
pub open spec fn header_size(version: u16) -> u16 {
    if version == 1 {
        0x76
    } else {
        0x7C
    }
}

/// The flags that a header of the given version holds.
pub open spec fn header_flags(bytes: Seq<u8>, version: u16) -> Flags {
    if version >= 2 {
        Flags::of_raw(be16(bytes, 0x76), version)
    } else {
        Flags::absent()
    }
}

/// A chip address byte; zero means no such chip.
pub open spec fn chip_address(present: bool, b: u8) -> Option<SidBaseAddress> {
    if present && b != 0 {
        Some(SidBaseAddress(b))
    } else {
        None
    }
}

/// Whether machine code of an RSID tune may start at the address.
pub open spec fn rsid_init_allowed(a: u16) -> bool {
    0x07e8 <= a <= 0x9fff || 0xc000 <= a <= 0xcfff
}

/// The start address of an RSID tune: the load address stands in for zero.
pub open spec fn rsid_init(init: u16, load: u16) -> u16 {
    if init == 0 {
        load
    } else {
        init
    }
}

/// The error of the RSID environment rules, if one is broken.
pub open spec fn rsid_fault(bytes: Seq<u8>, version: u16) -> Option<Error> {
    let load = effective_load(LoadAddress(be16(bytes, 8)), header_size(version), bytes);
    let init = be16(bytes, 0xA);
    if load is None {
        Some(Error::MissingEmbeddedLoadAddress)
    } else if load->Some_0.0 < 0x07e8 {
        Some(Error::RsidEffectiveLoadAddress(load->Some_0))
    } else if header_flags(bytes, version).psid_specific {
        if init != 0 {
            Some(Error::RsidInitAddress(InitAddress(init)))
        } else {
            None
        }
    } else if !rsid_init_allowed(rsid_init(init, load->Some_0.0)) {
        Some(Error::RsidInitAddress(InitAddress(rsid_init(init, load->Some_0.0))))
    } else {
        None
    }
}

/// Whether `h` holds the fields of `bytes`, with the given texts.
pub open spec fn header_holds(
    h: Header,
    bytes: Seq<u8>,
    name: Seq<char>,
    author: Seq<char>,
    released: Seq<char>,
) -> bool {
    let version = be16(bytes, 4);
    &&& magic_format(bytes) == Some(h.format)
    &&& h.version == version
    &&& h.data_offset == be16(bytes, 6)
    &&& h.load_address == LoadAddress(be16(bytes, 8))
    &&& h.init_address == InitAddress(be16(bytes, 0xA))
    &&& h.play_address == PlayAddress(be16(bytes, 0xC))
    &&& h.songs == SubtuneCount(be16(bytes, 0xE))
    &&& h.start_song == SubtuneIndex(be16(bytes, 0x10))
    &&& h.speed == SpeedBitmask(be32(bytes, 0x12))
    &&& h.name@ == name
    &&& h.author@ == author
    &&& h.released@ == released
    &&& h.flags == header_flags(bytes, version)
    &&& h.start_page == (if version >= 2 {
        bytes[0x78]
    } else {
        0
    })
    &&& h.page_length == (if version >= 2 {
        bytes[0x79]
    } else {
        0
    })
    &&& h.second_sid_address == chip_address(version >= 3, bytes[0x7A])
    &&& h.third_sid_address == chip_address(version >= 4, bytes[0x7B])
}

/// What parsing gives: the first rule that the bytes break decides the error,
/// and bytes that break none give the header that holds their fields.
pub open spec fn parse_outcome(
    bytes: Seq<u8>,
    name: Seq<char>,
    author: Seq<char>,
    released: Seq<char>,
    r: Result<Header, Error>,
) -> bool {
    let version = be16(bytes, 4);
    let data_offset = be16(bytes, 6);
    let load = LoadAddress(be16(bytes, 8));
    let play = PlayAddress(be16(bytes, 0xC));
    let songs = SubtuneCount(be16(bytes, 0xE));
    let start = SubtuneIndex(be16(bytes, 0x10));
    let speed = SpeedBitmask(be32(bytes, 0x12));
    let rsid = magic_format(bytes) == Some(Format::Rsid);
    if bytes.len() < 0x76 {
        r matches Err(Error::TooShort { got, need }) && got == bytes.len() && need == 0x76
    } else if magic_format(bytes) is None {
        r matches Err(Error::BadMagic(m)) && m@ == bytes.take(4)
    } else if !(1 <= version <= 4) || (rsid && version == 1) {
        r == Err::<Header, Error>(Error::UnsupportedVersion(version))
    } else if data_offset != header_size(version) {
        r == Err::<Header, Error>(Error::BadDataOffset(data_offset, version))
    } else if bytes.len() < data_offset {
        r matches Err(Error::TooShort { got, need }) && got == bytes.len() && need == data_offset
    } else if !(1 <= songs.0 <= 256) {
        r == Err::<Header, Error>(Error::InvalidSongCount(songs))
    } else if !(1 <= start.0 <= songs.0) {
        r == Err::<Header, Error>(Error::InvalidStartSong { start, songs })
    } else if rsid && load.0 != 0 {
        r == Err::<Header, Error>(Error::RsidLoadAddress(load))
    } else if rsid && play.0 != 0 {
        r == Err::<Header, Error>(Error::RsidPlayAddress(play))
    } else if rsid && speed.0 != 0 {
        r == Err::<Header, Error>(Error::RsidSpeed(speed))
    } else if rsid && rsid_fault(bytes, version) is Some {
        r == Err::<Header, Error>(rsid_fault(bytes, version)->Some_0)
    } else {
        r matches Ok(h) && header_holds(h, bytes, name, author, released)
    }
}

fn read_u16_be(bytes: &[u8], off: usize) -> (r: u16)
    requires
        off + 2 <= bytes@.len(),
    ensures
        r == be16(bytes@, off as int),
{
    bytes[off] as u16 * 256 + bytes[off + 1] as u16
}

fn read_u32_be(bytes: &[u8], off: usize) -> (r: u32)
    requires
        off + 4 <= bytes@.len(),
    ensures
        r == be32(bytes@, off as int),
{
    bytes[off] as u32 * 0x1000000 + bytes[off + 1] as u32 * 0x10000 + bytes[off + 2] as u32 * 0x100
        + bytes[off + 3] as u32
}

fn read_string(bytes: &[u8], off: usize) -> (r: String)
    requires
        off <= 0x100,
        off + 32 <= bytes@.len(),
    ensures
        r@ == decoded_text(text_field(bytes@, off as int)),
{
    let raw: &[u8] = slice_subrange(bytes, off, off + STRING_FIELD_LEN);
    let mut end: usize = 0;
    assert(raw@.skip(0) =~= raw@);
    while end < raw.len() && raw[end] != 0
        invariant
            end <= raw@.len(),
            nonzero_run(raw@) == end + nonzero_run(raw@.skip(end as int)),
        decreases raw@.len() - end,
    {
        assert(raw@.skip(end as int).drop_first() =~= raw@.skip(end + 1));
        end += 1;
    }
    let field: &[u8] = slice_subrange(raw, 0, end);
    assert(field@ =~= text_field(bytes@, off as int));
    decode_windows_1252(field)
}

impl Header {
    /// Whether a subtune is driven by the CIA timer. Subtunes that the header
    /// does not announce are not.
    #[must_use]
    pub fn is_cia_timed(&self, subtune: SubtuneIndex) -> (r: bool)
        ensures
            r == cia_timed(*self, subtune),
    {
        let one_based: u16 = subtune.0;
        let listed: u16 = if self.songs.0 < 256 {
            self.songs.0
        } else {
            256
        };
        if one_based == 0 || one_based > listed {
            return false;
        }
        let bit: u16 = if self.version == 1 || self.flags.psid_specific {
            (one_based - 1) % 32
        } else if one_based - 1 < 31 {
            one_based - 1
        } else {
            31
        };
        (self.speed.0 >> (bit as u32)) & 1 == 1
    }

    /// Sorts the listed subtunes by timing source.
    #[must_use]
    pub fn speed_summary(&self) -> (r: SpeedSummary)
        ensures
            r.vblank@ == songs_timed(*self, listed_songs(self.songs) as nat, false),
            r.cia@ == songs_timed(*self, listed_songs(self.songs) as nat, true),
    {
        let listed: u16 = if self.songs.0 < 256 {
            self.songs.0
        } else {
            256
        };
        let mut vblank: Vec<SubtuneIndex> = Vec::new();
        let mut cia: Vec<SubtuneIndex> = Vec::new();
        let mut s: u16 = 0;
        while s < listed
            invariant
                s <= listed,
                vblank@ == songs_timed(*self, s as nat, false),
                cia@ == songs_timed(*self, s as nat, true),
            decreases listed - s,
        {
            s += 1;
            let idx: SubtuneIndex = SubtuneIndex(s);
            if self.is_cia_timed(idx) {
                cia.push(idx);
            } else {
                vblank.push(idx);
            }
        }
        SpeedSummary { vblank, cia }
    }

    /// The load address of the tune data: the header's own, or the one that the
    /// data begins with.
    pub fn effective_load_address(&self, bytes: &[u8]) -> (r: Result<LoadAddress, Error>)
        ensures
            match effective_load(self.load_address, self.data_offset, bytes@) {
                Some(a) => r == Ok::<LoadAddress, Error>(a),
                None => r == Err::<LoadAddress, Error>(Error::MissingEmbeddedLoadAddress),
            },
    {
        embedded_load_address(self.load_address, self.data_offset, bytes)
    }
}

fn embedded_load_address(load: LoadAddress, data_offset: u16, bytes: &[u8]) -> (r: Result<
    LoadAddress,
    Error,
>)
    ensures
        match effective_load(load, data_offset, bytes@) {
            Some(a) => r == Ok::<LoadAddress, Error>(a),
            None => r == Err::<LoadAddress, Error>(Error::MissingEmbeddedLoadAddress),
        },
{
    if load.0 != 0 {
        return Ok(load);
    }
    let off: usize = data_offset as usize;
    if bytes.len() < off + 2 {
        return Err(Error::MissingEmbeddedLoadAddress);
    }
    Ok(LoadAddress(bytes[off] as u16 + bytes[off + 1] as u16 * 256))
}

fn check_rsid(bytes: &[u8], version: u16, flags: Flags) -> (r: Result<(), Error>)
    requires
        bytes@.len() >= 0x76,
        bytes@.len() >= header_size(version),
        flags == header_flags(bytes@, version),
    ensures
        match rsid_fault(bytes@, version) {
            Some(e) => r == Err::<(), Error>(e),
            None => r is Ok,
        },
{
    let data_offset: u16 = if version == 1 {
        HEADER_V1_SIZE
    } else {
        HEADER_V2_SIZE
    };
    let init: u16 = read_u16_be(bytes, OFF_INIT_ADDRESS);
    match embedded_load_address(
        LoadAddress(read_u16_be(bytes, OFF_LOAD_ADDRESS)),
        data_offset,
        bytes,
    ) {
        Err(_) => Err(Error::MissingEmbeddedLoadAddress),
        Ok(load) => {
            if load.0 < 0x07e8 {
                return Err(Error::RsidEffectiveLoadAddress(load));
            }
            if flags.psid_specific {
                if init != 0 {
                    return Err(Error::RsidInitAddress(InitAddress(init)));
                }
                return Ok(());
            }
            let start: u16 = if init == 0 {
                load.0
            } else {
                init
            };
            if !((0x07e8 <= start && start <= 0x9fff) || (0xc000 <= start && start <= 0xcfff)) {
                return Err(Error::RsidInitAddress(InitAddress(start)));
            }
            Ok(())
        },
    }
}

/// Validates the fields of a header and puts them together with its decoded
/// texts.
pub fn parse_fields(bytes: &[u8], name: String, author: String, released: String) -> (r: Result<
    Header,
    Error,
>)
    ensures
        parse_outcome(bytes@, name@, author@, released@, r),
{
    if bytes.len() < HEADER_V1_SIZE as usize {
        return Err(Error::TooShort { got: bytes.len(), need: HEADER_V1_SIZE as usize });
    }
    let named: bool = bytes[1] == 0x53 && bytes[2] == 0x49 && bytes[3] == 0x44;
    let format: Format = if named && bytes[0] == 0x50 {
        Format::Psid
    } else if named && bytes[0] == 0x52 {
        Format::Rsid
    } else {
        let magic: [u8; 4] = [bytes[0], bytes[1], bytes[2], bytes[3]];
        assert(magic@ =~= bytes@.take(4));
        return Err(Error::BadMagic(magic));
    };
    let version: u16 = read_u16_be(bytes, OFF_VERSION);
    if version < 1 || version > 4 || (format == Format::Rsid && version == 1) {
        return Err(Error::UnsupportedVersion(version));
    }
    let data_offset: u16 = read_u16_be(bytes, OFF_DATA_OFFSET);
    let expected_offset: u16 = if version == 1 {
        HEADER_V1_SIZE
    } else {
        HEADER_V2_SIZE
    };
    if data_offset != expected_offset {
        return Err(Error::BadDataOffset(data_offset, version));
    }
    let need: usize = data_offset as usize;
    if bytes.len() < need {
        return Err(Error::TooShort { got: bytes.len(), need });
    }
    let load_address: LoadAddress = LoadAddress(read_u16_be(bytes, OFF_LOAD_ADDRESS));
    let init_address: InitAddress = InitAddress(read_u16_be(bytes, OFF_INIT_ADDRESS));
    let play_address: PlayAddress = PlayAddress(read_u16_be(bytes, OFF_PLAY_ADDRESS));
    let songs: SubtuneCount = SubtuneCount(read_u16_be(bytes, OFF_SONGS));
    let start_song: SubtuneIndex = SubtuneIndex(read_u16_be(bytes, OFF_START_SONG));
    let speed: SpeedBitmask = SpeedBitmask(read_u32_be(bytes, OFF_SPEED));
    if songs.0 < 1 || songs.0 > MAX_SUBTUNES {
        return Err(Error::InvalidSongCount(songs));
    }
    if start_song.0 < 1 || start_song.0 > songs.0 {
        return Err(Error::InvalidStartSong { start: start_song, songs });
    }
    if format == Format::Rsid {
        if load_address.0 != 0 {
            return Err(Error::RsidLoadAddress(load_address));
        }
        if play_address.0 != 0 {
            return Err(Error::RsidPlayAddress(play_address));
        }
        if speed.0 != 0 {
            return Err(Error::RsidSpeed(speed));
        }
    }
    let mut flags: Flags = Flags::default();
    let mut start_page: u8 = 0;
    let mut page_length: u8 = 0;
    let mut second_sid_address: Option<SidBaseAddress> = None;
    let mut third_sid_address: Option<SidBaseAddress> = None;
    if version >= 2 {
        flags = Flags::from_raw(read_u16_be(bytes, OFF_FLAGS), version);
        start_page = bytes[OFF_START_PAGE];
        page_length = bytes[OFF_PAGE_LENGTH];
        if version >= 3 && bytes[OFF_SECOND_SID] != 0 {
            second_sid_address = Some(SidBaseAddress(bytes[OFF_SECOND_SID]));
        }
        if version >= 4 && bytes[OFF_THIRD_SID] != 0 {
            third_sid_address = Some(SidBaseAddress(bytes[OFF_THIRD_SID]));
        }
    }
    if format == Format::Rsid {
        if let Err(fault) = check_rsid(bytes, version, flags) {
            return Err(fault);
        }
    }
    Ok(
        Header {
            format,
            version,
            data_offset,
            load_address,
            init_address,
            play_address,
            songs,
            start_song,
            speed,
            name,
            author,
            released,
            flags,
            start_page,
            page_length,
            second_sid_address,
            third_sid_address,
        },
    )
}

/// What parsing gives, with the texts that the bytes themselves hold.
pub open spec fn parsed(bytes: Seq<u8>, r: Result<Header, Error>) -> bool {
    parse_outcome(
        bytes,
        decoded_text(text_field(bytes, 0x16)),
        decoded_text(text_field(bytes, 0x36)),
        decoded_text(text_field(bytes, 0x56)),
        r,
    )
}

/// Parses and validates a header.
pub fn parse(bytes: &[u8]) -> (r: Result<Header, Error>)
    ensures
        parse_outcome(
            bytes@,
            decoded_text(text_field(bytes@, 0x16)),
            decoded_text(text_field(bytes@, 0x36)),
            decoded_text(text_field(bytes@, 0x56)),
            r,
        ),
{
    if bytes.len() < HEADER_V1_SIZE as usize {
        return Err(Error::TooShort { got: bytes.len(), need: HEADER_V1_SIZE as usize });
    }
    let name: String = read_string(bytes, OFF_NAME);
    let author: String = read_string(bytes, OFF_AUTHOR);
    let released: String = read_string(bytes, OFF_RELEASED);
    parse_fields(bytes, name, author, released)
}

/// A header that parsing accepts is consistent: the version is known, the data
/// begins right after the header, the start song exists, and an RSID tune
/// leaves load address, play address and speed at zero.
pub proof fn accepted_headers_are_consistent(
    bytes: Seq<u8>,
    name: Seq<char>,
    author: Seq<char>,
    released: Seq<char>,
    h: Header,
)
    requires
        parse_outcome(bytes, name, author, released, Ok(h)),
    ensures
        1 <= h.version <= 4,
        h.data_offset == header_size(h.version),
        h.data_offset <= bytes.len(),
        1 <= h.start_song.0 <= h.songs.0 <= MAX_SUBTUNES,
        h.format == Format::Rsid ==> h.version >= 2 && h.load_address.0 == 0 && h.play_address.0
            == 0 && h.speed.0 == 0,
        h.format == Format::Rsid ==> (effective_load(h.load_address, h.data_offset, bytes) matches Some(
            load,
        ) && load.0 >= 0x07e8 && (h.flags.psid_specific ==> h.init_address.0 == 0) && (
        !h.flags.psid_specific ==> rsid_init_allowed(rsid_init(h.init_address.0, load.0)))),
{
}

/// Every listed subtune has exactly one timing source, and nothing else is
/// summarized.
pub proof fn speed_summary_partitions(h: Header, n: nat, s: SubtuneIndex)
    requires
        n <= listed_songs(h.songs),
    ensures
        songs_timed(h, n, true).len() + songs_timed(h, n, false).len() == n,
        songs_timed(h, n, true).contains(s) <==> 1 <= s.0 <= n && cia_timed(h, s),
        songs_timed(h, n, false).contains(s) <==> 1 <= s.0 <= n && !cia_timed(h, s),
    decreases n,
{
    if n > 0 {
        let m = (n - 1) as nat;
        speed_summary_partitions(h, m, s);
        let last = SubtuneIndex(n as u16);
        let t = songs_timed(h, m, true);
        let f = songs_timed(h, m, false);
        assert(t.push(last).contains(s) <==> t.contains(s) || s == last) by {
            push_contains(t, last, s);
        }
        assert(f.push(last).contains(s) <==> f.contains(s) || s == last) by {
            push_contains(f, last, s);
        }
    }
}

proof fn push_contains(v: Seq<SubtuneIndex>, last: SubtuneIndex, s: SubtuneIndex)
    ensures
        v.push(last).contains(s) <==> v.contains(s) || s == last,
{
    if v.contains(s) {
        let i = choose|i: int| 0 <= i < v.len() && v[i] == s;
        assert(v.push(last)[i] == s);
    }
    assert(v.push(last)[v.len() as int] == last);
}

proof fn flag_bits(high: u8, low: u8)
    ensures
        ({
            let raw = (high * 256 + low) as u16;
            &&& raw == high * 256 + low
            &&& raw % 2 == low % 2
            &&& raw / 2 % 2 == low / 2 % 2
            &&& raw / 4 % 4 == low / 4 % 4
            &&& raw / 16 % 4 == low / 16 % 4
            &&& raw / 64 % 4 == low / 64
            &&& raw / 256 % 4 == high % 4
        }),
        (low & 0x01 != 0) == (low % 2 == 1),
        (low & 0x02 != 0) == (low / 2 % 2 == 1),
        low & 0x0C == low / 4 % 4 * 4,
        low & 0x30 == low / 16 % 4 * 16,
        low & 0xC0 == low / 64 * 64,
        high & 0x03 == high % 4,
{
    let raw = (high * 256 + low) as u16;
    assert(raw == high * 256 + low);
    assert(raw % 2 == low % 2 && raw / 2 % 2 == low / 2 % 2 && raw / 4 % 4 == low / 4 % 4 && raw
        / 16 % 4 == low / 16 % 4 && raw / 64 % 4 == low / 64 && raw / 256 % 4 == high % 4)
        by (bit_vector)
        requires
            raw == high * 256 + low,
    ;
    assert((low & 0x01 != 0) == (low % 2 == 1) && (low & 0x02 != 0) == (low / 2 % 2 == 1) && low
        & 0x0C == low / 4 % 4 * 4 && low & 0x30 == low / 16 % 4 * 16 && low & 0xC0 == low / 64
        * 64) by (bit_vector);
    assert(high & 0x03 == high % 4) by (bit_vector);
}

/// Whether a model is the one that two bits of a flag word announce: neither bit for an
/// unknown model, the lower bit for the first, the upper bit for the later one.
pub open spec fn model_bits(model: SidModel, bits: u8, lower: u8, upper: u8) -> bool {
    &&& model == SidModel::Unknown <==> bits == 0
    &&& model == SidModel::Mos6581 <==> bits == lower
    &&& model == SidModel::Mos8580 <==> bits == upper
    &&& model == SidModel::Both <==> bits == lower + upper
}

/// The flag word of an accepted header tells, bit by bit, what the tune is made for: the
/// bits of the clock and of the first two chips lie in its low byte, and those of the
/// third chip in its high byte. A header of the first version has no such word.
pub proof fn flags_are_told_bit_by_bit(
    bytes: Seq<u8>,
    name: Seq<char>,
    author: Seq<char>,
    released: Seq<char>,
    h: Header,
)
    requires
        parse_outcome(bytes, name, author, released, Ok(h)),
    ensures
        h.version >= 2 ==> ({
            let low = bytes[0x77];
            &&& h.flags.mus_data <==> low & 0x01 != 0
            &&& h.flags.psid_specific <==> low & 0x02 != 0
            &&& h.flags.clock == Clock::Unknown <==> low & 0x0C == 0
            &&& h.flags.clock == Clock::Pal <==> low & 0x0C == 0x04
            &&& h.flags.clock == Clock::Ntsc <==> low & 0x0C == 0x08
            &&& h.flags.clock == Clock::Both <==> low & 0x0C == 0x0C
            &&& h.flags.sid_model == SidModel::Unknown <==> low & 0x30 == 0
            &&& h.flags.sid_model == SidModel::Mos6581 <==> low & 0x30 == 0x10
            &&& h.flags.sid_model == SidModel::Mos8580 <==> low & 0x30 == 0x20
            &&& h.flags.sid_model == SidModel::Both <==> low & 0x30 == 0x30
        }),
        h.flags.sid_model_2 is Some <==> h.version >= 3,
        h.flags.sid_model_2 matches Some(model) ==> model_bits(model, bytes[0x77] & 0xC0, 0x40, 0x80),
        h.flags.sid_model_3 is Some <==> h.version >= 4,
        h.flags.sid_model_3 matches Some(model) ==> model_bits(model, bytes[0x76] & 0x03, 0x01, 0x02),
        h.version == 1 ==> !h.flags.mus_data && !h.flags.psid_specific && h.flags.clock
            == Clock::Unknown && h.flags.sid_model == SidModel::Unknown,
{
    flag_bits(bytes[0x76], bytes[0x77]);
}

/// Every field of an accepted header stands where the format puts it, its high byte
/// first.
pub proof fn fields_stand_where_the_format_puts_them(
    bytes: Seq<u8>,
    name: Seq<char>,
    author: Seq<char>,
    released: Seq<char>,
    h: Header,
)
    requires
        parse_outcome(bytes, name, author, released, Ok(h)),
    ensures
        bytes[1] == 'S' as u8 && bytes[2] == 'I' as u8 && bytes[3] == 'D' as u8,
        h.format == Format::Psid <==> bytes[0] == 'P' as u8,
        h.format == Format::Rsid <==> bytes[0] == 'R' as u8,
        h.version == 256 * bytes[4] + bytes[5],
        h.data_offset == 256 * bytes[6] + bytes[7],
        h.load_address.0 == 256 * bytes[8] + bytes[9],
        h.init_address.0 == 256 * bytes[10] + bytes[11],
        h.play_address.0 == 256 * bytes[12] + bytes[13],
        h.songs.0 == 256 * bytes[14] + bytes[15],
        h.start_song.0 == 256 * bytes[16] + bytes[17],
        h.speed.0 == 256 * (256 * (256 * bytes[18] + bytes[19]) + bytes[20]) + bytes[21],
        h.name@ == name && h.author@ == author && h.released@ == released,
        h.version >= 2 ==> h.start_page == bytes[0x78] && h.page_length == bytes[0x79],
        h.version == 1 ==> h.start_page == 0 && h.page_length == 0,
        match h.second_sid_address {
            Some(a) => h.version >= 3 && a.0 == bytes[0x7A] && a.0 != 0,
            None => h.version < 3 || bytes[0x7A] == 0,
        },
        match h.third_sid_address {
            Some(a) => h.version >= 4 && a.0 == bytes[0x7B] && a.0 != 0,
            None => h.version < 4 || bytes[0x7B] == 0,
        },
{
}

/// The name, the author and the release of an accepted header are read byte by byte up
/// to the first zero, each from its own thirty-two bytes.
pub proof fn texts_are_read_up_to_the_first_zero(bytes: Seq<u8>, r: Result<Header, Error>, n: int)
    requires
        parsed(bytes, r),
        r is Ok,
        0 <= n <= 32,
    ensures
        ends_at(bytes, 0x16, n) ==> reads(r->Ok_0.name@, bytes, 0x16, n),
        ends_at(bytes, 0x36, n) ==> reads(r->Ok_0.author@, bytes, 0x36, n),
        ends_at(bytes, 0x56, n) ==> reads(r->Ok_0.released@, bytes, 0x56, n),
{
    if ends_at(bytes, 0x16, n) {
        field_is_read(bytes, 0x16, n);
    }
    if ends_at(bytes, 0x36, n) {
        field_is_read(bytes, 0x36, n);
    }
    if ends_at(bytes, 0x56, n) {
        field_is_read(bytes, 0x56, n);
    }
}

/// Whether a text field of ASCII ends after `n` bytes: behind them comes a zero, or the
/// end of the field.
pub open spec fn ends_at(bytes: Seq<u8>, off: int, n: int) -> bool {
    &&& forall|i: int| 0 <= i < n ==> 0 < #[trigger] bytes[off + i] < 0x80
    &&& n < 32 ==> bytes[off + n] == 0
}

/// Whether a text consists of the characters of `n` bytes.
pub open spec fn reads(text: Seq<char>, bytes: Seq<u8>, off: int, n: int) -> bool {
    &&& text.len() == n
    &&& forall|i: int| 0 <= i < n ==> #[trigger] text[i] == bytes[off + i] as char
}

proof fn run_ends(s: Seq<u8>, n: int)
    requires
        0 <= n <= s.len(),
        forall|i: int| 0 <= i < n ==> #[trigger] s[i] != 0,
        n == s.len() || s[n] == 0,
    ensures
        nonzero_run(s) == n,
    decreases s.len(),
{
    if n > 0 {
        assert(s[0] != 0);
        let t = s.drop_first();
        assert forall|i: int| 0 <= i < n - 1 implies #[trigger] t[i] != 0 by {
            assert(s[i + 1] != 0);
        }
        run_ends(t, n - 1);
    }
}

proof fn field_is_read(bytes: Seq<u8>, off: int, n: int)
    requires
        0 <= off,
        off + 32 <= bytes.len(),
        0 <= n <= 32,
        ends_at(bytes, off, n),
    ensures
        reads(decoded_text(text_field(bytes, off)), bytes, off, n),
{
    let raw = bytes.subrange(off, off + 32);
    assert forall|i: int| 0 <= i < n implies 0 < #[trigger] raw[i] < 0x80 by {
        assert(raw[i] == bytes[off + i]);
    }
    run_ends(raw, n);
    let field = text_field(bytes, off);
    assert(field.len() == n);
    assert forall|i: int| 0 <= i < n implies #[trigger] field[i] < 0x80 by {
        assert(field[i] == raw[i]);
    }
    ascii_stands_for_itself(field);
    assert forall|i: int| 0 <= i < n implies #[trigger] decoded_text(field)[i] == bytes[off
        + i] as char by {
        assert(field[i] == bytes[off + i]);
    }
}

/// Exactly those bytes are accepted that keep to the format: a known magic word and
/// version, a complete header whose size belongs to the version, subtunes that exist,
/// and, for an RSID tune, the rules of the real machine.
pub proof fn exactly_valid_headers_are_accepted(bytes: Seq<u8>, r: Result<Header, Error>)
    requires
        parsed(bytes, r),
    ensures
        r is Ok <==> {
            let version = 256 * bytes[4] + bytes[5];
            let size = 256 * bytes[6] + bytes[7];
            let songs = 256 * bytes[14] + bytes[15];
            let start = 256 * bytes[16] + bytes[17];
            let init = 256 * bytes[10] + bytes[11];
            let load = bytes[0x7C] + 256 * bytes[0x7D];
            let entry = if init == 0 {
                load
            } else {
                init
            };
            &&& bytes.len() >= 0x76 && bytes.len() >= size
            &&& bytes[0] == 'P' as u8 || bytes[0] == 'R' as u8
            &&& bytes[1] == 'S' as u8 && bytes[2] == 'I' as u8 && bytes[3] == 'D' as u8
            &&& (version == 1 && size == 118) || (2 <= version <= 4 && size == 124)
            &&& 1 <= start <= songs <= 256
            &&& bytes[0] == 'R' as u8 ==> {
                &&& version >= 2
                &&& bytes[8] == 0 && bytes[9] == 0 && bytes[12] == 0 && bytes[13] == 0
                &&& bytes[18] == 0 && bytes[19] == 0 && bytes[20] == 0 && bytes[21] == 0
                &&& bytes.len() >= 0x7E && load >= 0x07E8
                &&& if bytes[0x77] & 0x02 != 0 {
                    init == 0
                } else {
                    0x07E8 <= entry < 0xA000 || 0xC000 <= entry < 0xD000
                }
            }
        },
{
    flag_bits(bytes[0x76], bytes[0x77]);
}

/// An error tells what is wrong with the bytes: what it names is what they hold, and
/// that is not allowed.
pub proof fn errors_tell_what_is_wrong(bytes: Seq<u8>, e: Error)
    requires
        parsed(bytes, Err(e)),
    ensures
        match e {
            Error::TooShort { got, need } => got == bytes.len() && got < need && (need == 118
                || need == 124),
            Error::BadMagic(m) => m@.len() == 4 && (forall|i: int|
                0 <= i < 4 ==> #[trigger] m@[i] == bytes[i]) && !((bytes[0] == 'P' as u8 || bytes[0]
                == 'R' as u8) && bytes[1] == 'S' as u8 && bytes[2] == 'I' as u8 && bytes[3]
                == 'D' as u8),
            Error::UnsupportedVersion(v) => v == 256 * bytes[4] + bytes[5] && (v == 0 || v > 4 || (v
                == 1 && bytes[0] == 'R' as u8)),
            Error::BadDataOffset(off, v) => off == 256 * bytes[6] + bytes[7] && v == 256 * bytes[4]
                + bytes[5] && off != (if v == 1 {
                118int
            } else {
                124
            }),
            Error::InvalidSongCount(n) => n.0 == 256 * bytes[14] + bytes[15] && (n.0 == 0 || n.0
                > 256),
            Error::InvalidStartSong { start, songs } => start.0 == 256 * bytes[16] + bytes[17]
                && songs.0 == 256 * bytes[14] + bytes[15] && (start.0 == 0 || start.0 > songs.0),
            Error::RsidLoadAddress(a) => bytes[0] == 'R' as u8 && a.0 == 256 * bytes[8] + bytes[9]
                && a.0 != 0,
            Error::RsidPlayAddress(a) => bytes[0] == 'R' as u8 && a.0 == 256 * bytes[12] + bytes[13]
                && a.0 != 0,
            Error::RsidSpeed(m) => bytes[0] == 'R' as u8 && m.0 == 256 * (256 * (256 * bytes[18]
                + bytes[19]) + bytes[20]) + bytes[21] && m.0 != 0,
            Error::MissingEmbeddedLoadAddress => bytes[0] == 'R' as u8 && bytes.len() < 126,
            Error::RsidEffectiveLoadAddress(a) => bytes[0] == 'R' as u8 && a.0 == bytes[124] + 256
                * bytes[125] && a.0 < 2024,
            Error::RsidInitAddress(a) => bytes[0] == 'R' as u8 && (bytes[0x77] & 0x02 != 0 ==> a.0
                != 0 && a.0 == 256 * bytes[10] + bytes[11]) && (bytes[0x77] & 0x02 == 0 ==> (a.0
                < 2024 || 40960 <= a.0 < 49152 || a.0 >= 53248) && (a.0 == 256 * bytes[10]
                + bytes[11] || (bytes[10] == 0 && bytes[11] == 0 && a.0 == bytes[124] + 256
                * bytes[125]))),
        },
{
    flag_bits(bytes[0x76], bytes[0x77]);
}

/// Each of the first thirty-two subtunes has a bit of its own, the lowest for the first:
/// it is set for the timer. Further subtunes start over with the first bit where the
/// header is old or holds data for a player, and else share the last bit. What is not a
/// subtune has no timer.
pub proof fn each_subtune_has_its_speed_bit(h: Header, s: SubtuneIndex)
    ensures
        s.0 == 0 || s.0 > h.songs.0 || s.0 > 256 ==> !cia_timed(h, s),
        1 <= s.0 <= 32 && s.0 <= h.songs.0 ==> (cia_timed(h, s) <==> h.speed.0 & (1u32 << (s.0
            - 1) as u32) != 0),
        32 < s.0 <= h.songs.0 && s.0 <= 256 ==> cia_timed(h, s) == cia_timed(
            h,
            SubtuneIndex(
                if h.version == 1 || h.flags.psid_specific {
                    (s.0 - 32) as u16
                } else {
                    32
                },
            ),
        ),
{
    let speed = h.speed.0;
    if 1 <= s.0 <= 32 {
        let bit = (s.0 - 1) as u32;
        assert(((speed >> bit) & 1 == 1) <==> speed & (1u32 << bit) != 0) by (bit_vector)
            requires
                bit < 32,
        ;
    }
}

/// The load address of a tune is the one in its header, or else the first two bytes of
/// its data, the low byte first.
pub proof fn tunes_bring_their_load_address(load: LoadAddress, data_offset: u16, bytes: Seq<u8>)
    ensures
        match effective_load(load, data_offset, bytes) {
            Some(a) => if load.0 == 0 {
                data_offset + 2 <= bytes.len() && a.0 % 256 == bytes[data_offset as int] && a.0
                    / 256 == bytes[data_offset + 1]
            } else {
                a == load
            },
            None => load.0 == 0 && data_offset + 2 > bytes.len(),
        },
{
}

} // verus!
