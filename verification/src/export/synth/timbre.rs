//! What instrument a sound needs, and which notes can share it.

use crate::analysis::frame::{FilterMode, NoteEvent};
use crate::analysis::patch::{
    AuthoredPwm, DrumSubclass, NoteCharacteristics, Patch, PatchVoiceProfile, RoleTags,
};
use crate::header::SidModel;
use crate::trace::Adsr;
use vstd::prelude::*;

verus! {

/// An oscillator waveform.
#[derive(Debug, Clone, Copy, PartialEq, Eq, Structural)]
pub enum Waveform {
    Pulse,
    Sawtooth,
    Triangle,
    Noise,
}

impl Waveform {
    /// The name of the waveform.
    pub open spec fn label(self) -> Seq<char> {
        match self {
            Waveform::Pulse => "pulse"@,
            Waveform::Sawtooth => "sawtooth"@,
            Waveform::Triangle => "triangle"@,
            Waveform::Noise => "noise"@,
        }
    }

    /// The name of the waveform.
    pub fn name(self) -> (r: &'static str)
        ensures
            r@ == self.label(),
    {
        match self {
            Waveform::Pulse => "pulse",
            Waveform::Sawtooth => "sawtooth",
            Waveform::Triangle => "triangle",
            Waveform::Noise => "noise",
        }
    }
}

/// Whether a control byte selects triangle.
pub open spec fn has_triangle(byte: u8) -> bool {
    byte / 0x10 % 2 == 1
}

/// Whether a control byte selects sawtooth.
pub open spec fn has_sawtooth(byte: u8) -> bool {
    byte / 0x20 % 2 == 1
}

/// Whether a control byte selects pulse.
pub open spec fn has_pulse(byte: u8) -> bool {
    byte / 0x40 % 2 == 1
}

/// Whether a control byte selects noise.
pub open spec fn has_noise(byte: u8) -> bool {
    byte >= 0x80
}

/// The tonal waveform of a control byte: pulse before sawtooth before triangle,
/// and pulse where none is selected.
pub open spec fn dominant(byte: u8) -> Waveform {
    if has_pulse(byte) {
        Waveform::Pulse
    } else if has_sawtooth(byte) {
        Waveform::Sawtooth
    } else if has_triangle(byte) {
        Waveform::Triangle
    } else {
        Waveform::Pulse
    }
}

/// The second tonal waveform of a control byte that combines several.
pub open spec fn secondary(byte: u8) -> Option<Waveform> {
    if has_noise(byte) {
        None
    } else if has_pulse(byte) && has_sawtooth(byte) {
        Some(Waveform::Sawtooth)
    } else if has_triangle(byte) && (has_pulse(byte) || has_sawtooth(byte)) {
        Some(Waveform::Triangle)
    } else {
        None
    }
}

/// Picks the tonal waveform of a control byte.
pub fn dominant_waveform(byte: u8) -> (r: Waveform)
    ensures
        r == dominant(byte),
{
    if byte / 0x40 % 2 == 1 {
        Waveform::Pulse
    } else if byte / 0x20 % 2 == 1 {
        Waveform::Sawtooth
    } else if byte / 0x10 % 2 == 1 {
        Waveform::Triangle
    } else {
        Waveform::Pulse
    }
}

/// Picks the second tonal waveform of a control byte.
pub fn secondary_waveform(byte: u8) -> (r: Option<Waveform>)
    ensures
        r == secondary(byte),
{
    if byte >= 0x80 {
        return None;
    }
    let tri: bool = byte / 0x10 % 2 == 1;
    let saw: bool = byte / 0x20 % 2 == 1;
    let pulse: bool = byte / 0x40 % 2 == 1;
    if pulse && saw {
        Some(Waveform::Sawtooth)
    } else if tri && (pulse || saw) {
        Some(Waveform::Triangle)
    } else {
        None
    }
}

/// The name of the tonal waveform of a control byte.
pub fn waveform_string(byte: u8) -> (r: &'static str)
    ensures
        r@ == dominant(byte).label(),
{
    dominant_waveform(byte).name()
}

/// The name of the second tonal waveform of a control byte.
pub fn combined_secondary_waveform(byte: u8) -> (r: Option<&'static str>)
    ensures
        match r {
            Some(s) => secondary(byte) matches Some(w) && s@ == w.label(),
            None => secondary(byte) is None,
        },
{
    match secondary_waveform(byte) {
        Some(w) => Some(w.name()),
        None => None,
    }
}

/// How many bits are set.
pub open spec fn ones(n: u8) -> int {
    n % 2 + n / 2 % 2 + n / 4 % 2 + n / 8 % 2 + n / 16 % 2 + n / 32 % 2 + n / 64 % 2 + n / 128
}

/// Counts the bits that are set.
pub fn count_bits(n: u8) -> (r: u8)
    ensures
        r == ones(n),
{
    n % 2 + n / 2 % 2 + n / 4 % 2 + n / 8 % 2 + n / 16 % 2 + n / 32 % 2 + n / 64 % 2 + n / 128
}

/// How a combined waveform is represented.
pub open spec fn combination_policy(model: SidModel, mask: u8, exact: bool) -> Seq<char> {
    if ones(mask) < 2 {
        "not_combined"@
    } else if exact {
        "native_exact"@
    } else if model == SidModel::Mos6581 || model == SidModel::Mos8580 {
        "native_model_approximation"@
    } else {
        "native_6581_fallback"@
    }
}

/// Tells how a combined waveform is represented.
pub fn combined_waveform_support(model: SidModel, mask: u8, exact: bool) -> (r: &'static str)
    ensures
        r@ == combination_policy(model, mask, exact),
{
    if count_bits(mask) < 2 {
        "not_combined"
    } else if exact {
        "native_exact"
    } else {
        match model {
            SidModel::Mos6581 => "native_model_approximation",
            SidModel::Mos8580 => "native_model_approximation",
            _ => "native_6581_fallback",
        }
    }
}

/// A filter type of the target.
#[derive(Debug, Clone, Copy, PartialEq, Eq, Structural)]
pub enum FilterKind {
    Lowpass,
    Bandpass,
    Highpass,
    Notch,
}

impl FilterKind {
    /// The name of the filter type.
    pub open spec fn label(self) -> Seq<char> {
        match self {
            FilterKind::Lowpass => "lowpass"@,
            FilterKind::Bandpass => "bandpass"@,
            FilterKind::Highpass => "highpass"@,
            FilterKind::Notch => "notch"@,
        }
    }

    /// The name of the filter type.
    pub fn name(self) -> (r: &'static str)
        ensures
            r@ == self.label(),
    {
        match self {
            FilterKind::Lowpass => "lowpass",
            FilterKind::Bandpass => "bandpass",
            FilterKind::Highpass => "highpass",
            FilterKind::Notch => "notch",
        }
    }
}

/// The filter type of a mode: low and high pass together are a notch, then low
/// before band before high pass, and low pass where none is selected.
pub open spec fn kind_of_mode(mode: FilterMode) -> FilterKind {
    if mode.low_pass && mode.high_pass {
        FilterKind::Notch
    } else if mode.low_pass {
        FilterKind::Lowpass
    } else if mode.band_pass {
        FilterKind::Bandpass
    } else if mode.high_pass {
        FilterKind::Highpass
    } else {
        FilterKind::Lowpass
    }
}

/// Picks the filter type of a mode.
pub fn filter_kind(mode: FilterMode) -> (r: FilterKind)
    ensures
        r == kind_of_mode(mode),
{
    if mode.low_pass && mode.high_pass {
        FilterKind::Notch
    } else if mode.low_pass {
        FilterKind::Lowpass
    } else if mode.band_pass {
        FilterKind::Bandpass
    } else if mode.high_pass {
        FilterKind::Highpass
    } else {
        FilterKind::Lowpass
    }
}

/// The waveform masks of control bytes: bit 0 is triangle, 1 sawtooth, 2 pulse
/// and 3 noise.
pub open spec fn masks(bytes: Seq<u8>) -> Seq<u8> {
    bytes.map_values(|b: u8| b / 16)
}

/// The different audible masks, in the order of their first appearance.
pub open spec fn distinct_audible(m: Seq<u8>) -> Seq<u8>
    decreases m.len(),
{
    if m.len() == 0 {
        Seq::empty()
    } else {
        let before = distinct_audible(m.drop_last());
        if m.last() != 0 && !before.contains(m.last()) {
            before.push(m.last())
        } else {
            before
        }
    }
}

/// Whether masks alternate: two of them are audible and different.
pub open spec fn alternates(m: Seq<u8>) -> bool {
    exists|i: int, j: int|
        0 <= i < m.len() && 0 <= j < m.len() && #[trigger] m[i] != 0 && #[trigger] m[j] != 0 && m[i]
            != m[j]
}

/// The sequence of a repeating waveform program: its masks, or, if there are
/// more than sixteen, the different audible ones. A program that does not
/// alternate has none.
pub open spec fn alternation(bytes: Seq<u8>) -> Option<Seq<u8>> {
    let m = masks(bytes);
    if bytes.len() < 2 || !alternates(m) {
        None
    } else if m.len() <= 16 {
        Some(m)
    } else {
        Some(distinct_audible(m))
    }
}

proof fn distinct_audible_properties(m: Seq<u8>)
    requires
        forall|i: int| 0 <= i < m.len() ==> #[trigger] m[i] < 16,
    ensures
        distinct_audible(m).no_duplicates(),
        forall|i: int|
            0 <= i < distinct_audible(m).len() ==> 0 < #[trigger] distinct_audible(m)[i] < 16,
        distinct_audible(m).len() <= 15,
        forall|i: int| 0 <= i < m.len() && #[trigger] m[i] != 0 ==> distinct_audible(m).contains(m[i]),
    decreases m.len(),
{
    if m.len() > 0 {
        let t = m.drop_last();
        distinct_audible_properties(t);
        let before = distinct_audible(t);
        let d = distinct_audible(m);
        assert forall|i: int| 0 <= i < m.len() && #[trigger] m[i] != 0 implies d.contains(m[i]) by {
            if i < t.len() {
                assert(t[i] == m[i]);
                let k = choose|k: int| 0 <= k < before.len() && before[k] == m[i];
                assert(d[k] == m[i]);
            } else if !before.contains(m.last()) {
                assert(d[before.len() as int] == m[i]);
            }
        }
    }
    let d = distinct_audible(m);
    let ints = d.map_values(|x: u8| x as int);
    assert(ints.no_duplicates());
    ints.unique_seq_to_set();
    let bound = vstd::set_lib::set_int_range(1, 16);
    vstd::set_lib::lemma_int_range(1, 16);
    assert(ints.to_set().subset_of(bound)) by {
        assert forall|x: int| ints.to_set().contains(x) implies bound.contains(x) by {
            let k = choose|k: int| 0 <= k < ints.len() && ints[k] == x;
            assert(0 < d[k] < 16);
        }
    }
    vstd::set_lib::lemma_len_subset(ints.to_set(), bound);
}

/// A waveform sequence fits the sixteen steps of the target's oscillator, and
/// has at least two.
pub proof fn alternations_fit_the_target(bytes: Seq<u8>)
    requires
        alternation(bytes) is Some,
    ensures
        2 <= alternation(bytes)->Some_0.len() <= 16,
        forall|i: int|
            0 <= i < alternation(bytes)->Some_0.len() ==> #[trigger] alternation(bytes)->Some_0[i]
                < 16,
{
    let m = masks(bytes);
    distinct_audible_properties(m);
    let (i, j) = choose|i: int, j: int|
        0 <= i < m.len() && 0 <= j < m.len() && #[trigger] m[i] != 0 && #[trigger] m[j] != 0 && m[i]
            != m[j];
    let d = distinct_audible(m);
    assert(d.contains(m[i]) && d.contains(m[j]));
    let a = choose|k: int| 0 <= k < d.len() && d[k] == m[i];
    let b = choose|k: int| 0 <= k < d.len() && d[k] == m[j];
    assert(a != b);
}

fn holds_byte(v: &Vec<u8>, b: u8) -> (r: bool)
    ensures
        r == v@.contains(b),
{
    let mut i: usize = 0;
    while i < v.len()
        invariant
            i <= v@.len(),
            forall|j: int| 0 <= j < i ==> v@[j] != b,
        decreases v@.len() - i,
    {
        if v[i] == b {
            return true;
        }
        i += 1;
    }
    false
}

/// The sequence of a repeating waveform program.
pub fn alternation_seq(waveform_loop: Option<&[u8]>) -> (r: Option<Vec<u8>>)
    ensures
        match (waveform_loop, r) {
            (None, _) => r is None,
            (Some(bytes), Some(steps)) => alternation(bytes@) == Some(steps@),
            (Some(bytes), None) => alternation(bytes@) is None,
        },
{
    let bytes: &[u8] = match waveform_loop {
        Some(b) => b,
        None => {
            return None;
        },
    };
    if bytes.len() < 2 {
        return None;
    }
    let ghost m = masks(bytes@);
    let mut list: Vec<u8> = Vec::new();
    let mut distinct: Vec<u8> = Vec::new();
    let mut i: usize = 0;
    assert(m.take(0) =~= Seq::<u8>::empty());
    while i < bytes.len()
        invariant
            i <= bytes@.len(),
            m == masks(bytes@),
            list@ == m.take(i as int),
            distinct@ == distinct_audible(m.take(i as int)),
        decreases bytes@.len() - i,
    {
        let mask: u8 = bytes[i] / 16;
        assert(m.take(i + 1).drop_last() =~= m.take(i as int));
        list.push(mask);
        if mask != 0 && !holds_byte(&distinct, mask) {
            distinct.push(mask);
        }
        i += 1;
        assert(list@ =~= m.take(i as int));
    }
    assert(m.take(m.len() as int) =~= m);
    proof {
        distinct_audible_properties(m);
        alternates_iff_two_distinct(m);
    }
    if distinct.len() < 2 {
        return None;
    }
    if list.len() <= 16 {
        Some(list)
    } else {
        Some(distinct)
    }
}

proof fn distinct_comes_from(m: Seq<u8>, k: int)
    requires
        0 <= k < distinct_audible(m).len(),
    ensures
        m.contains(distinct_audible(m)[k]),
    decreases m.len(),
{
    let t = m.drop_last();
    let before = distinct_audible(t);
    if k < before.len() {
        distinct_comes_from(t, k);
        let i = choose|i: int| 0 <= i < t.len() && t[i] == before[k];
        assert(m[i] == distinct_audible(m)[k]);
    } else {
        assert(m[m.len() - 1] == distinct_audible(m)[k]);
    }
}

proof fn alternates_iff_two_distinct(m: Seq<u8>)
    requires
        forall|i: int| 0 <= i < m.len() ==> #[trigger] m[i] < 16,
    ensures
        alternates(m) <==> distinct_audible(m).len() >= 2,
{
    let d = distinct_audible(m);
    distinct_audible_properties(m);
    if d.len() >= 2 {
        distinct_comes_from(m, 0);
        distinct_comes_from(m, 1);
        let i = choose|i: int| 0 <= i < m.len() && m[i] == d[0];
        let j = choose|j: int| 0 <= j < m.len() && m[j] == d[1];
        assert(m[i] != 0 && m[j] != 0 && m[i] != m[j]);
    }
    if alternates(m) {
        let (i, j) = choose|i: int, j: int|
            0 <= i < m.len() && 0 <= j < m.len() && #[trigger] m[i] != 0 && #[trigger] m[j] != 0
                && m[i] != m[j];
        assert(d.contains(m[i]) && d.contains(m[j]));
        let a = choose|k: int| 0 <= k < d.len() && d[k] == m[i];
        let b = choose|k: int| 0 <= k < d.len() && d[k] == m[j];
        assert(a != b);
    }
}

/// The waveform sequence that a profile repeats.
pub open spec fn observed(profile: PatchVoiceProfile) -> Option<Seq<u8>> {
    match profile.waveform_loop {
        Some(v) => alternation(v@),
        None => None,
    }
}

/// The waveform sequence that a profile repeats.
pub fn observed_waveform_program(profile: &PatchVoiceProfile) -> (r: Option<Vec<u8>>)
    ensures
        match r {
            Some(s) => observed(*profile) == Some(s@),
            None => observed(*profile) is None,
        },
{
    match &profile.waveform_loop {
        Some(v) => alternation_seq(Some(v.as_slice())),
        None => None,
    }
}

/// Whether a sound is tuned percussion: a drum with a tonal body.
pub open spec fn tuned_percussion(patch: Patch) -> bool {
    patch.role_tags.drum_subclass is Some && !has_noise(patch.waveform)
}

/// Tells whether a sound is tuned percussion.
pub fn is_sid_percussion(patch: &Patch) -> (r: bool)
    ensures
        r == tuned_percussion(*patch),
{
    patch.role_tags.drum_subclass.is_some() && patch.waveform < 0x80
}

/// Tells whether a sound takes the generic percussion instrument: it is tuned
/// percussion, and no waveform program was observed.
pub fn use_generic_percussion(
    patch: &Patch,
    profile: &PatchVoiceProfile,
    note_program: Option<&[u8]>,
) -> (r: bool)
    ensures
        r == (tuned_percussion(*patch) && note_program is None && observed(*profile) is None),
{
    is_sid_percussion(patch) && note_program.is_none() && observed_waveform_program(
        profile,
    ).is_none()
}

/// What an instrument is in the music.
#[derive(Debug, Clone, Copy, PartialEq, Eq, Structural)]
pub enum InstrumentRole {
    Bass,
    Lead,
    Pad,
    Stab,
    Bell,
    Drum(DrumSubclass),
    /// No role applies; the waveform names the instrument.
    Untagged,
}

impl InstrumentRole {
    /// The most specific of several roles: drums first, then the pitched roles;
    /// percussion of no known kind counts as a drum.
    pub open spec fn of_tags(tags: RoleTags) -> InstrumentRole {
        if tags.drum_subclass is Some {
            InstrumentRole::Drum(tags.drum_subclass->Some_0)
        } else if tags.bass {
            InstrumentRole::Bass
        } else if tags.lead {
            InstrumentRole::Lead
        } else if tags.pad {
            InstrumentRole::Pad
        } else if tags.stab {
            InstrumentRole::Stab
        } else if tags.bell {
            InstrumentRole::Bell
        } else if tags.percussive {
            InstrumentRole::Drum(DrumSubclass::PercMetallic)
        } else {
            InstrumentRole::Untagged
        }
    }

    /// Whether the role plays one note at a time.
    pub open spec fn monophonic(self) -> bool {
        self == InstrumentRole::Bass || self == InstrumentRole::Lead || self == InstrumentRole::Stab
            || self == InstrumentRole::Bell
    }

    /// Picks the most specific of several roles.
    pub fn from_role_tags(tags: &RoleTags) -> (r: InstrumentRole)
        ensures
            r == InstrumentRole::of_tags(*tags),
    {
        if let Some(sub) = tags.drum_subclass {
            return InstrumentRole::Drum(sub);
        }
        if tags.bass {
            InstrumentRole::Bass
        } else if tags.lead {
            InstrumentRole::Lead
        } else if tags.pad {
            InstrumentRole::Pad
        } else if tags.stab {
            InstrumentRole::Stab
        } else if tags.bell {
            InstrumentRole::Bell
        } else if tags.percussive {
            InstrumentRole::Drum(DrumSubclass::PercMetallic)
        } else {
            InstrumentRole::Untagged
        }
    }

    /// The target's category number of the role.
    pub fn category(self) -> (r: u32)
        ensures
            r == match self {
                InstrumentRole::Untagged => 0u32,
                InstrumentRole::Drum(_) => 1,
                InstrumentRole::Bass => 2,
                InstrumentRole::Pad => 3,
                InstrumentRole::Lead => 4,
                InstrumentRole::Stab => 4,
                InstrumentRole::Bell => 6,
            },
    {
        match self {
            InstrumentRole::Drum(_) => 1,
            InstrumentRole::Bass => 2,
            InstrumentRole::Pad => 3,
            InstrumentRole::Lead => 4,
            InstrumentRole::Stab => 4,
            InstrumentRole::Bell => 6,
            InstrumentRole::Untagged => 0,
        }
    }

    /// How the target allots voices to the role.
    pub fn allocation_mode(self) -> (r: &'static str)
        ensures
            r@ == if self.monophonic() {
                "Mono"@
            } else {
                "Polyphonic"@
            },
    {
        match self {
            InstrumentRole::Bass => "Mono",
            InstrumentRole::Lead => "Mono",
            InstrumentRole::Stab => "Mono",
            InstrumentRole::Bell => "Mono",
            _ => "Polyphonic",
        }
    }

    /// How many notes the role plays at a time.
    pub fn max_voices(self) -> (r: u32)
        ensures
            r == if self.monophonic() {
                1u32
            } else {
                4
            },
    {
        match self {
            InstrumentRole::Bass => 1,
            InstrumentRole::Lead => 1,
            InstrumentRole::Stab => 1,
            InstrumentRole::Bell => 1,
            _ => 4,
        }
    }

    /// The musical name of the role.
    pub open spec fn label(self) -> Option<Seq<char>> {
        match self {
            InstrumentRole::Bass => Some("Bass"@),
            InstrumentRole::Lead => Some("Lead"@),
            InstrumentRole::Pad => Some("Pad"@),
            InstrumentRole::Stab => Some("Stab"@),
            InstrumentRole::Bell => Some("Bell"@),
            InstrumentRole::Drum(DrumSubclass::Kick) => Some("Kick"@),
            InstrumentRole::Drum(DrumSubclass::Snare) => Some("Snare"@),
            InstrumentRole::Drum(DrumSubclass::HihatClosed) => Some("Hihat (closed)"@),
            InstrumentRole::Drum(DrumSubclass::HihatOpen) => Some("Hihat (open)"@),
            InstrumentRole::Drum(DrumSubclass::Tom) => Some("Tom"@),
            InstrumentRole::Drum(DrumSubclass::PercMetallic) => Some("Perc"@),
            InstrumentRole::Untagged => None,
        }
    }

    /// The musical name of the role, if it has one.
    pub fn name(self) -> (r: Option<&'static str>)
        ensures
            match r {
                Some(s) => self.label() == Some(s@),
                None => self.label() is None,
            },
    {
        match self {
            InstrumentRole::Bass => Some("Bass"),
            InstrumentRole::Lead => Some("Lead"),
            InstrumentRole::Pad => Some("Pad"),
            InstrumentRole::Stab => Some("Stab"),
            InstrumentRole::Bell => Some("Bell"),
            InstrumentRole::Drum(sub) => match sub {
                DrumSubclass::Kick => Some("Kick"),
                DrumSubclass::Snare => Some("Snare"),
                DrumSubclass::HihatClosed => Some("Hihat (closed)"),
                DrumSubclass::HihatOpen => Some("Hihat (open)"),
                DrumSubclass::Tom => Some("Tom"),
                DrumSubclass::PercMetallic => Some("Perc"),
            },
            InstrumentRole::Untagged => None,
        }
    }
}

/// What an instrument's module graph depends on: sounds that agree in it can
/// share an instrument and differ in parameters that can be automated.
#[derive(Debug)]
pub struct MergeShape {
    pub is_noise: bool,
    pub waveform: Waveform,
    pub secondary_waveform: Option<Waveform>,
    pub has_ring: bool,
    pub has_sync: bool,
    pub filter_kind: Option<FilterKind>,
    pub authored_pwm: Option<AuthoredPwm>,
    pub waveform_program: Option<Vec<u8>>,
    pub waveform_loop: Option<Vec<u8>>,
    pub tonal_arp: Option<Vec<i8>>,
}

/// A shape as plain values.
pub struct ShapeView {
    pub is_noise: bool,
    pub waveform: Waveform,
    pub secondary_waveform: Option<Waveform>,
    pub has_ring: bool,
    pub has_sync: bool,
    pub filter_kind: Option<FilterKind>,
    pub authored_pwm: Option<AuthoredPwm>,
    pub waveform_program: Option<Seq<u8>>,
    pub waveform_loop: Option<Seq<u8>>,
    pub tonal_arp: Option<Seq<i8>>,
}

/// The elements of an optional list.
pub open spec fn optional_view<T>(v: Option<Vec<T>>) -> Option<Seq<T>> {
    match v {
        Some(x) => Some(x@),
        None => None,
    }
}

impl MergeShape {
    /// The shape as plain values.
    pub open spec fn view(self) -> ShapeView {
        ShapeView {
            is_noise: self.is_noise,
            waveform: self.waveform,
            secondary_waveform: self.secondary_waveform,
            has_ring: self.has_ring,
            has_sync: self.has_sync,
            filter_kind: self.filter_kind,
            authored_pwm: self.authored_pwm,
            waveform_program: optional_view(self.waveform_program),
            waveform_loop: optional_view(self.waveform_loop),
            tonal_arp: optional_view(self.tonal_arp),
        }
    }

    /// A copy of the shape.
    pub fn copy(&self) -> (r: MergeShape)
        ensures
            r.view() == self.view(),
    {
        MergeShape {
            is_noise: self.is_noise,
            waveform: self.waveform,
            secondary_waveform: self.secondary_waveform,
            has_ring: self.has_ring,
            has_sync: self.has_sync,
            filter_kind: self.filter_kind,
            authored_pwm: self.authored_pwm,
            waveform_program: copy_optional(&self.waveform_program),
            waveform_loop: copy_optional(&self.waveform_loop),
            tonal_arp: copy_optional(&self.tonal_arp),
        }
    }

    /// Whether two shapes are the same.
    pub fn same(&self, other: &MergeShape) -> (r: bool)
        ensures
            r == (self.view() == other.view()),
    {
        self.is_noise == other.is_noise && self.waveform == other.waveform
            && self.secondary_waveform == other.secondary_waveform && self.has_ring
            == other.has_ring && self.has_sync == other.has_sync && self.filter_kind
            == other.filter_kind && self.authored_pwm == other.authored_pwm && same_bytes(
            &self.waveform_program,
            &other.waveform_program,
        ) && same_bytes(&self.waveform_loop, &other.waveform_loop) && same_offsets(
            &self.tonal_arp,
            &other.tonal_arp,
        )
    }
}

/// Whether two optional byte lists are the same.
pub fn same_bytes(a: &Option<Vec<u8>>, b: &Option<Vec<u8>>) -> (r: bool)
    ensures
        r == (optional_view(*a) == optional_view(*b)),
{
    match (a, b) {
        (None, None) => true,
        (Some(x), Some(y)) => {
            if x.len() != y.len() {
                return false;
            }
            let mut i: usize = 0;
            while i < x.len()
                invariant
                    i <= x@.len(),
                    x@.len() == y@.len(),
                    *a == Some(*x),
                    *b == Some(*y),
                    forall|j: int| 0 <= j < i ==> x@[j] == y@[j],
                decreases x@.len() - i,
            {
                if x[i] != y[i] {
                    return false;
                }
                i += 1;
            }
            assert(x@ =~= y@);
            true
        },
        _ => false,
    }
}

/// Whether two optional offset lists are the same.
pub fn same_offsets(a: &Option<Vec<i8>>, b: &Option<Vec<i8>>) -> (r: bool)
    ensures
        r == (optional_view(*a) == optional_view(*b)),
{
    match (a, b) {
        (None, None) => true,
        (Some(x), Some(y)) => {
            if x.len() != y.len() {
                return false;
            }
            let mut i: usize = 0;
            while i < x.len()
                invariant
                    i <= x@.len(),
                    x@.len() == y@.len(),
                    *a == Some(*x),
                    *b == Some(*y),
                    forall|j: int| 0 <= j < i ==> x@[j] == y@[j],
                decreases x@.len() - i,
            {
                if x[i] != y[i] {
                    return false;
                }
                i += 1;
            }
            assert(x@ =~= y@);
            true
        },
        _ => false,
    }
}

/// A copy of a list of plain values.
pub fn copy_items<T: Copy>(v: &[T]) -> (r: Vec<T>)
    ensures
        r@ == v@,
{
    let mut out: Vec<T> = Vec::new();
    let mut i: usize = 0;
    while i < v.len()
        invariant
            i <= v@.len(),
            out@ == v@.take(i as int),
        decreases v@.len() - i,
    {
        out.push(v[i]);
        i += 1;
    }
    out
}

/// A copy of an optional list of plain values.
pub fn copy_optional<T: Copy>(v: &Option<Vec<T>>) -> (r: Option<Vec<T>>)
    ensures
        optional_view(r) == optional_view(*v),
{
    match v {
        Some(x) => Some(copy_items(x.as_slice())),
        None => None,
    }
}

/// The part of a shape that a one-shot waveform program makes up; the target's
/// oscillator has sixteen steps.
pub fn shape_program(program: Option<&[u8]>) -> (r: Option<Vec<u8>>)
    requires
        program matches Some(p) ==> p@.len() <= 16,
    ensures
        match program {
            Some(p) => optional_view(r) == Some(p@),
            None => r is None,
        },
{
    match program {
        Some(p) => Some(copy_items(p)),
        None => None,
    }
}

/// The arpeggio of a profile as part of a shape: none if it is empty or longer
/// than the target's sixty-four steps.
pub open spec fn tonal_arpeggio(profile: PatchVoiceProfile) -> Option<Seq<i8>> {
    match profile.arpeggio_loop {
        Some(v) => if 0 < v@.len() <= 64 {
            Some(v@)
        } else {
            None
        },
        None => None,
    }
}

/// The arpeggio of a profile as part of a shape.
pub fn shape_tonal_arp(profile: &PatchVoiceProfile) -> (r: Option<Vec<i8>>)
    ensures
        optional_view(r) == tonal_arpeggio(*profile),
{
    match &profile.arpeggio_loop {
        Some(v) => if v.len() > 0 && v.len() <= 64 {
            Some(copy_items(v.as_slice()))
        } else {
            None
        },
        None => None,
    }
}

/// The shape of a plain pulse, which notes without a sound get.
pub open spec fn raw_shape() -> ShapeView {
    ShapeView {
        is_noise: false,
        waveform: Waveform::Pulse,
        secondary_waveform: None,
        has_ring: false,
        has_sync: false,
        filter_kind: None,
        authored_pwm: None,
        waveform_program: None,
        waveform_loop: None,
        tonal_arp: None,
    }
}

/// The pulse-width program that counts: one of a pulse sound that really steps.
pub open spec fn effective_pwm(waveform: Waveform, pwm: Option<AuthoredPwm>) -> Option<
    AuthoredPwm,
> {
    match pwm {
        Some(p) => if waveform == Waveform::Pulse && p.step != 0 {
            Some(p)
        } else {
            None
        },
        None => None,
    }
}

/// The shape of a sound on a voice, with the one-shot program of its notes.
pub open spec fn sound_shape(
    patch: Patch,
    profile: PatchVoiceProfile,
    program: Option<Seq<u8>>,
) -> ShapeView {
    let noise = has_noise(patch.waveform);
    let waveform = if noise {
        Waveform::Noise
    } else {
        dominant(patch.waveform)
    };
    ShapeView {
        is_noise: noise,
        waveform,
        secondary_waveform: secondary(patch.waveform),
        has_ring: profile.ring_mod,
        has_sync: profile.hard_sync,
        filter_kind: if profile.filter_routed {
            Some(kind_of_mode(profile.filter_mode))
        } else {
            None
        },
        authored_pwm: effective_pwm(waveform, patch.authored_pwm),
        waveform_program: program,
        waveform_loop: observed(profile),
        tonal_arp: tonal_arpeggio(profile),
    }
}

/// The shape of a sound on a voice; without a sound, a plain pulse.
pub open spec fn shape(
    patch: Option<Patch>,
    profile: Option<PatchVoiceProfile>,
    program: Option<Seq<u8>>,
) -> ShapeView {
    match (patch, profile) {
        (Some(p), Some(q)) => sound_shape(p, q, program),
        _ => raw_shape(),
    }
}

/// The values behind optional references.
pub open spec fn deref_patch(p: Option<&Patch>) -> Option<Patch> {
    match p {
        Some(x) => Some(*x),
        None => None,
    }
}

/// The values behind optional references.
pub open spec fn deref_profile(p: Option<&PatchVoiceProfile>) -> Option<PatchVoiceProfile> {
    match p {
        Some(x) => Some(*x),
        None => None,
    }
}

/// The elements of an optional slice.
pub open spec fn slice_view(p: Option<&[u8]>) -> Option<Seq<u8>> {
    match p {
        Some(x) => Some(x@),
        None => None,
    }
}

/// The shape of a sound on a voice.
pub fn shape_of(
    patch: Option<&Patch>,
    profile: Option<&PatchVoiceProfile>,
    program: Option<&[u8]>,
) -> (r: MergeShape)
    requires
        program matches Some(p) ==> p@.len() <= 16,
    ensures
        r.view() == shape(deref_patch(patch), deref_profile(profile), slice_view(program)),
{
    match (patch, profile) {
        (Some(p), Some(q)) => {
            let noise: bool = p.waveform >= 0x80;
            let waveform: Waveform = if noise {
                Waveform::Noise
            } else {
                dominant_waveform(p.waveform)
            };
            let authored_pwm: Option<AuthoredPwm> = match p.authored_pwm {
                Some(pwm) => if waveform == Waveform::Pulse && pwm.step != 0 {
                    Some(pwm)
                } else {
                    None
                },
                None => None,
            };
            MergeShape {
                is_noise: noise,
                waveform,
                secondary_waveform: secondary_waveform(p.waveform),
                has_ring: q.ring_mod,
                has_sync: q.hard_sync,
                filter_kind: if q.filter_routed {
                    Some(filter_kind(q.filter_mode))
                } else {
                    None
                },
                authored_pwm,
                waveform_program: shape_program(program),
                waveform_loop: observed_waveform_program(q),
                tonal_arp: shape_tonal_arp(q),
            }
        },
        _ => MergeShape {
            is_noise: false,
            waveform: Waveform::Pulse,
            secondary_waveform: None,
            has_ring: false,
            has_sync: false,
            filter_kind: None,
            authored_pwm: None,
            waveform_program: None,
            waveform_loop: None,
            tonal_arp: None,
        },
    }
}

/// How far an unassigned note may be from the note whose sound it adopts.
pub const ADOPTION_MAX_DISTANCE_FRAMES: u32 = 500;

/// How far attack and sustain may differ for adoption.
pub const ADOPTION_ADSR_SHAPE_TOL: u8 = 3;

/// How far decay and release may differ for adoption.
pub const ADOPTION_ADSR_RATE_TOL: u8 = 5;

/// The distance of two numbers.
pub open spec fn distance(a: int, b: int) -> int {
    if a < b {
        b - a
    } else {
        a - b
    }
}

fn byte_distance(a: u8, b: u8) -> (r: u8)
    ensures
        r == distance(a as int, b as int),
{
    if a < b {
        b - a
    } else {
        a - b
    }
}

fn frame_distance(a: u32, b: u32) -> (r: u32)
    ensures
        r == distance(a as int, b as int),
{
    if a < b {
        b - a
    } else {
        a - b
    }
}

/// Whether two envelopes are close: attack and sustain tightly, decay and
/// release loosely.
pub open spec fn close_envelopes(a: Adsr, b: Adsr) -> bool {
    &&& distance(a.attack as int, b.attack as int) <= 3
    &&& distance(a.sustain as int, b.sustain as int) <= 3
    &&& distance(a.decay as int, b.decay as int) <= 5
    &&& distance(a.release as int, b.release as int) <= 5
}

/// Tells whether two envelopes are close.
pub fn adsr_compatible(a: Adsr, b: Adsr) -> (r: bool)
    ensures
        r == close_envelopes(a, b),
{
    byte_distance(a.attack, b.attack) <= ADOPTION_ADSR_SHAPE_TOL && byte_distance(
        a.sustain,
        b.sustain,
    ) <= ADOPTION_ADSR_SHAPE_TOL && byte_distance(a.decay, b.decay) <= ADOPTION_ADSR_RATE_TOL
        && byte_distance(a.release, b.release) <= ADOPTION_ADSR_RATE_TOL
}

/// Whether a note sounds like a patch: both noise, or both tonal with a common
/// waveform; the same filter routing; and close envelopes.
pub open spec fn sounds_like(
    note: NoteCharacteristics,
    patch: Patch,
    profile: PatchVoiceProfile,
) -> bool {
    let a = note.dominant_waveform;
    let b = patch.waveform;
    &&& has_noise(a) == has_noise(b)
    &&& has_noise(a) || (has_triangle(a) && has_triangle(b)) || (has_sawtooth(a) && has_sawtooth(b))
        || (has_pulse(a) && has_pulse(b))
    &&& note.filter_routed == profile.filter_routed
    &&& close_envelopes(note.starting_adsr, patch.adsr)
}

/// Tells whether a note sounds like a patch.
pub fn timbre_compatible(
    note: &NoteCharacteristics,
    patch: &Patch,
    profile: &PatchVoiceProfile,
) -> (r: bool)
    ensures
        r == sounds_like(*note, *patch, *profile),
{
    let a: u8 = note.dominant_waveform;
    let b: u8 = patch.waveform;
    if (a >= 0x80) != (b >= 0x80) {
        return false;
    }
    if a < 0x80 && !((a / 0x10 % 2 == 1 && b / 0x10 % 2 == 1) || (a / 0x20 % 2 == 1 && b / 0x20 % 2
        == 1) || (a / 0x40 % 2 == 1 && b / 0x40 % 2 == 1)) {
        return false;
    }
    if note.filter_routed != profile.filter_routed {
        return false;
    }
    adsr_compatible(note.starting_adsr, patch.adsr)
}

/// Whether a note at a frame may adopt the sound of an assigned note.
pub open spec fn adoptable(
    frame: u32,
    note: NoteCharacteristics,
    candidate: (u32, u16, &Patch, &PatchVoiceProfile),
) -> bool {
    distance(frame as int, candidate.0 as int) <= 500 && sounds_like(
        note,
        *candidate.2,
        *candidate.3,
    )
}

/// Whether a candidate is the one to adopt: it may be adopted, none that may be
/// is nearer, and none before it is as near.
pub open spec fn adopted(
    frame: u32,
    note: NoteCharacteristics,
    assigned: Seq<(u32, u16, &Patch, &PatchVoiceProfile)>,
    i: int,
) -> bool {
    &&& 0 <= i < assigned.len()
    &&& adoptable(frame, note, assigned[i])
    &&& forall|j: int|
        0 <= j < assigned.len() && adoptable(frame, note, #[trigger] assigned[j]) ==> {
            let dj = distance(frame as int, assigned[j].0 as int);
            let di = distance(frame as int, assigned[i].0 as int);
            di <= dj && (j < i ==> di < dj)
        }
}

/// The sound that a note of known sound adopts.
pub open spec fn adoption(
    frame: u32,
    note: NoteCharacteristics,
    assigned: Seq<(u32, u16, &Patch, &PatchVoiceProfile)>,
) -> Option<u16> {
    if exists|i: int| adopted(frame, note, assigned, i) {
        Some(assigned[choose|i: int| adopted(frame, note, assigned, i)].1)
    } else {
        None
    }
}

/// Finds the sound that an unassigned note adopts: that of the nearest assigned
/// note that sounds like it. A note of unknown sound adopts none.
pub fn adopt_patch(
    ev: &NoteEvent,
    characteristics: Option<&NoteCharacteristics>,
    assigned: &[(u32, u16, &Patch, &PatchVoiceProfile)],
) -> (r: Option<u16>)
    ensures
        match characteristics {
            None => r is None,
            Some(note) => r == adoption(ev.start_frame, *note, assigned@),
        },
{
    let note: &NoteCharacteristics = match characteristics {
        Some(n) => n,
        None => {
            return None;
        },
    };
    let frame: u32 = ev.start_frame;
    let mut best: Option<usize> = None;
    let mut i: usize = 0;
    while i < assigned.len()
        invariant
            i <= assigned@.len(),
            match best {
                Some(b) => {
                    &&& b < i
                    &&& adoptable(frame, *note, assigned@[b as int])
                    &&& forall|j: int|
                        0 <= j < i && adoptable(frame, *note, #[trigger] assigned@[j]) ==> {
                            let dj = distance(frame as int, assigned@[j].0 as int);
                            let di = distance(frame as int, assigned@[b as int].0 as int);
                            di <= dj && (j < b ==> di < dj)
                        }
                },
                None => forall|j: int|
                    0 <= j < i ==> !adoptable(frame, *note, #[trigger] assigned@[j]),
            },
        decreases assigned@.len() - i,
    {
        let d: u32 = frame_distance(frame, assigned[i].0);
        if d <= ADOPTION_MAX_DISTANCE_FRAMES && timbre_compatible(
            note,
            assigned[i].2,
            assigned[i].3,
        ) {
            match best {
                None => {
                    best = Some(i);
                },
                Some(b) => {
                    if d < frame_distance(frame, assigned[b].0) {
                        best = Some(i);
                    }
                },
            }
        }
        i += 1;
    }
    match best {
        Some(b) => {
            proof {
                assert(adopted(frame, *note, assigned@, b as int));
                let c = choose|i: int| adopted(frame, *note, assigned@, i);
                assert(adopted(frame, *note, assigned@, c));
                assert(adoptable(frame, *note, assigned@[c]));
                assert(adoptable(frame, *note, assigned@[b as int]));
            }
            Some(assigned[b].1)
        },
        None => {
            assert forall|i: int| !adopted(frame, *note, assigned@, i) by {
                if 0 <= i < assigned@.len() {
                    assert(!adoptable(frame, *note, assigned@[i]));
                }
            }
            None
        },
    }
}

/// The upper bits of a control byte select its waveforms: bit 4 triangle, bit 5 sawtooth,
/// bit 6 pulse and bit 7 noise.
pub proof fn control_bits_select_waveforms(byte: u8)
    ensures
        has_triangle(byte) <==> byte & 0x10 != 0,
        has_sawtooth(byte) <==> byte & 0x20 != 0,
        has_pulse(byte) <==> byte & 0x40 != 0,
        has_noise(byte) <==> byte & 0x80 != 0,
{
    assert((byte / 0x10 % 2 == 1 <==> byte & 0x10 != 0) && (byte / 0x20 % 2 == 1 <==> byte & 0x20
        != 0) && (byte / 0x40 % 2 == 1 <==> byte & 0x40 != 0) && (byte >= 0x80 <==> byte & 0x80
        != 0)) by (bit_vector);
}

/// The first waveform of a sound is one that it selects, if it selects a tonal one at all;
/// the second one is another that it selects, and it has one just where it combines two
/// tonal waveforms without noise. Pulse comes first and triangle last.
pub proof fn waveforms_are_among_the_selected(byte: u8)
    ensures
        dominant(byte) == Waveform::Triangle <==> byte & 0x70 == 0x10,
        dominant(byte) == Waveform::Sawtooth <==> byte & 0x60 == 0x20,
        dominant(byte) == Waveform::Pulse <==> byte & 0x40 != 0 || byte & 0x70 == 0,
        secondary(byte) is None <==> byte & 0x80 != 0 || byte & 0x70 == 0 || byte & 0x70 == 0x10
            || byte & 0x70 == 0x20 || byte & 0x70 == 0x40,
        secondary(byte) != Some(dominant(byte)),
        secondary(byte) == Some(Waveform::Triangle) ==> byte & 0x10 != 0,
        secondary(byte) == Some(Waveform::Sawtooth) ==> byte & 0x60 == 0x60,
        secondary(byte) != Some(Waveform::Noise) && secondary(byte) != Some(Waveform::Pulse),
{
    control_bits_select_waveforms(byte);
    assert((byte & 0x70 == 0x10 <==> byte & 0x10 != 0 && byte & 0x20 == 0 && byte & 0x40 == 0) && (
    byte & 0x60 == 0x20 <==> byte & 0x20 != 0 && byte & 0x40 == 0) && (byte & 0x70 == 0 <==> byte
        & 0x10 == 0 && byte & 0x20 == 0 && byte & 0x40 == 0) && (byte & 0x70 == 0x20 <==> byte & 0x10
        == 0 && byte & 0x20 != 0 && byte & 0x40 == 0) && (byte & 0x70 == 0x40 <==> byte & 0x10 == 0
        && byte & 0x20 == 0 && byte & 0x40 != 0) && (byte & 0x60 == 0x60 <==> byte & 0x20 != 0
        && byte & 0x40 != 0)) by (bit_vector);
}

/// A waveform is combined just where it selects two at least. A combined one is exact where
/// the target knows it, near where the chip's model is known, and plays as the first model
/// else.
pub proof fn combinations_are_told_apart(model: SidModel, mask: u8, exact: bool)
    requires
        mask < 16,
    ensures
        ({
            let policy = combination_policy(model, mask, exact);
            if mask == 0 || mask == 1 || mask == 2 || mask == 4 || mask == 8 {
                policy == "not_combined"@
            } else if exact {
                policy == "native_exact"@
            } else if model == SidModel::Unknown || model == SidModel::Both {
                policy == "native_6581_fallback"@
            } else {
                policy == "native_model_approximation"@
            }
        }),
{
    assert((mask % 2 + mask / 2 % 2 + mask / 4 % 2 + mask / 8 % 2 + mask / 16 % 2 + mask / 32 % 2
        + mask / 64 % 2 + mask / 128 < 2) <==> (mask == 0 || mask == 1 || mask == 2 || mask == 4
        || mask == 8)) by (bit_vector)
        requires
            mask < 16,
    ;
}

/// A filter that lets low and high tones through is a notch; else it is what it lets
/// through first, from low to high, and a low-pass where it lets nothing through.
pub proof fn filter_kinds_follow_their_mode(mode: FilterMode)
    ensures
        kind_of_mode(mode) == FilterKind::Notch <==> mode.low_pass && mode.high_pass,
        kind_of_mode(mode) == FilterKind::Highpass <==> mode.high_pass && !mode.low_pass
            && !mode.band_pass,
        kind_of_mode(mode) == FilterKind::Bandpass <==> mode.band_pass && !mode.low_pass,
        kind_of_mode(mode) == FilterKind::Lowpass <==> !mode.high_pass && (mode.low_pass
            || !mode.band_pass),
{
}

/// A loop of up to sixteen control bytes is kept step by step if two of its steps select
/// different waveforms; a loop that does not alternate is none.
pub proof fn loops_keep_their_steps(bytes: Seq<u8>, i: int, j: int)
    requires
        0 <= i < bytes.len() <= 16,
        0 <= j < bytes.len(),
    ensures
        bytes[i] & 0xF0 != 0 && bytes[j] & 0xF0 != 0 && bytes[i] & 0xF0 != bytes[j] & 0xF0 ==> {
            &&& alternation(bytes) is Some
            &&& alternation(bytes)->0.len() == bytes.len()
            &&& alternation(bytes)->0[i] == bytes[i] >> 4
        },
        (forall|a: int, b: int|
            0 <= a < bytes.len() && 0 <= b < bytes.len() && #[trigger] bytes[a] & 0xF0 != 0
                && #[trigger] bytes[b] & 0xF0 != 0 ==> bytes[a] & 0xF0 == bytes[b] & 0xF0)
            ==> alternation(bytes) is None,
{
    let m = masks(bytes);
    assert forall|a: int| 0 <= a < bytes.len() implies #[trigger] m[a] == bytes[a] >> 4 && (m[a] != 0
        <==> bytes[a] & 0xF0 != 0) by {
        let x = bytes[a];
        assert(x / 16 == x >> 4 && (x / 16 != 0 <==> x & 0xF0 != 0)) by (bit_vector);
    }
    let x = bytes[i];
    let y = bytes[j];
    assert(x & 0xF0 != y & 0xF0 ==> x >> 4 != y >> 4) by (bit_vector);
    assert(m[i] == x >> 4 && m[j] == y >> 4);
    if forall|a: int, b: int|
        0 <= a < bytes.len() && 0 <= b < bytes.len() && #[trigger] bytes[a] & 0xF0 != 0
            && #[trigger] bytes[b] & 0xF0 != 0 ==> bytes[a] & 0xF0 == bytes[b] & 0xF0 {
        assert forall|a: int, b: int|
            0 <= a < m.len() && 0 <= b < m.len() && #[trigger] m[a] != 0 && #[trigger] m[b]
                != 0 implies m[a] == m[b] by {
            let x = bytes[a];
            let y = bytes[b];
            assert(x & 0xF0 == y & 0xF0);
            assert(x & 0xF0 == y & 0xF0 ==> x >> 4 == y >> 4) by (bit_vector);
        }
    }
}

/// A sound is shaped by its waveforms and by what couples and filters its voice; a sound
/// without a patch is a plain pulse. Its pulse-width program counts only if it is a pulse
/// and moves.
pub proof fn shapes_follow_their_sound(patch: Patch, profile: PatchVoiceProfile, program: Option<Seq<u8>>)
    ensures
        ({
            let s = shape(Some(patch), Some(profile), program);
            &&& s.is_noise <==> patch.waveform & 0x80 != 0
            &&& s.waveform == Waveform::Noise <==> patch.waveform & 0x80 != 0
            &&& patch.waveform & 0xC0 == 0x40 ==> s.waveform == Waveform::Pulse
            &&& patch.waveform & 0xE0 == 0x20 ==> s.waveform == Waveform::Sawtooth
            &&& patch.waveform & 0xF0 == 0x10 ==> s.waveform == Waveform::Triangle
            &&& s.has_ring == profile.ring_mod
            &&& s.has_sync == profile.hard_sync
            &&& s.filter_kind is Some <==> profile.filter_routed
            &&& s.authored_pwm is Some ==> s.authored_pwm == patch.authored_pwm && s.waveform
                == Waveform::Pulse && s.authored_pwm->0.step != 0
            &&& patch.authored_pwm is Some && patch.authored_pwm->0.step != 0 && s.waveform
                == Waveform::Pulse ==> s.authored_pwm == patch.authored_pwm
            &&& s.waveform_program == program
            &&& profile.arpeggio_loop is None ==> s.tonal_arp is None
            &&& profile.arpeggio_loop is Some && 0 < profile.arpeggio_loop->0@.len() <= 64
                ==> s.tonal_arp == Some(profile.arpeggio_loop->0@)
        }),
        shape(None, Some(profile), program).waveform == Waveform::Pulse,
        !shape(None, Some(profile), program).is_noise,
        shape(None, Some(profile), program).filter_kind is None,
{
    let byte = patch.waveform;
    control_bits_select_waveforms(byte);
    assert((byte & 0xC0 == 0x40 ==> byte & 0x40 != 0 && byte & 0x80 == 0) && (byte & 0xE0 == 0x20
        ==> byte & 0x20 != 0 && byte & 0x40 == 0 && byte & 0x80 == 0) && (byte & 0xF0 == 0x10 ==> byte
        & 0x10 != 0 && byte & 0x20 == 0 && byte & 0x40 == 0 && byte & 0x80 == 0)) by (bit_vector);
}

/// Roles go by rank: a known kind of drum before all else, then bass, lead, pad, stab and
/// bell; what is only percussive is a metallic drum, and what is nothing has no role.
pub proof fn roles_go_by_rank(tags: RoleTags)
    ensures
        ({
            let r = InstrumentRole::of_tags(tags);
            &&& tags.drum_subclass is Some ==> r == InstrumentRole::Drum(tags.drum_subclass->0)
            &&& r == InstrumentRole::Bass <==> tags.drum_subclass is None && tags.bass
            &&& r == InstrumentRole::Lead <==> tags.drum_subclass is None && !tags.bass && tags.lead
            &&& r == InstrumentRole::Pad <==> tags.drum_subclass is None && !tags.bass && !tags.lead
                && tags.pad
            &&& r == InstrumentRole::Stab ==> tags.stab && !tags.pad && !tags.lead && !tags.bass
            &&& r == InstrumentRole::Bell ==> tags.bell && !tags.stab && !tags.pad && !tags.lead
                && !tags.bass
            &&& r == InstrumentRole::Untagged <==> tags.drum_subclass is None && !tags.bass
                && !tags.lead && !tags.pad && !tags.stab && !tags.bell && !tags.percussive
        }),
{
}

/// A note adopts the sound of the nearest note that may lend it one: within 500 frames, with
/// envelopes that are close, routed alike, and with a waveform in common. It adopts none
/// where none may.
pub proof fn the_nearest_sound_is_adopted(
    frame: u32,
    note: NoteCharacteristics,
    assigned: Seq<(u32, u16, &Patch, &PatchVoiceProfile)>,
)
    ensures
        match adoption(frame, note, assigned) {
            Some(patch) => exists|i: int|
                0 <= i < assigned.len() && (#[trigger] assigned[i]).1 == patch && -500 <= frame
                    - assigned[i].0 <= 500 && sounds_like(note, *assigned[i].2, *assigned[i].3)
                    && forall|j: int|
                    0 <= j < assigned.len() && -500 <= frame - (#[trigger] assigned[j]).0 <= 500
                        && sounds_like(note, *assigned[j].2, *assigned[j].3) ==> distance(
                        frame as int,
                        assigned[i].0 as int,
                    ) <= distance(frame as int, assigned[j].0 as int),
            None => forall|j: int|
                0 <= j < assigned.len() && -500 <= frame - (#[trigger] assigned[j]).0 <= 500
                    ==> !sounds_like(note, *assigned[j].2, *assigned[j].3),
        },
{
    match adoption(frame, note, assigned) {
        Some(patch) => {
            let i = choose|i: int| adopted(frame, note, assigned, i);
            assert(adopted(frame, note, assigned, i));
            assert(assigned[i].1 == patch);
            assert forall|j: int|
                0 <= j < assigned.len() && -500 <= frame - (#[trigger] assigned[j]).0 <= 500
                    && sounds_like(note, *assigned[j].2, *assigned[j].3) implies distance(
                frame as int,
                assigned[i].0 as int,
            ) <= distance(frame as int, assigned[j].0 as int) by {
                assert(adoptable(frame, note, assigned[j]));
            }
        },
        None => {
            if exists|j: int| 0 <= j < assigned.len() && adoptable(frame, note, assigned[j]) {
                let j = choose|j: int|
                    0 <= j < assigned.len() && adoptable(frame, note, assigned[j]);
                let i = nearest_of(frame, note, assigned, assigned.len() as int);
                assert(adopted(frame, note, assigned, i));
            }
            assert forall|j: int|
                0 <= j < assigned.len() && -500 <= frame - (
                #[trigger] assigned[j]).0 <= 500 implies !sounds_like(
                note,
                *assigned[j].2,
                *assigned[j].3,
            ) by {
                if sounds_like(note, *assigned[j].2, *assigned[j].3) {
                    assert(adoptable(frame, note, assigned[j]));
                }
            }
        },
    }
}

proof fn nearest_of(
    frame: u32,
    note: NoteCharacteristics,
    assigned: Seq<(u32, u16, &Patch, &PatchVoiceProfile)>,
    n: int,
) -> (i: int)
    requires
        0 <= n <= assigned.len(),
        exists|j: int| 0 <= j < n && adoptable(frame, note, assigned[j]),
    ensures
        0 <= i < n,
        adoptable(frame, note, assigned[i]),
        forall|j: int|
            0 <= j < n && adoptable(frame, note, #[trigger] assigned[j]) ==> {
                let dj = distance(frame as int, assigned[j].0 as int);
                let di = distance(frame as int, assigned[i].0 as int);
                di <= dj && (j < i ==> di < dj)
            },
    decreases n,
{
    if exists|j: int| 0 <= j < n - 1 && adoptable(frame, note, assigned[j]) {
        let i = nearest_of(frame, note, assigned, n - 1);
        if adoptable(frame, note, assigned[n - 1]) && distance(
            frame as int,
            assigned[n - 1].0 as int,
        ) < distance(frame as int, assigned[i].0 as int) {
            n - 1
        } else {
            i
        }
    } else {
        n - 1
    }
}

/// Two sounds are alike only if they share a waveform, or are both noise, are routed alike,
/// and have envelopes within 3 steps of attack and sustain and 5 of decay and release.
pub proof fn alike_sounds_share_a_waveform(
    note: NoteCharacteristics,
    patch: Patch,
    profile: PatchVoiceProfile,
)
    ensures
        sounds_like(note, patch, profile) <==> {
            let a = note.dominant_waveform;
            let b = patch.waveform;
            &&& (a & 0x80 != 0 && b & 0x80 != 0) || (a & 0x80 == 0 && b & 0x80 == 0 && a & b & 0x70
                != 0)
            &&& note.filter_routed <==> profile.filter_routed
            &&& -3 <= note.starting_adsr.attack - patch.adsr.attack <= 3
            &&& -3 <= note.starting_adsr.sustain - patch.adsr.sustain <= 3
            &&& -5 <= note.starting_adsr.decay - patch.adsr.decay <= 5
            &&& -5 <= note.starting_adsr.release - patch.adsr.release <= 5
        },
{
    let a = note.dominant_waveform;
    let b = patch.waveform;
    control_bits_select_waveforms(a);
    control_bits_select_waveforms(b);
    assert(a & b & 0x70 != 0 <==> (a & 0x10 != 0 && b & 0x10 != 0) || (a & 0x20 != 0 && b & 0x20
        != 0) || (a & 0x40 != 0 && b & 0x40 != 0)) by (bit_vector);
}

} // verus!
