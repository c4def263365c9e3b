//! The names of tracks, instruments and patterns.

use crate::analysis::patch::Patch;
use crate::chars::{from_chars, to_chars, trim, trim_spec};
use crate::numerals::{numeral, push_decimal, push_slice, push_text};
use super::emission::{arp_plan_offsets, segments_fit, track_arpeggio};
use super::timbre::{InstrumentRole, MergeShape, ShapeView};
use super::tracks::{Segment, TrackPlan};
use vstd::prelude::*;

verus! {

/// The role of a track: that of the sound of its first segment.
pub open spec fn role_of(segments: Seq<Segment>, patches: Seq<Patch>) -> InstrumentRole {
    if segments.len() > 0 && segments[0].patch is Some {
        InstrumentRole::of_tags(patches[segments[0].patch->0 as int].role_tags)
    } else {
        InstrumentRole::Untagged
    }
}

/// The role of a track.
pub fn plan_role(plan: &TrackPlan, patches: &[Patch]) -> (r: InstrumentRole)
    requires
        segments_fit(plan.segments@, patches@),
    ensures
        r == role_of(plan.segments@, patches@),
{
    if plan.segments.len() > 0 {
        assert(segments_fit(plan.segments@, patches@));
        assert(plan.segments@[0].patch matches Some(p) ==> p < patches@.len());
        if let Some(p) = plan.segments[0].patch {
            return InstrumentRole::from_role_tags(&patches[p].role_tags);
        }
    }
    InstrumentRole::Untagged
}

/// Whether a track plays an arpeggio.
pub fn plan_arpeggiated(plan: &TrackPlan, patches: &[Patch]) -> (r: bool)
    requires
        segments_fit(plan.segments@, patches@),
    ensures
        r == (track_arpeggio(plan.segments@, patches@) is Some),
{
    arp_plan_offsets(plan, patches).is_some()
}

/// Whether no segment of a track has a sound.
pub open spec fn is_raw(segments: Seq<Segment>) -> bool {
    forall|s: int| 0 <= s < segments.len() ==> (#[trigger] segments[s]).patch is None
}

/// Tells whether no segment of a track has a sound.
pub fn plan_is_raw(plan: &TrackPlan) -> (r: bool)
    ensures
        r == is_raw(plan.segments@),
{
    let mut s: usize = 0;
    while s < plan.segments.len()
        invariant
            s <= plan.segments@.len(),
            forall|t: int| 0 <= t < s ==> (#[trigger] plan.segments@[t]).patch is None,
        decreases plan.segments@.len() - s,
    {
        if plan.segments[s].patch.is_some() {
            return false;
        }
        s += 1;
    }
    true
}

/// The words for a sound: its waveforms, its filter, and what else it does.
pub open spec fn timbre_text(shape: ShapeView, arpeggiated: bool) -> Seq<char> {
    let source = if shape.is_noise {
        "noise"@
    } else {
        match shape.secondary_waveform {
            Some(second) => shape.waveform.label() + "+"@ + second.label(),
            None => shape.waveform.label(),
        }
    };
    let filtered = match shape.filter_kind {
        Some(kind) => source + " "@ + kind.label(),
        None => source,
    };
    let ringing = if shape.has_ring {
        filtered + " ring"@
    } else {
        filtered
    };
    let synced = if shape.has_sync {
        ringing + " sync"@
    } else {
        ringing
    };
    if arpeggiated {
        synced + " arp"@
    } else {
        synced
    }
}

fn push_source(out: &mut Vec<char>, shape: &MergeShape)
    ensures
        final(out)@ == old(out)@ + (if shape.is_noise {
            "noise"@
        } else {
            match shape.secondary_waveform {
                Some(second) => shape.waveform.label() + "+"@ + second.label(),
                None => shape.waveform.label(),
            }
        }),
{
    let ghost start = out@;
    if shape.is_noise {
        push_text(out, "noise");
    } else {
        push_text(out, shape.waveform.name());
        if let Some(second) = shape.secondary_waveform {
            push_text(out, "+");
            push_text(out, second.name());
            assert(out@ =~= start + (shape.waveform.label() + "+"@ + second.label()));
        }
    }
}

fn timbre_chars(shape: &MergeShape, arpeggiated: bool) -> (r: Vec<char>)
    ensures
        r@ == timbre_text(shape.view(), arpeggiated),
{
    let mut out: Vec<char> = Vec::new();
    push_source(&mut out, shape);
    assert(Seq::<char>::empty() + out@ =~= out@);
    if let Some(kind) = shape.filter_kind {
        push_text(&mut out, " ");
        push_text(&mut out, kind.name());
    }
    if shape.has_ring {
        push_text(&mut out, " ring");
    }
    if shape.has_sync {
        push_text(&mut out, " sync");
    }
    if arpeggiated {
        push_text(&mut out, " arp");
    }
    out
}

/// The words for the sound of a track.
pub fn plan_timbre(plan: &TrackPlan, patches: &[Patch]) -> (r: String)
    requires
        segments_fit(plan.segments@, patches@),
    ensures
        r@ == timbre_text(plan.shape.view(), track_arpeggio(plan.segments@, patches@) is Some),
{
    from_chars(timbre_chars(&plan.shape, plan_arpeggiated(plan, patches)).as_slice())
}

/// A number as text.
pub open spec fn number_text(n: nat) -> Seq<char> {
    numeral(n, 10)
}

/// The voice that a name begins with.
pub open spec fn voice_text(voice: u8) -> Seq<char> {
    "V"@ + number_text(voice as nat)
}

/// The short name of a track: its voice and its role, or else its waveform.
pub open spec fn base_name(plan: TrackPlan, patches: Seq<Patch>) -> Seq<char> {
    if plan.drum_drop {
        voice_text(plan.voice.0) + " drum (drop)"@
    } else if is_raw(plan.segments@) {
        voice_text(plan.voice.0) + " raw"@
    } else {
        match role_of(plan.segments@, patches).label() {
            Some(role) => voice_text(plan.voice.0) + " "@ + role,
            None => voice_text(plan.voice.0) + " "@ + plan.shape.view().waveform.label(),
        }
    }
}

/// The full name of a track: its voice, its role and its sound, and the number of
/// its instrument.
pub open spec fn full_name(plan: TrackPlan, patches: Seq<Patch>) -> Seq<char> {
    let id = " · i"@ + number_text(plan.instrument_id as nat);
    if plan.drum_drop {
        voice_text(plan.voice.0) + " drum (drop)"@ + id
    } else if is_raw(plan.segments@) {
        voice_text(plan.voice.0) + " raw"@ + id
    } else {
        let role = match role_of(plan.segments@, patches).label() {
            Some(role) => voice_text(plan.voice.0) + " "@ + role,
            None => voice_text(plan.voice.0),
        };
        role + " "@ + timbre_text(
            plan.shape.view(),
            track_arpeggio(plan.segments@, patches) is Some,
        ) + id
    }
}

/// Appends the numeral of a number.
pub fn push_number(out: &mut Vec<char>, n: u64)
    ensures
        final(out)@ == old(out)@ + number_text(n as nat),
{
    push_decimal(out, n, 0);
}

/// The short name of a track.
pub fn plan_base_name(plan: &TrackPlan, patches: &[Patch]) -> (r: String)
    requires
        segments_fit(plan.segments@, patches@),
    ensures
        r@ == base_name(*plan, patches@),
{
    let mut out: Vec<char> = Vec::new();
    push_text(&mut out, "V");
    push_number(&mut out, plan.voice.0 as u64);
    if plan.drum_drop {
        push_text(&mut out, " drum (drop)");
    } else if plan_is_raw(plan) {
        push_text(&mut out, " raw");
    } else {
        push_text(&mut out, " ");
        match plan_role(plan, patches).name() {
            Some(role) => {
                push_text(&mut out, role);
            },
            None => {
                push_text(&mut out, plan.shape.waveform.name());
            },
        }
    }
    assert(out@ =~= base_name(*plan, patches@));
    from_chars(out.as_slice())
}

/// The full name of a track.
pub fn plan_name(plan: &TrackPlan, patches: &[Patch]) -> (r: String)
    requires
        segments_fit(plan.segments@, patches@),
    ensures
        r@ == full_name(*plan, patches@),
{
    let mut out: Vec<char> = Vec::new();
    push_text(&mut out, "V");
    push_number(&mut out, plan.voice.0 as u64);
    if plan.drum_drop {
        push_text(&mut out, " drum (drop)");
    } else if plan_is_raw(plan) {
        push_text(&mut out, " raw");
    } else {
        if let Some(role) = plan_role(plan, patches).name() {
            push_text(&mut out, " ");
            push_text(&mut out, role);
        }
        push_text(&mut out, " ");
        let timbre: Vec<char> = timbre_chars(&plan.shape, plan_arpeggiated(plan, patches));
        push_slice(&mut out, timbre.as_slice());
    }
    push_text(&mut out, " · i");
    push_number(&mut out, plan.instrument_id as u64);
    assert(out@ =~= full_name(*plan, patches@));
    from_chars(out.as_slice())
}

/// A text without the space around it, or another one if nothing is left.
pub open spec fn clean_text(s: Seq<char>, default: Seq<char>) -> Seq<char> {
    if trim_spec(s).len() == 0 {
        default
    } else {
        trim_spec(s)
    }
}

/// A text without the space around it, or another one if nothing is left.
pub fn clean(s: &str, default: &str) -> (r: String)
    ensures
        r@ == clean_text(s@, default@),
{
    let text: Vec<char> = to_chars(s);
    let trimmed: &[char] = trim(text.as_slice());
    if trimmed.len() == 0 {
        from_chars(to_chars(default).as_slice())
    } else {
        from_chars(trimmed)
    }
}

/// A number with its sign, as text.
pub open spec fn signed_text(n: int) -> Seq<char> {
    if n < 0 {
        "-"@ + number_text((-n) as nat)
    } else {
        "+"@ + number_text(n as nat)
    }
}

/// The name of a pattern: the track, the driver's number of the pattern, the
/// transposition that was taken out, and the number of the pattern.
pub open spec fn block_name(base: Seq<char>, number: u32, applied: i32, id: u32) -> Seq<char> {
    base + " #"@ + number_text(number as nat) + " "@ + signed_text(applied as int) + " · p"@
        + number_text(id as nat)
}

/// The name of a pattern that a driver's pattern became.
pub fn pattern_name(base: &str, number: u32, applied: i32, id: u32) -> (r: String)
    ensures
        r@ == block_name(base@, number, applied, id),
{
    let mut out: Vec<char> = to_chars(base);
    push_text(&mut out, " #");
    push_number(&mut out, number as u64);
    push_text(&mut out, " ");
    if applied < 0 {
        push_text(&mut out, "-");
        push_number(&mut out, (-(applied as i64)) as u64);
    } else {
        push_text(&mut out, "+");
        push_number(&mut out, applied as u64);
    }
    push_text(&mut out, " · p");
    push_number(&mut out, id as u64);
    assert(out@ =~= block_name(base@, number, applied, id));
    from_chars(out.as_slice())
}

/// A text with another one behind it.
pub fn joined(a: &str, b: &str) -> (r: String)
    ensures
        r@ == a@ + b@,
{
    let mut out: Vec<char> = to_chars(a);
    push_text(&mut out, b);
    from_chars(out.as_slice())
}

/// Every name of a track starts with its voice, and the full one ends with its instrument, so
/// that tracks of different instruments never share a name.
pub proof fn names_tell_voice_and_instrument(plan: TrackPlan, patches: Seq<Patch>)
    ensures
        ({
            let voice = "V"@ + numeral(plan.voice.0 as nat, 10);
            let id = " · i"@ + numeral(plan.instrument_id as nat, 10);
            let base = base_name(plan, patches);
            let full = full_name(plan, patches);
            &&& base.take(voice.len() as int) == voice
            &&& full.take(voice.len() as int) == voice
            &&& full.skip(full.len() - id.len()) == id
            &&& full.len() >= voice.len() + id.len()
            &&& plan.drum_drop ==> base == voice + " drum (drop)"@ && full == base + id
            &&& !plan.drum_drop && (forall|s: int|
                0 <= s < plan.segments@.len() ==> (#[trigger] plan.segments@[s]).patch is None)
                ==> base == voice + " raw"@ && full == base + id
        }),
{
    let voice = "V"@ + numeral(plan.voice.0 as nat, 10);
    let id = " · i"@ + numeral(plan.instrument_id as nat, 10);
    let base = base_name(plan, patches);
    let full = full_name(plan, patches);
    assert(base.take(voice.len() as int) =~= voice);
    assert(full.take(voice.len() as int) =~= voice);
    assert(full.skip(full.len() - id.len()) =~= id);
}

/// The text of a timbre names the noise or the waveforms first, then the filter, and then in
/// order whether it rings, is synced, and is an arpeggio.
pub proof fn timbres_name_what_they_hold(shape: ShapeView, arpeggiated: bool)
    ensures
        ({
            let plain = ShapeView { has_ring: false, has_sync: false, filter_kind: None, ..shape };
            let open = ShapeView { has_ring: false, has_sync: false, ..shape };
            let dry = ShapeView { has_sync: false, ..shape };
            &&& timbre_text(shape, true) == timbre_text(shape, false) + " arp"@
            &&& shape.has_sync ==> timbre_text(shape, false) == timbre_text(dry, false) + " sync"@
            &&& !shape.has_sync ==> timbre_text(shape, false) == timbre_text(dry, false)
            &&& shape.has_ring ==> timbre_text(dry, false) == timbre_text(open, false) + " ring"@
            &&& !shape.has_ring ==> timbre_text(dry, false) == timbre_text(open, false)
            &&& shape.filter_kind matches Some(kind) ==> timbre_text(open, false) == timbre_text(
                plain,
                false,
            ) + " "@ + kind.label()
            &&& shape.filter_kind is None ==> timbre_text(open, false) == timbre_text(plain, false)
            &&& shape.is_noise ==> timbre_text(plain, false) == "noise"@
            &&& !shape.is_noise && shape.secondary_waveform is None ==> timbre_text(plain, false)
                == shape.waveform.label()
            &&& !shape.is_noise && shape.secondary_waveform is Some ==> timbre_text(plain, false)
                == shape.waveform.label() + "+"@ + shape.secondary_waveform->0.label()
        }),
{
}

/// Numbers in names show their sign, and zero counts as positive; a text without anything
/// but blanks gives way to the usual one.
pub proof fn names_show_signs_and_stand_in(n: int, s: Seq<char>, default: Seq<char>)
    ensures
        n >= 0 ==> signed_text(n) == "+"@ + numeral(n as nat, 10),
        n < 0 ==> signed_text(n) == "-"@ + numeral((-n) as nat, 10),
        trim_spec(s).len() > 0 ==> clean_text(s, default) == trim_spec(s),
        trim_spec(s).len() == 0 ==> clean_text(s, default) == default,
{
}

} // verus!
