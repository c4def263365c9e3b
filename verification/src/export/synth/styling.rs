//! What the styles of an export keep, add and leave alone.

use crate::analysis::patch::{DrumSubclass, Patch};
use super::effects::{faithful_chain, EffectUnit, MasterEffect};
use super::emission::track_arpeggio;
use super::enhance::{
    between, compression, curve_of, drum_room, enhanced, enhanced_chain, enhanced_instruments,
    enhancement, first_distortion, first_limiter, grip_of, master_compressor, master_equalizer,
    part, saturation, staged, warmed, warmth_of,
};
use super::instruments::{InstrumentView, ModuleView, ParametersView, Treatment};
use super::modern::{
    arp_recipe, bass_recipe, bell_recipe, drum_recipe, followed_lanes, is_kept, kept_modules,
    lane_module, lane_parameter, lead_recipe, modern_chain, modern_instruments, pad_recipe,
    plain_recipe, recipe_effects, recipe_of, restyled, stab_recipe, Kept, VoiceRecipe,
};
use super::naming::role_of;
use super::routing::{busses_of, sends_of};
use super::song::automation::LaneKind;
use super::timbre::{InstrumentRole, Waveform};
use super::tracks::TrackPlan;
use vstd::prelude::*;

verus! {

/// The strength of an enhancement is its amount; room follows it up to the middle and less
/// than half as fast beyond, and the upper part runs from nothing in the middle to all at the
/// top.
pub proof fn curves_follow_their_amount(level: u8)
    requires
        1 <= level <= 10,
    ensures
        curve_of(level).strength * 10 == 1000 * level,
        level <= 5 ==> curve_of(level).upper == 0,
        level <= 5 ==> curve_of(level).ambience == curve_of(level).strength,
        level > 5 ==> curve_of(level).upper == 2 * (curve_of(level).strength - 500),
        level > 5 ==> 100 * (curve_of(level).ambience - 500) == 44 * (curve_of(level).strength
            - 500),
        0 <= curve_of(level).upper <= 1000,
        curve_of(10).upper == 1000,
        curve_of(10).ambience == 720,
{
}

/// Between two settings a position of nothing gives the first, one of all the second, and a
/// greater one lies further on.
pub proof fn settings_lie_between(from: int, to: int, p: int, q: int)
    requires
        from <= to,
        0 <= p <= q <= 1000,
    ensures
        between(from, to, 0) == from,
        between(from, to, 1000) == to,
        from <= between(from, to, p) <= between(from, to, q) <= to,
        1000 * (between(from, to, p) - from) <= (to - from) * p,
        (to - from) * p < 1000 * (between(from, to, p) - from) + 1000,
        staged(p, from, to, 0) == p,
        q > 0 ==> staged(p, from, to, q) == between(from, to, q),
{
    let d = to - from;
    assert(d * 0 == 0) by (nonlinear_arith);
    assert(0 <= d * p <= d * q <= d * 1000) by (nonlinear_arith)
        requires
            0 <= d,
            0 <= p <= q <= 1000,
    ;
}

/// Whether a unit brings some room, width or echo.
pub open spec fn is_spacious(u: EffectUnit) -> bool {
    u is Chorus || u is Delay || u is Reverb
}

/// Every enhancement warms and then holds a sound; a bass stays dry, and all others end in a
/// room. Only leads that are no arpeggios, pads and plain sounds are widened, and only leads
/// and bells echo.
pub proof fn enhancements_suit_their_role(role: InstrumentRole, arpeggiated: bool, level: u8)
    requires
        1 <= level <= 10,
    ensures
        ({
            let units = enhancement(role, arpeggiated, level);
            &&& units.len() >= 2
            &&& units[0] is Distortion && units[1] is Compressor
            &&& forall|i: int| 2 <= i < units.len() ==> is_spacious(#[trigger] units[i])
            &&& role is Bass <==> units.len() == 2
            &&& !(role is Bass) ==> units.last() is Reverb
            &&& (exists|i: int| 0 <= i < units.len() && (#[trigger] units[i]) is Chorus) <==> (
            role is Lead && !arpeggiated || role is Pad || role is Untagged)
            &&& (exists|i: int| 0 <= i < units.len() && (#[trigger] units[i]) is Delay) <==> (
            role is Lead || role is Bell)
            &&& units[0]->Distortion_0.bit_depth == 16_000_000
            &&& 0 <= units[0]->Distortion_0.mix <= 1_000_000
            &&& units[1]->Compressor_0.ratio >= 1_000_000
            &&& -18_000_000 <= units[1]->Compressor_0.threshold <= -6_000_000
            &&& 0 <= units[1]->Compressor_0.mix <= 1_000_000
        }),
{
    let units = enhancement(role, arpeggiated, level);
    let c = curve_of(level);
    if role is Lead && !arpeggiated || role is Pad || role is Untagged {
        assert(units[2] is Chorus);
    }
    if role is Lead && arpeggiated || role is Bell {
        assert(units[2] is Delay);
    }
    if role is Lead && !arpeggiated {
        assert(units[3] is Delay);
    }
    assert(0 <= c.strength <= 1000 && 0 <= c.upper <= 1000);
    bounds_hold(role, level);
}

proof fn stays_between(from: int, to: int, p: int)
    requires
        0 <= p <= 1000,
    ensures
        from <= to ==> from <= between(from, to, p) <= to,
        to <= from ==> to <= between(from, to, p) <= from,
{
    let d = to - from;
    assert(d >= 0 ==> 0 <= d * p <= d * 1000) by (nonlinear_arith)
        requires
            0 <= p <= 1000,
    ;
    assert(d <= 0 ==> d * 1000 <= d * p <= 0) by (nonlinear_arith)
        requires
            0 <= p <= 1000,
    ;
}

proof fn bounds_hold(role: InstrumentRole, level: u8)
    requires
        1 <= level <= 10,
    ensures
        0 <= saturation(role, curve_of(level)).mix <= 1_000_000,
        compression(role, curve_of(level)).ratio >= 1_000_000,
        -18_000_000 <= compression(role, curve_of(level)).threshold <= -6_000_000,
        0 <= compression(role, curve_of(level)).mix <= 1_000_000,
{
    let g = grip_of(role);
    let c = curve_of(level);
    assert(0 <= c.strength <= 1000 && 0 <= c.upper <= 1000);
    stays_between(-6_000_000, g.threshold as int, c.strength as int);
    stays_between(-6_000_000, g.threshold as int, 500);
    stays_between(1_000_000, g.ratio as int, c.strength as int);
    stays_between(1_000_000, g.ratio as int, 500);
    stays_between(0, g.mix as int, c.strength as int);
    stays_between(0, g.mix as int, 500);
    stays_between(0, g.mix as int, 820);
    stays_between(part(g.mix as int, 500), part(g.mix as int, 820), c.upper as int);
    let threshold = between(-6_000_000, g.threshold as int, 500);
    let ratio = between(1_000_000, g.ratio as int, 500);
    stays_between(threshold, g.threshold as int, 550);
    stays_between(ratio, g.ratio as int, 650);
    stays_between(threshold, between(threshold, g.threshold as int, 550), c.upper as int);
    stays_between(ratio, between(ratio, g.ratio as int, 650), c.upper as int);
}

/// Enhancing an instrument adds effects behind those that it has and changes nothing else
/// of its sound.
pub proof fn enhanced_instruments_keep_their_sound(
    i: InstrumentView,
    role: InstrumentRole,
    arpeggiated: bool,
    level: u8,
)
    ensures
        ({
            let r = enhanced(i, role, arpeggiated, level);
            &&& r.id == i.id && r.name == i.name && r.role == i.role && r.detune == i.detune
            &&& r.velocity_sensitive == i.velocity_sensitive
            &&& r.modules == i.modules && r.connections == i.connections
            &&& r.treatment == Treatment::Enhanced(level)
            &&& r.effects.len() > i.effects.len()
            &&& r.effects.take(i.effects.len() as int) == i.effects
            &&& r.effects[i.effects.len() as int] is Distortion
        }),
{
    let r = enhanced(i, role, arpeggiated, level);
    assert(r.effects.take(i.effects.len() as int) =~= i.effects);
    assert(enhancement(role, arpeggiated, level)[0] is Distortion);
}

/// Every instrument of a track is enhanced by the role of that track.
pub proof fn every_track_is_enhanced(
    plans: Seq<TrackPlan>,
    patches: Seq<Patch>,
    instruments: Seq<InstrumentView>,
    level: u8,
    i: int,
)
    requires
        0 <= i < instruments.len(),
    ensures
        ({
            let r = enhanced_instruments(plans, patches, instruments, level);
            &&& r.len() == instruments.len()
            &&& r[i].modules == instruments[i].modules
            &&& i < plans.len() ==> r[i].treatment == Treatment::Enhanced(level)
            &&& i < plans.len() ==> r[i].effects == instruments[i].effects + enhancement(
                role_of(plans[i].segments@, patches),
                track_arpeggio(plans[i].segments@, patches) is Some,
                level,
            )
            &&& i >= plans.len() && plans.len() > 0 ==> r[i] == instruments[i]
        }),
{
}

proof fn limiter_is_found(chain: Seq<MasterEffect>, i: int, l: int)
    requires
        0 <= i <= l < chain.len(),
        chain[l].unit is Limiter,
        forall|j: int| i <= j < l ==> !((#[trigger] chain[j]).unit is Limiter),
    ensures
        first_limiter(chain, i) == l,
    decreases l - i,
{
    if i < l {
        assert(!(chain[i].unit is Limiter));
        limiter_is_found(chain, i + 1, l);
    }
}

proof fn distortion_is_found(chain: Seq<MasterEffect>, i: int)
    requires
        0 <= i <= chain.len(),
    ensures
        i <= first_distortion(chain, i) <= chain.len(),
        first_distortion(chain, i) < chain.len() ==> chain[first_distortion(
            chain,
            i,
        )].unit is Distortion,
    decreases chain.len() - i,
{
    if i < chain.len() && !(chain[i].unit is Distortion) {
        distortion_is_found(chain, i + 1);
    }
}

/// An enhanced chain gets an equalizer and a compressor right before its first limiter.
/// What stood before and behind stays in its order, and only a distortion may change, and
/// only beyond the middle.
pub proof fn enhanced_chains_still_end_in_their_limiter(
    chain: Seq<MasterEffect>,
    level: u8,
    l: int,
    i: int,
)
    requires
        1 <= level <= 10,
        0 <= l < chain.len(),
        chain[l].unit is Limiter,
        forall|j: int| 0 <= j < l ==> !((#[trigger] chain[j]).unit is Limiter),
        0 <= i < chain.len(),
    ensures
        ({
            let r = enhanced_chain(chain, curve_of(level));
            let at = if i < l {
                i
            } else {
                i + 2
            };
            &&& r.len() == chain.len() + 2
            &&& r[l].unit is Equalizer && r[l + 1].unit is Compressor
            &&& r[l + 2] == chain[l]
            &&& r[at].number == chain[i].number && r[at].x == chain[i].x && r[at].y == chain[i].y
            &&& level <= 5 || !(chain[i].unit is Distortion) ==> r[at] == chain[i]
            &&& chain[i].unit is Distortion ==> r[at].unit is Distortion
        }),
{
    let c = curve_of(level);
    let warm = warmed(chain, c);
    distortion_is_found(chain, 0);
    assert(warm.len() == chain.len());
    assert forall|j: int| 0 <= j < l implies !((#[trigger] warm[j]).unit is Limiter) by {
        assert(!(chain[j].unit is Limiter));
    }
    limiter_is_found(warm, 0, l);
    let r = enhanced_chain(chain, c);
    assert(r[l].unit == EffectUnit::Equalizer(master_equalizer(c)));
    assert(r[l + 1].unit == EffectUnit::Compressor(master_compressor(c)));
}

/// The faithful and the modern chain both end in a limiter that stays below full level, and
/// have no other; each runs through an equalizer before it.
pub proof fn chains_end_in_a_limiter(chain: Seq<MasterEffect>)
    requires
        chain == faithful_chain() || chain == modern_chain(),
    ensures
        chain.len() == 3,
        chain[2].unit is Limiter && chain[2].unit->Limiter_0.ceiling < 0,
        chain[1].unit is Equalizer,
        chain == faithful_chain() ==> chain[0].unit is Distortion,
        chain == modern_chain() ==> chain[0].unit is Compressor,
        forall|i: int| 0 <= i < chain.len() ==> (#[trigger] chain[i]).number == 1,
{
}

/// A track sends to every bus there is, and only if it is filtered: all of its signal to the
/// filter and what leaks to the other, which there is only where something leaks.
pub proof fn sends_match_their_busses(leak: u32, i: int)
    ensures
        ({
            let sends = sends_of(true, leak);
            let busses = busses_of(leak);
            &&& sends.len() == busses.len()
            &&& busses[0] is Filter
            &&& busses.len() == (if 0 < leak <= 0x7F80_0000 {
                2int
            } else {
                1
            })
            &&& 0 <= i < sends.len() ==> sends[i].target == busses[i].number() && busses[i].number()
                == i
            &&& sends[0].level == 0x3F80_0000
            &&& busses.len() == 2 ==> busses[1] is Leak && sends[1].level == leak
        }),
        sends_of(false, leak).len() == 0,
{
}

/// A modern sound is chosen by the role of its track; noise and drops without a role are
/// struck, and an arpeggio has a sound of its own.
pub proof fn recipes_suit_their_role(plan: TrackPlan, patches: Seq<Patch>)
    ensures
        ({
            let r = recipe_of(plan, patches);
            let role = role_of(plan.segments@, patches);
            let arpeggiated = track_arpeggio(plan.segments@, patches) is Some;
            &&& role is Bass ==> r.secondary is Sub && r.effects is Bass
            &&& r.secondary is Sub ==> role is Bass
            &&& role is Lead && arpeggiated ==> r.effects is Arp
            &&& role is Lead && !arpeggiated ==> r.effects is Lead
            &&& role is Pad ==> r.effects is Pad
            &&& role is Stab ==> r.effects is Stab
            &&& role is Bell ==> r.effects is Bell
            &&& r.secondary is Noise <==> role is Drum || role is Untagged && (plan.drum_drop
                || plan.shape.view().is_noise)
            &&& r.secondary is Noise <==> r.effects is Drum
            &&& role is Untagged && !plan.drum_drop && !plan.shape.view().is_noise
                ==> r.effects is Utility
            &&& (role is Lead || r.effects is Utility) ==> {
                &&& r.primary.waveform is Pulse <==> plan.shape.view().waveform is Pulse
                &&& r.primary.waveform is Triangle <==> plan.shape.view().waveform is Triangle
            }
        }),
{
}

proof fn modules_of_a_kind_stay(modules: Seq<ModuleView>, kind: Kept, k: int, j: int)
    requires
        0 <= j < k <= modules.len(),
        is_kept(modules[j], kind),
    ensures
        exists|m: int|
            0 <= m < kept_modules(modules, kind, k).len() && (#[trigger] kept_modules(
                modules,
                kind,
                k,
            )[m]).id == modules[j].id && kept_modules(modules, kind, k)[m].parameters
                == modules[j].parameters,
    decreases k,
{
    let kept = kept_modules(modules, kind, k);
    if j < k - 1 {
        modules_of_a_kind_stay(modules, kind, k - 1, j);
        let before = kept_modules(modules, kind, k - 1);
        let m = choose|m: int|
            0 <= m < before.len() && (#[trigger] before[m]).id == modules[j].id
                && before[m].parameters == modules[j].parameters;
        assert(kept[m] == before[m]);
    } else {
        assert(kept[kept.len() - 1].id == modules[j].id);
    }
}

proof fn only_modules_of_a_kind_stay(modules: Seq<ModuleView>, kind: Kept, k: int, m: int)
    requires
        0 <= k <= modules.len(),
        0 <= m < kept_modules(modules, kind, k).len(),
    ensures
        is_kept(kept_modules(modules, kind, k)[m], kind),
        kept_modules(modules, kind, k).len() <= k,
    decreases k,
{
    if k > 0 {
        let before = kept_modules(modules, kind, k - 1);
        if m < before.len() {
            only_modules_of_a_kind_stay(modules, kind, k - 1, m);
        } else if before.len() > 0 {
            only_modules_of_a_kind_stay(modules, kind, k - 1, 0);
        }
    }
}

/// A restyled instrument keeps its envelopes and amplifiers, with all their settings, and
/// what it is known by; its sources and its filter are those of the recipe.
pub proof fn restyled_instruments_keep_their_envelopes(i: InstrumentView, r: VoiceRecipe, j: int)
    requires
        0 <= j < i.modules.len(),
    ensures
        ({
            let s = restyled(i, r);
            let m = i.modules[j];
            &&& s.id == i.id && s.role == i.role && s.detune == i.detune
            &&& s.velocity_sensitive == i.velocity_sensitive
            &&& s.treatment is Modern
            &&& s.effects == recipe_effects(r.effects)
            &&& s.name.take(i.name.len() as int) == i.name
            &&& m.parameters is Envelope || m.parameters is Amplifier ==> exists|k: int|
                0 <= k < s.modules.len() && (#[trigger] s.modules[k]).id == m.id
                    && s.modules[k].parameters == m.parameters
            &&& s.modules.len() >= 4
            &&& s.modules[0].id is Osc1 && s.modules[0].parameters == ParametersView::Oscillator(
                r.primary,
            )
            &&& s.modules[1].parameters == ParametersView::Secondary(r.secondary)
            &&& s.modules[3].parameters == ParametersView::ModernFilter(r.filter)
            &&& s.modules[1].id is Sub1 <==> r.secondary is Sub
            &&& s.modules[1].id is Nse1 <==> r.secondary is Noise
            &&& s.modules[1].id is Wtb1 <==> r.secondary is Wavetable
        }),
{
    let s = restyled(i, r);
    let n = i.modules.len() as int;
    let envelopes = kept_modules(i.modules, Kept::Envelope, n);
    let amplifiers = kept_modules(i.modules, Kept::Amplifier, n);
    assert(s.name.take(i.name.len() as int) =~= i.name);
    if is_kept(i.modules[j], Kept::Envelope) {
        modules_of_a_kind_stay(i.modules, Kept::Envelope, n, j);
        let m = choose|m: int|
            0 <= m < envelopes.len() && (#[trigger] envelopes[m]).id == i.modules[j].id
                && envelopes[m].parameters == i.modules[j].parameters;
        assert(s.modules[4 + m] == envelopes[m]);
    }
    if is_kept(i.modules[j], Kept::Amplifier) {
        modules_of_a_kind_stay(i.modules, Kept::Amplifier, n, j);
        let m = choose|m: int|
            0 <= m < amplifiers.len() && (#[trigger] amplifiers[m]).id == i.modules[j].id
                && amplifiers[m].parameters == i.modules[j].parameters;
        assert(s.modules[4 + envelopes.len() + m] == amplifiers[m]);
    }
}

/// Every instrument of a track is restyled by the recipe of that track.
pub proof fn every_track_is_restyled(
    plans: Seq<TrackPlan>,
    patches: Seq<Patch>,
    instruments: Seq<InstrumentView>,
    i: int,
)
    requires
        0 <= i < instruments.len(),
    ensures
        ({
            let r = modern_instruments(plans, patches, instruments);
            &&& r.len() == instruments.len()
            &&& r[i].id == instruments[i].id
            &&& i < plans.len() ==> r[i].treatment is Modern && r[i].effects == recipe_effects(
                recipe_of(plans[i], patches).effects,
            )
            &&& i >= plans.len() && plans.len() > 0 ==> r[i] == instruments[i]
        }),
{
}

/// A modern pattern follows the same lanes in the same order, but for those of a frequency
/// that rings or syncs another voice.
pub proof fn only_source_lanes_are_dropped(lanes: Seq<usize>, kinds: Seq<Option<LaneKind>>)
    ensures
        ({
            let kept = followed_lanes(lanes, kinds);
            &&& forall|i: int|
                0 <= i < lanes.len() && !((#[trigger] lanes[i]) < kinds.len()
                    && kinds[lanes[i] as int] == Some(LaneKind::SourceFrequency)) ==> kept.contains(
                    lanes[i],
                )
            &&& forall|j: int|
                0 <= j < kept.len() ==> lanes.contains(#[trigger] kept[j]) && !(kept[j]
                    < kinds.len() && kinds[kept[j] as int] == Some(LaneKind::SourceFrequency))
            &&& kept.len() <= lanes.len()
        }),
    decreases lanes.len(),
{
    if lanes.len() > 0 {
        let rest = lanes.drop_last();
        only_source_lanes_are_dropped(rest, kinds);
        let before = followed_lanes(rest, kinds);
        let kept = followed_lanes(lanes, kinds);
        assert forall|i: int|
            0 <= i < lanes.len() && !((#[trigger] lanes[i]) < kinds.len() && kinds[lanes[i] as int]
                == Some(LaneKind::SourceFrequency)) implies kept.contains(lanes[i]) by {
            if i < rest.len() {
                assert(rest[i] == lanes[i]);
                let m = choose|m: int| 0 <= m < before.len() && before[m] == rest[i];
                assert(kept[m] == lanes[i]);
            } else {
                assert(kept[kept.len() - 1] == lanes[i]);
            }
        }
        assert forall|j: int| 0 <= j < kept.len() implies lanes.contains(#[trigger] kept[j]) && !(
        kept[j] < kinds.len() && kinds[kept[j] as int] == Some(LaneKind::SourceFrequency)) by {
            if j < before.len() {
                assert(kept[j] == before[j]);
                let m = choose|m: int| 0 <= m < rest.len() && rest[m] == before[j];
                assert(lanes[m] == kept[j]);
            } else {
                assert(lanes[lanes.len() - 1] == kept[j]);
            }
        }
    }
}

/// The style only changes what the lane of a pulse width drives; the lanes of an envelope
/// drive an envelope, and that of a track drives no module.
pub proof fn styles_rename_the_pulse_width_alone(kind: LaneKind)
    ensures
        kind !is PulseWidth ==> lane_module(kind, true) == lane_module(kind, false)
            && lane_parameter(kind, true) == lane_parameter(kind, false),
        lane_module(LaneKind::PulseWidth, true) == Some("oscillator"@),
        lane_module(LaneKind::PulseWidth, false) == Some("sid_oscillator"@),
        kind is SourceFrequency ==> lane_module(kind, false) == lane_module(
            LaneKind::PulseWidth,
            false,
        ),
        lane_module(kind, true) is None <==> kind is TrackPitch,
        kind is Attack || kind is Decay || kind is Sustain || kind is Release ==> lane_module(
            kind,
            true,
        ) == Some("envelope"@),
        kind is Attack ==> lane_parameter(kind, true) == "attack"@,
        kind is Decay ==> lane_parameter(kind, true) == "decay"@,
        kind is Sustain ==> lane_parameter(kind, true) == "sustain"@,
        kind is Release ==> lane_parameter(kind, true) == "release"@,
        kind is FilterCutoff ==> lane_module(kind, true) == Some("filter"@) && lane_parameter(
            kind,
            true,
        ) == "cutoff"@,
        kind is AmplifierLevel ==> lane_module(kind, true) == Some("amplifier"@) && lane_parameter(
            kind,
            true,
        ) == "level"@,
{
}

/// Low drums and basses are warmed and held the most, bells the least; brighter sounds keep
/// more of their tone.
pub proof fn low_sounds_are_warmed_most()
    ensures
        ({
            let kick = InstrumentRole::Drum(DrumSubclass::Kick);
            let tom = InstrumentRole::Drum(DrumSubclass::Tom);
            let snare = InstrumentRole::Drum(DrumSubclass::Snare);
            let bass = InstrumentRole::Bass;
            let lead = InstrumentRole::Lead;
            let pad = InstrumentRole::Pad;
            let stab = InstrumentRole::Stab;
            let bell = InstrumentRole::Bell;
            let plain = InstrumentRole::Untagged;
            &&& warmth_of(kick) == warmth_of(tom) && grip_of(kick) == grip_of(tom)
            &&& warmth_of(kick).drive > warmth_of(bass).drive > warmth_of(snare).drive
                > warmth_of(stab).drive > warmth_of(lead).drive > warmth_of(plain).drive
                > warmth_of(pad).drive > warmth_of(bell).drive
            &&& warmth_of(kick).tone < warmth_of(bass).tone < warmth_of(pad).tone
                < warmth_of(plain).tone < warmth_of(stab).tone < warmth_of(lead).tone
                < warmth_of(snare).tone < warmth_of(bell).tone
            &&& warmth_of(kick).mix == warmth_of(bass).mix > warmth_of(snare).mix
                > warmth_of(stab).mix > warmth_of(lead).mix > warmth_of(plain).mix
                > warmth_of(pad).mix > warmth_of(bell).mix
            &&& grip_of(kick).ratio > grip_of(snare).ratio > grip_of(bass).ratio
                > grip_of(stab).ratio > grip_of(lead).ratio > grip_of(plain).ratio
                > grip_of(pad).ratio == grip_of(bell).ratio
            &&& grip_of(kick).threshold == grip_of(bass).threshold < grip_of(snare).threshold
                == grip_of(stab).threshold < grip_of(lead).threshold == grip_of(plain).threshold
                < grip_of(pad).threshold == grip_of(bell).threshold
            &&& grip_of(kick).mix > grip_of(bass).mix > grip_of(snare).mix > grip_of(stab).mix
                > grip_of(lead).mix > grip_of(plain).mix > grip_of(pad).mix > grip_of(bell).mix
            &&& drum_room(DrumSubclass::Kick) < drum_room(DrumSubclass::HihatClosed) < drum_room(
                DrumSubclass::Tom,
            ) < drum_room(DrumSubclass::HihatOpen) < drum_room(DrumSubclass::PercMetallic)
                < drum_room(DrumSubclass::Snare)
        }),
{
}

/// Modern sounds grow brighter from the bass over pads, stabs and leads to bells, and drums
/// from the kick over toms and snares to hihats; a kick lies two octaves down and a tom one.
pub proof fn modern_sounds_are_ordered_by_brightness(w: Waveform)
    ensures
        bass_recipe().filter.cutoff < pad_recipe().filter.cutoff < stab_recipe().filter.cutoff
            < plain_recipe(w).filter.cutoff < lead_recipe(w).filter.cutoff < arp_recipe(
            w,
        ).filter.cutoff < bell_recipe().filter.cutoff,
        drum_recipe(DrumSubclass::Kick).filter.cutoff < drum_recipe(
            DrumSubclass::Tom,
        ).filter.cutoff < drum_recipe(DrumSubclass::Snare).filter.cutoff < drum_recipe(
            DrumSubclass::PercMetallic,
        ).filter.cutoff < drum_recipe(DrumSubclass::HihatOpen).filter.cutoff < drum_recipe(
            DrumSubclass::HihatClosed,
        ).filter.cutoff,
        drum_recipe(DrumSubclass::Kick).primary.octave == 2 * drum_recipe(
            DrumSubclass::Tom,
        ).primary.octave,
        drum_recipe(DrumSubclass::Tom).primary.octave == -12_000_000,
        drum_recipe(DrumSubclass::HihatClosed).primary.octave == 12_000_000,
        drum_recipe(DrumSubclass::HihatOpen).primary.octave == 12_000_000,
        drum_recipe(DrumSubclass::Snare).primary.octave == 0,
        drum_recipe(DrumSubclass::Kick).primary.waveform is Sine,
        pad_recipe().primary.unison > lead_recipe(w).primary.unison > bass_recipe().primary.unison
            > bell_recipe().primary.unison,
        pad_recipe().primary.unison_spread > lead_recipe(w).primary.unison_spread > arp_recipe(
            w,
        ).primary.unison_spread > stab_recipe().primary.unison_spread > plain_recipe(
            w,
        ).primary.unison_spread > bass_recipe().primary.unison_spread
            > bell_recipe().primary.unison_spread,
{
}

} // verus!
