//! The sounds that a tune's notes were clustered into.

use crate::analysis::frame::FilterMode;
use crate::analysis::program::VoiceId;
use crate::trace::Adsr;
use vstd::prelude::*;

verus! {

/// What kind of drum a sound is.
#[derive(Debug, Clone, Copy, PartialEq, Eq, Structural)]
pub enum DrumSubclass {
    Kick,
    Snare,
    HihatClosed,
    HihatOpen,
    Tom,
    PercMetallic,
}

/// The musical roles of a sound; several may apply.
#[derive(Debug, Clone, Copy, PartialEq, Eq, Structural)]
pub struct RoleTags {
    pub bass: bool,
    pub lead: bool,
    pub pad: bool,
    pub stab: bool,
    pub bell: bool,
    pub percussive: bool,
    pub drum_subclass: Option<DrumSubclass>,
}

impl Default for RoleTags {
    fn default() -> (r: RoleTags)
        ensures
            !r.bass && !r.lead && !r.pad && !r.stab && !r.bell && !r.percussive,
            r.drum_subclass is None,
    {
        RoleTags {
            bass: false,
            lead: false,
            pad: false,
            stab: false,
            bell: false,
            percussive: false,
            drum_subclass: None,
        }
    }
}

/// A pulse-width program of the driver: a step every few frames.
#[derive(Debug, Clone, Copy, PartialEq, Eq, Structural)]
pub struct AuthoredPwm {
    pub period_frames: u16,
    pub step: u16,
}

/// How a sound behaves on one voice.
#[derive(Debug)]
pub struct PatchVoiceProfile {
    pub voice: VoiceId,
    pub filter_routed: bool,
    pub filter_mode: FilterMode,
    pub ring_mod: bool,
    pub hard_sync: bool,
    /// The control bytes of a repeating waveform program.
    pub waveform_loop: Option<Vec<u8>>,
    /// The semitone offsets of a repeating arpeggio.
    pub arpeggio_loop: Option<Vec<i8>>,
}

/// A clustered sound.
#[derive(Debug)]
pub struct Patch {
    pub id: u16,
    pub adsr: Adsr,
    /// The waveform bits of the control byte.
    pub waveform: u8,
    pub role_tags: RoleTags,
    /// Whether the driver's own effects were decoded for this sound.
    pub authored_effects: bool,
    pub authored_pwm: Option<AuthoredPwm>,
    pub voices: Vec<PatchVoiceProfile>,
}

impl Patch {
    /// The place of the first profile of a voice.
    pub open spec fn profile_index(self, voice: VoiceId) -> Option<int> {
        first_profile(self.voices@, voice, 0)
    }

    /// The place of the profile of a voice.
    pub fn profile_place(&self, voice: VoiceId) -> (r: Option<usize>)
        ensures
            match r {
                Some(i) => self.profile_index(voice) == Some(i as int) && i < self.voices@.len()
                    && self.voices@[i as int].voice == voice,
                None => self.profile_index(voice) is None,
            },
    {
        let mut i: usize = 0;
        while i < self.voices.len()
            invariant
                i <= self.voices@.len(),
                first_profile(self.voices@, voice, 0) == first_profile(
                    self.voices@,
                    voice,
                    i as int,
                ),
            decreases self.voices@.len() - i,
        {
            if self.voices[i].voice == voice {
                return Some(i);
            }
            i += 1;
        }
        None
    }

    /// The profile of a voice.
    pub fn profile(&self, voice: VoiceId) -> (r: Option<&PatchVoiceProfile>)
        ensures
            match r {
                Some(p) => self.profile_index(voice) matches Some(i) && 0 <= i < self.voices@.len()
                    && *p == self.voices@[i] && p.voice == voice,
                None => self.profile_index(voice) is None,
            },
    {
        match self.profile_place(voice) {
            Some(i) => Some(&self.voices[i]),
            None => None,
        }
    }
}

/// The place of the first profile of a voice, from `i` on.
pub open spec fn first_profile(s: Seq<PatchVoiceProfile>, voice: VoiceId, i: int) -> Option<int>
    decreases s.len() - i,
{
    if i < 0 || i >= s.len() {
        None
    } else if s[i].voice == voice {
        Some(i)
    } else {
        first_profile(s, voice, i + 1)
    }
}

/// What was measured of one note's sound.
#[derive(Debug)]
pub struct NoteCharacteristics {
    /// The control byte of the waveform that the note mostly has.
    pub dominant_waveform: u8,
    pub starting_adsr: Adsr,
    pub filter_routed: bool,
    pub ring_mod: bool,
    pub hard_sync: bool,
    /// The waveform masks of a one-shot program that the note plays.
    pub waveform_program: Option<Vec<u8>>,
}

/// The profile of a voice is the first one that names it; there is none only if no profile
/// does.
pub proof fn profiles_are_found_by_their_voice(p: Patch, voice: VoiceId, j: int)
    requires
        0 <= j < p.voices@.len(),
    ensures
        p.profile_index(voice) matches Some(i) ==> 0 <= i < p.voices@.len() && p.voices@[i].voice
            == voice && (j < i ==> p.voices@[j].voice != voice),
        p.voices@[j].voice == voice ==> p.profile_index(voice) is Some,
{
    later_profiles_are_found(p.voices@, voice, 0, j);
}

proof fn later_profiles_are_found(s: Seq<PatchVoiceProfile>, voice: VoiceId, i: int, j: int)
    requires
        0 <= i <= s.len(),
        0 <= j < s.len(),
    ensures
        first_profile(s, voice, i) matches Some(k) ==> i <= k < s.len() && s[k].voice == voice && (i
            <= j < k ==> s[j].voice != voice),
        j >= i && s[j].voice == voice ==> first_profile(s, voice, i) is Some,
    decreases s.len() - i,
{
    if i < s.len() && s[i].voice != voice {
        later_profiles_are_found(s, voice, i + 1, j);
    }
}

} // verus!
