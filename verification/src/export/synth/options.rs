//! What can be chosen about an export.

use crate::chars::{from_chars, to_chars};
use crate::numerals::{parse_unsigned, push_text, unsigned_value};
use super::lowering::{listed, Coverage};
use vstd::prelude::*;

verus! {

/// The kind of sound that an export aims at.
#[derive(Debug, Clone, Copy, PartialEq, Eq, Structural)]
#[must_use]
pub enum SynthStyle {
    /// As close to the chip as the target can get.
    SidFaithful,
    /// Layered analog sounds for the same music.
    ModernAnalog,
}

impl Default for SynthStyle {
    fn default() -> (r: SynthStyle)
        ensures
            r == SynthStyle::SidFaithful,
    {
        SynthStyle::SidFaithful
    }
}

/// The least amount of enhancement.
pub const MIN_ENHANCEMENT: u8 = 1;

/// The greatest amount of enhancement.
pub const MAX_ENHANCEMENT: u8 = 10;

/// How strongly a faithful export is enhanced.
#[derive(Debug, Clone, Copy, PartialEq, Eq, Structural)]
#[must_use]
pub struct EnhancementAmount(u8);

/// A number or a text that is no amount of enhancement.
#[derive(Debug, Clone, Copy, PartialEq, Eq, Structural)]
pub struct EnhancementAmountError;

impl EnhancementAmountError {
    /// What is wrong, in words.
    pub fn message(&self) -> (r: String)
        ensures
            r@ == "enhance level must be an integer from 1 to 10"@,
    {
        let mut out: Vec<char> = Vec::new();
        push_text(&mut out, "enhance level must be an integer from 1 to 10");
        assert(out@ =~= "enhance level must be an integer from 1 to 10"@);
        from_chars(out.as_slice())
    }
}

impl EnhancementAmount {
    #[verifier::type_invariant]
    spec fn within_bounds(self) -> bool {
        MIN_ENHANCEMENT <= self.0 <= MAX_ENHANCEMENT
    }

    /// The amount as a number.
    pub closed spec fn level(self) -> u8 {
        self.0
    }

    /// The amount of a number within the bounds.
    pub fn new(value: u8) -> (r: Result<EnhancementAmount, EnhancementAmountError>)
        ensures
            match r {
                Ok(a) => a.level() == value && MIN_ENHANCEMENT <= value <= MAX_ENHANCEMENT,
                Err(_) => value < MIN_ENHANCEMENT || value > MAX_ENHANCEMENT,
            },
    {
        if MIN_ENHANCEMENT <= value && value <= MAX_ENHANCEMENT {
            Ok(EnhancementAmount(value))
        } else {
            Err(EnhancementAmountError)
        }
    }

    /// The amount as a number.
    #[must_use]
    pub fn get(self) -> (r: u8)
        ensures
            r == self.level(),
            MIN_ENHANCEMENT <= r <= MAX_ENHANCEMENT,
    {
        proof {
            use_type_invariant(&self);
        }
        self.0
    }

    /// The amount that a decimal numeral denotes.
    pub fn read(text: &str) -> (r: Result<EnhancementAmount, EnhancementAmountError>)
        ensures
            match r {
                Ok(a) => unsigned_value(text@, 255) == Some(a.level() as nat),
                Err(_) => !(unsigned_value(text@, 255) matches Some(n) && MIN_ENHANCEMENT <= n
                    <= MAX_ENHANCEMENT),
            },
            r matches Ok(a) ==> MIN_ENHANCEMENT <= a.level() <= MAX_ENHANCEMENT,
    {
        let chars: Vec<char> = to_chars(text);
        match parse_unsigned(chars.as_slice(), 255) {
            Some(n) => EnhancementAmount::new(n as u8),
            None => Err(EnhancementAmountError),
        }
    }
}

impl std::str::FromStr for EnhancementAmount {
    type Err = EnhancementAmountError;

    fn from_str(value: &str) -> Result<EnhancementAmount, EnhancementAmountError> {
        EnhancementAmount::read(value)
    }
}

/// What was chosen about an export.
#[derive(Debug, Clone, Copy)]
pub struct SynthOptions {
    /// Whether proposed notes are checked against the trace.
    pub forward_gate: bool,
    /// Whether arpeggios may become processors of the target.
    pub arpeggiator_processor: bool,
    pub style: SynthStyle,
    pub enhancement: Option<EnhancementAmount>,
}

/// The usual options: a faithful export, checked, with arpeggiators.
pub open spec fn usual_options() -> SynthOptions {
    SynthOptions {
        forward_gate: true,
        arpeggiator_processor: true,
        style: SynthStyle::SidFaithful,
        enhancement: None,
    }
}

impl Default for SynthOptions {
    fn default() -> (r: SynthOptions)
        ensures
            r == usual_options(),
    {
        SynthOptions {
            forward_gate: true,
            arpeggiator_processor: true,
            style: SynthStyle::SidFaithful,
            enhancement: None,
        }
    }
}

/// Why an export is refused.
#[derive(Debug, Clone, Copy)]
pub enum Refusal {
    /// Some part of the program has no valid representation.
    Uncovered(Coverage),
    /// An enhanced modern sound was asked for.
    EnhancedModern,
}

impl Refusal {
    /// Why the export is refused, in words.
    pub open spec fn words(self) -> Seq<char> {
        match self {
            Refusal::Uncovered(domains) => "no state/render-valid representation covers "@ + ("{"@
                + listed(domains@, 12) + "}"@),
            Refusal::EnhancedModern => "enhancement cannot be combined with the modern analog style"@,
        }
    }

    /// Why the export is refused, in words.
    pub fn message(self) -> (r: String)
        ensures
            r@ == self.words(),
    {
        match self {
            Refusal::Uncovered(domains) => {
                let mut out: Vec<char> = to_chars("no state/render-valid representation covers ");
                push_text(&mut out, domains.text().as_str());
                from_chars(out.as_slice())
            },
            Refusal::EnhancedModern => {
                "enhancement cannot be combined with the modern analog style".to_owned()
            },
        }
    }
}

impl SynthOptions {
    /// Whether the options go together: only a faithful export can be enhanced.
    pub open spec fn compatible(self) -> bool {
        self.style == SynthStyle::SidFaithful || self.enhancement is None
    }

    /// Tells whether the options go together.
    pub fn are_compatible(&self) -> (r: bool)
        ensures
            r == self.compatible(),
    {
        self.style == SynthStyle::SidFaithful || self.enhancement.is_none()
    }
}

} // verus!
