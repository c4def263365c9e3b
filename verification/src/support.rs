//! Inputs that the analyzer recognizes but does not play.

use crate::header::{Format, Header};
use vstd::prelude::*;

verus! {

/// Why a tune cannot be played.
#[derive(Debug, Clone, Copy, PartialEq, Eq, Structural)]
pub enum UnsupportedInputKind {
    RsidSystemEnvironment,
    MusStrPayload,
}

/// The kind of a header that cannot be played. A MUS payload decides before the
/// container format does.
pub open spec fn unsupported_kind(header: Header) -> Option<UnsupportedInputKind> {
    if header.flags.mus_data {
        Some(UnsupportedInputKind::MusStrPayload)
    } else if header.format == Format::Rsid {
        Some(UnsupportedInputKind::RsidSystemEnvironment)
    } else {
        None
    }
}

impl UnsupportedInputKind {
    /// A machine-readable name of the kind.
    pub open spec fn name(self) -> Seq<char> {
        match self {
            UnsupportedInputKind::RsidSystemEnvironment => "rsid_system_environment"@,
            UnsupportedInputKind::MusStrPayload => "mus_str_payload"@,
        }
    }

    /// An explanation of the kind.
    pub open spec fn explanation(self) -> Seq<char> {
        match self {
            UnsupportedInputKind::RsidSystemEnvironment =>
                "emulation requires a Kernal/BASIC/IRQ system environment"@,
            UnsupportedInputKind::MusStrPayload =>
                "MUS/STR payload emulation is not implemented"@,
        }
    }

    /// Tells whether and why a tune cannot be played.
    #[must_use]
    pub fn classify(header: &Header) -> (r: Option<UnsupportedInputKind>)
        ensures
            r == unsupported_kind(*header),
    {
        if header.flags.mus_data {
            Some(UnsupportedInputKind::MusStrPayload)
        } else if header.format == Format::Rsid {
            Some(UnsupportedInputKind::RsidSystemEnvironment)
        } else {
            None
        }
    }

    /// A machine-readable name of the kind.
    #[must_use]
    pub fn code(self) -> (r: &'static str)
        ensures
            r@ == self.name(),
    {
        match self {
            UnsupportedInputKind::RsidSystemEnvironment => "rsid_system_environment",
            UnsupportedInputKind::MusStrPayload => "mus_str_payload",
        }
    }

    /// An explanation of the kind.
    #[must_use]
    pub fn detail(self) -> (r: &'static str)
        ensures
            r@ == self.explanation(),
    {
        match self {
            UnsupportedInputKind::RsidSystemEnvironment =>
                "emulation requires a Kernal/BASIC/IRQ system environment",
            UnsupportedInputKind::MusStrPayload => "MUS/STR payload emulation is not implemented",
        }
    }
}

/// A tune is turned away just where it holds a MUS payload or needs the whole machine, and
/// the payload is named first.
pub proof fn only_foreign_tunes_are_turned_away(header: Header)
    ensures
        unsupported_kind(header) is None <==> header.format is Psid && !header.flags.mus_data,
        unsupported_kind(header) == Some(UnsupportedInputKind::MusStrPayload)
            <==> header.flags.mus_data,
        unsupported_kind(header) == Some(UnsupportedInputKind::RsidSystemEnvironment)
            <==> header.format is Rsid && !header.flags.mus_data,
{
}

} // verus!
