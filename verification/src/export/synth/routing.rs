//! Sending tracks through one shared filter.

use super::notes::is_positive;
use super::song::TrackColor;
use super::tracks::TrackPlan;
use vstd::prelude::*;

verus! {

/// A signal that a track sends to a return bus. Its level is a single-precision bit
/// pattern.
#[derive(Debug, Clone, Copy, PartialEq, Eq, Structural)]
pub struct TrackSend {
    pub target: u32,
    pub level: u32,
}

/// The level at which nothing is lost, as a single-precision bit pattern.
pub const FULL_LEVEL: u32 = 0x3F80_0000;

/// A bus that tracks send to.
#[derive(Debug, Clone, Copy, PartialEq, Eq, Structural)]
pub enum ReturnBus {
    /// Holds the shared filter.
    Filter,
    /// Carries what leaks past it.
    Leak,
}

impl ReturnBus {
    /// The number of the bus.
    pub open spec fn number(self) -> u32 {
        match self {
            ReturnBus::Filter => 0,
            ReturnBus::Leak => 1,
        }
    }

    /// The number of the bus.
    pub fn id(self) -> (r: u32)
        ensures
            r == self.number(),
    {
        match self {
            ReturnBus::Filter => 0,
            ReturnBus::Leak => 1,
        }
    }

    /// The name of the bus.
    pub open spec fn label(self) -> Seq<char> {
        match self {
            ReturnBus::Filter => "SID filter"@,
            ReturnBus::Leak => "SID filter leak"@,
        }
    }

    /// The name of the bus.
    pub fn name(self) -> (r: &'static str)
        ensures
            r@ == self.label(),
    {
        match self {
            ReturnBus::Filter => "SID filter",
            ReturnBus::Leak => "SID filter leak",
        }
    }

    /// What the bus is for.
    pub open spec fn purpose(self) -> Seq<char> {
        match self {
            ReturnBus::Filter => "Shared MOS SID filter for dynamically routed voices"@,
            ReturnBus::Leak => "Measured 6581 low-cutoff dry leakage"@,
        }
    }

    /// What the bus is for.
    pub fn description(self) -> (r: &'static str)
        ensures
            r@ == self.purpose(),
    {
        match self {
            ReturnBus::Filter => "Shared MOS SID filter for dynamically routed voices",
            ReturnBus::Leak => "Measured 6581 low-cutoff dry leakage",
        }
    }

    /// The colour of the bus.
    pub open spec fn hue(self) -> TrackColor {
        match self {
            ReturnBus::Filter => TrackColor { r: 205, g: 120, b: 55 },
            ReturnBus::Leak => TrackColor { r: 170, g: 100, b: 45 },
        }
    }

    /// The colour of the bus.
    pub fn color(self) -> (r: TrackColor)
        ensures
            r == self.hue(),
    {
        match self {
            ReturnBus::Filter => TrackColor { r: 205, g: 120, b: 55 },
            ReturnBus::Leak => TrackColor { r: 170, g: 100, b: 45 },
        }
    }
}

/// How the tracks of a song are sent through one filter. A track that sends is
/// itself silent.
#[derive(Debug)]
pub struct FilterRouting {
    /// What each track sends.
    pub sends: Vec<Vec<TrackSend>>,
    pub busses: Vec<ReturnBus>,
    /// The number of the next bus.
    pub next_bus: u32,
}

/// What a track sends: all of it to the filter, and a part past it if it leaks;
/// nothing if the track is not filtered.
pub open spec fn sends_of(filtered: bool, leak: u32) -> Seq<TrackSend> {
    if !filtered {
        Seq::empty()
    } else if is_positive(leak) {
        seq![TrackSend { target: 0, level: FULL_LEVEL }, TrackSend { target: 1, level: leak }]
    } else {
        seq![TrackSend { target: 0, level: FULL_LEVEL }]
    }
}

/// The busses that tracks send to.
pub open spec fn busses_of(leak: u32) -> Seq<ReturnBus> {
    if is_positive(leak) {
        seq![ReturnBus::Filter, ReturnBus::Leak]
    } else {
        seq![ReturnBus::Filter]
    }
}

/// Sends the filtered tracks of a song through one filter, past which a part of
/// them leaks.
pub fn apply_shared_filter_routing(plans: &[TrackPlan], leak: u32) -> (r: FilterRouting)
    ensures
        r.sends@.len() == plans@.len(),
        forall|p: int|
            0 <= p < plans@.len() ==> (#[trigger] r.sends@[p])@ == sends_of(
                plans@[p].shape.view().filter_kind is Some,
                leak,
            ),
        r.busses@ == busses_of(leak),
        r.next_bus == r.busses@.len(),
{
    let leaks: bool = 0 < leak && leak <= 0x7F80_0000;
    let mut sends: Vec<Vec<TrackSend>> = Vec::new();
    let mut p: usize = 0;
    while p < plans.len()
        invariant
            p <= plans@.len(),
            leaks == is_positive(leak),
            sends@.len() == p,
            forall|q: int|
                0 <= q < p ==> (#[trigger] sends@[q])@ == sends_of(
                    plans@[q].shape.view().filter_kind is Some,
                    leak,
                ),
        decreases plans@.len() - p,
    {
        let mut own: Vec<TrackSend> = Vec::new();
        let filtered: bool = plans[p].shape.filter_kind.is_some();
        if filtered {
            own.push(TrackSend { target: 0, level: FULL_LEVEL });
            if leaks {
                own.push(TrackSend { target: 1, level: leak });
            }
        }
        assert(own@ =~= sends_of(filtered, leak));
        sends.push(own);
        p += 1;
    }
    let mut busses: Vec<ReturnBus> = Vec::new();
    busses.push(ReturnBus::Filter);
    if leaks {
        busses.push(ReturnBus::Leak);
    }
    assert(busses@ =~= busses_of(leak));
    let next_bus: u32 = if leaks {
        2
    } else {
        1
    };
    FilterRouting { sends, busses, next_bus }
}

} // verus!
