use vstd::prelude::*;

verus! {

pub const HIGHEST_TIER: u32 = 11;

/// A ship tier, I to XI.
#[derive(Debug, Clone, Copy, PartialEq, Eq, PartialOrd, Ord, Hash, Structural)]
pub struct Tier(u32);

impl Tier {
    #[verifier::type_invariant]
    pub closed spec fn in_range(self) -> bool {
        1 <= self.0 <= HIGHEST_TIER
    }

    pub closed spec fn value(self) -> int {
        self.0 as int
    }

    pub fn new(value: u32) -> (tier: Option<Tier>)
        ensures
            tier is Some <==> 1 <= value <= HIGHEST_TIER,
            tier matches Some(tier) ==> tier.value() == value,
    {
        if 1 <= value && value <= HIGHEST_TIER {
            Some(Tier(value))
        } else {
            None
        }
    }

    pub fn get(self) -> (value: u32)
        ensures
            value == self.value(),
            1 <= value <= HIGHEST_TIER,
    {
        proof {
            use_type_invariant(&self);
        }
        self.0
    }
}

/// A ship's class.
#[derive(Debug, Clone, PartialEq, Eq)]
pub enum ShipClass {
    Destroyer,
    Cruiser,
    Battleship,
    AircraftCarrier,
    Submarine,
    Other(String),
    Unspecified,
}

/// What a round reveals about its ship once it ends.
#[derive(Debug, Clone, PartialEq, Eq)]
pub struct Reveal {
    pub name: String,
    pub tier: Tier,
    pub class: ShipClass,
    pub nation: String,
}

/// The hint a round gives halfway through.
#[derive(Debug, Clone, PartialEq, Eq)]
pub enum Hint {
    Tier(Tier),
    Nation(String),
}

/// Which ships a round may draw.
#[derive(Debug, Clone, Copy, PartialEq, Eq, Structural)]
pub struct RoundOptions {
    min_tier: Tier,
    max_tier: Tier,
    historical: bool,
}

impl RoundOptions {
    pub closed spec fn low(self) -> Tier {
        self.min_tier
    }

    pub closed spec fn high(self) -> Tier {
        self.max_tier
    }

    pub closed spec fn paper_excluded(self) -> bool {
        self.historical
    }

    pub fn new(min_tier: Tier, max_tier: Tier, historical: bool) -> (options: RoundOptions)
        ensures
            options.low() == min_tier,
            options.high() == max_tier,
            options.paper_excluded() == historical,
    {
        RoundOptions { min_tier, max_tier, historical }
    }

    pub fn min_tier(&self) -> (tier: Tier)
        ensures
            tier == self.low(),
    {
        self.min_tier
    }

    pub fn max_tier(&self) -> (tier: Tier)
        ensures
            tier == self.high(),
    {
        self.max_tier
    }

    pub fn historical(&self) -> (historical: bool)
        ensures
            historical == self.paper_excluded(),
    {
        self.historical
    }

    pub fn spans_several_tiers(&self) -> (several: bool)
        ensures
            several == (self.low().value() != self.high().value()),
    {
        self.min_tier.get() != self.max_tier.get()
    }
}

/// How long a round waits before its hint and after it.
#[derive(Debug, Clone, Copy, PartialEq, Eq, Structural)]
pub struct Timing {
    pub before_hint_ms: u64,
    pub after_hint_ms: u64,
}

/// Where the ship data came from.
#[derive(Debug, Clone, PartialEq, Eq)]
pub struct Provenance {
    pub game_version: String,
    pub build: String,
    pub data_repo_commit: String,
    pub wowsunpack: String,
    pub wows_data_mgr: String,
}

} // verus!
