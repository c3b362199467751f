//! The ladder of classifier profiles.

use vstd::prelude::*;

verus! {

/// Sensitivity profiles of the frame classifier, ordered from the least to
/// the most aggressive at calling ambiguous audio "non-speech".
#[derive(Debug, Clone, Copy, PartialEq, Eq, Structural)]
pub enum FastVadProfile {
    Quality,
    LowBitrate,
    Aggressive,
    VeryAggressive,
}

/// Position of a profile on the ladder: 0 for the least aggressive.
pub open spec fn rank_of(p: FastVadProfile) -> nat {
    match p {
        FastVadProfile::Quality => 0,
        FastVadProfile::LowBitrate => 1,
        FastVadProfile::Aggressive => 2,
        FastVadProfile::VeryAggressive => 3,
    }
}

/// The profile one step more aggressive, if there is one.
pub open spec fn next_up(p: FastVadProfile) -> Option<FastVadProfile> {
    match p {
        FastVadProfile::Quality => Some(FastVadProfile::LowBitrate),
        FastVadProfile::LowBitrate => Some(FastVadProfile::Aggressive),
        FastVadProfile::Aggressive => Some(FastVadProfile::VeryAggressive),
        FastVadProfile::VeryAggressive => None,
    }
}

/// The profile one step less aggressive, if there is one.
pub open spec fn next_down(p: FastVadProfile) -> Option<FastVadProfile> {
    match p {
        FastVadProfile::Quality => None,
        FastVadProfile::LowBitrate => Some(FastVadProfile::Quality),
        FastVadProfile::Aggressive => Some(FastVadProfile::LowBitrate),
        FastVadProfile::VeryAggressive => Some(FastVadProfile::Aggressive),
    }
}

impl FastVadProfile {
    pub fn rank(self) -> (r: u8)
        ensures
            r as nat == rank_of(self),
    {
        match self {
            FastVadProfile::Quality => 0,
            FastVadProfile::LowBitrate => 1,
            FastVadProfile::Aggressive => 2,
            FastVadProfile::VeryAggressive => 3,
        }
    }

    pub fn more_aggressive(self) -> (r: Option<Self>)
        ensures
            r == next_up(self),
            r matches Some(q) ==> rank_of(q) == rank_of(self) + 1,
            r is None <==> rank_of(self) == 3,
    {
        match self {
            FastVadProfile::Quality => Some(FastVadProfile::LowBitrate),
            FastVadProfile::LowBitrate => Some(FastVadProfile::Aggressive),
            FastVadProfile::Aggressive => Some(FastVadProfile::VeryAggressive),
            FastVadProfile::VeryAggressive => None,
        }
    }

    pub fn less_aggressive(self) -> (r: Option<Self>)
        ensures
            r == next_down(self),
            r matches Some(q) ==> rank_of(q) + 1 == rank_of(self),
            r is None <==> rank_of(self) == 0,
    {
        match self {
            FastVadProfile::Quality => None,
            FastVadProfile::LowBitrate => Some(FastVadProfile::Quality),
            FastVadProfile::Aggressive => Some(FastVadProfile::LowBitrate),
            FastVadProfile::VeryAggressive => Some(FastVadProfile::Aggressive),
        }
    }

    /// The configuration name of the profile.
    pub fn label(self) -> (r: &'static str)
        ensures
            r@ == profile_label(self),
    {
        match self {
            FastVadProfile::Quality => "quality",
            FastVadProfile::LowBitrate => "low_bitrate",
            FastVadProfile::Aggressive => "aggressive",
            FastVadProfile::VeryAggressive => "very_aggressive",
        }
    }
}

pub open spec fn profile_label(p: FastVadProfile) -> Seq<char> {
    match p {
        FastVadProfile::Quality => "quality"@,
        FastVadProfile::LowBitrate => "low_bitrate"@,
        FastVadProfile::Aggressive => "aggressive"@,
        FastVadProfile::VeryAggressive => "very_aggressive"@,
    }
}

} // verus!
