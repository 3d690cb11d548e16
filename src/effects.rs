use vstd::prelude::*;

verus! {

/// Number of magic effects in the game's catalogue; effect codes are `0 .. EFFECT_COUNT`.
pub const EFFECT_COUNT: u32 = 143;

/// How an effect acts on its target, as far as balancing is concerned.
#[derive(Debug, Clone, Copy, PartialEq, Eq, Structural)]
pub enum EffectKind {
    Damage,
    Restore,
    Other,
}

/// Which of an effect's attributes the balance table rewrites.
#[derive(Debug, Clone, Copy, PartialEq, Eq, Structural)]
pub enum EffectShape {
    /// Neither duration nor magnitude is rescaled.
    Unscaled,
    Duration,
    Magnitude,
    DurationAndMagnitude,
}

/// The kind of each effect code: fire, frost and shock damage are `Damage`; the
/// health, magicka and fatigue restore and damage effects are `Restore`.
pub open spec fn kind_of(e: u32) -> EffectKind {
    if e == 14 || e == 15 || e == 16 {
        EffectKind::Damage
    } else if (23 <= e && e <= 25) || (75 <= e && e <= 77) {
        EffectKind::Restore
    } else {
        EffectKind::Other
    }
}

/// The shape of each effect code.
pub open spec fn shape_of(e: u32) -> EffectShape {
    if e == 0 || e == 2 || e == 39 || e == 45 || e == 46 || (102 <= e && e <= 116) || (120 <= e
        && e <= 125) || (127 <= e && e <= 132) || e == 134 || (136 <= e && e <= 142) {
        EffectShape::Duration
    } else if e == 57 || e == 74 || e == 78 {
        EffectShape::Magnitude
    } else if (60 <= e && e <= 63) || (69 <= e && e <= 73) || e == 133 {
        EffectShape::Unscaled
    } else {
        EffectShape::DurationAndMagnitude
    }
}

/// Looks up the kind of an effect.
pub fn effect_kind(e: u32) -> (k: EffectKind)
    ensures
        k == kind_of(e),
{
    match e {
        14 | 15 | 16 => EffectKind::Damage,
        23 | 24 | 25 | 75 | 76 | 77 => EffectKind::Restore,
        _ => EffectKind::Other,
    }
}

/// Looks up the shape of an effect.
pub fn effect_shape(e: u32) -> (s: EffectShape)
    ensures
        s == shape_of(e),
{
    match e {
        0 | 2 | 39 | 45 | 46 | 102..=116 | 120..=125 | 127..=132 | 134 | 136..=142 => {
            EffectShape::Duration
        },
        57 | 74 | 78 => EffectShape::Magnitude,
        60..=63 | 69..=73 | 133 => EffectShape::Unscaled,
        _ => EffectShape::DurationAndMagnitude,
    }
}

} // verus!
