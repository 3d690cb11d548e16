use vstd::prelude::*;
use crate::decimal::Decimal;

verus! {

/// One magic effect of a potion.
#[derive(Debug, Clone, Copy, PartialEq, Eq, Structural)]
pub struct EffectEntry {
    /// The effect's code, or `None` where the file names an effect that the
    /// game does not know.
    pub index: Option<u32>,
    pub duration: i32,
    pub magnitude_min: i32,
    pub magnitude_max: i32,
}

/// A potion's weight: as stored in a content file (the bits of a 32-bit float),
/// or an exact decimal set from a balance table.
#[derive(Debug, Clone, Copy, PartialEq, Eq, Structural)]
pub enum Weight {
    Stored(u32),
    Exact(Decimal),
}

/// The attributes of a potion record that balancing reads and writes.
#[derive(Debug, Clone, PartialEq, Eq)]
pub struct PotionRecord {
    /// The identifier as written in the file.
    pub id: String,
    pub value: u32,
    pub weight: Weight,
    /// Whether the game computes the value itself.
    pub auto_calculate: bool,
    pub effects: Vec<EffectEntry>,
}

pub struct PotionView {
    pub id: Seq<char>,
    pub value: u32,
    pub weight: Weight,
    pub auto_calculate: bool,
    pub effects: Seq<EffectEntry>,
}

impl View for PotionRecord {
    type V = PotionView;

    open spec fn view(&self) -> PotionView {
        PotionView {
            id: self.id@,
            value: self.value,
            weight: self.weight,
            auto_calculate: self.auto_calculate,
            effects: self.effects@,
        }
    }
}

} // verus!
