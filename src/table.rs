use vstd::prelude::*;
use crate::decimal::Decimal;

verus! {

/// Quality tier of a potion, from cheapest to finest.
#[derive(Debug, Clone, Copy, PartialEq, Eq, Structural)]
pub enum Tier {
    Bargain,
    Cheap,
    Standard,
    Quality,
    Exclusive,
}

/// The groups of tierless potions that the balance table prices.
#[derive(Debug, Clone, Copy, PartialEq, Eq, Structural)]
pub enum TierlessCategory {
    Mark,
    Teleport,
    CurePoisonOrParalyze,
    CureCommonDisease,
    CureBlightDisease,
    Vampirism,
}

/// One entry for each tier.
#[derive(Debug, Clone, Copy, PartialEq, Eq)]
pub struct PerTier<T> {
    pub bargain: T,
    pub cheap: T,
    pub standard: T,
    pub quality: T,
    pub exclusive: T,
}

impl<T: Copy> PerTier<T> {
    pub open spec fn at(self, tier: Tier) -> T {
        match tier {
            Tier::Bargain => self.bargain,
            Tier::Cheap => self.cheap,
            Tier::Standard => self.standard,
            Tier::Quality => self.quality,
            Tier::Exclusive => self.exclusive,
        }
    }

    /// The entry of one tier.
    pub fn get(&self, tier: Tier) -> (r: T)
        ensures
            r == self.at(tier),
    {
        match tier {
            Tier::Bargain => self.bargain,
            Tier::Cheap => self.cheap,
            Tier::Standard => self.standard,
            Tier::Quality => self.quality,
            Tier::Exclusive => self.exclusive,
        }
    }
}

/// One entry for each tierless category.
#[derive(Debug, Clone, Copy, PartialEq, Eq)]
pub struct PerCategory<T> {
    pub mark: T,
    pub teleport: T,
    pub cure_poison_or_paralyze: T,
    pub cure_common_disease: T,
    pub cure_blight_disease: T,
    pub vampirism: T,
}

impl<T: Copy> PerCategory<T> {
    pub open spec fn at(self, category: TierlessCategory) -> T {
        match category {
            TierlessCategory::Mark => self.mark,
            TierlessCategory::Teleport => self.teleport,
            TierlessCategory::CurePoisonOrParalyze => self.cure_poison_or_paralyze,
            TierlessCategory::CureCommonDisease => self.cure_common_disease,
            TierlessCategory::CureBlightDisease => self.cure_blight_disease,
            TierlessCategory::Vampirism => self.vampirism,
        }
    }

    /// The entry of one category.
    pub fn get(&self, category: TierlessCategory) -> (r: T)
        ensures
            r == self.at(category),
    {
        match category {
            TierlessCategory::Mark => self.mark,
            TierlessCategory::Teleport => self.teleport,
            TierlessCategory::CurePoisonOrParalyze => self.cure_poison_or_paralyze,
            TierlessCategory::CureCommonDisease => self.cure_common_disease,
            TierlessCategory::CureBlightDisease => self.cure_blight_disease,
            TierlessCategory::Vampirism => self.vampirism,
        }
    }
}

/// The parameters that potions are rewritten from.
#[derive(Debug, Clone, Copy, PartialEq, Eq)]
pub struct BalanceTable {
    pub value: PerTier<u32>,
    pub weight: PerTier<Decimal>,
    /// Duration of effects that have a duration alone.
    pub duration_only: PerTier<i32>,
    /// Magnitude of effects that have a magnitude alone.
    pub magnitude_only: PerTier<i32>,
    /// Duration and magnitude of restore-kind effects that have both.
    pub restore_pair: PerTier<(i32, i32)>,
    /// Duration and magnitude of the other effects that have both.
    pub other_pair: PerTier<(i32, i32)>,
    pub tierless_value: PerCategory<u32>,
    pub tierless_weight: PerCategory<Decimal>,
}

pub open spec fn dec(mantissa: u64, scale: u32) -> Decimal {
    Decimal { mantissa, scale }
}

/// The balance of the unmodified game.
pub open spec fn original_table() -> BalanceTable {
    BalanceTable {
        value: PerTier { bargain: 5, cheap: 15, standard: 35, quality: 80, exclusive: 175 },
        weight: PerTier {
            bargain: dec(15, 1),
            cheap: dec(1, 0),
            standard: dec(75, 2),
            quality: dec(5, 1),
            exclusive: dec(25, 2),
        },
        duration_only: PerTier { bargain: 8, cheap: 15, standard: 30, quality: 45, exclusive: 60 },
        magnitude_only: PerTier { bargain: 5, cheap: 8, standard: 10, quality: 15, exclusive: 20 },
        restore_pair: PerTier {
            bargain: (5, 1),
            cheap: (5, 2),
            standard: (5, 10),
            quality: (5, 20),
            exclusive: (5, 40),
        },
        other_pair: PerTier {
            bargain: (8, 5),
            cheap: (15, 8),
            standard: (30, 10),
            quality: (45, 15),
            exclusive: (60, 20),
        },
        tierless_value: PerCategory {
            mark: 35,
            teleport: 35,
            cure_poison_or_paralyze: 20,
            cure_common_disease: 20,
            cure_blight_disease: 30,
            vampirism: 5000,
        },
        tierless_weight: PerCategory {
            mark: dec(1, 0),
            teleport: dec(1, 0),
            cure_poison_or_paralyze: dec(5, 1),
            cure_common_disease: dec(5, 1),
            cure_blight_disease: dec(5, 1),
            vampirism: dec(15, 1),
        },
    }
}

/// The recommended balance: prices and effects grow steadily with the tier.
pub open spec fn recommended_table() -> BalanceTable {
    BalanceTable {
        value: PerTier { bargain: 20, cheap: 40, standard: 80, quality: 160, exclusive: 320 },
        weight: PerTier {
            bargain: dec(1, 0),
            cheap: dec(8, 1),
            standard: dec(6, 1),
            quality: dec(4, 1),
            exclusive: dec(2, 1),
        },
        duration_only: PerTier { bargain: 20, cheap: 40, standard: 80, quality: 160, exclusive: 320 },
        magnitude_only: PerTier { bargain: 10, cheap: 25, standard: 45, quality: 70, exclusive: 100 },
        restore_pair: PerTier {
            bargain: (5, 5),
            cheap: (5, 10),
            standard: (5, 17),
            quality: (5, 25),
            exclusive: (5, 40),
        },
        other_pair: PerTier {
            bargain: (20, 10),
            cheap: (40, 25),
            standard: (80, 45),
            quality: (160, 70),
            exclusive: (320, 100),
        },
        tierless_value: PerCategory {
            mark: 60,
            teleport: 120,
            cure_poison_or_paralyze: 60,
            cure_common_disease: 60,
            cure_blight_disease: 120,
            vampirism: 5000,
        },
        tierless_weight: PerCategory {
            mark: dec(8, 1),
            teleport: dec(8, 1),
            cure_poison_or_paralyze: dec(4, 1),
            cure_common_disease: dec(4, 1),
            cure_blight_disease: dec(4, 1),
            vampirism: dec(1, 0),
        },
    }
}

fn d(mantissa: u64, scale: u32) -> (r: Decimal)
    ensures
        r == dec(mantissa, scale),
{
    Decimal { mantissa, scale }
}

impl BalanceTable {
    /// The built-in preset with the balance of the unmodified game.
    pub fn original() -> (t: BalanceTable)
        ensures
            t == original_table(),
    {
        BalanceTable {
            value: PerTier { bargain: 5, cheap: 15, standard: 35, quality: 80, exclusive: 175 },
            weight: PerTier {
                bargain: d(15, 1),
                cheap: d(1, 0),
                standard: d(75, 2),
                quality: d(5, 1),
                exclusive: d(25, 2),
            },
            duration_only: PerTier { bargain: 8, cheap: 15, standard: 30, quality: 45, exclusive: 60 },
            magnitude_only: PerTier { bargain: 5, cheap: 8, standard: 10, quality: 15, exclusive: 20 },
            restore_pair: PerTier {
                bargain: (5, 1),
                cheap: (5, 2),
                standard: (5, 10),
                quality: (5, 20),
                exclusive: (5, 40),
            },
            other_pair: PerTier {
                bargain: (8, 5),
                cheap: (15, 8),
                standard: (30, 10),
                quality: (45, 15),
                exclusive: (60, 20),
            },
            tierless_value: PerCategory {
                mark: 35,
                teleport: 35,
                cure_poison_or_paralyze: 20,
                cure_common_disease: 20,
                cure_blight_disease: 30,
                vampirism: 5000,
            },
            tierless_weight: PerCategory {
                mark: d(1, 0),
                teleport: d(1, 0),
                cure_poison_or_paralyze: d(5, 1),
                cure_common_disease: d(5, 1),
                cure_blight_disease: d(5, 1),
                vampirism: d(15, 1),
            },
        }
    }

    /// The built-in recommended preset.
    pub fn recommended() -> (t: BalanceTable)
        ensures
            t == recommended_table(),
    {
        BalanceTable {
            value: PerTier { bargain: 20, cheap: 40, standard: 80, quality: 160, exclusive: 320 },
            weight: PerTier {
                bargain: d(1, 0),
                cheap: d(8, 1),
                standard: d(6, 1),
                quality: d(4, 1),
                exclusive: d(2, 1),
            },
            duration_only: PerTier {
                bargain: 20,
                cheap: 40,
                standard: 80,
                quality: 160,
                exclusive: 320,
            },
            magnitude_only: PerTier {
                bargain: 10,
                cheap: 25,
                standard: 45,
                quality: 70,
                exclusive: 100,
            },
            restore_pair: PerTier {
                bargain: (5, 5),
                cheap: (5, 10),
                standard: (5, 17),
                quality: (5, 25),
                exclusive: (5, 40),
            },
            other_pair: PerTier {
                bargain: (20, 10),
                cheap: (40, 25),
                standard: (80, 45),
                quality: (160, 70),
                exclusive: (320, 100),
            },
            tierless_value: PerCategory {
                mark: 60,
                teleport: 120,
                cure_poison_or_paralyze: 60,
                cure_common_disease: 60,
                cure_blight_disease: 120,
                vampirism: 5000,
            },
            tierless_weight: PerCategory {
                mark: d(8, 1),
                teleport: d(8, 1),
                cure_poison_or_paralyze: d(4, 1),
                cure_common_disease: d(4, 1),
                cure_blight_disease: d(4, 1),
                vampirism: d(1, 0),
            },
        }
    }
}

} // verus!
