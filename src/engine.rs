use vstd::prelude::*;
use crate::classify::{classification_of, classify, Classification, ClassifyError};
use crate::decimal::Decimal;
use crate::effects::{effect_kind, effect_shape, kind_of, shape_of, EffectKind, EffectShape};
use crate::potion::{EffectEntry, PotionRecord, PotionView, Weight};
use crate::table::{BalanceTable, Tier};

verus! {

/// The value that a classification sets, if any.
pub open spec fn value_for(c: Classification, t: BalanceTable) -> Option<u32> {
    match c {
        Classification::Untouched => None,
        Classification::Tierless(cat, _) => Some(t.tierless_value.at(cat)),
        Classification::Tiered(tier, _) => Some(t.value.at(tier)),
    }
}

/// The weight that a classification sets, if any.
pub open spec fn weight_for(c: Classification, t: BalanceTable) -> Option<Decimal> {
    match c {
        Classification::Untouched => None,
        Classification::Tierless(cat, _) => Some(t.tierless_weight.at(cat)),
        Classification::Tiered(tier, _) => Some(t.weight.at(tier)),
    }
}

/// The duration and magnitude pair that applies to effect `e` in a tier.
pub open spec fn pair_for(tier: Tier, e: u32, t: BalanceTable) -> (i32, i32) {
    if kind_of(e) == EffectKind::Restore {
        t.restore_pair.at(tier)
    } else {
        t.other_pair.at(tier)
    }
}

/// The duration that a classification sets, if any: only tiered potions whose
/// effect has a duration get one.
pub open spec fn duration_for(c: Classification, t: BalanceTable) -> Option<i32> {
    match c {
        Classification::Tiered(tier, e) => match shape_of(e) {
            EffectShape::Duration => Some(t.duration_only.at(tier)),
            EffectShape::DurationAndMagnitude => Some(pair_for(tier, e, t).0),
            _ => None,
        },
        _ => None,
    }
}

/// The magnitude that a classification sets, if any: only tiered potions whose
/// effect has a magnitude get one.
pub open spec fn magnitude_for(c: Classification, t: BalanceTable) -> Option<i32> {
    match c {
        Classification::Tiered(tier, e) => match shape_of(e) {
            EffectShape::Magnitude => Some(t.magnitude_only.at(tier)),
            EffectShape::DurationAndMagnitude => Some(pair_for(tier, e, t).1),
            _ => None,
        },
        _ => None,
    }
}

pub open spec fn or_keep<T>(o: Option<T>, old: T) -> T {
    match o {
        Some(v) => v,
        None => old,
    }
}

/// A potion after balancing under classification `c`: value, weight, duration
/// and magnitude are overwritten where the classification sets them, and
/// nothing else changes.
pub open spec fn patched(v: PotionView, c: Classification, t: BalanceTable) -> PotionView {
    let effects = if v.effects.len() > 0 {
        let e = v.effects[0];
        let m = or_keep(magnitude_for(c, t), e.magnitude_min);
        v.effects.update(
            0,
            EffectEntry {
                index: e.index,
                duration: or_keep(duration_for(c, t), e.duration),
                magnitude_min: m,
                magnitude_max: or_keep(magnitude_for(c, t), e.magnitude_max),
            },
        )
    } else {
        v.effects
    };
    PotionView {
        id: v.id,
        value: or_keep(value_for(c, t), v.value),
        weight: match weight_for(c, t) {
            Some(w) => Weight::Exact(w),
            None => v.weight,
        },
        auto_calculate: v.auto_calculate,
        effects,
    }
}

/// The result of balancing a potion, or why it cannot be balanced.
pub open spec fn balanced(v: PotionView, t: BalanceTable) -> Result<PotionView, ClassifyError> {
    match classification_of(v) {
        Ok(c) => Ok(patched(v, c, t)),
        Err(e) => Err(e),
    }
}

/// The value that a classification sets, if any.
pub fn potion_value(c: Classification, t: &BalanceTable) -> (r: Option<u32>)
    ensures
        r == value_for(c, *t),
{
    match c {
        Classification::Untouched => None,
        Classification::Tierless(cat, _) => Some(t.tierless_value.get(cat)),
        Classification::Tiered(tier, _) => Some(t.value.get(tier)),
    }
}

/// The weight that a classification sets, if any.
pub fn potion_weight(c: Classification, t: &BalanceTable) -> (r: Option<Decimal>)
    ensures
        r == weight_for(c, *t),
{
    match c {
        Classification::Untouched => None,
        Classification::Tierless(cat, _) => Some(t.tierless_weight.get(cat)),
        Classification::Tiered(tier, _) => Some(t.weight.get(tier)),
    }
}

fn effect_pair(tier: Tier, e: u32, t: &BalanceTable) -> (r: (i32, i32))
    ensures
        r == pair_for(tier, e, *t),
{
    if effect_kind(e) == EffectKind::Restore {
        t.restore_pair.get(tier)
    } else {
        t.other_pair.get(tier)
    }
}

/// The duration that a classification sets, if any.
pub fn potion_duration(c: Classification, t: &BalanceTable) -> (r: Option<i32>)
    ensures
        r == duration_for(c, *t),
{
    match c {
        Classification::Tiered(tier, e) => match effect_shape(e) {
            EffectShape::Duration => Some(t.duration_only.get(tier)),
            EffectShape::DurationAndMagnitude => Some(effect_pair(tier, e, t).0),
            _ => None,
        },
        _ => None,
    }
}

/// The magnitude that a classification sets, if any.
pub fn potion_magnitude(c: Classification, t: &BalanceTable) -> (r: Option<i32>)
    ensures
        r == magnitude_for(c, *t),
{
    match c {
        Classification::Tiered(tier, e) => match effect_shape(e) {
            EffectShape::Magnitude => Some(t.magnitude_only.get(tier)),
            EffectShape::DurationAndMagnitude => Some(effect_pair(tier, e, t).1),
            _ => None,
        },
        _ => None,
    }
}

/// Rewrites a potion from the table as its classification says. On an error
/// the potion is left as it was.
pub fn patch_potion(record: &mut PotionRecord, t: &BalanceTable) -> (r: Result<(), ClassifyError>)
    ensures
        match balanced(old(record)@, *t) {
            Ok(v) => r is Ok && final(record)@ == v,
            Err(e) => r == Err::<(), ClassifyError>(e) && *final(record) == *old(record),
        },
{
    let c = match classify(record) {
        Ok(c) => c,
        Err(e) => return Err(e),
    };
    if let Some(value) = potion_value(c, t) {
        record.value = value;
    }
    if let Some(weight) = potion_weight(c, t) {
        record.weight = Weight::Exact(weight);
    }
    if record.effects.len() > 0 {
        let mut e = record.effects[0];
        if let Some(duration) = potion_duration(c, t) {
            e.duration = duration;
        }
        if let Some(magnitude) = potion_magnitude(c, t) {
            e.magnitude_min = magnitude;
            e.magnitude_max = magnitude;
        }
        record.effects.set(0, e);
    }
    assert(record@.effects =~= patched(old(record)@, c, *t).effects);
    Ok(())
}

/// Balancing is idempotent: balancing an already balanced potion again with
/// the same table changes nothing.
pub proof fn lemma_balance_idempotent(v: PotionView, t: BalanceTable)
    requires
        balanced(v, t) is Ok,
    ensures
        balanced(balanced(v, t)->Ok_0, t) == balanced(v, t),
{
    let c = classification_of(v)->Ok_0;
    let w = patched(v, c, t);
    assert(w.id == v.id);
    assert(w.effects.len() == v.effects.len());
    if !v.auto_calculate && v.effects.len() == 1 {
        assert(w.effects[0].index == v.effects[0].index);
    }
    assert(classification_of(w) == classification_of(v));
    let ww = patched(w, c, t);
    assert(ww.effects =~= w.effects);
    assert(ww == w);
}

/// Balances every potion of a list, in order. On an error, tells the position
/// of the first potion that cannot be balanced.
pub fn balance_all(records: Vec<PotionRecord>, t: &BalanceTable) -> (r: Result<Vec<PotionRecord>, usize>)
    ensures
        (forall|i: int| 0 <= i < records.len() ==> balanced(#[trigger] records@[i]@, *t) is Ok)
            ==> r is Ok,
        r matches Ok(v) ==> v.len() == records.len() && forall|i: int|
            0 <= i < v.len() ==> #[trigger] v@[i]@ == balanced(records@[i]@, *t)->Ok_0,
        r matches Err(k) ==> k < records.len() && balanced(records@[k as int]@, *t) is Err
            && forall|i: int| 0 <= i < k ==> balanced(#[trigger] records@[i]@, *t) is Ok,
{
    let ghost orig = records@;
    let mut out = records;
    let mut i: usize = 0;
    while i < out.len()
        invariant
            i <= out.len(),
            out.len() == orig.len(),
            orig == records@,
            forall|j: int| 0 <= j < i ==> balanced(#[trigger] orig[j]@, *t) is Ok,
            forall|j: int| 0 <= j < i ==> #[trigger] out@[j]@ == balanced(orig[j]@, *t)->Ok_0,
            forall|j: int| i <= j < out.len() ==> #[trigger] out@[j] == orig[j],
        decreases out.len() - i,
    {
        let mut p = out.remove(i);
        assert(p == orig[i as int]);
        let res = patch_potion(&mut p, t);
        out.insert(i, p);
        if res.is_err() {
            return Err(i);
        }
        i = i + 1;
        assert(forall|j: int| i <= j < out.len() ==> #[trigger] out@[j] == orig[j]);
    }
    Ok(out)
}

} // verus!
