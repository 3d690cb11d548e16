use potions_balance::classify::{
    classify, classify_effect_of, collapse_space_runs, normalize_id, suffix_tier, Classification,
    ClassifyError,
};
use potions_balance::decimal::Decimal;
use potions_balance::engine::{balance_all, patch_potion};
use potions_balance::potion::{EffectEntry, PotionRecord, Weight};
use potions_balance::table::{BalanceTable, Tier, TierlessCategory};
use potions_balance::{effect_kind, effect_shape, EffectKind, EffectShape};

const RESTORE_HEALTH: u32 = 75;
const FIRE_DAMAGE: u32 = 14;
const MARK: u32 = 60;
const WATER_BREATHING: u32 = 0;
const DISPEL: u32 = 57;
const FORTIFY_HEALTH: u32 = 80;
const CURE_CORPRUS: u32 = 71;

fn potion(id: &str, effect: Option<u32>) -> PotionRecord {
    PotionRecord {
        id: id.to_string(),
        value: 7,
        weight: Weight::Stored(0x3f80_0000),
        auto_calculate: false,
        effects: vec![EffectEntry { index: effect, duration: 3, magnitude_min: 4, magnitude_max: 6 }],
    }
}

#[test]
fn health_potion_standard_tier() {
    let table = BalanceTable::original();
    assert_eq!(table.value.standard, 35);
    assert_eq!(table.weight.standard, Decimal { mantissa: 75, scale: 2 });
    assert_eq!(table.restore_pair.standard, (5, 10));
    let mut p = potion("P_HEALTHPOTION_S", Some(RESTORE_HEALTH));
    assert_eq!(classify(&p), Ok(Classification::Tiered(Tier::Standard, RESTORE_HEALTH)));
    assert_eq!(patch_potion(&mut p, &table), Ok(()));
    assert_eq!(p.value, 35);
    assert_eq!(p.weight, Weight::Exact(Decimal { mantissa: 75, scale: 2 }));
    assert_eq!(p.effects[0].duration, 5);
    assert_eq!(p.effects[0].magnitude_min, 10);
    assert_eq!(p.effects[0].magnitude_max, 10);
}

#[test]
fn unknown_suffix_damage_is_untouched() {
    for table in [BalanceTable::original(), BalanceTable::recommended()] {
        let mut p = potion("P_FIREBALL_Z", Some(FIRE_DAMAGE));
        let before = p.clone();
        assert_eq!(classify(&p), Ok(Classification::Untouched));
        assert_eq!(patch_potion(&mut p, &table), Ok(()));
        assert_eq!(p, before);
    }
}

#[test]
fn unknown_suffix_other_effect_is_untouched() {
    let mut p = potion("P_HEALTH_Z", Some(RESTORE_HEALTH));
    let before = p.clone();
    assert_eq!(classify(&p), Ok(Classification::Untouched));
    patch_potion(&mut p, &BalanceTable::recommended()).unwrap();
    assert_eq!(p, before);
}

#[test]
fn damage_is_untouched_even_with_a_tier() {
    let p = potion("P_FIRE_E", Some(FIRE_DAMAGE));
    assert_eq!(classify(&p), Ok(Classification::Untouched));
}

#[test]
fn classification_ignores_case_of_identifier() {
    let a = potion("p_healthpotion_s", Some(RESTORE_HEALTH));
    let b = potion("P_HealthPotion_S", Some(RESTORE_HEALTH));
    assert_eq!(classify(&a), classify(&b));
    assert_eq!(classify(&a), Ok(Classification::Tiered(Tier::Standard, RESTORE_HEALTH)));
}

#[test]
fn charged_marker_suffix() {
    assert_eq!(suffix_tier("P_X_Q_CHG"), Some(Tier::Quality));
    assert_eq!(suffix_tier("P_X_B"), Some(Tier::Bargain));
    assert_eq!(suffix_tier("P_X_E"), Some(Tier::Exclusive));
    assert_eq!(suffix_tier("P_X_C_CHG"), Some(Tier::Cheap));
    assert_eq!(suffix_tier("P_X_Z"), None);
    assert_eq!(suffix_tier("P_X_CHG"), None);
    assert_eq!(suffix_tier("S"), None);
}

#[test]
fn normalization_uppercases_and_collapses_spaces() {
    assert_eq!(normalize_id("p  health   potion_s"), "P HEALTH POTION_S");
    assert_eq!(normalize_id(" a"), " A");
    assert_eq!(normalize_id(""), "");
}

#[test]
fn tierless_mark_gets_value_and_weight_only() {
    let table = BalanceTable::recommended();
    let mut p = potion("P_MARK_S", Some(MARK));
    assert_eq!(classify(&p), Ok(Classification::Tierless(TierlessCategory::Mark, MARK)));
    patch_potion(&mut p, &table).unwrap();
    assert_eq!(p.value, 60);
    assert_eq!(p.weight, Weight::Exact(Decimal { mantissa: 8, scale: 1 }));
    assert_eq!(p.effects[0].duration, 3);
    assert_eq!(p.effects[0].magnitude_min, 4);
    assert_eq!(p.effects[0].magnitude_max, 6);
}

#[test]
fn cure_corprus_is_untouched() {
    let p = potion("P_CURE_CORPRUS_S", Some(CURE_CORPRUS));
    assert_eq!(classify(&p), Ok(Classification::Untouched));
}

#[test]
fn duration_only_and_magnitude_only_shapes() {
    let table = BalanceTable::original();
    let mut d = potion("P_WATER_C", Some(WATER_BREATHING));
    patch_potion(&mut d, &table).unwrap();
    assert_eq!((d.value, d.effects[0].duration, d.effects[0].magnitude_min), (15, 15, 4));
    let mut m = potion("P_DISPEL_Q", Some(DISPEL));
    patch_potion(&mut m, &table).unwrap();
    assert_eq!((m.value, m.effects[0].duration, m.effects[0].magnitude_max), (80, 3, 15));
    let mut o = potion("P_FORTIFY_B", Some(FORTIFY_HEALTH));
    patch_potion(&mut o, &table).unwrap();
    assert_eq!((o.effects[0].duration, o.effects[0].magnitude_min), (8, 5));
}

#[test]
fn auto_calculated_and_multi_effect_are_untouched() {
    let mut a = potion("P_HEALTH_S", Some(RESTORE_HEALTH));
    a.auto_calculate = true;
    assert_eq!(classify(&a), Ok(Classification::Untouched));
    let mut b = potion("P_HEALTH_S", Some(RESTORE_HEALTH));
    b.effects.push(b.effects[0]);
    assert_eq!(classify(&b), Ok(Classification::Untouched));
    let mut c = potion("P_HEALTH_S", Some(RESTORE_HEALTH));
    c.effects.clear();
    assert_eq!(classify(&c), Ok(Classification::Untouched));
}

#[test]
fn unknown_effect_is_an_error() {
    let mut p = potion("P_ODD_S", None);
    let before = p.clone();
    assert_eq!(patch_potion(&mut p, &BalanceTable::original()), Err(ClassifyError::UnknownEffect));
    assert_eq!(p, before);
    let q = potion("P_ODD_S", Some(500));
    assert_eq!(classify(&q), Err(ClassifyError::UnknownEffect));
}

#[test]
fn balancing_twice_changes_nothing() {
    let table = BalanceTable::recommended();
    let mut p = potion("P_HEALTHPOTION_Q", Some(RESTORE_HEALTH));
    patch_potion(&mut p, &table).unwrap();
    let once = p.clone();
    patch_potion(&mut p, &table).unwrap();
    assert_eq!(p, once);
}

#[test]
fn balance_all_reports_first_failure() {
    let table = BalanceTable::original();
    let list = vec![potion("P_A_S", Some(RESTORE_HEALTH)), potion("P_B_S", None), potion("P_C_S", None)];
    assert_eq!(balance_all(list, &table), Err(1));
    let ok = balance_all(vec![potion("P_A_E", Some(RESTORE_HEALTH))], &table).unwrap();
    assert_eq!(ok[0].value, 175);
    assert_eq!(ok[0].effects[0].magnitude_min, 40);
}

#[test]
fn effect_tables() {
    assert_eq!(effect_kind(FIRE_DAMAGE), EffectKind::Damage);
    assert_eq!(effect_kind(23), EffectKind::Restore);
    assert_eq!(effect_kind(FORTIFY_HEALTH), EffectKind::Other);
    assert_eq!(effect_shape(MARK), EffectShape::Unscaled);
    assert_eq!(effect_shape(DISPEL), EffectShape::Magnitude);
    assert_eq!(effect_shape(120), EffectShape::Duration);
    assert_eq!(effect_shape(117), EffectShape::DurationAndMagnitude);
}

#[test]
fn space_runs_collapse() {
    assert_eq!(collapse_space_runs("a  b   c "), "a b c ");
    assert_eq!(collapse_space_runs("   "), " ");
    assert_eq!(collapse_space_runs("ab"), "ab");
}

#[test]
fn classification_from_key() {
    assert_eq!(classify_effect_of("P_X_S", RESTORE_HEALTH), Classification::Tiered(Tier::Standard, RESTORE_HEALTH));
    assert_eq!(classify_effect_of("P_X_Z", FIRE_DAMAGE), Classification::Untouched);
    assert_eq!(classify_effect_of("P_X", 61), Classification::Tierless(TierlessCategory::Teleport, 61));
    assert_eq!(classify_effect_of("p_x_s", RESTORE_HEALTH), Classification::Untouched);
}
