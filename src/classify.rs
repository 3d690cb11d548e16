use vstd::prelude::*;
use crate::effects::{effect_kind, effect_shape, kind_of, shape_of, EffectKind, EffectShape, EFFECT_COUNT};
use crate::potion::{PotionRecord, PotionView};
use crate::table::{Tier, TierlessCategory};

verus! {

/// What `str::to_uppercase` makes of a text.
pub uninterp spec fn upper_of(s: Seq<char>) -> Seq<char>;

/// Relies on str::to_uppercase: the upper-case form of a text, which depends on
/// its characters alone.
#[verifier::external_body]
pub(crate) fn uppercase(s: &str) -> (r: String)
    ensures
        r@ == upper_of(s@),
{
    s.to_uppercase()
}

/// A text with every run of spaces shortened to one space.
pub open spec fn collapse_spaces(s: Seq<char>) -> Seq<char>
    decreases s.len(),
{
    if s.len() == 0 {
        s
    } else if s.len() >= 2 && s.last() == ' ' && s[s.len() - 2] == ' ' {
        collapse_spaces(s.drop_last())
    } else {
        collapse_spaces(s.drop_last()).push(s.last())
    }
}

/// The key under which potions are merged: the identifier in upper case, with
/// runs of spaces collapsed.
pub open spec fn normalized(id: Seq<char>) -> Seq<char> {
    collapse_spaces(upper_of(id))
}

/// Shortens every run of spaces of a text to one space.
pub fn collapse_space_runs(s: &str) -> (r: String)
    ensures
        r@ == collapse_spaces(s@),
{
    let n = s.unicode_len();
    let mut out = String::new();
    let mut i: usize = 0;
    while i < n
        invariant
            i <= n,
            n == s@.len(),
            out@ == collapse_spaces(s@.take(i as int)),
        decreases n - i,
    {
        let c = s.get_char(i);
        proof {
            assert(s@.take(i + 1).drop_last() =~= s@.take(i as int));
        }
        if c == ' ' && i > 0 && s.get_char(i - 1) == ' ' {
        } else {
            out.append(s.substring_char(i, i + 1));
            assert(s@.subrange(i as int, i + 1) =~= seq![c]);
        }
        i = i + 1;
    }
    assert(s@.take(n as int) =~= s@);
    out
}

/// The merge key of an identifier.
pub fn normalize_id(id: &str) -> (r: String)
    ensures
        r@ == normalized(id@),
{
    let upper = uppercase(id);
    collapse_space_runs(upper.as_str())
}

pub open spec fn tier_letter(c: char) -> Option<Tier> {
    if c == 'B' {
        Some(Tier::Bargain)
    } else if c == 'C' {
        Some(Tier::Cheap)
    } else if c == 'S' {
        Some(Tier::Standard)
    } else if c == 'Q' {
        Some(Tier::Quality)
    } else if c == 'E' {
        Some(Tier::Exclusive)
    } else {
        None
    }
}

/// The tier that a normalized identifier names by its suffix: `_B`, `_C`, `_S`,
/// `_Q` or `_E`, possibly followed by the marker `_CHG`.
pub open spec fn tier_of(k: Seq<char>) -> Option<Tier> {
    let n = k.len();
    if n >= 2 && k[n - 2] == '_' && tier_letter(k[n - 1]) is Some {
        tier_letter(k[n - 1])
    } else if n >= 6 && k[n - 6] == '_' && tier_letter(k[n - 5]) is Some && k[n - 4] == '_'
        && k[n - 3] == 'C' && k[n - 2] == 'H' && k[n - 1] == 'G' {
        tier_letter(k[n - 5])
    } else {
        None
    }
}

fn letter_tier(c: char) -> (r: Option<Tier>)
    ensures
        r == tier_letter(c),
{
    match c {
        'B' => Some(Tier::Bargain),
        'C' => Some(Tier::Cheap),
        'S' => Some(Tier::Standard),
        'Q' => Some(Tier::Quality),
        'E' => Some(Tier::Exclusive),
        _ => None,
    }
}

/// The tier named by the suffix of a normalized identifier.
pub fn suffix_tier(k: &str) -> (r: Option<Tier>)
    ensures
        r == tier_of(k@),
{
    let n = k.unicode_len();
    if n >= 2 && k.get_char(n - 2) == '_' {
        let t = letter_tier(k.get_char(n - 1));
        if t.is_some() {
            return t;
        }
    }
    if n >= 6 && k.get_char(n - 6) == '_' && k.get_char(n - 4) == '_' && k.get_char(n - 3) == 'C'
        && k.get_char(n - 2) == 'H' && k.get_char(n - 1) == 'G' {
        return letter_tier(k.get_char(n - 5));
    }
    None
}

/// The tierless category of an effect that has neither duration nor magnitude
/// to rescale, if the table prices it.
pub open spec fn category_of(e: u32) -> Option<TierlessCategory> {
    if e == 60 {
        Some(TierlessCategory::Mark)
    } else if 61 <= e && e <= 63 {
        Some(TierlessCategory::Teleport)
    } else if e == 72 || e == 73 {
        Some(TierlessCategory::CurePoisonOrParalyze)
    } else if e == 69 {
        Some(TierlessCategory::CureCommonDisease)
    } else if e == 70 {
        Some(TierlessCategory::CureBlightDisease)
    } else if e == 133 {
        Some(TierlessCategory::Vampirism)
    } else {
        None
    }
}

/// Looks up the tierless category of an effect.
pub fn effect_category(e: u32) -> (r: Option<TierlessCategory>)
    ensures
        r == category_of(e),
{
    match e {
        60 => Some(TierlessCategory::Mark),
        61 | 62 | 63 => Some(TierlessCategory::Teleport),
        72 | 73 => Some(TierlessCategory::CurePoisonOrParalyze),
        69 => Some(TierlessCategory::CureCommonDisease),
        70 => Some(TierlessCategory::CureBlightDisease),
        133 => Some(TierlessCategory::Vampirism),
        _ => None,
    }
}

/// How a potion is to be balanced.
#[derive(Debug, Clone, Copy, PartialEq, Eq, Structural)]
pub enum Classification {
    /// Left as it is.
    Untouched,
    /// Value and weight come from the category's entry.
    Tierless(TierlessCategory, u32),
    /// Value, weight, duration and magnitude come from the tier's entries.
    Tiered(Tier, u32),
}

/// A potion whose single effect is not one the game knows.
#[derive(Debug, Clone, Copy, PartialEq, Eq, Structural)]
pub enum ClassifyError {
    UnknownEffect,
}

/// The classification of a potion with one known effect `e` under the merge key `key`.
pub open spec fn classify_effect(key: Seq<char>, e: u32) -> Classification {
    if kind_of(e) == EffectKind::Damage {
        Classification::Untouched
    } else if shape_of(e) == EffectShape::Unscaled {
        match category_of(e) {
            Some(c) => Classification::Tierless(c, e),
            None => Classification::Untouched,
        }
    } else {
        match tier_of(key) {
            Some(t) => Classification::Tiered(t, e),
            None => Classification::Untouched,
        }
    }
}

/// The classification of a potion: only one that is not auto-calculated and
/// has exactly one effect is balanced.
pub open spec fn classification_of(v: PotionView) -> Result<Classification, ClassifyError> {
    if v.auto_calculate || v.effects.len() != 1 {
        Ok(Classification::Untouched)
    } else {
        match v.effects[0].index {
            Some(e) => if e < EFFECT_COUNT {
                Ok(classify_effect(normalized(v.id), e))
            } else {
                Err(ClassifyError::UnknownEffect)
            },
            None => Err(ClassifyError::UnknownEffect),
        }
    }
}

/// Classifies a potion with one known effect `e` under the merge key `key`.
pub fn classify_effect_of(key: &str, e: u32) -> (c: Classification)
    ensures
        c == classify_effect(key@, e),
{
    if effect_kind(e) == EffectKind::Damage {
        return Classification::Untouched;
    }
    if effect_shape(e) == EffectShape::Unscaled {
        return match effect_category(e) {
            Some(c) => Classification::Tierless(c, e),
            None => Classification::Untouched,
        };
    }
    match suffix_tier(key) {
        Some(t) => Classification::Tiered(t, e),
        None => Classification::Untouched,
    }
}

/// Classifies a potion.
pub fn classify(r: &PotionRecord) -> (c: Result<Classification, ClassifyError>)
    ensures
        c == classification_of(r@),
{
    if r.auto_calculate || r.effects.len() != 1 {
        return Ok(Classification::Untouched);
    }
    match r.effects[0].index {
        Some(e) => if e < EFFECT_COUNT {
            let key = normalize_id(r.id.as_str());
            Ok(classify_effect_of(key.as_str(), e))
        } else {
            Err(ClassifyError::UnknownEffect)
        },
        None => Err(ClassifyError::UnknownEffect),
    }
}

/// A potion's classification depends only on its merge key and its effect: two
/// single-effect potions that are not auto-calculated, with equal keys and the
/// same effect, are classified alike.
pub proof fn lemma_classification_by_key_and_effect(a: PotionView, b: PotionView)
    requires
        !a.auto_calculate,
        !b.auto_calculate,
        a.effects.len() == 1,
        b.effects.len() == 1,
        normalized(a.id) == normalized(b.id),
        a.effects[0].index == b.effects[0].index,
    ensures
        classification_of(a) == classification_of(b),
        forall|e: u32|
            a.effects[0].index == Some(e) && e < EFFECT_COUNT ==> #[trigger] classification_of(a)
                == Ok::<Classification, ClassifyError>(classify_effect(normalized(a.id), e)),
{
}

} // verus!
