use vstd::prelude::*;

use intl_pluralrules::PluralCategory as ExtCategory;
use intl_pluralrules::{PluralRuleType, PluralRules};
use unic_langid::LanguageIdentifier;

use crate::strutil::str_eq;

verus! {

/// A CLDR plural category.
#[derive(Debug, Clone, Copy, PartialEq, Eq, Structural, Hash)]
pub enum PluralCategory {
    Zero,
    One,
    Two,
    Few,
    Many,
    Other,
}

/// The category the CLDR cardinal rules of the language `lang` assign to
/// the number written as `decimal`, or `None` when the language tag does
/// not parse or has no cardinal rules. The rule tables are fixed at build
/// time, so the result is a function of the two texts alone.
pub uninterp spec fn plural_category_of(lang: Seq<char>, decimal: Seq<char>) -> Option<
    PluralCategory,
>;

/// Relies on unic_langid's LanguageIdentifier::from_bytes to read the tag,
/// intl_pluralrules' PluralRules::create to pick the language's cardinal
/// rule from its built-in CLDR table, and PluralRules::select to run that
/// rule on the decimal text. All three are pure table lookups over their
/// arguments, so one name covers the composition.
#[verifier::external_body]
pub fn plural_category_lookup(lang: &str, decimal: &str) -> (r: Option<PluralCategory>)
    ensures
        r == plural_category_of(lang@, decimal@),
{
    let id = LanguageIdentifier::from_bytes(lang.as_bytes()).ok()?;
    let rules = PluralRules::create(id, PluralRuleType::CARDINAL).ok()?;
    match rules.select(decimal) {
        Ok(ExtCategory::ZERO) => Some(PluralCategory::Zero),
        Ok(ExtCategory::ONE) => Some(PluralCategory::One),
        Ok(ExtCategory::TWO) => Some(PluralCategory::Two),
        Ok(ExtCategory::FEW) => Some(PluralCategory::Few),
        Ok(ExtCategory::MANY) => Some(PluralCategory::Many),
        Ok(ExtCategory::OTHER) => Some(PluralCategory::Other),
        Err(_) => None,
    }
}

/// The plural category named by one of the six CLDR keywords.
pub open spec fn spec_plural_keyword(q: Seq<char>) -> Option<PluralCategory> {
    if q == "zero"@ {
        Some(PluralCategory::Zero)
    } else if q == "one"@ {
        Some(PluralCategory::One)
    } else if q == "two"@ {
        Some(PluralCategory::Two)
    } else if q == "few"@ {
        Some(PluralCategory::Few)
    } else if q == "many"@ {
        Some(PluralCategory::Many)
    } else if q == "other"@ {
        Some(PluralCategory::Other)
    } else {
        None
    }
}

/// Reads a variant-key word as a plural-category keyword, if it is one.
pub fn plural_keyword(s: &str) -> (r: Option<PluralCategory>)
    ensures
        r == spec_plural_keyword(s@),
{
    if str_eq(s, "zero") {
        Some(PluralCategory::Zero)
    } else if str_eq(s, "one") {
        Some(PluralCategory::One)
    } else if str_eq(s, "two") {
        Some(PluralCategory::Two)
    } else if str_eq(s, "few") {
        Some(PluralCategory::Few)
    } else if str_eq(s, "many") {
        Some(PluralCategory::Many)
    } else if str_eq(s, "other") {
        Some(PluralCategory::Other)
    } else {
        None
    }
}

/// The canonical keyword of a plural category.
pub open spec fn spec_plural_keyword_str(c: PluralCategory) -> Seq<char> {
    match c {
        PluralCategory::Zero => "zero"@,
        PluralCategory::One => "one"@,
        PluralCategory::Two => "two"@,
        PluralCategory::Few => "few"@,
        PluralCategory::Many => "many"@,
        PluralCategory::Other => "other"@,
    }
}

impl PluralCategory {
    pub fn as_str(&self) -> (r: &str)
        ensures
            r@ == spec_plural_keyword_str(*self),
    {
        match self {
            PluralCategory::Zero => "zero",
            PluralCategory::One => "one",
            PluralCategory::Two => "two",
            PluralCategory::Few => "few",
            PluralCategory::Many => "many",
            PluralCategory::Other => "other",
        }
    }
}

} // verus!
