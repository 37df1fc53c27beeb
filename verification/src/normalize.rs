use vstd::prelude::*;
use crate::person::Person;
use crate::text::contains_seq;
use crate::text::str_contains;
use crate::text::str_eq;

verus! {

/// Pronoun text maps to a code by exact match: 1.0 (held as 10) for "he/him"
/// or "he/they", 2.0 for "she/her" or "she/they", 3.0 for anything else,
/// the empty answer included.
pub open spec fn pronoun_code_of(s: Seq<char>) -> i64 {
    if s == "he/him"@ || s == "he/they"@ {
        10
    } else if s == "she/her"@ || s == "she/they"@ {
        20
    } else {
        30
    }
}

/// Difficulty maps by exact match against three fixed long-form answers;
/// every other wording, a differently phrased strenuous answer included,
/// falls to the catch-all code 4.0. The string set is part of the survey's
/// contract and is kept verbatim.
pub open spec fn difficulty_code_of(s: Seq<char>) -> i64 {
    if s == "Easy: a mellow trip, though still some challenges!"@ {
        10
    } else if s == "Moderate: a few ups and downs, some rough terrain"@ {
        20
    } else if s == "Strenuous: some ups and downs, some rough terrain"@ {
        30
    } else {
        40
    }
}

/// Day-hike interest: the two polar answers map to 1.0 and 2.0; anything
/// else counts as indifferent, code 1.8.
pub open spec fn days_code_of(s: Seq<char>) -> i64 {
    if s == "Yes, I am interested in day hikes only"@ {
        10
    } else if s == "I am NOT interested in day hikes."@ {
        20
    } else {
        18
    }
}

/// Arts interest: same shape as the day-hike field.
pub open spec fn arts_code_of(s: Seq<char>) -> i64 {
    if s == "Yes, I am interested in the arts-focused trips only"@ {
        10
    } else if s == "I am NOT interested in the arts-focused trips."@ {
        20
    } else {
        18
    }
}

/// Dietary text: the two "no restriction" answers map to 1.0; text holding a
/// nut-allergy marker maps to 2.0; all other content, unrecognized allergy
/// text included, falls back to 1.0. That fallback silently treats an unknown
/// allergy as "no restriction" — a documented risk of the survey's rules,
/// kept as it stands rather than guessed at.
pub open spec fn food_code_of(s: Seq<char>) -> i64 {
    if s == "I have no dietary restrictions or preferences"@ || s == "Other requirement"@ {
        10
    } else if contains_seq(s, "Allergic to peanuts"@) || contains_seq(s, "Allergic to tree nuts"@)
        || contains_seq(s, "nut"@) {
        20
    } else {
        10
    }
}

/// A person with every derived code filled from the raw answers. Only the
/// code fields move; every raw field, the preferences and the coordinates
/// stay as they are.
pub open spec fn normalized_of(p: Person) -> Person {
    Person {
        pronouns_code: pronoun_code_of(p.pronouns@),
        difficulty_code: difficulty_code_of(p.difficulty@),
        days_code: days_code_of(p.days@),
        arts_code: arts_code_of(p.arts@),
        food_code: food_code_of(p.food@),
        ..p
    }
}

/// Normalization is idempotent: the codes are functions of the raw answers
/// alone, and normalization never touches a raw answer, so running it on an
/// already-normalized person changes nothing.
pub proof fn lemma_normalize_idempotent(p: Person)
    ensures
        normalized_of(normalized_of(p)) == normalized_of(p),
{
}

pub fn assign_pronouns(footie: &mut Person)
    ensures
        *final(footie) == (Person {
            pronouns_code: pronoun_code_of(old(footie).pronouns@),
            ..*old(footie)
        }),
{
    if str_eq(footie.pronouns.as_str(), "he/him") || str_eq(footie.pronouns.as_str(), "he/they") {
        footie.pronouns_code = 10;
    } else if str_eq(footie.pronouns.as_str(), "she/her") || str_eq(
        footie.pronouns.as_str(),
        "she/they",
    ) {
        footie.pronouns_code = 20;
    } else {
        footie.pronouns_code = 30;
    }
}

pub fn assign_difficulty(footie: &mut Person)
    ensures
        *final(footie) == (Person {
            difficulty_code: difficulty_code_of(old(footie).difficulty@),
            ..*old(footie)
        }),
{
    if str_eq(footie.difficulty.as_str(), "Easy: a mellow trip, though still some challenges!") {
        footie.difficulty_code = 10;
    } else if str_eq(
        footie.difficulty.as_str(),
        "Moderate: a few ups and downs, some rough terrain",
    ) {
        footie.difficulty_code = 20;
    } else if str_eq(
        footie.difficulty.as_str(),
        "Strenuous: some ups and downs, some rough terrain",
    ) {
        footie.difficulty_code = 30;
    } else {
        footie.difficulty_code = 40;
    }
}

pub fn assign_days(footie: &mut Person)
    ensures
        *final(footie) == (Person { days_code: days_code_of(old(footie).days@), ..*old(footie) }),
{
    if str_eq(footie.days.as_str(), "Yes, I am interested in day hikes only") {
        footie.days_code = 10;
    } else if str_eq(footie.days.as_str(), "I am NOT interested in day hikes.") {
        footie.days_code = 20;
    } else {
        footie.days_code = 18;
    }
}

pub fn assign_arts(footie: &mut Person)
    ensures
        *final(footie) == (Person { arts_code: arts_code_of(old(footie).arts@), ..*old(footie) }),
{
    if str_eq(footie.arts.as_str(), "Yes, I am interested in the arts-focused trips only") {
        footie.arts_code = 10;
    } else if str_eq(footie.arts.as_str(), "I am NOT interested in the arts-focused trips.") {
        footie.arts_code = 20;
    } else {
        footie.arts_code = 18;
    }
}

pub fn assign_food(footie: &mut Person)
    ensures
        *final(footie) == (Person { food_code: food_code_of(old(footie).food@), ..*old(footie) }),
{
    if str_eq(footie.food.as_str(), "I have no dietary restrictions or preferences") || str_eq(
        footie.food.as_str(),
        "Other requirement",
    ) {
        footie.food_code = 10;
    } else if str_contains(footie.food.as_str(), "Allergic to peanuts") || str_contains(
        footie.food.as_str(),
        "Allergic to tree nuts",
    ) || str_contains(footie.food.as_str(), "nut") {
        footie.food_code = 20;
    } else {
        footie.food_code = 10;
    }
}

/// Fills every derived text code of one person. Normalization is total: an
/// unmatched answer always lands in its field's default bucket, so this
/// function never rejects an input. Location enrichment is separate, since it
/// depends on an outside lookup.
pub fn normalize_person(footie: &mut Person)
    ensures
        *final(footie) == normalized_of(*old(footie)),
{
    assign_pronouns(footie);
    assign_difficulty(footie);
    assign_days(footie);
    assign_arts(footie);
    assign_food(footie);
}

} // verus!
