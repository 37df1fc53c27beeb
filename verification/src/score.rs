use vstd::prelude::*;
use crate::person::FIELD_BOUND;
use crate::person::Person;

verus! {

/// The scalar the roster is ordered by: the sum of the squares of the three
/// preference scores and the pronoun code. With every input in tenths the key
/// comes out in hundredths; scaling every term the same way keeps the order,
/// and the ties, exactly as they are over the unscaled values.
pub open spec fn key_spec(p: Person) -> int {
    p.preference_1 * p.preference_1 + p.preference_2 * p.preference_2 + p.preference_3
        * p.preference_3 + p.pronouns_code * p.pronouns_code
}

/// The squared pairwise distance over the same four fields, in the same
/// hundredth units. The metric itself is the square root of this value; the
/// root is monotone, so every comparison of distances can be made on the
/// squares, and the squares stay exact integers.
pub open spec fn distance_squared_spec(p1: Person, p2: Person) -> int {
    (p1.preference_1 - p2.preference_1) * (p1.preference_1 - p2.preference_1) + (p1.preference_2
        - p2.preference_2) * (p1.preference_2 - p2.preference_2) + (p1.preference_3
        - p2.preference_3) * (p1.preference_3 - p2.preference_3) + (p1.pronouns_code
        - p2.pronouns_code) * (p1.pronouns_code - p2.pronouns_code)
}

/// A square of a value within twice the field bound fits comfortably in an
/// `i64`, and is never negative.
proof fn lemma_square_bounds(x: int)
    requires
        -2 * FIELD_BOUND <= x <= 2 * FIELD_BOUND,
    ensures
        0 <= x * x <= 4 * (FIELD_BOUND as int) * (FIELD_BOUND as int),
{
    assert(0 <= x * x <= 4 * (FIELD_BOUND as int) * (FIELD_BOUND as int)) by (nonlinear_arith)
        requires
            -2 * (FIELD_BOUND as int) <= x <= 2 * (FIELD_BOUND as int),
    {
    }
}

/// The sort key of one person. Never negative, so ordering by it is ordering
/// by preference magnitude.
pub fn sort_key(p: &Person) -> (k: i64)
    requires
        p.score_fields_bounded(),
    ensures
        k == key_spec(*p),
        k >= 0,
{
    proof {
        lemma_square_bounds(p.preference_1 as int);
        lemma_square_bounds(p.preference_2 as int);
        lemma_square_bounds(p.preference_3 as int);
        lemma_square_bounds(p.pronouns_code as int);
    }
    p.preference_1 * p.preference_1 + p.preference_2 * p.preference_2 + p.preference_3
        * p.preference_3 + p.pronouns_code * p.pronouns_code
}

/// The squared Euclidean distance between two people over the scoring fields.
/// Grouping never consumes it; it is kept as a diagnostic metric, as intended
/// by the pipeline's design.
pub fn calculate_similarity(p1: &Person, p2: &Person) -> (d: i64)
    requires
        p1.score_fields_bounded(),
        p2.score_fields_bounded(),
    ensures
        d == distance_squared_spec(*p1, *p2),
        d >= 0,
{
    let d1: i64 = p1.preference_1 - p2.preference_1;
    let d2: i64 = p1.preference_2 - p2.preference_2;
    let d3: i64 = p1.preference_3 - p2.preference_3;
    let d4: i64 = p1.pronouns_code - p2.pronouns_code;
    proof {
        lemma_square_bounds(d1 as int);
        lemma_square_bounds(d2 as int);
        lemma_square_bounds(d3 as int);
        lemma_square_bounds(d4 as int);
    }
    d1 * d1 + d2 * d2 + d3 * d3 + d4 * d4
}

} // verus!
