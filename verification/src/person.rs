use vstd::prelude::*;

verus! {

/// All survey scores and derived codes are held in fixed-point form: tenths of
/// the survey's unit. A categorical code of 1.8 is stored as 18, a preference
/// score of 3.5 as 35. This keeps every value exact and every comparison a
/// plain integer comparison.
///
/// Bound on the four fields that feed the sort key, in tenths. The grouping
/// step sums four squares of such fields in an `i64`; with each field within
/// this bound the sum stays below `i64::MAX`. This is a machine limit, not a
/// rule of the domain.
pub const FIELD_BOUND: i64 = 700_000_000;

/// Geographic coordinates in microdegrees (degrees times one million).
/// `(0, 0)` is the sentinel for "location not resolved"; by convention it is
/// indistinguishable from a genuine reading at that point.
#[derive(Clone, Copy, Debug, PartialEq, Eq, Structural)]
pub struct Coordinates {
    pub lat_micro: i64,
    pub lon_micro: i64,
}

impl Coordinates {
    /// The placeholder meaning "no coordinates were resolved".
    pub open spec fn is_sentinel(self) -> bool {
        self.lat_micro == 0 && self.lon_micro == 0
    }

    pub fn sentinel() -> (c: Coordinates)
        ensures
            c.is_sentinel(),
            c == (Coordinates { lat_micro: 0, lon_micro: 0 }),
    {
        Coordinates { lat_micro: 0, lon_micro: 0 }
    }
}

/// One roster entry. The raw survey answers are kept verbatim; each derived
/// `*_code` field is filled by normalization and holds a fixed-point code
/// (tenths). `school_code` is carried through unassigned, as the source data
/// never supplies a rule for it.
#[derive(Clone, Debug, PartialEq)]
pub struct Person {
    pub id: String,
    pub name: String,
    pub preference_1: i64,
    pub preference_2: i64,
    pub preference_3: i64,
    pub pronouns: String,
    pub pronouns_code: i64,
    pub residential_college: String,
    pub difficulty: String,
    pub difficulty_code: i64,
    pub days: String,
    pub days_code: i64,
    pub arts: String,
    pub arts_code: i64,
    pub food: String,
    pub food_code: i64,
    pub location: String,
    pub location_coords: Coordinates,
    pub school: String,
    pub school_code: i64,
}

impl Person {
    /// The four fields the sort key reads are small enough that their squares
    /// can be summed in an `i64`.
    pub open spec fn score_fields_bounded(self) -> bool {
        &&& -FIELD_BOUND <= self.preference_1 <= FIELD_BOUND
        &&& -FIELD_BOUND <= self.preference_2 <= FIELD_BOUND
        &&& -FIELD_BOUND <= self.preference_3 <= FIELD_BOUND
        &&& -FIELD_BOUND <= self.pronouns_code <= FIELD_BOUND
    }
}

} // verus!
