use vstd::prelude::*;
use crate::person::Coordinates;
use crate::person::Person;

verus! {

/// The one failure a location lookup can report: the provider returned no
/// result for the queried text.
#[derive(Debug, PartialEq, Eq, Structural)]
pub enum GeocodingError {
    NotFound,
}

impl GeocodingError {
    /// A short human-readable account of the error.
    pub fn message(&self) -> (s: &'static str)
        ensures
            s@ == "Location not found"@,
    {
        match self {
            GeocodingError::NotFound => "Location not found",
        }
    }
}

/// What a lookup yields from the provider's result list: the first entry, or
/// `NotFound` when the list is empty.
pub open spec fn lookup_outcome(results: Seq<Coordinates>) -> Result<Coordinates, GeocodingError> {
    if results.len() == 0 {
        Err(GeocodingError::NotFound)
    } else {
        Ok(results[0])
    }
}

/// The coordinates a person ends up with for a given lookup outcome: the
/// resolved point on success, the sentinel on any failure.
pub open spec fn resolved_coords(lookup: Result<Coordinates, GeocodingError>) -> Coordinates {
    match lookup {
        Ok(c) => c,
        Err(_) => Coordinates { lat_micro: 0, lon_micro: 0 },
    }
}

/// Picks the coordinates out of a provider's result list: an empty list is
/// the `NotFound` error, anything else yields the first entry. The transport
/// itself — the HTTP round trip and the response parsing — is a collaborator's
/// concern; this is the decision the pipeline makes on whatever came back.
pub fn get_coordinates(results: &Vec<Coordinates>) -> (r: Result<Coordinates, GeocodingError>)
    ensures
        r == lookup_outcome(results@),
{
    if results.len() == 0 {
        Err(GeocodingError::NotFound)
    } else {
        Ok(results[0])
    }
}

/// Attaches a lookup outcome to a person: the resolved coordinates on
/// success, the `(0, 0)` sentinel on failure. A failed lookup is recovered
/// here, never propagated; callers must read the sentinel as "unresolved",
/// not as a point on the equator.
pub fn assign_location(footie: &mut Person, lookup: Result<Coordinates, GeocodingError>)
    ensures
        *final(footie) == (Person { location_coords: resolved_coords(lookup), ..*old(footie) }),
{
    match lookup {
        Ok(c) => {
            footie.location_coords = c;
        },
        Err(_) => {
            footie.location_coords = Coordinates { lat_micro: 0, lon_micro: 0 };
        },
    }
}

/// Sentinel correctness: a lookup that returns no results always lands the
/// person on the sentinel coordinates.
pub proof fn lemma_empty_lookup_yields_sentinel(results: Seq<Coordinates>)
    requires
        results.len() == 0,
    ensures
        resolved_coords(lookup_outcome(results)).is_sentinel(),
{
}

} // verus!
