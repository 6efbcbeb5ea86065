//! Whether a fingerprint can be used.
use vstd::prelude::*;

verus! {

/// What asking for the fingers of an account came to.
#[derive(Debug, PartialEq, Eq)]
pub enum Lookup {
    /// There is no reader, or it could not be asked.
    Unavailable,
    /// No finger is enrolled, as the reader says.
    NotEnrolled,
    /// These fingers are enrolled.
    Fingers(Vec<String>),
}

/// A fingerprint can be used: there is a reader, and a finger is enrolled.
pub open spec fn is_available(lookup: Lookup) -> bool {
    lookup is Fingers && lookup->Fingers_0@.len() > 0
}

/// Whether a fingerprint can be used.
pub fn fingerprint_available(lookup: &Lookup) -> (yes: bool)
    ensures
        yes == is_available(*lookup),
{
    match lookup {
        Lookup::Fingers(fingers) => fingers.len() > 0,
        Lookup::Unavailable => false,
        Lookup::NotEnrolled => false,
    }
}

/// Whether fingerprints are asked for: the user wants it, and one can be used.
pub fn use_fingerprint(enabled: bool, lookup: &Lookup) -> (yes: bool)
    ensures
        yes == (enabled && is_available(*lookup)),
{
    enabled && fingerprint_available(lookup)
}

}
