use vstd::prelude::*;

use crate::angle::Angle;

verus! {

/// Error taxonomy of the coordinate conversions.  Every fallible operation
/// of this library returns one of these; none panics.
#[derive(Debug, PartialEq)]
pub enum CivilEngineeringLocationError {
    /// The angle magnitude lies outside the finite fixed-point range
    /// (an explicitly infinite angle, or a source value too large to hold).
    Infinite,
    /// Reserved: a not-a-number source value.
    Nan,
    /// The source angle has no representative in the target latitude domain;
    /// carries the offending angle.
    LatitudeDomainError(Angle),
    /// The string is not a well-formed GeoURI coordinate triple.
    GeoUriParseError(String),
    /// The degrees-minutes-seconds grammar matched nothing in the source.
    CouldNotParseFromIso800001Dms(String),
    /// A numeric field could not be read as a decimal number.
    ParseFloatError(String),
    /// Reserved: the sign portion of a successful match was missing.
    ParseErrorAroundSign,
    /// The match carries neither DMS fields nor a bare decimal number.
    CouldNotDetectAnglePattern,
    /// Reserved: the hemisphere-letter portion of a successful match was
    /// missing.
    ParseErrorAroundNwse,
    /// Reserved: the localized hemisphere-word portion of a successful match
    /// was missing.
    ParseErrorAroundNwseJaJp,
    /// Latitude and longitude could not both be resolved from the source.
    LonLatFromStrUnknownPattern,
}

} // verus!
