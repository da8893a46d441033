//! Conversion between textual geographic coordinate notations (decimal
//! degrees, degrees-minutes-seconds with several unit glyphs, hemisphere
//! letters and localized hemisphere words, the GeoURI scheme) and a
//! normalized in-memory angle representation, and back.
//!
//! An angle is held exactly as an integer count of 1.0e-4 arcseconds, the
//! resolution at which seconds are quantized for the 180-degree domain;
//! every conversion below is exact integer arithmetic over that grid.

pub mod angle;
pub mod error;
pub mod laws;
pub mod length;
pub mod location;
pub mod lonlat;
pub mod numfmt;
pub mod parse;
pub mod sign;
pub mod text;

pub use angle::Angle;
pub use angle::AngleAsDms;
pub use angle::AngleAsNormalize;
pub use angle::FromDms;
pub use error::CivilEngineeringLocationError;
pub use length::Length;
pub use location::Location;
pub use lonlat::AsLonLat;
pub use lonlat::LonLat;
pub use lonlat::LonLatAlt;
pub use lonlat::LonLatGettable;
pub use lonlat::LonLatSettable;
pub use lonlat::ToStringDms;
pub use lonlat::ToStringDmsJaJp;
pub use lonlat::ToStringDmsNwse;
pub use lonlat::ToStringDmsNwseJaJp;
pub use lonlat::ToStringGeoUri;
pub use parse::AngleDirectionNotation;
pub use parse::FromDmsStr;
pub use sign::Sign;
pub use text::AngleAsStringDmsNwse;
pub use text::AngleAsStringIso800001;
pub use text::AngleAsStringIso800001JaJp;
pub use sign::ToStringEW;
pub use sign::ToStringNS;
