use vstd::prelude::*;

use crate::lonlat::LonLat;

verus! {

/// A location: either a free-text keyword or a coordinate pair.
#[derive(Debug, Clone)]
pub enum Location {
    Keyword(String),
    LonLat(LonLat),
}

} // verus!
