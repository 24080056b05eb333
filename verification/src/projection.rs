//! The descriptions of the projections between lon/lat degrees and the AEQD metric plane.

use vstd::prelude::*;

verus! {

broadcast use vstd::string::group_string_axioms;

/// The description of the lon/lat projection.
pub const DEGREES_PROJECTION: &'static str = "+proj=latlong +datum=WGS84 +over";

/// The description of the AEQD metric projection centred on the given latitude and
/// longitude, given as text.
pub open spec fn meters_projection_text(lat: Seq<char>, lon: Seq<char>) -> Seq<char> {
    "+proj=aeqd +lat_0="@ + lat + " +lon_0="@ + lon + " +datum=WGS84 +over"@
}

/// The description of the AEQD metric projection centred on the given latitude and
/// longitude, given as text.
pub fn meters_projection(lat: &str, lon: &str) -> (r: String)
    ensures
        r@ == meters_projection_text(lat@, lon@),
{
    "+proj=aeqd +lat_0=".to_owned().concat(lat).concat(" +lon_0=").concat(lon).concat(
        " +datum=WGS84 +over",
    )
}

/// The AEQD description sets the projection's origin latitude `lat_0` to the given latitude
/// and its origin longitude `lon_0` to the given longitude, on the WGS84 datum.
pub proof fn lemma_meters_projection_origin(lat: Seq<char>, lon: Seq<char>)
    ensures
        ({
            let text = meters_projection_text(lat, lon);
            let head = "+proj=aeqd +lat_0="@;
            let middle = " +lon_0="@;
            let a = head.len() as int;
            let b = a + lat.len() as int;
            let c = b + middle.len() as int;
            let d = c + lon.len() as int;
            &&& text.subrange(0, a) == head
            &&& text.subrange(a, b) == lat
            &&& text.subrange(b, c) == middle
            &&& text.subrange(c, d) == lon
            &&& text.subrange(d, text.len() as int) == " +datum=WGS84 +over"@
        }),
{
    let head = "+proj=aeqd +lat_0="@;
    let middle = " +lon_0="@;
    let text = meters_projection_text(lat, lon);
    let a = head.len() as int;
    let b = a + lat.len() as int;
    let c = b + middle.len() as int;
    let d = c + lon.len() as int;
    assert(text.subrange(0, a) =~= head);
    assert(text.subrange(a, b) =~= lat);
    assert(text.subrange(b, c) =~= middle);
    assert(text.subrange(c, d) =~= lon);
    assert(text.subrange(d, text.len() as int) =~= " +datum=WGS84 +over"@);
}

} // verus!
