//! The wire form of an optional timespan, as used by partial updates.
use vstd::prelude::*;
use crate::timespan::{DieselTimespan, Timestamp};
use crate::my_timespan_format;

verus! {

/// Reads an optional timespan: a missing value stays missing, a present one
/// must be a list of exactly two instants.
pub fn deserialize(parts: Option<Vec<Timestamp>>) -> (r: Result<Option<DieselTimespan>, String>)
    ensures
        parts is None ==> r == Ok::<Option<DieselTimespan>, String>(None),
        parts matches Some(p) ==> {
            &&& (r is Ok <==> my_timespan_format::spec_parse_parts(p@) is Some)
            &&& (r matches Ok(ts) ==> ts == my_timespan_format::spec_parse_parts(p@))
            &&& (r matches Err(msg) ==> msg@ == my_timespan_format::spec_wrong_length_message())
        },
{
    match parts {
        None => Ok(None),
        Some(p) => match my_timespan_format::deserialize(p) {
            Ok(ts) => Ok(Some(ts)),
            Err(e) => Err(e),
        },
    }
}

} // verus!
