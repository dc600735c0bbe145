//! The wire form of a timespan: a list of exactly two instants, `[start, end]`,
//! read as the half-open range `[start, end)`.
use vstd::prelude::*;
use crate::timespan::{DieselTimespan, TimeBound, Timestamp};

verus! {

/// The timespan that a list of instants stands for, if it has the right shape.
pub open spec fn spec_parse_parts(parts: Seq<Timestamp>) -> Option<DieselTimespan> {
    if parts.len() == 2 {
        Some(DieselTimespan(TimeBound::Included(parts[0]), TimeBound::Excluded(parts[1])))
    } else {
        None
    }
}

/// The two instants a timespan is written as, if it has the written shape.
pub open spec fn spec_print_parts(ts: DieselTimespan) -> Option<(Timestamp, Timestamp)> {
    match ts {
        DieselTimespan(TimeBound::Included(a), TimeBound::Excluded(b)) => Some((a, b)),
        _ => None,
    }
}

/// The message given back for a list that is not two instants long.
pub open spec fn spec_wrong_length_message() -> Seq<char> {
    "Must specify start and end of timespan. I.e. \"timespan\": [\"2019-08-15T17:41:18+00:00\", \"2019-08-15T17:41:18+00:00\"]"@
}

/// The message given back for a timespan that is not `[start, end)`.
pub open spec fn spec_wrong_shape_message() -> Seq<char> {
    "Incorrect timerange format. THis should never happen!"@
}

/// Reads a timespan from the list of instants it was written as.
pub fn deserialize(parts: Vec<Timestamp>) -> (r: Result<DieselTimespan, String>)
    ensures
        r is Ok <==> spec_parse_parts(parts@) is Some,
        r matches Ok(ts) ==> Some(ts) == spec_parse_parts(parts@),
        r matches Err(msg) ==> msg@ == spec_wrong_length_message(),
{
    if parts.len() != 2 {
        Err(String::from_str(
            "Must specify start and end of timespan. I.e. \"timespan\": [\"2019-08-15T17:41:18+00:00\", \"2019-08-15T17:41:18+00:00\"]",
        ))
    } else {
        let start = parts[0];
        let end = parts[1];
        Ok(DieselTimespan(TimeBound::Included(start), TimeBound::Excluded(end)))
    }
}

/// The two instants a timespan is written as; only `[start, end)` can be written.
pub fn serialize(timespan: &DieselTimespan) -> (r: Result<(Timestamp, Timestamp), String>)
    ensures
        r is Ok <==> spec_print_parts(*timespan) is Some,
        r matches Ok(p) ==> Some(p) == spec_print_parts(*timespan),
        r matches Err(msg) ==> msg@ == spec_wrong_shape_message(),
{
    match timespan {
        DieselTimespan(TimeBound::Included(a), TimeBound::Excluded(b)) => Ok((*a, *b)),
        _ => Err(String::from_str("Incorrect timerange format. THis should never happen!")),
    }
}

/// Writing a timespan read from two instants gives the same two instants back.
pub proof fn lemma_parse_then_print(a: Timestamp, b: Timestamp)
    ensures
        spec_parse_parts(seq![a, b]) is Some,
        spec_print_parts(spec_parse_parts(seq![a, b]).unwrap()) == Some((a, b)),
{
}

/// Reading back what a timespan was written as gives the same timespan.
pub proof fn lemma_print_then_parse(ts: DieselTimespan)
    requires
        spec_print_parts(ts) is Some,
    ensures
        spec_parse_parts(seq![spec_print_parts(ts).unwrap().0, spec_print_parts(ts).unwrap().1])
            == Some(ts),
{
}

} // verus!
