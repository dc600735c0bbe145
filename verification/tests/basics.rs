use fantasy_sport::timespan::{DieselTimespan, TimeBound, Timestamp, new_dieseltimespan};
use fantasy_sport::my_timespan_format;
use fantasy_sport::my_timespan_format_opt;

#[test]
fn it_works() {
    assert_eq!(2 + 2, 4);
}

#[test]
fn lib_it_works() {
    assert_eq!(2 + 2, 4);
}

fn ts(secs: i64) -> Timestamp {
    Timestamp::new(secs, 0)
}

#[test]
fn timestamp_order() {
    assert!(ts(1).before(&ts(2)));
    assert!(!ts(2).before(&ts(2)));
    assert!(Timestamp::new(2, 5).before(&Timestamp::new(2, 6)));
    assert!(!Timestamp::new(3, 0).before(&Timestamp::new(2, 999)));
}

#[test]
fn timestamp_plus_seconds() {
    let t = Timestamp::new(100, 7).plus_seconds(-30);
    assert_eq!(t, Timestamp::new(70, 7));
}

#[test]
fn timespan_is_half_open() {
    let span = new_dieseltimespan(ts(10), ts(20));
    assert_eq!(span, DieselTimespan(TimeBound::Included(ts(10)), TimeBound::Excluded(ts(20))));
    assert!(span.contains(&ts(10)));
    assert!(span.contains(&ts(19)));
    assert!(!span.contains(&ts(20)));
    assert!(!span.contains(&ts(9)));
    assert_eq!(span.lower(), ts(10));
    assert_eq!(span.upper(), ts(20));
}

#[test]
fn unbounded_timespan_contains_everything_after_start() {
    let span = DieselTimespan(TimeBound::Excluded(ts(5)), TimeBound::Unbounded);
    assert!(!span.contains(&ts(5)));
    assert!(span.contains(&ts(1_000_000)));
}

#[test]
fn timespan_round_trip() {
    let span = my_timespan_format::deserialize(vec![ts(1), ts(2)]).unwrap();
    assert_eq!(my_timespan_format::serialize(&span).unwrap(), (ts(1), ts(2)));
}

#[test]
fn timespan_needs_two_instants() {
    let err = my_timespan_format::deserialize(vec![ts(1)]).unwrap_err();
    assert!(err.starts_with("Must specify start and end of timespan."));
    assert!(my_timespan_format::deserialize(vec![ts(1), ts(2), ts(3)]).is_err());
}

#[test]
fn timespan_of_other_shape_cannot_be_written() {
    let span = DieselTimespan(TimeBound::Excluded(ts(1)), TimeBound::Included(ts(2)));
    assert_eq!(
        my_timespan_format::serialize(&span).unwrap_err(),
        "Incorrect timerange format. THis should never happen!"
    );
}

#[test]
fn optional_timespan() {
    assert_eq!(my_timespan_format_opt::deserialize(None).unwrap(), None);
    assert_eq!(
        my_timespan_format_opt::deserialize(Some(vec![ts(3), ts(4)])).unwrap(),
        Some(new_dieseltimespan(ts(3), ts(4)))
    );
    assert!(my_timespan_format_opt::deserialize(Some(vec![])).is_err());
}
