use tasklist::text::{decimal_text, join_from};
use tasklist::timestamp::Timestamp;

#[test]
fn from_parts_keeps_the_parts() {
    let t = Timestamp::from_parts(1_431_648_000, 7).unwrap();
    assert_eq!(t.secs(), 1_431_648_000);
    assert_eq!(t.nanos(), 7);
}

#[test]
fn from_parts_refuses_what_is_out_of_range() {
    assert_eq!(Timestamp::from_parts(i64::MAX, 0), None);
    assert_eq!(Timestamp::from_parts(i64::MIN, 0), None);
    assert_eq!(Timestamp::from_parts(0, 2_000_000_000), None);
    assert_eq!(Timestamp::from_parts(0, 1_500_000_000), None);
    assert!(Timestamp::from_parts(59, 1_500_000_000).is_some());
    assert!(Timestamp::from_parts(-1, 999_999_999).is_some());
}

#[test]
fn rfc3339_text_of_an_instant() {
    let t = Timestamp::from_parts(1_431_648_000, 0).unwrap();
    assert_eq!(t.to_rfc3339(), "2015-05-15T00:00:00+00:00");
    let u = Timestamp::from_parts(1_431_648_000, 500_000_000).unwrap();
    assert_eq!(u.to_rfc3339(), "2015-05-15T00:00:00.500+00:00");
}

#[test]
fn display_text_of_an_instant() {
    let t = Timestamp::from_parts(1_700_000_000, 999_999_999).unwrap();
    assert_eq!(t.to_display(), "2023-11-14 22:13:20");
}

#[test]
fn parse_reads_an_offset_and_moves_it_to_utc() {
    let t = Timestamp::parse_rfc3339("1996-12-19T16:39:57-08:00").unwrap();
    assert_eq!(t.secs(), 851_042_397);
    assert_eq!(t.nanos(), 0);
    let u = Timestamp::parse_rfc3339("2015-05-15T00:00:00.25Z").unwrap();
    assert_eq!(u.secs(), 1_431_648_000);
    assert_eq!(u.nanos(), 250_000_000);
}

#[test]
fn parse_refuses_other_text() {
    assert_eq!(Timestamp::parse_rfc3339(""), None);
    assert_eq!(Timestamp::parse_rfc3339("2015-05-15 00:00:00"), None);
    assert_eq!(Timestamp::parse_rfc3339("not a time"), None);
}

#[test]
fn text_and_back_is_the_same_instant() {
    let t = Timestamp::from_parts(1_700_000_000, 123_456_789).unwrap();
    assert_eq!(Timestamp::parse_rfc3339(&t.to_rfc3339()), Some(t));
}

#[test]
fn usual_instants_survive_their_text() {
    assert!(Timestamp::from_parts(0, 0).unwrap().survives_text());
    assert!(Timestamp::from_parts(1_700_000_000, 1).unwrap().survives_text());
    assert!(Timestamp::from_parts(1_700_000_000, 999_999_999).unwrap().survives_text());
    assert!(Timestamp::from_parts(-1, 500).unwrap().survives_text());
    assert!(Timestamp::now().survives_text());
}

#[test]
fn an_instant_after_the_year_9999_does_not_survive_its_text() {
    let t = Timestamp::from_parts(253_402_300_800, 0).unwrap();
    assert!(!t.survives_text());
    assert_eq!(Timestamp::parse_rfc3339(&t.to_rfc3339()), None);
}

#[test]
fn instants_are_ordered_by_seconds_then_nanoseconds() {
    let a = Timestamp::from_parts(10, 5).unwrap();
    let b = Timestamp::from_parts(10, 6).unwrap();
    let c = Timestamp::from_parts(11, 0).unwrap();
    assert!(a.is_at_or_before(&a));
    assert!(a.is_at_or_before(&b));
    assert!(b.is_at_or_before(&c));
    assert!(!b.is_at_or_before(&a));
    assert!(!c.is_at_or_before(&b));
    assert!(a.same_instant(&a));
    assert!(!a.same_instant(&b));
}

#[test]
fn now_is_after_the_year_2020() {
    let t = Timestamp::now();
    assert!(Timestamp::from_parts(1_577_836_800, 0).unwrap().is_at_or_before(&t));
    assert_eq!(Timestamp::from_parts(t.secs(), t.nanos()), Some(t));
}

#[test]
fn decimal_text_of_numbers() {
    assert_eq!(decimal_text(0), "0");
    assert_eq!(decimal_text(7), "7");
    assert_eq!(decimal_text(10), "10");
    assert_eq!(decimal_text(1234567890), "1234567890");
    assert_eq!(decimal_text(usize::MAX), usize::MAX.to_string());
}

#[test]
fn join_from_puts_single_spaces() {
    let parts = vec!["prog".to_string(), "add".to_string(), "Buy".to_string(), "milk".to_string()];
    assert_eq!(join_from(&parts, 2), "Buy milk");
    assert_eq!(join_from(&parts, 3), "milk");
    assert_eq!(join_from(&parts, 4), "");
    assert_eq!(join_from(&parts, 0), "prog add Buy milk");
    let blanks = vec!["".to_string(), "a b".to_string(), "".to_string()];
    assert_eq!(join_from(&blanks, 0), " a b ");
}
