use bbs_core::data::{SectionData, SectionDataGuts};
use bbs_core::schedule::canonical_schedule_string;

fn days(active: &[usize]) -> [bool; 7] {
    let mut d = [false; 7];
    for &i in active {
        d[i] = true;
    }
    d
}

#[test]
fn parses_single_letters() {
    let parsed = SectionData::parse("3(A,C)");
    assert_eq!(parsed.guts, SectionDataGuts::Good { days: days(&[1, 3]), period: 3 });
}

#[test]
fn parses_letter_range() {
    let parsed = SectionData::parse("1(A-C,E)");
    assert_eq!(parsed.guts, SectionDataGuts::Good { days: days(&[1, 2, 3, 5]), period: 1 });
}

#[test]
fn parses_empty_day_spec() {
    let parsed = SectionData::parse("12()");
    assert_eq!(parsed.guts, SectionDataGuts::Good { days: days(&[]), period: 12 });
}

#[test]
fn parses_reversed_range_as_no_days() {
    let parsed = SectionData::parse("2(C-A)");
    assert_eq!(parsed.guts, SectionDataGuts::Good { days: days(&[]), period: 2 });
}

#[test]
fn missing_parenthesis_is_bad() {
    let parsed = SectionData::parse("no parens here");
    assert_eq!(parsed.guts, SectionDataGuts::Bad("no parens here".to_string()));
}

#[test]
fn non_numeric_period_is_bad() {
    let parsed = SectionData::parse("x(A)");
    assert_eq!(parsed.guts, SectionDataGuts::Bad("x(A)".to_string()));
}

#[test]
fn empty_period_is_bad() {
    let parsed = SectionData::parse("(A)");
    assert_eq!(parsed.guts, SectionDataGuts::Bad("(A)".to_string()));
}

#[test]
fn letter_outside_range_is_bad() {
    let parsed = SectionData::parse("1(F)");
    assert_eq!(parsed.guts, SectionDataGuts::Bad("1(F)".to_string()));
}

#[test]
fn missing_close_is_bad() {
    let parsed = SectionData::parse("5(A");
    assert_eq!(parsed.guts, SectionDataGuts::Bad("5(A".to_string()));
}

#[test]
fn overflowing_period_is_bad() {
    let s = "99999999999999999999999(A)";
    let parsed = SectionData::parse(s);
    assert_eq!(parsed.guts, SectionDataGuts::Bad(s.to_string()));
}

#[test]
fn bad_keeps_original_bytes() {
    let s = "P(A-D,E)";
    match SectionData::parse(s).guts {
        SectionDataGuts::Bad(orig) => assert_eq!(orig.as_bytes(), s.as_bytes()),
        other => panic!("expected Bad, got {:?}", other),
    }
}

#[test]
fn try_good_rejects_malformed() {
    assert!(SectionDataGuts::try_good_from_str("abc").is_err());
    assert!(SectionDataGuts::try_good_from_str("1(A,)").is_err());
    assert!(SectionDataGuts::try_good_from_str("1(AB)").is_err());
}

#[test]
fn canonical_string_round_trips() {
    let d = days(&[1, 3, 4]);
    let s = canonical_schedule_string(7, &d);
    assert_eq!(s, "7(A,C,D)");
    let parsed = SectionData::parse(&s);
    assert_eq!(parsed.guts, SectionDataGuts::Good { days: d, period: 7 });
}

#[test]
fn canonical_string_round_trips_empty_week() {
    let d = days(&[]);
    let s = canonical_schedule_string(42, &d);
    assert_eq!(s, "42()");
    let parsed = SectionData::parse(&s);
    assert_eq!(parsed.guts, SectionDataGuts::Good { days: d, period: 42 });
}

#[test]
fn parsing_never_panics_on_odd_input() {
    for s in ["", "(", ")", "((", "1(", "1)", "é(A)", "1(é)", "1(A-)", "1(-A)", "18446744073709551615(E)"] {
        let _ = SectionData::parse(s);
    }
    let parsed = SectionData::parse("18446744073709551615(E)");
    assert_eq!(parsed.guts, SectionDataGuts::Good { days: days(&[5]), period: u64::MAX });
}
