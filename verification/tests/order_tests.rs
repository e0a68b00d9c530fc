use bbs_core::data::{ClassEntry, SectionData, SectionDataGuts};
use bbs_core::order::sort_class_entries;
use bbs_core::ClassID;

fn entry(name: &str, guts: SectionDataGuts, id: u64) -> ClassEntry {
    ClassEntry {
        name: name.to_string(),
        section: SectionData { guts },
        picture: Vec::new(),
        id: ClassID(id),
    }
}

fn good(period: u64, active: &[usize]) -> SectionDataGuts {
    let mut days = [false; 7];
    for &i in active {
        days[i] = true;
    }
    SectionDataGuts::Good { days, period }
}

fn bad(s: &str) -> SectionDataGuts {
    SectionDataGuts::Bad(s.to_string())
}

#[test]
fn good_sorts_before_bad() {
    let v = vec![
        entry("b", bad("zzz"), 1),
        entry("g", good(9, &[1]), 2),
        entry("b2", bad("aaa"), 3),
    ];
    let sorted = sort_class_entries(v);
    assert_eq!(sorted[0].id, ClassID(2));
    // bad entries keep their original relative order
    assert_eq!(sorted[1].id, ClassID(1));
    assert_eq!(sorted[2].id, ClassID(3));
}

#[test]
fn periods_ascend() {
    let v = vec![
        entry("c", good(3, &[1]), 3),
        entry("a", good(1, &[1]), 1),
        entry("b", good(2, &[1]), 2),
    ];
    let sorted = sort_class_entries(v);
    let ids: Vec<u64> = sorted.iter().map(|e| e.id.0).collect();
    assert_eq!(ids, vec![1, 2, 3]);
}

/// The period tie break on the week arrays: at the first slot where the two
/// weeks differ, the entry that does not meet on that day sorts first. So of
/// two entries with equal periods, the one meeting only on Tuesday sorts
/// before the one meeting only on Monday. This direction is deliberate and
/// easy to invert by mistake.
#[test]
fn tie_break_puts_off_day_first() {
    let monday = entry("mon", good(4, &[1]), 1);
    let tuesday = entry("tue", good(4, &[2]), 2);
    let sorted = sort_class_entries(vec![monday.clone(), tuesday.clone()]);
    assert_eq!(sorted[0].id, ClassID(2));
    assert_eq!(sorted[1].id, ClassID(1));
    // same outcome whatever the input order
    let sorted2 = sort_class_entries(vec![tuesday, monday]);
    assert_eq!(sorted2[0].id, ClassID(2));
    assert_eq!(sorted2[1].id, ClassID(1));
}

#[test]
fn sorting_twice_changes_nothing() {
    let v = vec![
        entry("e", bad("x"), 5),
        entry("d", good(2, &[2]), 4),
        entry("c", good(2, &[1]), 3),
        entry("b", good(1, &[3]), 2),
        entry("a", good(2, &[2]), 1),
    ];
    let once = sort_class_entries(v);
    let twice = sort_class_entries(once.clone());
    assert_eq!(once, twice);
}

#[test]
fn equal_entries_keep_input_order() {
    // identical period and week: the order cannot tell them apart
    let first = entry("first", good(6, &[1, 2]), 1);
    let second = entry("second", good(6, &[1, 2]), 2);
    let sorted = sort_class_entries(vec![first, second]);
    assert_eq!(sorted[0].id, ClassID(1));
    assert_eq!(sorted[1].id, ClassID(2));
}

#[test]
fn sort_of_empty_is_empty() {
    let sorted = sort_class_entries(Vec::new());
    assert!(sorted.is_empty());
}
