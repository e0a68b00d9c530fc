use bbs_core::codec::{
    class_listing_from_base64, class_listing_to_base64, materials_from_base64, materials_to_base64,
    PayloadError,
};
use bbs_core::data::{ClassEntry, MaterialEntry, MaterialKind, SectionData, SectionDataGuts};
use bbs_core::errors::LoginError;
use bbs_core::orchestrator::bool_to_base64;
use bbs_core::ClassID;

fn sample_entry() -> ClassEntry {
    ClassEntry {
        name: "Chemistry".to_string(),
        section: SectionData {
            guts: SectionDataGuts::Good { days: [false, true, false, true, false, false, false], period: 4 },
        },
        picture: vec![1, 2, 3, 255],
        id: ClassID(12345),
    }
}

#[test]
fn class_entry_round_trips() {
    let e = sample_entry();
    let text = e.to_base64();
    let back = ClassEntry::from_base64(&text).unwrap();
    assert_eq!(back, e);
}

#[test]
fn bad_section_round_trips() {
    let e = ClassEntry {
        name: "Drama".to_string(),
        section: SectionData { guts: SectionDataGuts::Bad("P(A-D,E)".to_string()) },
        picture: Vec::new(),
        id: ClassID(9),
    };
    let back = ClassEntry::from_base64(&e.to_base64()).unwrap();
    assert_eq!(back, e);
}

#[test]
fn listing_round_trips() {
    let v = vec![
        sample_entry(),
        ClassEntry {
            name: String::new(),
            section: SectionData { guts: SectionDataGuts::Bad(String::new()) },
            picture: Vec::new(),
            id: ClassID(0),
        },
    ];
    let text = class_listing_to_base64(&v);
    let back = class_listing_from_base64(&text).unwrap();
    assert_eq!(back, v);
}

#[test]
fn empty_listing_round_trips() {
    let v: Vec<ClassEntry> = Vec::new();
    let back = class_listing_from_base64(&class_listing_to_base64(&v)).unwrap();
    assert!(back.is_empty());
}

#[test]
fn materials_round_trip_with_unicode() {
    let v = vec![MaterialEntry {
        id: "123".to_string(),
        kind: MaterialKind::File,
        title: "Längenmaß — résumé".to_string(),
        body: "π ≈ 3.14159".to_string(),
        due: "No Due Date Specified".to_string(),
    }];
    let back = materials_from_base64(&materials_to_base64(&v)).unwrap();
    assert_eq!(back, v);
}

#[test]
fn login_errors_round_trip() {
    for e in [
        LoginError::SerializationError,
        LoginError::FindFormError,
        LoginError::InvalidCredsError,
        LoginError::RequestError,
        LoginError::LaterRequestError,
        LoginError::DecodeError,
        LoginError::JsonError,
    ] {
        let back = LoginError::from_base64(&e.to_base64()).unwrap();
        assert_eq!(back, e);
    }
}

#[test]
fn bool_payload_matches_reference_encoding() {
    // the binary form of a flag is a single byte; its base64 armour must be
    // the standard padded encoding of that byte
    assert_eq!(bool_to_base64(true), "AQ==");
    assert_eq!(bool_to_base64(false), "AA==");
}

#[test]
fn payload_text_matches_the_base64_crate() {
    let v = vec![sample_entry()];
    let text = class_listing_to_base64(&v);
    let decoded = base64::decode(&text).unwrap();
    assert_eq!(base64::encode(&decoded), text);
}

#[test]
fn invalid_base64_is_reported() {
    assert_eq!(class_listing_from_base64("!!!not base64!!!"), Err(PayloadError::Base64));
    assert_eq!(LoginError::from_base64("!!!"), Err(PayloadError::Base64));
}

#[test]
fn malformed_bytes_are_reported() {
    // valid base64, but not a valid payload
    let junk = base64::encode([7u8, 7, 7]);
    assert_eq!(class_listing_from_base64(&junk), Err(PayloadError::Malformed));
    assert_eq!(materials_from_base64(&junk), Err(PayloadError::Malformed));
    assert_eq!(LoginError::from_base64(&base64::encode([9u8])), Err(PayloadError::Malformed));
}

#[test]
fn payloads_are_deterministic() {
    let v = vec![sample_entry(), sample_entry()];
    assert_eq!(class_listing_to_base64(&v), class_listing_to_base64(&v.clone()));
}
