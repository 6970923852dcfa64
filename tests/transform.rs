use trame_viewer::transform::property_kind_of;
use trame_viewer::{
    transform_to_trame, transform_with_now, Java, JavaArray, JavaDate, JavaObject, JavaVoid,
    ParseError, PropertyKind, Timestamp, TransformError, VoidIndex, VoidValue,
};

fn entry(name: &str, value: VoidValue) -> JavaVoid {
    JavaVoid { property: name.to_string(), value }
}

fn object(voids: Vec<JavaVoid>) -> JavaObject {
    JavaObject { class: "Trame".to_string(), voids }
}

fn doc(objects: Vec<JavaObject>) -> Java {
    Java { version: "1.8.0".to_string(), class: "java.beans.XMLDecoder".to_string(), objects }
}

fn bytes(items: &[(&str, i8)]) -> VoidValue {
    VoidValue::Array(JavaArray {
        class: Some("byte".to_string()),
        length: Some(items.len() as i32),
        voids: Some(
            items.iter().map(|(i, b)| VoidIndex { index: i.to_string(), byte: *b }).collect(),
        ),
    })
}

fn date(millis: i64) -> VoidValue {
    VoidValue::Date(JavaDate { class: Some("java.util.Date".to_string()), long: Some(millis) })
}

const NOW: Timestamp = Timestamp { millis: 1_700_000_000_000 };

#[test]
fn one_frame_per_object() {
    let d = doc(vec![
        object(vec![]),
        object(vec![entry("canal_Logique", VoidValue::Int(2))]),
        object(vec![entry("other", VoidValue::Str("x".to_string()))]),
    ]);
    let frames = transform_with_now(&d, NOW).unwrap();
    assert_eq!(frames.len(), 3);
    assert_eq!(frames[1].logical_canal, 2);
    assert_eq!(frames[0].logical_canal, 0);
}

#[test]
fn empty_document_gives_no_frames() {
    assert_eq!(transform_with_now(&doc(vec![]), NOW).unwrap().len(), 0);
}

#[test]
fn empty_object_takes_defaults() {
    let clock = || {
        std::time::SystemTime::now().duration_since(std::time::UNIX_EPOCH).unwrap().as_millis()
            as i64
    };
    let before = Timestamp { millis: clock() };
    let frames = transform_to_trame(doc(vec![object(vec![])])).unwrap();
    let after = Timestamp { millis: clock() };
    let t = &frames[0];
    assert_eq!(t.logical_canal, 0);
    assert!(t.contenu_segment.is_empty());
    assert_eq!(t.freq, 0);
    assert_eq!(t.length, 0);
    assert_eq!(t.sub_type, 0);
    assert_eq!(t.fn_id, None);
    assert_eq!(t.localisation, None);
    assert!(before.millis <= t.date.millis && t.date.millis <= after.millis);
    assert!(before.millis > 1_500_000_000_000);
}

#[test]
fn repeated_transform_differs_only_in_fallback_dates() {
    let make = || {
        doc(vec![
            object(vec![entry("heure", date(42)), entry("longueur", VoidValue::Int(9))]),
            object(vec![entry("contenuSegment", bytes(&[("0", 1), ("1", 2)]))]),
        ])
    };
    let a = transform_with_now(&make(), Timestamp { millis: 10 }).unwrap();
    let b = transform_with_now(&make(), Timestamp { millis: 20 }).unwrap();
    assert_eq!(a.len(), b.len());
    assert_eq!(a[0].date, b[0].date);
    assert_eq!(a[0].date.millis, 42);
    assert_eq!(a[1].date.millis, 10);
    assert_eq!(b[1].date.millis, 20);
    for (x, y) in a.iter().zip(b.iter()) {
        assert_eq!(x.contenu_segment, y.contenu_segment);
        assert_eq!(x.length, y.length);
        assert_eq!(x.logical_canal, y.logical_canal);
        assert_eq!(x.fn_id, y.fn_id);
        assert_eq!(x.sub_type, y.sub_type);
    }
    let c = transform_to_trame(make()).unwrap();
    let e = transform_to_trame(make()).unwrap();
    assert_eq!(c[0].date, e[0].date);
    assert_eq!(c[1].contenu_segment, e[1].contenu_segment);
}

#[test]
fn last_canal_entry_wins() {
    let d = doc(vec![object(vec![
        entry("canal_Logique", VoidValue::Int(3)),
        entry("canal_Logique", VoidValue::Int(7)),
    ])]);
    assert_eq!(transform_with_now(&d, NOW).unwrap()[0].logical_canal, 7);
}

#[test]
fn canal_without_integer_keeps_earlier_value() {
    let d = doc(vec![object(vec![
        entry("canal_Logique", VoidValue::Int(3)),
        entry("canal_Logique", VoidValue::Absent),
    ])]);
    assert_eq!(transform_with_now(&d, NOW).unwrap()[0].logical_canal, 3);
}

#[test]
fn array_bytes_in_document_order() {
    // Index labels are not consulted: the bytes come out as the document lists them.
    let d = doc(vec![object(vec![entry("contenuSegment", bytes(&[("1", 10), ("0", 20)]))])]);
    assert_eq!(transform_with_now(&d, NOW).unwrap()[0].contenu_segment, vec![10u8, 20u8]);
}

#[test]
fn array_bytes_read_as_unsigned_and_appended() {
    let d = doc(vec![object(vec![
        entry("contenuSegment", bytes(&[("0", -1), ("1", -128)])),
        entry("contenuSegment", bytes(&[("0", 5)])),
    ])]);
    assert_eq!(transform_with_now(&d, NOW).unwrap()[0].contenu_segment, vec![255u8, 128u8, 5u8]);
}

#[test]
fn array_without_entries_adds_nothing() {
    let arr = VoidValue::Array(JavaArray { class: None, length: Some(4), voids: None });
    let d = doc(vec![object(vec![entry("contenuSegment", arr)])]);
    assert!(transform_with_now(&d, NOW).unwrap()[0].contenu_segment.is_empty());
}

#[test]
fn heure_zero_is_epoch() {
    let d = doc(vec![object(vec![entry("heure", date(0))])]);
    assert_eq!(transform_with_now(&d, NOW).unwrap()[0].date, Timestamp { millis: 0 });
}

#[test]
fn heure_without_long_keeps_clock() {
    let d = doc(vec![object(vec![entry(
        "heure",
        VoidValue::Date(JavaDate { class: None, long: None }),
    )])]);
    assert_eq!(transform_with_now(&d, NOW).unwrap()[0].date, NOW);
}

#[test]
fn longueur_string_fails_whole_document() {
    let d = doc(vec![
        object(vec![entry("longueur", VoidValue::Int(4))]),
        object(vec![entry("longueur", VoidValue::Str("12".to_string()))]),
    ]);
    assert_eq!(
        transform_with_now(&d, NOW).err(),
        Some(TransformError::MissingLength { object: 1 })
    );
    let d2 = doc(vec![object(vec![entry("longueur", VoidValue::Str("12".to_string()))])]);
    assert!(transform_to_trame(d2).is_err());
}

#[test]
fn subtype_without_byte_fails() {
    let d = doc(vec![object(vec![entry("subType", VoidValue::Int(3))])]);
    assert_eq!(
        transform_with_now(&d, NOW).err(),
        Some(TransformError::MissingSubType { object: 0 })
    );
}

#[test]
fn length_and_subtype_read() {
    let d = doc(vec![object(vec![
        entry("longueur", VoidValue::Int(12)),
        entry("subType", VoidValue::Byte(-3)),
    ])]);
    let t = &transform_with_now(&d, NOW).unwrap()[0];
    assert_eq!(t.length, 12);
    assert_eq!(t.sub_type, -3);
}

#[test]
fn fn_id_follows_last_entry() {
    let d = doc(vec![
        object(vec![entry("FN", VoidValue::Long(77))]),
        object(vec![entry("FN", VoidValue::Long(77)), entry("FN", VoidValue::Absent)]),
    ]);
    let frames = transform_with_now(&d, NOW).unwrap();
    assert_eq!(frames[0].fn_id, Some(77));
    assert_eq!(frames[1].fn_id, None);
}

#[test]
fn unknown_and_miscased_properties_ignored() {
    let d = doc(vec![object(vec![
        entry("Longueur", VoidValue::Str("x".to_string())),
        entry("fn", VoidValue::Long(5)),
        entry("", VoidValue::Absent),
    ])]);
    let t = &transform_with_now(&d, NOW).unwrap()[0];
    assert_eq!(t.length, 0);
    assert_eq!(t.fn_id, None);
}

#[test]
fn property_names_classified_exactly() {
    assert_eq!(property_kind_of(&"FN".to_string()), PropertyKind::FnId);
    assert_eq!(property_kind_of(&"canal_Logique".to_string()), PropertyKind::LogicalCanal);
    assert_eq!(property_kind_of(&"contenuSegment".to_string()), PropertyKind::Segment);
    assert_eq!(property_kind_of(&"heure".to_string()), PropertyKind::Heure);
    assert_eq!(property_kind_of(&"longueur".to_string()), PropertyKind::Longueur);
    assert_eq!(property_kind_of(&"subType".to_string()), PropertyKind::SubType);
    assert_eq!(property_kind_of(&"heures".to_string()), PropertyKind::Ignored);
    assert_eq!(property_kind_of(&"F".to_string()), PropertyKind::Ignored);
}

#[test]
fn entry_with_two_payloads_rejected() {
    let r = JavaVoid::from_parts("x".to_string(), None, Some(1), None, None, Some(2), None);
    match r {
        Err(ParseError::AmbiguousValue { property }) => assert_eq!(property, "x"),
        _ => panic!("expected an ambiguous entry"),
    }
}

#[test]
fn entry_with_one_or_no_payload_accepted() {
    let v = JavaVoid::from_parts("canal_Logique".to_string(), None, Some(7), None, None, None, None)
        .ok()
        .unwrap();
    assert_eq!(v.property, "canal_Logique");
    assert!(matches!(v.value, VoidValue::Int(7)));
    let e = JavaVoid::from_parts("y".to_string(), None, None, None, None, None, None).ok().unwrap();
    assert!(matches!(e.value, VoidValue::Absent));
}
