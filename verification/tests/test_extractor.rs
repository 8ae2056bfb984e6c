use serde_datalog::backend::vector::{Backend, StringKeyBackend, SymbolId};
use serde_datalog::{
    DatalogExtractionError, DatalogExtractor, DatalogExtractorBackend, ElemId, ElemType,
};

fn text(e: &DatalogExtractionError) -> String {
    e.to_string()
}

#[test]
fn map_of_one_entry_gives_one_row_in_each_relation() {
    let mut extractor = DatalogExtractor::new(Backend::default());
    extractor.serialize_map().unwrap();
    extractor.serialize_str("test").unwrap();
    extractor.serialize_u64(10).unwrap();
    assert!(extractor.has_entry());
    extractor.serialize_value().unwrap();
    assert_eq!(extractor.end_parent().unwrap(), ElemId(1));
    let data = extractor.get_backend().get_data();

    assert_eq!(
        data.type_table,
        vec![(ElemId(1), SymbolId(4)), (ElemId(2), SymbolId(3)), (ElemId(3), SymbolId(2))]
    );
    assert_eq!(data.string_table, vec![(ElemId(2), SymbolId(14))]);
    assert_eq!(data.symbol_table[13], "test");
    assert_eq!(data.number_table, vec![(ElemId(3), 10)]);
    assert_eq!(data.map_table, vec![((ElemId(1), ElemId(2)), ElemId(3))]);
    assert!(data.bool_table.is_empty());
    assert!(data.seq_table.is_empty());
    assert!(data.tuple_table.is_empty());
}

#[test]
fn sequence_rows_come_in_the_order_of_the_items() {
    let mut extractor = DatalogExtractor::new(Backend::default());
    extractor.serialize_seq().unwrap();
    extractor.serialize_str("a").unwrap();
    extractor.serialize_tuple_or_seq_element(ElemType::Sequence).unwrap();
    extractor.serialize_str("b").unwrap();
    extractor.serialize_tuple_or_seq_element(ElemType::Sequence).unwrap();
    extractor.end_parent().unwrap();
    let data = extractor.get_backend().get_data();

    assert_eq!(
        data.type_table,
        vec![(ElemId(1), SymbolId(5)), (ElemId(2), SymbolId(3)), (ElemId(3), SymbolId(3))]
    );
    assert_eq!(data.string_table, vec![(ElemId(2), SymbolId(14)), (ElemId(3), SymbolId(15))]);
    assert_eq!(data.symbol_table[13], "a");
    assert_eq!(data.symbol_table[14], "b");
    assert_eq!(
        data.seq_table,
        vec![((ElemId(1), 0), ElemId(2)), ((ElemId(1), 1), ElemId(3))]
    );
}

#[test]
fn identifiers_increase_and_never_repeat() {
    let mut extractor = DatalogExtractor::new(Backend::default());
    extractor.serialize_tuple().unwrap();
    for value in 0..20u8 {
        if value % 3 == 0 {
            extractor.serialize_u8(value).unwrap();
            extractor.serialize_newtype_struct("Wrapped").unwrap();
        } else {
            extractor.serialize_bool(value % 2 == 0).unwrap();
        }
        extractor.serialize_tuple_or_seq_element(ElemType::Tuple).unwrap();
    }
    extractor.end_parent().unwrap();
    let data = extractor.get_backend().get_data();

    assert_eq!(data.type_table.len(), 1 + 20 + 7);
    for (at, row) in data.type_table.iter().enumerate() {
        assert_eq!(row.0, ElemId(at + 1));
    }
}

#[test]
fn floats_and_bytes_are_declined_without_a_trace() {
    let mut extractor = DatalogExtractor::new(Backend::default());
    extractor.serialize_seq().unwrap();
    extractor.serialize_str("kept").unwrap();
    extractor.serialize_tuple_or_seq_element(ElemType::Sequence).unwrap();

    let e = extractor.serialize_f32().unwrap_err();
    assert!(matches!(&e, DatalogExtractionError::UnextractableData(kind) if kind == "f32"));
    assert_eq!(text(&e), "unextractable data f32");
    let e = extractor.serialize_f64().unwrap_err();
    assert!(matches!(&e, DatalogExtractionError::UnextractableData(kind) if kind == "f64"));
    let e = extractor.serialize_bytes(&[1, 2, 3]).unwrap_err();
    assert!(matches!(&e, DatalogExtractionError::UnextractableData(kind) if kind == "bytes"));
    assert_eq!(text(&e), "unextractable data bytes");

    // No identifier was used up: the next element is the third.
    extractor.serialize_bool(true).unwrap();
    let data = extractor.get_backend().get_data();
    assert_eq!(
        data.type_table,
        vec![(ElemId(1), SymbolId(5)), (ElemId(2), SymbolId(3)), (ElemId(3), SymbolId(1))]
    );
    assert_eq!(data.string_table, vec![(ElemId(2), SymbolId(14))]);
    assert_eq!(data.seq_table, vec![((ElemId(1), 0), ElemId(2))]);
    assert_eq!(data.bool_table, vec![(ElemId(3), true)]);
    assert_eq!(data.symbol_table.len(), 14);
}

#[test]
fn string_key_backend_declines_floats_and_bytes_too() {
    let mut extractor = DatalogExtractor::new(StringKeyBackend::default());
    assert!(matches!(
        extractor.serialize_f64(),
        Err(DatalogExtractionError::UnextractableData(kind)) if kind == "f64"
    ));
    assert!(matches!(
        extractor.serialize_bytes(&[]),
        Err(DatalogExtractionError::UnextractableData(kind)) if kind == "bytes"
    ));
    let data = extractor.get_backend().get_data();
    assert!(data.type_table.is_empty());
    assert_eq!(data.symbol_table.len(), 13);
}

#[test]
fn wrapper_follows_its_child_and_container_precedes_its_children() {
    let mut extractor = DatalogExtractor::new(Backend::default());
    extractor.serialize_u8(5).unwrap();
    assert!(extractor.has_child());
    extractor.serialize_newtype_struct("Meters").unwrap();
    extractor.serialize_tuple_struct("Pair").unwrap();
    extractor.serialize_i16(-1).unwrap();
    extractor.serialize_tuple_or_seq_element(ElemType::TupleStruct).unwrap();
    extractor.serialize_none().unwrap();
    extractor.serialize_some().unwrap();
    extractor.serialize_tuple_or_seq_element(ElemType::TupleStruct).unwrap();
    extractor.end_parent().unwrap();
    let data = extractor.get_backend().get_data();

    assert_eq!(
        data.type_table,
        vec![
            (ElemId(1), SymbolId(2)),
            (ElemId(2), SymbolId(9)),
            (ElemId(3), SymbolId(9)),
            (ElemId(4), SymbolId(2)),
            (ElemId(5), SymbolId(13)),
            (ElemId(6), SymbolId(10)),
        ]
    );
    assert_eq!(
        data.tuple_table,
        vec![
            ((ElemId(2), 0), ElemId(1)),
            ((ElemId(3), 0), ElemId(4)),
            ((ElemId(6), 0), ElemId(5)),
            ((ElemId(3), 1), ElemId(6)),
        ]
    );
    assert_eq!(data.number_table, vec![(ElemId(1), 5), (ElemId(4), -1)]);
    // "Meters", "Pair", "Option", "None", "Some"
    assert_eq!(&data.symbol_table[13..], ["Meters", "Pair", "Option", "None", "Some"]);
    assert_eq!(
        data.struct_type_table,
        vec![(ElemId(2), SymbolId(14)), (ElemId(3), SymbolId(15))]
    );
    assert_eq!(
        data.variant_type_table,
        vec![
            (ElemId(5), (SymbolId(16), SymbolId(17))),
            (ElemId(6), (SymbolId(16), SymbolId(18))),
        ]
    );
}

#[test]
fn struct_fields_are_keyed_by_their_names() {
    let mut extractor = DatalogExtractor::new(Backend::default());
    extractor.serialize_struct("Point").unwrap();
    extractor.serialize_i32(3).unwrap();
    extractor.serialize_struct_element("x").unwrap();
    extractor.serialize_i32(4).unwrap();
    extractor.serialize_struct_element("y").unwrap();
    extractor.end_parent().unwrap();
    extractor.serialize_struct_variant("Shape", "Circle").unwrap();
    extractor.serialize_u32(1).unwrap();
    extractor.serialize_struct_element("x").unwrap();
    extractor.end_parent().unwrap();
    extractor.serialize_unit().unwrap();
    extractor.serialize_unit_struct("Nothing").unwrap();
    extractor.serialize_unit_variant("Color", "Red").unwrap();
    extractor.serialize_tuple_variant("Shape", "Line").unwrap();
    extractor.end_parent().unwrap();
    let data = extractor.get_backend().get_data();

    assert_eq!(
        data.type_table,
        vec![
            (ElemId(1), SymbolId(6)),
            (ElemId(2), SymbolId(2)),
            (ElemId(3), SymbolId(2)),
            (ElemId(4), SymbolId(7)),
            (ElemId(5), SymbolId(2)),
            (ElemId(6), SymbolId(11)),
            (ElemId(7), SymbolId(12)),
            (ElemId(8), SymbolId(13)),
            (ElemId(9), SymbolId(10)),
        ]
    );
    assert_eq!(
        &data.symbol_table[13..],
        ["Point", "x", "y", "Shape", "Circle", "Nothing", "Color", "Red", "Line"]
    );
    assert_eq!(
        data.struct_table,
        vec![
            ((ElemId(1), SymbolId(15)), ElemId(2)),
            ((ElemId(1), SymbolId(16)), ElemId(3)),
            ((ElemId(4), SymbolId(15)), ElemId(5)),
        ]
    );
    assert_eq!(
        data.struct_type_table,
        vec![(ElemId(1), SymbolId(14)), (ElemId(7), SymbolId(19))]
    );
    assert_eq!(
        data.variant_type_table,
        vec![
            (ElemId(4), (SymbolId(17), SymbolId(18))),
            (ElemId(8), (SymbolId(20), SymbolId(21))),
            (ElemId(9), (SymbolId(17), SymbolId(22))),
        ]
    );
}

#[test]
fn pending_file_gets_the_next_element_as_its_root() {
    let mut extractor = DatalogExtractor::new(Backend::default());
    extractor.set_file("a.json").unwrap();
    extractor.serialize_map().unwrap();
    extractor.serialize_str("k").unwrap();
    extractor.serialize_bool(false).unwrap();
    extractor.serialize_value().unwrap();
    extractor.end_parent().unwrap();
    extractor.set_file("b.json").unwrap();
    extractor.serialize_unit().unwrap();
    let data = extractor.get_backend().get_data();

    assert_eq!(&data.symbol_table[13..], ["a.json", "k", "b.json"]);
    assert_eq!(
        data.root_elem_table,
        vec![(SymbolId(14), ElemId(1)), (SymbolId(16), ElemId(4))]
    );
}

#[test]
fn second_root_for_a_file_is_refused() {
    let mut extractor = DatalogExtractor::new(Backend::default());
    extractor.set_file("a.json").unwrap();
    extractor.serialize_unit().unwrap();
    extractor.set_file("a.json").unwrap();
    let e = extractor.serialize_unit().unwrap_err();
    assert!(matches!(&e, DatalogExtractionError::NonuniqueRootElement(file) if file == "a.json"));
    assert_eq!(text(&e), "multiple root elements for a.json");
    let data = extractor.get_backend().get_data();
    // The element was made before its file was found to have a root.
    assert_eq!(data.type_table.len(), 2);
    assert_eq!(data.root_elem_table, vec![(SymbolId(14), ElemId(1))]);
}

#[test]
fn unsigned_number_beyond_the_signed_range_is_refused() {
    let mut extractor = DatalogExtractor::new(Backend::default());
    extractor.serialize_u64(9_223_372_036_854_775_807).unwrap();
    let e = extractor.serialize_u64(9_223_372_036_854_775_808).unwrap_err();
    assert!(matches!(e, DatalogExtractionError::IntegerCastOverflow(9_223_372_036_854_775_808)));
    assert_eq!(
        text(&e),
        "could not coerce unsigned int 9223372036854775808 to signed int"
    );
    let e = extractor.serialize_u64(u64::MAX).unwrap_err();
    assert_eq!(
        text(&e),
        "could not coerce unsigned int 18446744073709551615 to signed int"
    );
    let data = extractor.get_backend().get_data();
    assert_eq!(data.number_table, vec![(ElemId(1), i64::MAX)]);
    // The elements were made; only their values were refused.
    assert_eq!(data.type_table.len(), 3);
}

#[test]
fn narrow_integers_widen_and_characters_become_strings() {
    let mut extractor = DatalogExtractor::new(Backend::default());
    extractor.serialize_i8(-8).unwrap();
    extractor.serialize_i16(-16).unwrap();
    extractor.serialize_i32(-32).unwrap();
    extractor.serialize_i64(i64::MIN).unwrap();
    extractor.serialize_u8(8).unwrap();
    extractor.serialize_u16(16).unwrap();
    extractor.serialize_u32(32).unwrap();
    extractor.serialize_char('x').unwrap();
    extractor.serialize_str("x").unwrap();
    extractor.serialize_char('é').unwrap();
    let data = extractor.get_backend().get_data();
    assert_eq!(
        data.number_table,
        vec![
            (ElemId(1), -8),
            (ElemId(2), -16),
            (ElemId(3), -32),
            (ElemId(4), i64::MIN),
            (ElemId(5), 8),
            (ElemId(6), 16),
            (ElemId(7), 32),
        ]
    );
    assert_eq!(&data.symbol_table[13..], ["x", "é"]);
    assert_eq!(
        data.string_table,
        vec![(ElemId(8), SymbolId(14)), (ElemId(9), SymbolId(14)), (ElemId(10), SymbolId(15))]
    );
}

#[test]
fn backend_defaults_widen_narrow_values() {
    let mut backend = Backend::default();
    backend.add_i8(ElemId(1), -1).unwrap();
    backend.add_u16(ElemId(2), 65535).unwrap();
    backend.add_char(ElemId(3), 'q').unwrap();
    let data = backend.get_data();
    assert_eq!(data.number_table, vec![(ElemId(1), -1), (ElemId(2), 65535)]);
    assert_eq!(data.symbol_table[13], "q");
    assert_eq!(data.string_table, vec![(ElemId(3), SymbolId(14))]);
}

#[test]
fn state_queries_follow_the_walk() {
    let mut extractor = DatalogExtractor::new(Backend::default());
    assert!(extractor.can_allocate());
    assert!(!extractor.in_container());
    assert!(!extractor.has_child());
    extractor.serialize_map().unwrap();
    assert!(extractor.in_container());
    // The map itself is on the element stack, but it is no child of itself.
    assert!(!extractor.has_child());
    assert!(!extractor.has_entry());
    extractor.serialize_unit().unwrap();
    assert!(extractor.has_child());
    assert!(!extractor.has_entry());
    extractor.serialize_unit().unwrap();
    assert!(extractor.has_entry());
    extractor.serialize_value().unwrap();
    assert!(!extractor.has_child());
    extractor.end_parent().unwrap();
    assert!(!extractor.in_container());
    assert!(extractor.has_child());
}
