use serde_datalog::backend::souffle_sqlite;
use serde_datalog::backend::vector::{Backend, StringKeyBackend, SymbolId};
use serde_datalog::{
    DatalogExtractionError, DatalogExtractor, DatalogExtractorBackend, ElemId, ElemType,
};

#[test]
fn new_backend_holds_the_vocabulary_and_nothing_else() {
    let data = Backend::default().get_data();
    assert_eq!(
        data.symbol_table,
        [
            "Bool",
            "Number",
            "Str",
            "Map",
            "Seq",
            "Struct",
            "StructVariant",
            "Tuple",
            "TupleStruct",
            "TupleVariant",
            "Unit",
            "UnitStruct",
            "UnitVariant",
        ]
    );
    assert!(data.type_table.is_empty());
    assert!(data.root_elem_table.is_empty());
    assert!(data.bool_table.is_empty());
    assert!(data.number_table.is_empty());
    assert!(data.string_table.is_empty());
    assert!(data.map_table.is_empty());
    assert!(data.struct_type_table.is_empty());
    assert!(data.struct_table.is_empty());
    assert!(data.seq_table.is_empty());
    assert!(data.variant_type_table.is_empty());
    assert!(data.tuple_table.is_empty());
}

#[test]
fn every_shape_is_filed_under_its_type() {
    let shapes = [
        (ElemType::Bool, 1),
        (ElemType::I8, 2),
        (ElemType::I16, 2),
        (ElemType::I32, 2),
        (ElemType::I64, 2),
        (ElemType::U8, 2),
        (ElemType::U16, 2),
        (ElemType::U32, 2),
        (ElemType::U64, 2),
        (ElemType::Char, 3),
        (ElemType::Str, 3),
        (ElemType::Mapping, 4),
        (ElemType::Sequence, 5),
        (ElemType::Struct, 6),
        (ElemType::StructVariant, 7),
        (ElemType::Tuple, 8),
        (ElemType::TupleStruct, 9),
        (ElemType::NewtypeStruct, 9),
        (ElemType::TupleVariant, 10),
        (ElemType::NewtypeVariant, 10),
        (ElemType::Unit, 11),
        (ElemType::UnitStruct, 12),
        (ElemType::UnitVariant, 13),
    ];
    let mut backend = Backend::default();
    for (at, (shape, _)) in shapes.iter().enumerate() {
        backend.add_elem(ElemId(at + 1), *shape).unwrap();
    }
    for (shape, kind) in [(ElemType::F32, "f32"), (ElemType::F64, "f64"), (ElemType::Bytes, "bytes")]
    {
        assert!(matches!(
            backend.add_elem(ElemId(100), shape),
            Err(DatalogExtractionError::UnextractableData(name)) if name == kind
        ));
    }
    let data = backend.get_data();
    assert_eq!(data.symbol_table.len(), 13);
    assert_eq!(data.type_table.len(), shapes.len());
    for (at, (_, symbol)) in shapes.iter().enumerate() {
        assert_eq!(data.type_table[at], (ElemId(at + 1), SymbolId(*symbol)));
    }
}

#[test]
fn interning_a_string_twice_gives_one_symbol() {
    let mut backend = Backend::default();
    backend.add_str(ElemId(1), "dup").unwrap();
    backend.add_str(ElemId(2), "other").unwrap();
    backend.add_str(ElemId(3), "dup").unwrap();
    backend.add_struct_type(ElemId(4), "dup").unwrap();
    backend.add_str(ElemId(5), "Bool").unwrap();
    let data = backend.get_data();
    assert_eq!(
        data.string_table,
        vec![
            (ElemId(1), SymbolId(14)),
            (ElemId(2), SymbolId(15)),
            (ElemId(3), SymbolId(14)),
            (ElemId(5), SymbolId(1)),
        ]
    );
    assert_eq!(data.struct_type_table, vec![(ElemId(4), SymbolId(14))]);
    assert_eq!(&data.symbol_table[13..], ["dup", "other"]);
}

#[test]
fn a_second_fact_under_the_same_key_is_refused() {
    let mut backend = Backend::default();
    backend.add_elem(ElemId(1), ElemType::Bool).unwrap();
    assert!(matches!(
        backend.add_elem(ElemId(1), ElemType::Str),
        Err(DatalogExtractionError::NonuniqueIdentifier(ElemId(1)))
    ));
    backend.add_bool(ElemId(1), true).unwrap();
    let e = backend.add_bool(ElemId(1), false).unwrap_err();
    assert!(matches!(e, DatalogExtractionError::NonuniqueIdentifier(ElemId(1))));
    assert_eq!(e.to_string(), "multiple elements associated with identifier 1");
    backend.add_i64(ElemId(2), 1).unwrap();
    assert!(backend.add_u64(ElemId(2), 1).is_err());
    backend.add_str(ElemId(3), "s").unwrap();
    assert!(backend.add_str(ElemId(3), "t").is_err());
    backend.add_struct_type(ElemId(4), "S").unwrap();
    assert!(backend.add_struct_type(ElemId(4), "T").is_err());
    backend.add_variant_type(ElemId(5), "E", "V").unwrap();
    assert!(backend.add_variant_type(ElemId(5), "F", "W").is_err());
    backend.add_struct_entry(ElemId(4), "x", ElemId(1)).unwrap();
    backend.add_struct_entry(ElemId(4), "y", ElemId(1)).unwrap();
    assert!(backend.add_struct_entry(ElemId(4), "x", ElemId(2)).is_err());
    backend.add_seq_entry(ElemId(6), 0, ElemId(1)).unwrap();
    backend.add_seq_entry(ElemId(6), 1, ElemId(1)).unwrap();
    assert!(backend.add_seq_entry(ElemId(6), 0, ElemId(2)).is_err());
    backend.add_tuple_entry(ElemId(6), 0, ElemId(1)).unwrap();
    assert!(backend.add_tuple_entry(ElemId(6), 0, ElemId(2)).is_err());
    backend.add_map_entry(ElemId(7), ElemId(1), ElemId(2)).unwrap();
    backend.add_map_entry(ElemId(7), ElemId(2), ElemId(2)).unwrap();
    assert!(backend.add_map_entry(ElemId(7), ElemId(1), ElemId(3)).is_err());
    backend.add_root_elem("f", ElemId(1)).unwrap();
    assert!(matches!(
        backend.add_root_elem("f", ElemId(2)),
        Err(DatalogExtractionError::NonuniqueRootElement(file)) if file == "f"
    ));

    let data = backend.get_data();
    // Nothing of a refused fact is kept, not even the strings it named.
    assert_eq!(&data.symbol_table[13..], ["s", "S", "E", "V", "x", "y", "f"]);
    assert_eq!(data.type_table, vec![(ElemId(1), SymbolId(1))]);
    assert_eq!(data.bool_table, vec![(ElemId(1), true)]);
    assert_eq!(data.number_table, vec![(ElemId(2), 1)]);
    assert_eq!(data.struct_table.len(), 2);
    assert_eq!(data.seq_table.len(), 2);
    assert_eq!(data.tuple_table.len(), 1);
    assert_eq!(data.map_table.len(), 2);
    assert_eq!(data.root_elem_table.len(), 1);
}

#[test]
fn string_keys_move_from_the_string_relation_into_the_map() {
    let mut extractor = DatalogExtractor::new(StringKeyBackend::default());
    extractor.serialize_map().unwrap();
    extractor.serialize_str("k").unwrap();
    extractor.serialize_str("v").unwrap();
    extractor.serialize_value().unwrap();
    extractor.serialize_str("l").unwrap();
    extractor.serialize_u8(1).unwrap();
    extractor.serialize_value().unwrap();
    extractor.end_parent().unwrap();
    let data = extractor.get_backend().get_data();
    assert_eq!(&data.symbol_table[13..], ["k", "v", "l"]);
    assert_eq!(
        data.map_table,
        vec![((ElemId(1), SymbolId(14)), ElemId(3)), ((ElemId(1), SymbolId(16)), ElemId(5))]
    );
    assert_eq!(data.string_table, vec![(ElemId(3), SymbolId(15))]);
    // The keys are still elements of the type of strings.
    assert_eq!(data.type_table.len(), 5);
}

#[test]
fn string_key_backend_refuses_other_keys() {
    let mut extractor = DatalogExtractor::new(StringKeyBackend::default());
    extractor.serialize_map().unwrap();
    extractor.serialize_u8(1).unwrap();
    extractor.serialize_u8(2).unwrap();
    let e = extractor.serialize_value().unwrap_err();
    assert!(matches!(&e, DatalogExtractionError::UnextractableData(kind) if kind == "map key"));
    assert_eq!(e.to_string(), "unextractable data map key");
    let data = extractor.get_backend().get_data();
    assert!(data.map_table.is_empty());
    assert_eq!(data.number_table.len(), 2);
}

#[test]
fn string_key_backend_refuses_a_key_twice_in_one_map() {
    let mut backend = StringKeyBackend::default();
    backend.add_str(ElemId(2), "k").unwrap();
    backend.add_str(ElemId(4), "k").unwrap();
    backend.add_map_entry(ElemId(1), ElemId(2), ElemId(3)).unwrap();
    assert!(matches!(
        backend.add_map_entry(ElemId(1), ElemId(4), ElemId(5)),
        Err(DatalogExtractionError::NonuniqueIdentifier(ElemId(1)))
    ));
    let data = backend.get_data();
    assert_eq!(data.map_table, vec![((ElemId(1), SymbolId(14)), ElemId(3))]);
    // The key of the refused entry stays a string.
    assert_eq!(data.string_table, vec![(ElemId(4), SymbolId(14))]);
}

#[test]
fn errors_say_what_went_wrong() {
    assert_eq!(
        DatalogExtractionError::UnextractableData("seq entry".to_string()).to_string(),
        "unextractable data seq entry"
    );
    assert_eq!(
        DatalogExtractionError::NonuniqueRootElement("/tmp/x.json".to_string()).to_string(),
        "multiple root elements for /tmp/x.json"
    );
    assert_eq!(
        DatalogExtractionError::NonuniqueIdentifier(ElemId(0)).to_string(),
        "multiple elements associated with identifier 0"
    );
    assert_eq!(
        DatalogExtractionError::NonuniqueIdentifier(ElemId(1234567890)).to_string(),
        "multiple elements associated with identifier 1234567890"
    );
    assert_eq!(
        DatalogExtractionError::IntegerCastOverflow(10).to_string(),
        "could not coerce unsigned int 10 to signed int"
    );
    assert_eq!(DatalogExtractionError::Custom("boom".to_string()).to_string(), "boom");
    assert!(matches!(
        DatalogExtractionError::unextractable("bool"),
        DatalogExtractionError::UnextractableData(kind) if kind == "bool"
    ));
}

#[test]
fn relational_backends_hold_what_the_in_memory_backends_hold() {
    fn walk<B: DatalogExtractorBackend>(backend: B) -> B {
        let mut extractor = DatalogExtractor::new(backend);
        extractor.set_file("in.json").unwrap();
        extractor.serialize_map().unwrap();
        extractor.serialize_str("k").unwrap();
        extractor.serialize_seq().unwrap();
        extractor.serialize_bool(true).unwrap();
        extractor.serialize_tuple_or_seq_element(ElemType::Sequence).unwrap();
        extractor.serialize_i64(-3).unwrap();
        extractor.serialize_newtype_variant("E", "V").unwrap();
        extractor.serialize_tuple_or_seq_element(ElemType::Sequence).unwrap();
        extractor.end_parent().unwrap();
        extractor.serialize_value().unwrap();
        extractor.end_parent().unwrap();
        extractor.get_backend()
    }
    let memory = walk(Backend::default()).get_data();
    let relational = walk(souffle_sqlite::Backend::default()).get_data();
    assert_eq!(memory.symbol_table, relational.symbol_table);
    assert_eq!(memory.root_elem_table, relational.root_elem_table);
    assert_eq!(memory.type_table, relational.type_table);
    assert_eq!(memory.bool_table, relational.bool_table);
    assert_eq!(memory.number_table, relational.number_table);
    assert_eq!(memory.string_table, relational.string_table);
    assert_eq!(memory.map_table, relational.map_table);
    assert_eq!(memory.seq_table, relational.seq_table);
    assert_eq!(memory.tuple_table, relational.tuple_table);
    assert_eq!(memory.variant_type_table, relational.variant_type_table);
    assert_eq!(memory.map_table, vec![((ElemId(1), ElemId(2)), ElemId(3))]);

    let memory = walk(StringKeyBackend::default()).get_data();
    let relational = walk(souffle_sqlite::StringKeyBackend::default()).get_data();
    assert_eq!(memory.type_table, relational.type_table);
    assert_eq!(memory.string_table, relational.string_table);
    assert_eq!(memory.map_table, relational.map_table);
    assert_eq!(memory.map_table, vec![((ElemId(1), SymbolId(15)), ElemId(3))]);
    assert!(memory.string_table.is_empty());
}
