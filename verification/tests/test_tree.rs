use serde_datalog::backend::vector::{Backend, BackendData, SymbolId};
use serde_datalog::value::{Scalar, TypeName, Value};
use serde_datalog::{DatalogExtractionError, DatalogExtractor, ElemId};

fn text(s: &str) -> Value {
    Value::Scalar(Scalar::Str(s.to_string()))
}

fn extract(value: &Value) -> (Result<(), DatalogExtractionError>, BackendData<ElemId>) {
    let mut extractor = DatalogExtractor::new(Backend::default());
    let res = extractor.extract(value);
    (res, extractor.get_backend().get_data())
}

fn rows_of_type(data: &BackendData<ElemId>, symbol: usize) -> usize {
    data.type_table.iter().filter(|row| row.1 == SymbolId(symbol)).count()
}

fn nested() -> Value {
    Value::Struct(
        TypeName::Struct("S".to_string()),
        vec![
            ("a".to_string(), Value::Scalar(Scalar::Bool(true))),
            (
                "b".to_string(),
                Value::Sequence(vec![
                    Value::Scalar(Scalar::I64(1)),
                    text("x"),
                    Value::Unit(None),
                ]),
            ),
            (
                "c".to_string(),
                Value::Newtype(
                    TypeName::Variant("E".to_string(), "V".to_string()),
                    Box::new(Value::Scalar(Scalar::Char('c'))),
                ),
            ),
            (
                "d".to_string(),
                Value::Mapping(vec![(text("k"), Value::Scalar(Scalar::U8(1)))]),
            ),
        ],
    )
}

#[test]
fn tree_is_walked_depth_first() {
    let (res, data) = extract(&nested());
    assert!(res.is_ok());
    assert_eq!(
        data.type_table,
        vec![
            (ElemId(1), SymbolId(6)),
            (ElemId(2), SymbolId(1)),
            (ElemId(3), SymbolId(5)),
            (ElemId(4), SymbolId(2)),
            (ElemId(5), SymbolId(3)),
            (ElemId(6), SymbolId(11)),
            (ElemId(7), SymbolId(3)),
            (ElemId(8), SymbolId(10)),
            (ElemId(9), SymbolId(4)),
            (ElemId(10), SymbolId(3)),
            (ElemId(11), SymbolId(2)),
        ]
    );
    assert_eq!(&data.symbol_table[13..], ["S", "a", "x", "b", "c", "E", "V", "k", "d"]);
    assert_eq!(
        data.struct_table,
        vec![
            ((ElemId(1), SymbolId(15)), ElemId(2)),
            ((ElemId(1), SymbolId(17)), ElemId(3)),
            ((ElemId(1), SymbolId(18)), ElemId(8)),
            ((ElemId(1), SymbolId(22)), ElemId(9)),
        ]
    );
    assert_eq!(
        data.seq_table,
        vec![
            ((ElemId(3), 0), ElemId(4)),
            ((ElemId(3), 1), ElemId(5)),
            ((ElemId(3), 2), ElemId(6)),
        ]
    );
    assert_eq!(data.tuple_table, vec![((ElemId(8), 0), ElemId(7))]);
    assert_eq!(data.map_table, vec![((ElemId(9), ElemId(10)), ElemId(11))]);
    assert_eq!(data.bool_table, vec![(ElemId(2), true)]);
    assert_eq!(data.number_table, vec![(ElemId(4), 1), (ElemId(11), 1)]);
    assert_eq!(
        data.string_table,
        vec![(ElemId(5), SymbolId(16)), (ElemId(7), SymbolId(18)), (ElemId(10), SymbolId(21))]
    );
    assert_eq!(data.struct_type_table, vec![(ElemId(1), SymbolId(14))]);
    assert_eq!(data.variant_type_table, vec![(ElemId(8), (SymbolId(19), SymbolId(20)))]);
}

#[test]
fn type_facts_are_as_many_as_the_facts_of_each_kind_together() {
    let (res, data) = extract(&nested());
    assert!(res.is_ok());
    assert_eq!(data.type_table.len(), 11);
    assert_eq!(rows_of_type(&data, 1), data.bool_table.len());
    assert_eq!(rows_of_type(&data, 2), data.number_table.len());
    assert_eq!(rows_of_type(&data, 3), data.string_table.len());
    let containers: usize = (4..=13).map(|symbol| rows_of_type(&data, symbol)).sum();
    assert_eq!(containers, 5);
    assert_eq!(
        data.type_table.len(),
        data.bool_table.len() + data.number_table.len() + data.string_table.len() + containers
    );
    assert_eq!(data.bool_table.len(), 1);
    assert_eq!(data.number_table.len(), 2);
    assert_eq!(data.string_table.len(), 3);
    assert_eq!(rows_of_type(&data, 4), 1);
    assert_eq!(rows_of_type(&data, 5), 1);
    assert_eq!(rows_of_type(&data, 6), 1);
    assert_eq!(rows_of_type(&data, 10), 1);
    assert_eq!(rows_of_type(&data, 11), 1);
}

#[test]
fn walk_stops_at_the_first_error_and_keeps_what_came_before() {
    let value = Value::Sequence(vec![
        text("a"),
        Value::Scalar(Scalar::F64),
        text("never reached"),
    ]);
    let (res, data) = extract(&value);
    assert!(matches!(
        res,
        Err(DatalogExtractionError::UnextractableData(kind)) if kind == "f64"
    ));
    assert_eq!(data.type_table, vec![(ElemId(1), SymbolId(5)), (ElemId(2), SymbolId(3))]);
    assert_eq!(data.seq_table, vec![((ElemId(1), 0), ElemId(2))]);
    assert_eq!(&data.symbol_table[13..], ["a"]);
}

#[test]
fn floats_and_bytes_at_the_root_leave_nothing() {
    for (scalar, kind) in [
        (Scalar::F32, "f32"),
        (Scalar::F64, "f64"),
        (Scalar::Bytes(vec![0, 1]), "bytes"),
    ] {
        let (res, data) = extract(&Value::Scalar(scalar));
        assert!(matches!(
            res,
            Err(DatalogExtractionError::UnextractableData(name)) if name == kind
        ));
        assert!(data.type_table.is_empty());
        assert_eq!(data.symbol_table.len(), 13);
    }
}

#[test]
fn tuples_and_units_carry_their_names() {
    let value = Value::Tuple(
        Some(TypeName::Variant("Shape".to_string(), "Line".to_string())),
        vec![
            Value::Tuple(None, vec![Value::Scalar(Scalar::I8(-1)), Value::Scalar(Scalar::U32(2))]),
            Value::Tuple(Some(TypeName::Struct("Pair".to_string())), vec![]),
            Value::Unit(Some(TypeName::Struct("Nothing".to_string()))),
            Value::Unit(Some(TypeName::Variant("Option".to_string(), "None".to_string()))),
            Value::Struct(TypeName::Variant("Shape".to_string(), "Dot".to_string()), vec![]),
            Value::Newtype(TypeName::Struct("Meters".to_string()), Box::new(Value::Unit(None))),
        ],
    );
    let (res, data) = extract(&value);
    assert!(res.is_ok());
    assert_eq!(
        data.type_table,
        vec![
            (ElemId(1), SymbolId(10)),
            (ElemId(2), SymbolId(8)),
            (ElemId(3), SymbolId(2)),
            (ElemId(4), SymbolId(2)),
            (ElemId(5), SymbolId(9)),
            (ElemId(6), SymbolId(12)),
            (ElemId(7), SymbolId(13)),
            (ElemId(8), SymbolId(7)),
            (ElemId(9), SymbolId(11)),
            (ElemId(10), SymbolId(9)),
        ]
    );
    assert_eq!(
        data.tuple_table,
        vec![
            ((ElemId(2), 0), ElemId(3)),
            ((ElemId(2), 1), ElemId(4)),
            ((ElemId(1), 0), ElemId(2)),
            ((ElemId(1), 1), ElemId(5)),
            ((ElemId(1), 2), ElemId(6)),
            ((ElemId(1), 3), ElemId(7)),
            ((ElemId(1), 4), ElemId(8)),
            ((ElemId(10), 0), ElemId(9)),
            ((ElemId(1), 5), ElemId(10)),
        ]
    );
    assert_eq!(
        &data.symbol_table[13..],
        ["Shape", "Line", "Pair", "Nothing", "Option", "None", "Dot", "Meters"]
    );
}

#[test]
fn two_values_in_one_run_share_identifiers_and_symbols() {
    let mut extractor = DatalogExtractor::new(Backend::default());
    extractor.set_file("one").unwrap();
    extractor.extract(&text("same")).unwrap();
    extractor.set_file("two").unwrap();
    extractor.extract(&Value::Sequence(vec![text("same")])).unwrap();
    let data = extractor.get_backend().get_data();
    assert_eq!(&data.symbol_table[13..], ["one", "same", "two"]);
    assert_eq!(
        data.root_elem_table,
        vec![(SymbolId(14), ElemId(1)), (SymbolId(16), ElemId(2))]
    );
    assert_eq!(data.string_table, vec![(ElemId(1), SymbolId(15)), (ElemId(3), SymbolId(15))]);
}

#[test]
fn links_follow_the_order_in_which_elements_were_made() {
    let (res, data) = extract(&nested());
    assert!(res.is_ok());
    for (at, row) in data.type_table.iter().enumerate() {
        assert_eq!(row.0, ElemId(at + 1));
    }
    for ((parent, _), child) in data.seq_table.iter() {
        assert!(parent.0 < child.0);
    }
    for ((parent, _), child) in data.struct_table.iter() {
        assert!(parent.0 < child.0);
    }
    for ((parent, key), value) in data.map_table.iter() {
        assert!(parent.0 < key.0 && key.0 < value.0);
    }
    // The one row of the tuple relation is that of the wrapper.
    for ((parent, pos), child) in data.tuple_table.iter() {
        assert!(child.0 < parent.0 && *pos == 0);
    }
    // Every element of a row has its type.
    let typed = |elem: &ElemId| data.type_table.iter().any(|row| row.0 == *elem);
    assert!(data.struct_table.iter().all(|((parent, _), child)| typed(parent) && typed(child)));
    assert!(data.seq_table.iter().all(|((parent, _), child)| typed(parent) && typed(child)));
    assert!(data
        .map_table
        .iter()
        .all(|((parent, key), value)| typed(parent) && typed(key) && typed(value)));
    assert!(data.bool_table.iter().all(|(elem, _)| typed(elem)));
    assert!(data.number_table.iter().all(|(elem, _)| typed(elem)));
    assert!(data.string_table.iter().all(|(elem, _)| typed(elem)));
}

#[test]
fn deep_nesting_keeps_every_link() {
    let depth = 200;
    let mut value = Value::Unit(None);
    for _ in 0..depth {
        value = Value::Sequence(vec![value]);
    }
    let (res, data) = extract(&value);
    assert!(res.is_ok());
    assert_eq!(data.type_table.len(), depth + 1);
    assert_eq!(data.seq_table.len(), depth);
    for (at, row) in data.seq_table.iter().enumerate() {
        // The innermost sequence is linked first.
        let parent = depth - at;
        assert_eq!(*row, ((ElemId(parent), 0), ElemId(parent + 1)));
    }
}

#[test]
fn wide_containers_count_their_children_from_zero() {
    let width = 500;
    let items: Vec<Value> = (0..width).map(|n| Value::Scalar(Scalar::U64(n as u64))).collect();
    let (res, data) = extract(&Value::Tuple(None, items));
    assert!(res.is_ok());
    assert_eq!(data.tuple_table.len(), width);
    for (at, row) in data.tuple_table.iter().enumerate() {
        assert_eq!(*row, ((ElemId(1), at), ElemId(at + 2)));
    }
    assert_eq!(data.number_table.len(), width);
    assert_eq!(data.number_table[width - 1], (ElemId(width + 1), width as i64 - 1));
}

#[test]
fn empty_containers_are_elements_without_links() {
    for value in [
        Value::Sequence(vec![]),
        Value::Mapping(vec![]),
        Value::Tuple(None, vec![]),
        Value::Struct(TypeName::Struct("Empty".to_string()), vec![]),
    ] {
        let (res, data) = extract(&value);
        assert!(res.is_ok());
        assert_eq!(data.type_table.len(), 1);
        assert!(data.seq_table.is_empty());
        assert!(data.map_table.is_empty());
        assert!(data.tuple_table.is_empty());
        assert!(data.struct_table.is_empty());
    }
}
