use rusqlite::types::Value as Stored;
use rusqlite::Connection;
use serde_datalog::backend::souffle_sqlite::{
    dump_to_db, AbstractBackend, Backend, SqlValue, Statement, StringKeyBackend, BEGIN, COMMIT,
    INSERT_MAP, INSERT_NUMBER, INSERT_STRING, INSERT_SYMBOL, INSERT_TYPE, MAP_SCHEMA, SCHEMA,
    STRING_KEY_MAP_SCHEMA,
};
use serde_datalog::backend::vector;
use serde_datalog::backend::vector::{BackendData, SymbolId};
use serde_datalog::{
    DatalogExtractionError, DatalogExtractor, DatalogExtractorBackend, ElemId, ElemType,
};

fn walk<B: DatalogExtractorBackend>(backend: B) -> B {
    let mut extractor = DatalogExtractor::new(backend);
    extractor.set_file("in.json").unwrap();
    extractor.serialize_map().unwrap();
    extractor.serialize_str("test").unwrap();
    extractor.serialize_u64(10).unwrap();
    extractor.serialize_value().unwrap();
    extractor.serialize_str("more").unwrap();
    extractor.serialize_struct("Point").unwrap();
    extractor.serialize_bool(true).unwrap();
    extractor.serialize_struct_element("x").unwrap();
    extractor.serialize_seq().unwrap();
    extractor.serialize_str("test").unwrap();
    extractor.serialize_tuple_or_seq_element(ElemType::Sequence).unwrap();
    extractor.serialize_i8(-1).unwrap();
    extractor.serialize_newtype_variant("Option", "Some").unwrap();
    extractor.serialize_tuple_or_seq_element(ElemType::Sequence).unwrap();
    extractor.end_parent().unwrap();
    extractor.serialize_struct_element("y").unwrap();
    extractor.end_parent().unwrap();
    extractor.serialize_value().unwrap();
    extractor.end_parent().unwrap();
    extractor.get_backend()
}

fn run(statements: &[Statement]) -> Connection {
    let conn = Connection::open_in_memory().unwrap();
    for statement in statements {
        if statement.params.is_empty() {
            conn.execute_batch(&statement.sql).unwrap();
        } else {
            let params: Vec<Stored> = statement
                .params
                .iter()
                .map(|param| match param {
                    SqlValue::Integer(n) => Stored::Integer(*n),
                    SqlValue::Text(text) => Stored::Text(text.clone()),
                })
                .collect();
            let changed =
                conn.execute(&statement.sql, rusqlite::params_from_iter(params)).unwrap();
            assert_eq!(changed, 1);
        }
    }
    assert!(conn.is_autocommit());
    conn
}

fn pairs(conn: &Connection, sql: &str) -> Vec<(i64, String)> {
    let mut query = conn.prepare(sql).unwrap();
    let rows = query.query_map([], |row| Ok((row.get(0)?, row.get(1)?))).unwrap();
    rows.map(|row| row.unwrap()).collect()
}

fn numbers(conn: &Connection, sql: &str) -> Vec<Vec<i64>> {
    let mut query = conn.prepare(sql).unwrap();
    let width = query.column_count();
    let rows = query
        .query_map([], |row| (0..width).map(|at| row.get(at)).collect::<Result<Vec<i64>, _>>())
        .unwrap();
    rows.map(|row| row.unwrap()).collect()
}

fn resolve<K>(data: &BackendData<K>, symbol: SymbolId) -> String
where
    K: vector::MapKey,
{
    data.symbol_table[symbol.0 - 1].clone()
}

fn is_plain(statement: &Statement, sql: &str) -> bool {
    statement.sql == sql && statement.params.is_empty()
}

fn is_insert(statement: &Statement, sql: &str, columns: &[i64]) -> bool {
    statement.sql == sql
        && statement.params.len() == columns.len()
        && statement
            .params
            .iter()
            .zip(columns)
            .all(|(param, column)| matches!(param, SqlValue::Integer(n) if n == column))
}

#[test]
fn statements_store_every_row_inside_one_transaction() {
    let mut extractor = DatalogExtractor::new(Backend::default());
    extractor.serialize_map().unwrap();
    extractor.serialize_str("test").unwrap();
    extractor.serialize_u64(10).unwrap();
    extractor.serialize_value().unwrap();
    extractor.end_parent().unwrap();
    let statements = extractor.get_backend().dump_to_db().unwrap();

    assert_eq!(statements.len(), 2 + 14 + 3 + 1 + 1 + 1 + 1 + 1);
    assert!(is_plain(&statements[0], "BEGIN;"));
    assert!(is_plain(&statements[0], BEGIN));
    assert!(is_plain(&statements[1], SCHEMA));
    for (at, name) in ["Bool", "Number", "Str", "Map"].iter().enumerate() {
        let statement = &statements[2 + at];
        assert_eq!(statement.sql, INSERT_SYMBOL);
        assert!(matches!(&statement.params[0], SqlValue::Integer(n) if *n == at as i64 + 1));
        assert!(matches!(&statement.params[1], SqlValue::Text(text) if text == name));
    }
    assert!(matches!(&statements[15].params[0], SqlValue::Integer(14)));
    assert!(matches!(&statements[15].params[1], SqlValue::Text(text) if text == "test"));
    assert!(is_insert(&statements[16], INSERT_TYPE, &[1, 4]));
    assert!(is_insert(&statements[17], INSERT_TYPE, &[2, 3]));
    assert!(is_insert(&statements[18], INSERT_TYPE, &[3, 2]));
    assert!(is_insert(&statements[19], INSERT_NUMBER, &[3, 10]));
    assert!(is_insert(&statements[20], INSERT_STRING, &[2, 14]));
    assert!(is_plain(&statements[21], MAP_SCHEMA));
    assert!(is_insert(&statements[22], INSERT_MAP, &[1, 2, 3]));
    assert!(is_plain(&statements[23], COMMIT));
    assert!(is_plain(&statements[23], "COMMIT;"));
}

#[test]
fn schema_names_the_tables_and_views_of_the_relations() {
    let conn = run(&Backend::default().dump_to_db().unwrap());
    let mut query = conn
        .prepare("SELECT type, name FROM sqlite_master ORDER BY type, name")
        .unwrap();
    let items: Vec<(String, String)> = query
        .query_map([], |row| Ok((row.get(0)?, row.get(1)?)))
        .unwrap()
        .map(|row| row.unwrap())
        .filter(|(_, name): &(String, String)| !name.starts_with("sqlite_"))
        .collect();
    let expected: Vec<(String, String)> = [
        ("table", "__SymbolTable"),
        ("table", "_bool"),
        ("table", "_map"),
        ("table", "_number"),
        ("table", "_rootElem"),
        ("table", "_seq"),
        ("table", "_string"),
        ("table", "_struct"),
        ("table", "_structType"),
        ("table", "_tuple"),
        ("table", "_type"),
        ("table", "_variantType"),
        ("view", "bool"),
        ("view", "map"),
        ("view", "number"),
        ("view", "rootElem"),
        ("view", "seq"),
        ("view", "string"),
        ("view", "struct"),
        ("view", "structType"),
        ("view", "tuple"),
        ("view", "type"),
        ("view", "variantType"),
    ]
    .iter()
    .map(|(kind, name)| (kind.to_string(), name.to_string()))
    .collect();
    assert_eq!(items, expected);
    assert_eq!(
        pairs(&conn, "SELECT id, symbol FROM __SymbolTable ORDER BY id").len(),
        13
    );
}

#[test]
fn views_show_what_the_in_memory_backend_holds() {
    let memory = walk(vector::Backend::default()).get_data();
    let conn = run(&walk(Backend::default()).dump_to_db().unwrap());

    let types: Vec<(i64, String)> = memory
        .type_table
        .iter()
        .map(|(elem, symbol)| (elem.0 as i64, resolve(&memory, *symbol)))
        .collect();
    assert_eq!(pairs(&conn, "SELECT id, type FROM type ORDER BY id"), types);
    assert_eq!(types.len(), 10);
    assert_eq!(types[0], (1, "Map".to_string()));

    let strings: Vec<(i64, String)> = memory
        .string_table
        .iter()
        .map(|(elem, symbol)| (elem.0 as i64, resolve(&memory, *symbol)))
        .collect();
    assert_eq!(pairs(&conn, "SELECT id, value FROM string ORDER BY id"), strings);
    assert_eq!(
        strings,
        vec![(2, "test".to_string()), (4, "more".to_string()), (8, "test".to_string())]
    );

    let mut fields: Vec<(i64, String)> = memory
        .struct_table
        .iter()
        .map(|((elem, field), _)| (elem.0 as i64, resolve(&memory, *field)))
        .collect();
    fields.sort();
    assert_eq!(pairs(&conn, "SELECT id, field FROM struct ORDER BY id, field"), fields);

    let roots: Vec<(i64, String)> = memory
        .root_elem_table
        .iter()
        .map(|(file, elem)| (elem.0 as i64, resolve(&memory, *file)))
        .collect();
    assert_eq!(pairs(&conn, "SELECT elem, file FROM rootElem"), roots);
    assert_eq!(roots, vec![(1, "in.json".to_string())]);

    let struct_types: Vec<(i64, String)> = memory
        .struct_type_table
        .iter()
        .map(|(elem, symbol)| (elem.0 as i64, resolve(&memory, *symbol)))
        .collect();
    assert_eq!(pairs(&conn, "SELECT id, type FROM structType"), struct_types);

    let mut query = conn.prepare("SELECT id, type, variant FROM variantType").unwrap();
    let variants: Vec<(i64, String, String)> = query
        .query_map([], |row| Ok((row.get(0)?, row.get(1)?, row.get(2)?)))
        .unwrap()
        .map(|row| row.unwrap())
        .collect();
    assert_eq!(variants, vec![(10, "Option".to_string(), "Some".to_string())]);

    let bools: Vec<Vec<i64>> = memory
        .bool_table
        .iter()
        .map(|(elem, value)| vec![elem.0 as i64, if *value { 1 } else { 0 }])
        .collect();
    assert_eq!(numbers(&conn, "SELECT id, value FROM bool ORDER BY id"), bools);
    let values: Vec<Vec<i64>> =
        memory.number_table.iter().map(|(elem, value)| vec![elem.0 as i64, *value]).collect();
    assert_eq!(numbers(&conn, "SELECT id, value FROM number ORDER BY id"), values);
    assert_eq!(values, vec![vec![3, 10], vec![9, -1]]);
    let maps: Vec<Vec<i64>> = memory
        .map_table
        .iter()
        .map(|((elem, key), value)| vec![elem.0 as i64, key.0 as i64, value.0 as i64])
        .collect();
    assert_eq!(numbers(&conn, "SELECT id, key, value FROM map ORDER BY key"), maps);
    let seqs: Vec<Vec<i64>> = memory
        .seq_table
        .iter()
        .map(|((elem, pos), value)| vec![elem.0 as i64, *pos as i64, value.0 as i64])
        .collect();
    assert_eq!(numbers(&conn, "SELECT id, pos, value FROM seq ORDER BY pos"), seqs);
    assert_eq!(seqs, vec![vec![7, 0, 8], vec![7, 1, 10]]);
    let tuples: Vec<Vec<i64>> = memory
        .tuple_table
        .iter()
        .map(|((elem, pos), value)| vec![elem.0 as i64, *pos as i64, value.0 as i64])
        .collect();
    assert_eq!(numbers(&conn, "SELECT id, pos, value FROM tuple"), tuples);
}

#[test]
fn string_keys_are_shown_as_strings() {
    let memory = walk(vector::StringKeyBackend::default()).get_data();
    let statements = walk(StringKeyBackend::default()).dump_to_db().unwrap();
    assert!(statements.iter().any(|statement| is_plain(statement, STRING_KEY_MAP_SCHEMA)));
    assert!(!statements.iter().any(|statement| is_plain(statement, MAP_SCHEMA)));
    let conn = run(&statements);

    let mut query = conn.prepare("SELECT id, key, value FROM map ORDER BY value").unwrap();
    let entries: Vec<(i64, String, i64)> = query
        .query_map([], |row| Ok((row.get(0)?, row.get(1)?, row.get(2)?)))
        .unwrap()
        .map(|row| row.unwrap())
        .collect();
    let expected: Vec<(i64, String, i64)> = memory
        .map_table
        .iter()
        .map(|((elem, key), value)| (elem.0 as i64, resolve(&memory, *key), value.0 as i64))
        .collect();
    assert_eq!(entries, expected);
    assert_eq!(entries, vec![(1, "test".to_string(), 3), (1, "more".to_string(), 5)]);
    // The keys have left the relation of strings.
    assert_eq!(
        pairs(&conn, "SELECT id, value FROM string"),
        vec![(8, "test".to_string())]
    );
}

#[test]
fn identifier_beyond_the_database_is_an_error() {
    let mut backend = vector::Backend::default();
    backend.add_elem(ElemId(1), ElemType::Bool).unwrap();
    backend.add_bool(ElemId(usize::MAX), true).unwrap();
    backend.add_seq_entry(ElemId(2), usize::MAX - 1, ElemId(3)).unwrap();
    let data = backend.get_data();
    // The first value that does not fit, in the order of the statements, is
    // the element of the bool relation.
    assert!(matches!(
        dump_to_db(&data, MAP_SCHEMA),
        Err(DatalogExtractionError::IntegerCastOverflow(value)) if value == usize::MAX as u64
    ));

    let mut backend = vector::Backend::default();
    backend.add_seq_entry(ElemId(2), i64::MAX as usize, ElemId(3)).unwrap();
    assert_eq!(dump_to_db(&backend.get_data(), MAP_SCHEMA).unwrap().len(), 2 + 13 + 1 + 1 + 1);
}

#[test]
fn dump_of_a_relational_backend_is_that_of_its_tables() {
    let lines = walk(Backend::default()).dump();
    let expected = walk(vector::Backend::default()).get_data().dump();
    assert_eq!(lines, expected);
    assert!(lines.len() > 20);
}
