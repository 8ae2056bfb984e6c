//! The relational backends hold the same facts as the in-memory backends,
//! and the statements they give resolve every symbol to its string.

use vstd::prelude::*;
use crate::backend::souffle_sqlite;
use crate::backend::souffle_sqlite::{symbol_inserts, Cell};
use crate::backend::symbols::{known_symbol, text_of, SymbolId};
use crate::backend::vector;
use crate::backend::vector::DataModel;
use crate::elem::{ElemId, ElemType};
use crate::error::ErrorModel;
use crate::extractor::{DatalogExtractor, ExtractorModel};
use crate::value::Value;
use crate::walk::{struct_type, tuple_type};

verus! {

/// Among the statements that insert the interned strings, exactly one is
/// for the symbol `id`, and it holds the string that `id` stands for: the
/// join of a relation with the symbol table finds, for each symbol of a
/// row, this one string.
pub proof fn lemma_symbol_resolves(symbols: Seq<Seq<char>>, id: SymbolId)
    requires
        known_symbol(id, symbols.len()),
    ensures
        ({
            let rows = symbol_inserts(symbols);
            &&& rows.len() == symbols.len()
            &&& rows[id.0 - 1].params == seq![
                Cell::Integer(id.0 as int),
                Cell::Text(text_of(symbols, id)),
            ]
            &&& forall|j: int|
                0 <= j < rows.len() && (#[trigger] rows[j]).params[0] == Cell::Integer(
                    id.0 as int,
                ) ==> j == id.0 - 1
        }),
{
}

/// The extraction of a value into the relational backend whose map entries are keyed by elements leaves the
/// same tables, and ends in the same way, as its extraction into the
/// in-memory backend of the same kind.
pub proof fn lemma_same_extraction(s: ExtractorModel<DataModel<ElemId>>, value: Value)
    ensures
        DatalogExtractor::<souffle_sqlite::Backend>::extracted(s, value) == DatalogExtractor::<vector::Backend>::extracted(s, value),
    decreases value,
{
    match value {
        Value::Scalar(_) => {},
        Value::Unit(_) => {},
        Value::Newtype(_, content) => {
            lemma_same_extraction(s, *content);
        },
        Value::Sequence(items) => {
            lemma_same_elements(
                DatalogExtractor::<souffle_sqlite::Backend>::opened(s, ElemType::Sequence),
                items@,
                items@.len(),
                ElemType::Sequence,
            );
        },
        Value::Tuple(name, items) => {
            lemma_same_elements(
                DatalogExtractor::<souffle_sqlite::Backend>::named(
                    DatalogExtractor::<souffle_sqlite::Backend>::opened(s, tuple_type(name)),
                    name,
                    ElemId(s.next_id),
                ),
                items@,
                items@.len(),
                tuple_type(name),
            );
        },
        Value::Mapping(entries) => {
            lemma_same_entries(
                DatalogExtractor::<souffle_sqlite::Backend>::opened(s, ElemType::Mapping),
                entries@,
                entries@.len(),
            );
        },
        Value::Struct(name, fields) => {
            lemma_same_fields(
                DatalogExtractor::<souffle_sqlite::Backend>::named(
                    DatalogExtractor::<souffle_sqlite::Backend>::opened(s, struct_type(name)),
                    Some(name),
                    ElemId(s.next_id),
                ),
                fields@,
                fields@.len(),
            );
        },
    }
}

/// The two backends agree on the children of a sequence or a tuple.
pub proof fn lemma_same_elements(
    start: (ExtractorModel<DataModel<ElemId>>, Result<(), ErrorModel>),
    items: Seq<Value>,
    n: nat,
    elem_type: ElemType,
)
    requires
        n <= items.len(),
    ensures
        DatalogExtractor::<souffle_sqlite::Backend>::elements_done(start, items, n, elem_type) == DatalogExtractor::<vector::Backend>::elements_done(
            start,
            items,
            n,
            elem_type,
        ),
    decreases items, n,
{
    if n > 0 {
        lemma_same_elements(start, items, (n - 1) as nat, elem_type);
        let before = DatalogExtractor::<souffle_sqlite::Backend>::elements_done(start, items, (n - 1) as nat, elem_type);
        lemma_same_extraction(before.0, items[n - 1]);
    }
}

/// The two backends agree on the entries of a map.
pub proof fn lemma_same_entries(
    start: (ExtractorModel<DataModel<ElemId>>, Result<(), ErrorModel>),
    entries: Seq<(Value, Value)>,
    n: nat,
)
    requires
        n <= entries.len(),
    ensures
        DatalogExtractor::<souffle_sqlite::Backend>::entries_done(start, entries, n) == DatalogExtractor::<vector::Backend>::entries_done(start, entries, n),
    decreases entries, n,
{
    if n > 0 {
        lemma_same_entries(start, entries, (n - 1) as nat);
        let before = DatalogExtractor::<souffle_sqlite::Backend>::entries_done(start, entries, (n - 1) as nat);
        lemma_same_extraction(before.0, entries[n - 1].0);
        let key = DatalogExtractor::<souffle_sqlite::Backend>::extracted(before.0, entries[n - 1].0);
        lemma_same_extraction(key.0, entries[n - 1].1);
    }
}

/// The two backends agree on the fields of a struct.
pub proof fn lemma_same_fields(
    start: (ExtractorModel<DataModel<ElemId>>, Result<(), ErrorModel>),
    fields: Seq<(String, Value)>,
    n: nat,
)
    requires
        n <= fields.len(),
    ensures
        DatalogExtractor::<souffle_sqlite::Backend>::fields_done(start, fields, n) == DatalogExtractor::<vector::Backend>::fields_done(start, fields, n),
    decreases fields, n,
{
    if n > 0 {
        lemma_same_fields(start, fields, (n - 1) as nat);
        let before = DatalogExtractor::<souffle_sqlite::Backend>::fields_done(start, fields, (n - 1) as nat);
        lemma_same_extraction(before.0, fields[n - 1].1);
    }
}

/// The extraction of a value into the relational backend whose map entries are keyed by strings leaves the
/// same tables, and ends in the same way, as its extraction into the
/// in-memory backend of the same kind.
pub proof fn lemma_same_extraction_string_keys(s: ExtractorModel<DataModel<SymbolId>>, value: Value)
    ensures
        DatalogExtractor::<souffle_sqlite::StringKeyBackend>::extracted(s, value) == DatalogExtractor::<vector::StringKeyBackend>::extracted(s, value),
    decreases value,
{
    match value {
        Value::Scalar(_) => {},
        Value::Unit(_) => {},
        Value::Newtype(_, content) => {
            lemma_same_extraction_string_keys(s, *content);
        },
        Value::Sequence(items) => {
            lemma_same_elements_string_keys(
                DatalogExtractor::<souffle_sqlite::StringKeyBackend>::opened(s, ElemType::Sequence),
                items@,
                items@.len(),
                ElemType::Sequence,
            );
        },
        Value::Tuple(name, items) => {
            lemma_same_elements_string_keys(
                DatalogExtractor::<souffle_sqlite::StringKeyBackend>::named(
                    DatalogExtractor::<souffle_sqlite::StringKeyBackend>::opened(s, tuple_type(name)),
                    name,
                    ElemId(s.next_id),
                ),
                items@,
                items@.len(),
                tuple_type(name),
            );
        },
        Value::Mapping(entries) => {
            lemma_same_entries_string_keys(
                DatalogExtractor::<souffle_sqlite::StringKeyBackend>::opened(s, ElemType::Mapping),
                entries@,
                entries@.len(),
            );
        },
        Value::Struct(name, fields) => {
            lemma_same_fields_string_keys(
                DatalogExtractor::<souffle_sqlite::StringKeyBackend>::named(
                    DatalogExtractor::<souffle_sqlite::StringKeyBackend>::opened(s, struct_type(name)),
                    Some(name),
                    ElemId(s.next_id),
                ),
                fields@,
                fields@.len(),
            );
        },
    }
}

/// The two backends agree on the children of a sequence or a tuple.
pub proof fn lemma_same_elements_string_keys(
    start: (ExtractorModel<DataModel<SymbolId>>, Result<(), ErrorModel>),
    items: Seq<Value>,
    n: nat,
    elem_type: ElemType,
)
    requires
        n <= items.len(),
    ensures
        DatalogExtractor::<souffle_sqlite::StringKeyBackend>::elements_done(start, items, n, elem_type) == DatalogExtractor::<vector::StringKeyBackend>::elements_done(
            start,
            items,
            n,
            elem_type,
        ),
    decreases items, n,
{
    if n > 0 {
        lemma_same_elements_string_keys(start, items, (n - 1) as nat, elem_type);
        let before = DatalogExtractor::<souffle_sqlite::StringKeyBackend>::elements_done(start, items, (n - 1) as nat, elem_type);
        lemma_same_extraction_string_keys(before.0, items[n - 1]);
    }
}

/// The two backends agree on the entries of a map.
pub proof fn lemma_same_entries_string_keys(
    start: (ExtractorModel<DataModel<SymbolId>>, Result<(), ErrorModel>),
    entries: Seq<(Value, Value)>,
    n: nat,
)
    requires
        n <= entries.len(),
    ensures
        DatalogExtractor::<souffle_sqlite::StringKeyBackend>::entries_done(start, entries, n) == DatalogExtractor::<vector::StringKeyBackend>::entries_done(start, entries, n),
    decreases entries, n,
{
    if n > 0 {
        lemma_same_entries_string_keys(start, entries, (n - 1) as nat);
        let before = DatalogExtractor::<souffle_sqlite::StringKeyBackend>::entries_done(start, entries, (n - 1) as nat);
        lemma_same_extraction_string_keys(before.0, entries[n - 1].0);
        let key = DatalogExtractor::<souffle_sqlite::StringKeyBackend>::extracted(before.0, entries[n - 1].0);
        lemma_same_extraction_string_keys(key.0, entries[n - 1].1);
    }
}

/// The two backends agree on the fields of a struct.
pub proof fn lemma_same_fields_string_keys(
    start: (ExtractorModel<DataModel<SymbolId>>, Result<(), ErrorModel>),
    fields: Seq<(String, Value)>,
    n: nat,
)
    requires
        n <= fields.len(),
    ensures
        DatalogExtractor::<souffle_sqlite::StringKeyBackend>::fields_done(start, fields, n) == DatalogExtractor::<vector::StringKeyBackend>::fields_done(start, fields, n),
    decreases fields, n,
{
    if n > 0 {
        lemma_same_fields_string_keys(start, fields, (n - 1) as nat);
        let before = DatalogExtractor::<souffle_sqlite::StringKeyBackend>::fields_done(start, fields, (n - 1) as nat);
        lemma_same_extraction_string_keys(before.0, fields[n - 1].1);
    }
}

} // verus!
