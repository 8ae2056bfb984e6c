//! How many facts the extraction of a value leaves in the in-memory tables,
//! and how its elements are numbered: one row of the `type` relation for
//! each element, about identifiers that go up by one from row to row, and
//! one row of the `bool`, `number` or `string` relation for each element of
//! that kind.

use vstd::prelude::*;
use crate::backend::symbols::SymbolId;
use crate::backend::vector::{type_symbol, Backend, DataModel};
use crate::elem::{ElemId, ElemType};
use crate::error::ErrorModel;
use crate::extractor::{DatalogExtractor, ExtractorModel};
use crate::interface::Fact;
use crate::value::{elements_of, elements_of_entries, elements_of_fields, Value};
use crate::walk::{name_fact, newtype_type, scalar_fact, struct_type, tuple_type, unit_type};

verus! {

/// The number of rows of the `type` relation that have the type `kind`.
pub open spec fn tally(rows: Seq<(ElemId, SymbolId)>, kind: SymbolId) -> nat
    decreases rows.len(),
{
    if rows.len() == 0 {
        0
    } else {
        tally(rows.drop_last(), kind) + if rows.last().1 == kind {
            1nat
        } else {
            0nat
        }
    }
}

/// One row more is one more of its type, and as many of every other type.
pub proof fn lemma_tally_push(rows: Seq<(ElemId, SymbolId)>, row: (ElemId, SymbolId), kind: SymbolId)
    ensures
        tally(rows.push(row), kind) == tally(rows, kind) + if row.1 == kind {
            1nat
        } else {
            0nat
        },
{
    assert(rows.push(row).drop_last() =~= rows);
}

impl Value {
    /// The shape of the element that stands for the value itself.
    pub open spec fn elem_type(self) -> ElemType {
        match self {
            Value::Scalar(scalar) => scalar.elem_type(),
            Value::Unit(name) => unit_type(name),
            Value::Newtype(name, _) => newtype_type(name),
            Value::Sequence(_) => ElemType::Sequence,
            Value::Tuple(name, _) => tuple_type(name),
            Value::Mapping(_) => ElemType::Mapping,
            Value::Struct(name, _) => struct_type(name),
        }
    }

    /// One if the value itself is filed under the type `kind`, else zero.
    pub open spec fn own(self, kind: SymbolId) -> nat {
        if type_symbol(self.elem_type()) == kind {
            1
        } else {
            0
        }
    }

    /// The number of elements of the value that are filed under the type
    /// `kind`. The type with the symbol 0 stands for the elements that no
    /// fact can represent.
    pub open spec fn count(self, kind: SymbolId) -> nat
        decreases self,
    {
        self.own(kind) + match self {
            Value::Scalar(_) => 0,
            Value::Unit(_) => 0,
            Value::Newtype(_, content) => content.count(kind),
            Value::Sequence(items) => count_of(items@, items@.len(), kind),
            Value::Tuple(_, items) => count_of(items@, items@.len(), kind),
            Value::Mapping(entries) => count_of_entries(entries@, entries@.len(), kind),
            Value::Struct(_, fields) => count_of_fields(fields@, fields@.len(), kind),
        }
    }
}

/// The number of elements of the first `n` of `items` that are filed under
/// the type `kind`.
pub open spec fn count_of(items: Seq<Value>, n: nat, kind: SymbolId) -> nat
    decreases items, n,
{
    if n == 0 || n > items.len() {
        0
    } else {
        count_of(items, (n - 1) as nat, kind) + items[n - 1].count(kind)
    }
}

/// The number of elements of the first `n` of `entries` that are filed under
/// the type `kind`.
pub open spec fn count_of_entries(entries: Seq<(Value, Value)>, n: nat, kind: SymbolId) -> nat
    decreases entries, n,
{
    if n == 0 || n > entries.len() {
        0
    } else {
        count_of_entries(entries, (n - 1) as nat, kind) + entries[n - 1].0.count(kind) + entries[n
            - 1].1.count(kind)
    }
}

/// The number of elements of the first `n` of `fields` that are filed under
/// the type `kind`.
pub open spec fn count_of_fields(fields: Seq<(String, Value)>, n: nat, kind: SymbolId) -> nat
    decreases fields, n,
{
    if n == 0 || n > fields.len() {
        0
    } else {
        count_of_fields(fields, (n - 1) as nat, kind) + fields[n - 1].1.count(kind)
    }
}

/// The sum of a count over all types, the type with the symbol 0 included.
pub open spec fn sum_kinds(count: spec_fn(SymbolId) -> nat) -> nat {
    count(SymbolId(0)) + count(SymbolId(1)) + count(SymbolId(2)) + count(SymbolId(3)) + count(
        SymbolId(4),
    ) + count(SymbolId(5)) + count(SymbolId(6)) + count(SymbolId(7)) + count(SymbolId(8)) + count(
        SymbolId(9),
    ) + count(SymbolId(10)) + count(SymbolId(11)) + count(SymbolId(12)) + count(SymbolId(13))
}

/// Every element of a value is filed under exactly one type: the elements of
/// a value are as many as the elements of each type together.
pub proof fn lemma_elements_by_kind(value: Value)
    ensures
        value.elements() == sum_kinds(|kind: SymbolId| value.count(kind)),
    decreases value,
{
    assert(sum_kinds(|kind: SymbolId| value.own(kind)) == 1);
    match value {
        Value::Scalar(_) => {},
        Value::Unit(_) => {},
        Value::Newtype(_, content) => {
            lemma_elements_by_kind(*content);
        },
        Value::Sequence(items) => {
            lemma_elements_of_by_kind(items@, items@.len());
        },
        Value::Tuple(_, items) => {
            lemma_elements_of_by_kind(items@, items@.len());
        },
        Value::Mapping(entries) => {
            lemma_elements_of_entries_by_kind(entries@, entries@.len());
        },
        Value::Struct(_, fields) => {
            lemma_elements_of_fields_by_kind(fields@, fields@.len());
        },
    }
}

/// The elements of the first items are as many as their elements of each
/// type together.
pub proof fn lemma_elements_of_by_kind(items: Seq<Value>, n: nat)
    requires
        n <= items.len(),
    ensures
        elements_of(items, n) == sum_kinds(|kind: SymbolId| count_of(items, n, kind)),
    decreases items, n,
{
    if n > 0 {
        lemma_elements_of_by_kind(items, (n - 1) as nat);
        lemma_elements_by_kind(items[n - 1]);
    }
}

/// The elements of the first entries are as many as their elements of each
/// type together.
pub proof fn lemma_elements_of_entries_by_kind(entries: Seq<(Value, Value)>, n: nat)
    requires
        n <= entries.len(),
    ensures
        elements_of_entries(entries, n) == sum_kinds(
            |kind: SymbolId| count_of_entries(entries, n, kind),
        ),
    decreases entries, n,
{
    if n > 0 {
        lemma_elements_of_entries_by_kind(entries, (n - 1) as nat);
        lemma_elements_by_kind(entries[n - 1].0);
        lemma_elements_by_kind(entries[n - 1].1);
    }
}

/// The elements of the first fields are as many as their elements of each
/// type together.
pub proof fn lemma_elements_of_fields_by_kind(fields: Seq<(String, Value)>, n: nat)
    requires
        n <= fields.len(),
    ensures
        elements_of_fields(fields, n) == sum_kinds(
            |kind: SymbolId| count_of_fields(fields, n, kind),
        ),
    decreases fields, n,
{
    if n > 0 {
        lemma_elements_of_fields_by_kind(fields, (n - 1) as nat);
        lemma_elements_by_kind(fields[n - 1].1);
    }
}

/// By how much the tables grow: the rows of the `type` relation, those
/// among them of one type, and the rows of the relations that hold the
/// values of scalars.
pub struct Growth {
    pub elements: nat,
    pub of_kind: nat,
    pub bools: nat,
    pub numbers: nat,
    pub strings: nat,
}

impl Growth {
    /// No growth at all.
    pub open spec fn none() -> Growth {
        Growth { elements: 0, of_kind: 0, bools: 0, numbers: 0, strings: 0 }
    }

    /// The growth of one thing after another.
    pub open spec fn plus(self, other: Growth) -> Growth {
        Growth {
            elements: self.elements + other.elements,
            of_kind: self.of_kind + other.of_kind,
            bools: self.bools + other.bools,
            numbers: self.numbers + other.numbers,
            strings: self.strings + other.strings,
        }
    }
}

/// The growth that the element for `value` itself accounts for.
pub open spec fn own_growth(value: Value, kind: SymbolId) -> Growth {
    Growth {
        elements: 1,
        of_kind: value.own(kind),
        bools: value.own(SymbolId(1)),
        numbers: value.own(SymbolId(2)),
        strings: value.own(SymbolId(3)),
    }
}

/// The growth that a value accounts for: a row of the `type` relation for
/// each of its elements, and a row of the `bool`, `number` or `string`
/// relation for each element of that type.
pub open spec fn growth(value: Value, kind: SymbolId) -> Growth {
    Growth {
        elements: value.elements(),
        of_kind: value.count(kind),
        bools: value.count(SymbolId(1)),
        numbers: value.count(SymbolId(2)),
        strings: value.count(SymbolId(3)),
    }
}

/// The growth that the first `n` of `items` account for.
pub open spec fn growth_of(items: Seq<Value>, n: nat, kind: SymbolId) -> Growth {
    Growth {
        elements: elements_of(items, n),
        of_kind: count_of(items, n, kind),
        bools: count_of(items, n, SymbolId(1)),
        numbers: count_of(items, n, SymbolId(2)),
        strings: count_of(items, n, SymbolId(3)),
    }
}

/// The growth that the first `n` of `entries` account for.
pub open spec fn growth_of_entries(entries: Seq<(Value, Value)>, n: nat, kind: SymbolId) -> Growth {
    Growth {
        elements: elements_of_entries(entries, n),
        of_kind: count_of_entries(entries, n, kind),
        bools: count_of_entries(entries, n, SymbolId(1)),
        numbers: count_of_entries(entries, n, SymbolId(2)),
        strings: count_of_entries(entries, n, SymbolId(3)),
    }
}

/// The growth that the first `n` of `fields` account for.
pub open spec fn growth_of_fields(fields: Seq<(String, Value)>, n: nat, kind: SymbolId) -> Growth {
    Growth {
        elements: elements_of_fields(fields, n),
        of_kind: count_of_fields(fields, n, kind),
        bools: count_of_fields(fields, n, SymbolId(1)),
        numbers: count_of_fields(fields, n, SymbolId(2)),
        strings: count_of_fields(fields, n, SymbolId(3)),
    }
}

/// Whether the tables `after` hold as many rows more than the tables
/// `before` as `by` says.
pub open spec fn grew(
    before: DataModel<ElemId>,
    after: DataModel<ElemId>,
    kind: SymbolId,
    by: Growth,
) -> bool {
    &&& after.types.len() == before.types.len() + by.elements
    &&& tally(after.types, kind) == tally(before.types, kind) + by.of_kind
    &&& after.bools.len() == before.bools.len() + by.bools
    &&& after.numbers.len() == before.numbers.len() + by.numbers
    &&& after.strings.len() == before.strings.len() + by.strings
}

/// The state of an extractor over the in-memory backend.
pub type State = ExtractorModel<DataModel<ElemId>>;

/// A step of an extraction into the in-memory backend, with its outcome.
pub type Step = (ExtractorModel<DataModel<ElemId>>, Result<(), ErrorModel>);

/// The growth that a fact accounts for, where it is not the fact that makes
/// an element: a row for the value of a scalar.
pub open spec fn fact_growth(fact: Fact) -> Growth {
    Growth {
        elements: 0,
        of_kind: 0,
        bools: if fact is Bool {
            1
        } else {
            0
        },
        numbers: if fact is I64 || fact is U64 {
            1
        } else {
            0
        },
        strings: if fact is Str {
            1
        } else {
            0
        },
    }
}

/// A fact that the backend takes, and that does not make an element, adds
/// the row for the value of a scalar, where it is one, and no other that is
/// counted.
pub proof fn lemma_stated_grows(s: State, fact: Fact, kind: SymbolId)
    requires
        !(fact is Elem),
    ensures
        ({
            let step = DatalogExtractor::<Backend>::stated(s, fact);
            step.1 is Ok ==> grew(s.backend, step.0.backend, kind, fact_growth(fact))
        }),
{
}

/// A run of steps followed by a fact grows by the sum of the two.
pub proof fn lemma_and_then_grows(
    origin: DataModel<ElemId>,
    step: Step,
    fact: Fact,
    kind: SymbolId,
    by: Growth,
)
    requires
        !(fact is Elem),
        step.1 is Ok ==> grew(origin, step.0.backend, kind, by),
    ensures
        ({
            let next = DatalogExtractor::<Backend>::and_then(step, fact);
            next.1 is Ok ==> grew(origin, next.0.backend, kind, by.plus(fact_growth(fact)))
        }),
{
    lemma_stated_grows(step.0, fact, kind);
}

/// A new element adds one row to the `type` relation, of the type that its
/// shape is filed under; its shape is one that facts can represent.
pub proof fn lemma_fresh_grows(s: State, elem_type: ElemType, kind: SymbolId)
    ensures
        ({
            let step = DatalogExtractor::<Backend>::fresh(s, elem_type);
            step.1 is Ok ==> {
                &&& elem_type.extractable()
                &&& grew(
                    s.backend,
                    step.0.backend,
                    kind,
                    Growth {
                        elements: 1,
                        of_kind: if type_symbol(elem_type) == kind {
                            1
                        } else {
                            0
                        },
                        ..Growth::none()
                    },
                )
            }
        }),
{
    lemma_tally_push(s.backend.types, (ElemId(s.next_id), type_symbol(elem_type)), kind);
}

/// A new element without children, or one that is opened as a container,
/// adds one row to the `type` relation.
pub proof fn lemma_made_grows(s: State, elem_type: ElemType, kind: SymbolId)
    ensures
        ({
            let made = DatalogExtractor::<Backend>::made(s, elem_type);
            let opened = DatalogExtractor::<Backend>::opened(s, elem_type);
            let by = Growth {
                elements: 1,
                of_kind: if type_symbol(elem_type) == kind {
                    1
                } else {
                    0
                },
                ..Growth::none()
            };
            &&& made.1 is Ok ==> elem_type.extractable() && grew(
                s.backend,
                made.0.backend,
                kind,
                by,
            )
            &&& opened.1 is Ok ==> elem_type.extractable() && grew(
                s.backend,
                opened.0.backend,
                kind,
                by,
            )
        }),
{
    lemma_fresh_grows(s, elem_type, kind);
}

/// The extraction of a value into the in-memory backend leaves one row of
/// the `type` relation for each element of the value, filed under the type
/// of its shape, and one row of the `bool`, `number` or `string` relation
/// for each element of that type. A value that is extracted holds nothing
/// that facts cannot represent.
pub proof fn lemma_extracted_grows(s: State, value: Value, kind: SymbolId)
    ensures
        ({
            let step = DatalogExtractor::<Backend>::extracted(s, value);
            step.1 is Ok ==> {
                &&& grew(s.backend, step.0.backend, kind, growth(value, kind))
                &&& value.count(SymbolId(0)) == 0
            }
        }),
    decreases value,
{
    let id = ElemId(s.next_id);
    let ty = value.elem_type();
    let own = own_growth(value, kind);
    match value {
        Value::Scalar(scalar) => {
            if scalar_fact(scalar, id) is Some {
                lemma_made_grows(s, ty, kind);
                lemma_and_then_grows(
                    s.backend,
                    DatalogExtractor::<Backend>::made(s, ty),
                    scalar_fact(scalar, id)->Some_0,
                    kind,
                    Growth { elements: 1, of_kind: value.own(kind), ..Growth::none() },
                );
            }
        },
        Value::Unit(name) => {
            lemma_made_grows(s, ty, kind);
            if name is Some {
                lemma_and_then_grows(
                    s.backend,
                    DatalogExtractor::<Backend>::made(s, ty),
                    name_fact(name->Some_0, id),
                    kind,
                    own,
                );
            }
        },
        Value::Newtype(name, content) => {
            lemma_extracted_grows(s, *content, kind);
            let inner = DatalogExtractor::<Backend>::extracted(s, *content);
            if inner.1 is Ok {
                let rest = inner.0.without_child();
                let wrapper = ElemId(rest.next_id);
                lemma_made_grows(rest, ty, kind);
                let made = DatalogExtractor::<Backend>::made(rest, ty);
                lemma_and_then_grows(rest.backend, made, name_fact(name, wrapper), kind, own);
                lemma_and_then_grows(
                    rest.backend,
                    DatalogExtractor::<Backend>::and_then(made, name_fact(name, wrapper)),
                    Fact::TupleEntry { elem: wrapper, pos: 0, value: inner.0.elem_stack.last() },
                    kind,
                    own,
                );
            }
        },
        Value::Sequence(items) => {
            lemma_made_grows(s, ty, kind);
            let start = DatalogExtractor::<Backend>::opened(s, ty);
            lemma_elements_done_grows(start, items@, items@.len(), ty, kind);
        },
        Value::Tuple(name, items) => {
            lemma_made_grows(s, ty, kind);
            let opened = DatalogExtractor::<Backend>::opened(s, ty);
            if name is Some {
                lemma_and_then_grows(s.backend, opened, name_fact(name->Some_0, id), kind, own);
            }
            let start = DatalogExtractor::<Backend>::named(opened, name, id);
            lemma_elements_done_grows(start, items@, items@.len(), ty, kind);
        },
        Value::Mapping(entries) => {
            lemma_made_grows(s, ty, kind);
            let start = DatalogExtractor::<Backend>::opened(s, ty);
            lemma_entries_done_grows(start, entries@, entries@.len(), kind);
        },
        Value::Struct(name, fields) => {
            lemma_made_grows(s, ty, kind);
            let opened = DatalogExtractor::<Backend>::opened(s, ty);
            lemma_and_then_grows(s.backend, opened, name_fact(name, id), kind, own);
            let start = DatalogExtractor::<Backend>::named(opened, Some(name), id);
            lemma_fields_done_grows(start, fields@, fields@.len(), kind);
        },
    }
}

/// The extraction of the first children of a sequence or a tuple leaves the
/// rows that these children account for.
pub proof fn lemma_elements_done_grows(
    start: Step,
    items: Seq<Value>,
    n: nat,
    elem_type: ElemType,
    kind: SymbolId,
)
    requires
        n <= items.len(),
    ensures
        ({
            let done = DatalogExtractor::<Backend>::elements_done(start, items, n, elem_type);
            done.1 is Ok ==> {
                &&& start.1 is Ok
                &&& grew(start.0.backend, done.0.backend, kind, growth_of(items, n, kind))
                &&& count_of(items, n, SymbolId(0)) == 0
            }
        }),
    decreases items, n,
{
    if n > 0 {
        lemma_elements_done_grows(start, items, (n - 1) as nat, elem_type, kind);
        let before = DatalogExtractor::<Backend>::elements_done(
            start,
            items,
            (n - 1) as nat,
            elem_type,
        );
        if before.1 is Ok {
            lemma_extracted_grows(before.0, items[n - 1], kind);
            let item = DatalogExtractor::<Backend>::extracted(before.0, items[n - 1]);
            if item.1 is Ok {
                let (parent, pos) = item.0.parent_stack.last();
                lemma_stated_grows(
                    item.0.without_child(),
                    DatalogExtractor::<Backend>::position_fact(
                        elem_type,
                        parent,
                        pos,
                        item.0.elem_stack.last(),
                    ),
                    kind,
                );
            }
        }
    }
}

/// The extraction of the first entries of a map leaves the rows that their
/// keys and values account for.
pub proof fn lemma_entries_done_grows(
    start: Step,
    entries: Seq<(Value, Value)>,
    n: nat,
    kind: SymbolId,
)
    requires
        n <= entries.len(),
    ensures
        ({
            let done = DatalogExtractor::<Backend>::entries_done(start, entries, n);
            done.1 is Ok ==> {
                &&& start.1 is Ok
                &&& grew(start.0.backend, done.0.backend, kind, growth_of_entries(entries, n, kind))
                &&& count_of_entries(entries, n, SymbolId(0)) == 0
            }
        }),
    decreases entries, n,
{
    if n > 0 {
        lemma_entries_done_grows(start, entries, (n - 1) as nat, kind);
        let before = DatalogExtractor::<Backend>::entries_done(start, entries, (n - 1) as nat);
        if before.1 is Ok {
            lemma_extracted_grows(before.0, entries[n - 1].0, kind);
            let key = DatalogExtractor::<Backend>::extracted(before.0, entries[n - 1].0);
            if key.1 is Ok {
                lemma_extracted_grows(key.0, entries[n - 1].1, kind);
                let value = DatalogExtractor::<Backend>::extracted(key.0, entries[n - 1].1);
                if value.1 is Ok {
                    lemma_stated_grows(
                        value.0.without_child().without_child(),
                        Fact::MapEntry {
                            elem: value.0.parent_stack.last().0,
                            key: value.0.elem_stack[value.0.elem_stack.len() - 2],
                            value: value.0.elem_stack.last(),
                        },
                        kind,
                    );
                }
            }
        }
    }
}

/// The extraction of the first fields of a struct leaves the rows that
/// their values account for.
pub proof fn lemma_fields_done_grows(
    start: Step,
    fields: Seq<(String, Value)>,
    n: nat,
    kind: SymbolId,
)
    requires
        n <= fields.len(),
    ensures
        ({
            let done = DatalogExtractor::<Backend>::fields_done(start, fields, n);
            done.1 is Ok ==> {
                &&& start.1 is Ok
                &&& grew(start.0.backend, done.0.backend, kind, growth_of_fields(fields, n, kind))
                &&& count_of_fields(fields, n, SymbolId(0)) == 0
            }
        }),
    decreases fields, n,
{
    if n > 0 {
        lemma_fields_done_grows(start, fields, (n - 1) as nat, kind);
        let before = DatalogExtractor::<Backend>::fields_done(start, fields, (n - 1) as nat);
        if before.1 is Ok {
            lemma_extracted_grows(before.0, fields[n - 1].1, kind);
            let value = DatalogExtractor::<Backend>::extracted(before.0, fields[n - 1].1);
            if value.1 is Ok {
                lemma_stated_grows(
                    value.0.without_child(),
                    Fact::StructEntry {
                        elem: value.0.parent_stack.last().0,
                        key: fields[n - 1].0@,
                        value: value.0.elem_stack.last(),
                    },
                    kind,
                );
            }
        }
    }
}

/// After the extraction of a value into the in-memory backend, the rows of
/// the `type` relation of each type have grown by the elements of that
/// type, and the `bool`, `number` and `string` relations by one row for
/// each element of their type.
pub proof fn lemma_type_facts_by_kind(s: State, value: Value)
    ensures
        ({
            let step = DatalogExtractor::<Backend>::extracted(s, value);
            let before = s.backend;
            let after = step.0.backend;
            step.1 is Ok ==> {
                &&& after.types.len() == before.types.len() + value.elements()
                &&& after.bools.len() == before.bools.len() + value.count(SymbolId(1))
                &&& after.numbers.len() == before.numbers.len() + value.count(SymbolId(2))
                &&& after.strings.len() == before.strings.len() + value.count(SymbolId(3))
                &&& value.count(SymbolId(0)) == 0
                &&& forall|kind: SymbolId|
                    tally(after.types, kind) == tally(before.types, kind) + #[trigger] value.count(
                        kind,
                    )
            }
        }),
{
    let step = DatalogExtractor::<Backend>::extracted(s, value);
    if step.1 is Ok {
        lemma_extracted_grows(s, value, SymbolId(0));
        assert forall|kind: SymbolId|
            tally(step.0.backend.types, kind) == tally(s.backend.types, kind)
                + #[trigger] value.count(kind) by {
            lemma_extracted_grows(s, value, kind);
        }
    }
}

/// After the extraction of a value into the in-memory backend, the `type`
/// relation has grown by one row for each element of the value, and these
/// are as many as the new rows of the `bool`, `number` and `string`
/// relations and the elements of every other type together: the maps, the
/// sequences, the structs, the struct variants, the tuples, the tuple
/// structs, the tuple variants, the units, the unit structs and the unit
/// variants of the value.
pub proof fn lemma_type_facts_are_counted(s: State, value: Value)
    ensures
        ({
            let step = DatalogExtractor::<Backend>::extracted(s, value);
            let before = s.backend;
            let after = step.0.backend;
            step.1 is Ok ==> after.types.len() - before.types.len() == (after.bools.len()
                - before.bools.len()) + (after.numbers.len() - before.numbers.len()) + (
            after.strings.len() - before.strings.len()) + value.count(
                type_symbol(ElemType::Mapping),
            ) + value.count(type_symbol(ElemType::Sequence)) + value.count(
                type_symbol(ElemType::Struct),
            ) + value.count(type_symbol(ElemType::StructVariant)) + value.count(
                type_symbol(ElemType::Tuple),
            ) + value.count(type_symbol(ElemType::TupleStruct)) + value.count(
                type_symbol(ElemType::TupleVariant),
            ) + value.count(type_symbol(ElemType::Unit)) + value.count(
                type_symbol(ElemType::UnitStruct),
            ) + value.count(type_symbol(ElemType::UnitVariant))
        }),
{
    let step = DatalogExtractor::<Backend>::extracted(s, value);
    if step.1 is Ok {
        lemma_elements_by_kind(value);
        lemma_type_facts_by_kind(s, value);
        let count = |kind: SymbolId| value.count(kind);
        assert(value.elements() == sum_kinds(count));
        assert(value.elements() == count(SymbolId(0)) + count(SymbolId(1)) + count(SymbolId(2))
            + count(SymbolId(3)) + count(SymbolId(4)) + count(SymbolId(5)) + count(SymbolId(6))
            + count(SymbolId(7)) + count(SymbolId(8)) + count(SymbolId(9)) + count(SymbolId(10))
            + count(SymbolId(11)) + count(SymbolId(12)) + count(SymbolId(13)));
        assert(type_symbol(ElemType::Mapping) == SymbolId(4));
        assert(type_symbol(ElemType::Sequence) == SymbolId(5));
        assert(type_symbol(ElemType::Struct) == SymbolId(6));
        assert(type_symbol(ElemType::StructVariant) == SymbolId(7));
        assert(type_symbol(ElemType::Tuple) == SymbolId(8));
        assert(type_symbol(ElemType::TupleStruct) == SymbolId(9));
        assert(type_symbol(ElemType::TupleVariant) == SymbolId(10));
        assert(type_symbol(ElemType::Unit) == SymbolId(11));
        assert(type_symbol(ElemType::UnitStruct) == SymbolId(12));
        assert(type_symbol(ElemType::UnitVariant) == SymbolId(13));
    }
}

/// Whether the elements that were made between the states `before` and
/// `after` were numbered in order: the `type` relation has kept its rows and
/// has got one more for each identifier that was used up, and the new rows
/// are about the identifiers from the next one of `before` on, each one more
/// than the one before it.
pub open spec fn numbered(before: State, after: State) -> bool {
    let old_rows = before.backend.types;
    let new_rows = after.backend.types;
    &&& before.next_id <= after.next_id
    &&& new_rows.len() == old_rows.len() + (after.next_id - before.next_id)
    &&& forall|i: int| 0 <= i < old_rows.len() ==> #[trigger] new_rows[i] == old_rows[i]
    &&& forall|i: int|
        old_rows.len() <= i < new_rows.len() ==> (#[trigger] new_rows[i]).0.0 == before.next_id + (
        i - old_rows.len())
}

/// A fact that does not make an element leaves the numbering as it is.
pub proof fn lemma_stated_numbered(origin: State, step: Step, fact: Fact)
    requires
        !(fact is Elem),
        step.1 is Ok ==> numbered(origin, step.0),
    ensures
        ({
            let next = DatalogExtractor::<Backend>::and_then(step, fact);
            next.1 is Ok ==> numbered(origin, next.0)
        }),
{
}

/// A new element is numbered with the next identifier.
pub proof fn lemma_fresh_numbered(origin: State, s: State, elem_type: ElemType)
    requires
        s.can_allocate(),
        numbered(origin, s),
    ensures
        ({
            let made = DatalogExtractor::<Backend>::made(s, elem_type);
            let opened = DatalogExtractor::<Backend>::opened(s, elem_type);
            &&& made.1 is Ok ==> numbered(origin, made.0) && made.0.next_id == s.next_id + 1
            &&& opened.1 is Ok ==> numbered(origin, opened.0) && opened.0.next_id == s.next_id + 1
        }),
{
}

/// The elements of a value that is extracted into the in-memory backend are
/// numbered in order, without a gap and without a repetition: the rows that
/// the `type` relation gets are about the next identifier, the one after
/// it, and so on, one for each element of the value.
pub proof fn lemma_extracted_numbered(origin: State, s: State, value: Value)
    requires
        numbered(origin, s),
        s.next_id + value.elements() <= usize::MAX,
    ensures
        ({
            let step = DatalogExtractor::<Backend>::extracted(s, value);
            step.1 is Ok ==> {
                &&& numbered(origin, step.0)
                &&& step.0.next_id == s.next_id + value.elements()
            }
        }),
    decreases value,
{
    let id = ElemId(s.next_id);
    let ty = value.elem_type();
    match value {
        Value::Scalar(scalar) => {
            if scalar_fact(scalar, id) is Some {
                lemma_fresh_numbered(origin, s, ty);
                lemma_stated_numbered(
                    origin,
                    DatalogExtractor::<Backend>::made(s, ty),
                    scalar_fact(scalar, id)->Some_0,
                );
            }
        },
        Value::Unit(name) => {
            lemma_fresh_numbered(origin, s, ty);
            if name is Some {
                lemma_stated_numbered(
                    origin,
                    DatalogExtractor::<Backend>::made(s, ty),
                    name_fact(name->Some_0, id),
                );
            }
        },
        Value::Newtype(name, content) => {
            lemma_extracted_numbered(origin, s, *content);
            let inner = DatalogExtractor::<Backend>::extracted(s, *content);
            if inner.1 is Ok {
                let rest = inner.0.without_child();
                let wrapper = ElemId(rest.next_id);
                lemma_fresh_numbered(origin, rest, ty);
                let made = DatalogExtractor::<Backend>::made(rest, ty);
                lemma_stated_numbered(origin, made, name_fact(name, wrapper));
                lemma_stated_numbered(
                    origin,
                    DatalogExtractor::<Backend>::and_then(made, name_fact(name, wrapper)),
                    Fact::TupleEntry { elem: wrapper, pos: 0, value: inner.0.elem_stack.last() },
                );
            }
        },
        Value::Sequence(items) => {
            lemma_fresh_numbered(origin, s, ty);
            let start = DatalogExtractor::<Backend>::opened(s, ty);
            if start.1 is Ok {
                lemma_elements_numbered(origin, start, items@, items@.len(), ty);
            } else {
                DatalogExtractor::<Backend>::lemma_elements_stop(start, items@, 0, items@.len(), ty);
            }
        },
        Value::Tuple(name, items) => {
            lemma_fresh_numbered(origin, s, ty);
            let opened = DatalogExtractor::<Backend>::opened(s, ty);
            if name is Some {
                lemma_stated_numbered(origin, opened, name_fact(name->Some_0, id));
            }
            let start = DatalogExtractor::<Backend>::named(opened, name, id);
            if start.1 is Ok {
                lemma_elements_numbered(origin, start, items@, items@.len(), ty);
            } else {
                DatalogExtractor::<Backend>::lemma_elements_stop(start, items@, 0, items@.len(), ty);
            }
        },
        Value::Mapping(entries) => {
            lemma_fresh_numbered(origin, s, ty);
            let start = DatalogExtractor::<Backend>::opened(s, ty);
            if start.1 is Ok {
                lemma_entries_numbered(origin, start, entries@, entries@.len());
            } else {
                DatalogExtractor::<Backend>::lemma_entries_stop(start, entries@, 0, entries@.len());
            }
        },
        Value::Struct(name, fields) => {
            lemma_fresh_numbered(origin, s, ty);
            let opened = DatalogExtractor::<Backend>::opened(s, ty);
            lemma_stated_numbered(origin, opened, name_fact(name, id));
            let start = DatalogExtractor::<Backend>::named(opened, Some(name), id);
            if start.1 is Ok {
                lemma_fields_numbered(origin, start, fields@, fields@.len());
            } else {
                DatalogExtractor::<Backend>::lemma_fields_stop(start, fields@, 0, fields@.len());
            }
        },
    }
}

/// The elements of the first children of a sequence or a tuple are
/// numbered in order.
pub proof fn lemma_elements_numbered(
    origin: State,
    start: Step,
    items: Seq<Value>,
    n: nat,
    elem_type: ElemType,
)
    requires
        n <= items.len(),
        start.1 is Ok,
        numbered(origin, start.0),
        start.0.next_id + elements_of(items, items.len()) <= usize::MAX,
    ensures
        ({
            let done = DatalogExtractor::<Backend>::elements_done(start, items, n, elem_type);
            done.1 is Ok ==> {
                &&& numbered(origin, done.0)
                &&& done.0.next_id == start.0.next_id + elements_of(items, n)
            }
        }),
    decreases items, n,
{
    if n > 0 {
        crate::walk::lemma_elements_of_grows(items, n, items.len());
        lemma_elements_numbered(origin, start, items, (n - 1) as nat, elem_type);
        let before = DatalogExtractor::<Backend>::elements_done(
            start,
            items,
            (n - 1) as nat,
            elem_type,
        );
        if before.1 is Ok {
            lemma_extracted_numbered(origin, before.0, items[n - 1]);
            let item = DatalogExtractor::<Backend>::extracted(before.0, items[n - 1]);
            if item.1 is Ok {
                let (parent, pos) = item.0.parent_stack.last();
                lemma_stated_numbered(
                    origin,
                    (item.0.without_child(), Ok(())),
                    DatalogExtractor::<Backend>::position_fact(
                        elem_type,
                        parent,
                        pos,
                        item.0.elem_stack.last(),
                    ),
                );
            }
        }
    }
}

/// The elements of the first entries of a map are numbered in order.
pub proof fn lemma_entries_numbered(
    origin: State,
    start: Step,
    entries: Seq<(Value, Value)>,
    n: nat,
)
    requires
        n <= entries.len(),
        start.1 is Ok,
        numbered(origin, start.0),
        start.0.next_id + elements_of_entries(entries, entries.len()) <= usize::MAX,
    ensures
        ({
            let done = DatalogExtractor::<Backend>::entries_done(start, entries, n);
            done.1 is Ok ==> {
                &&& numbered(origin, done.0)
                &&& done.0.next_id == start.0.next_id + elements_of_entries(entries, n)
            }
        }),
    decreases entries, n,
{
    if n > 0 {
        crate::walk::lemma_elements_of_entries_grows(entries, n, entries.len());
        lemma_entries_numbered(origin, start, entries, (n - 1) as nat);
        let before = DatalogExtractor::<Backend>::entries_done(start, entries, (n - 1) as nat);
        if before.1 is Ok {
            lemma_extracted_numbered(origin, before.0, entries[n - 1].0);
            let key = DatalogExtractor::<Backend>::extracted(before.0, entries[n - 1].0);
            if key.1 is Ok {
                lemma_extracted_numbered(origin, key.0, entries[n - 1].1);
                let value = DatalogExtractor::<Backend>::extracted(key.0, entries[n - 1].1);
                if value.1 is Ok {
                    lemma_stated_numbered(
                        origin,
                        (value.0.without_child().without_child(), Ok(())),
                        Fact::MapEntry {
                            elem: value.0.parent_stack.last().0,
                            key: value.0.elem_stack[value.0.elem_stack.len() - 2],
                            value: value.0.elem_stack.last(),
                        },
                    );
                }
            }
        }
    }
}

/// The elements of the first fields of a struct are numbered in order.
pub proof fn lemma_fields_numbered(
    origin: State,
    start: Step,
    fields: Seq<(String, Value)>,
    n: nat,
)
    requires
        n <= fields.len(),
        start.1 is Ok,
        numbered(origin, start.0),
        start.0.next_id + elements_of_fields(fields, fields.len()) <= usize::MAX,
    ensures
        ({
            let done = DatalogExtractor::<Backend>::fields_done(start, fields, n);
            done.1 is Ok ==> {
                &&& numbered(origin, done.0)
                &&& done.0.next_id == start.0.next_id + elements_of_fields(fields, n)
            }
        }),
    decreases fields, n,
{
    if n > 0 {
        crate::walk::lemma_elements_of_fields_grows(fields, n, fields.len());
        lemma_fields_numbered(origin, start, fields, (n - 1) as nat);
        let before = DatalogExtractor::<Backend>::fields_done(start, fields, (n - 1) as nat);
        if before.1 is Ok {
            lemma_extracted_numbered(origin, before.0, fields[n - 1].1);
            let value = DatalogExtractor::<Backend>::extracted(before.0, fields[n - 1].1);
            if value.1 is Ok {
                lemma_stated_numbered(
                    origin,
                    (value.0.without_child(), Ok(())),
                    Fact::StructEntry {
                        elem: value.0.parent_stack.last().0,
                        key: fields[n - 1].0@,
                        value: value.0.elem_stack.last(),
                    },
                );
            }
        }
    }
}

/// The identifiers of one extraction are strictly increasing and never
/// repeat: after the extraction of a value into the in-memory backend, the
/// `type` relation has got one row for each element of the value, and the
/// row `k` of them is about the identifier that is `k` greater than the
/// first.
pub proof fn lemma_identifiers_in_order(s: State, value: Value)
    requires
        s.next_id + value.elements() <= usize::MAX,
    ensures
        ({
            let step = DatalogExtractor::<Backend>::extracted(s, value);
            let before = s.backend.types;
            let after = step.0.backend.types;
            step.1 is Ok ==> {
                &&& after.len() == before.len() + value.elements()
                &&& step.0.next_id == s.next_id + value.elements()
                &&& forall|k: int|
                    0 <= k < value.elements() ==> (#[trigger] after[before.len() + k]).0.0
                        == s.next_id + k
                &&& forall|j: int, k: int|
                    0 <= j < k < value.elements() ==> (#[trigger] after[before.len() + j]).0.0 < (
                    #[trigger] after[before.len() + k]).0.0
            }
        }),
{
    lemma_extracted_numbered(s, s, value);
}

} // verus!
