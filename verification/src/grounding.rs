//! Every element that a fact mentions has its own row in the `type`
//! relation: what the extractor states about an element, it states after it
//! has stated the element's shape.

use vstd::prelude::*;
use crate::backend::rows::has_key;
use crate::backend::symbols::SymbolId;
use crate::backend::vector::{type_symbol, Backend, DataModel};
use crate::census::{State, Step};
use crate::elem::{ElemId, ElemType};
use crate::extractor::{DatalogExtractor, ExtractorModel};
use crate::interface::Fact;
use crate::value::Value;
use crate::walk::{name_fact, newtype_type, scalar_fact, struct_type, tuple_type, unit_type};

verus! {

/// Whether `elem` has a row in the `type` relation.
pub open spec fn typed(m: DataModel<ElemId>, elem: ElemId) -> bool {
    has_key(m.types, elem)
}

/// Whether every element that a row of any relation mentions, as the element
/// that the row is about or as a key or a value, has a row in the `type`
/// relation.
pub open spec fn sound(m: DataModel<ElemId>) -> bool {
    &&& forall|i: int| 0 <= i < m.root_elems.len() ==> typed(m, (#[trigger] m.root_elems[i]).1)
    &&& forall|i: int| 0 <= i < m.bools.len() ==> typed(m, (#[trigger] m.bools[i]).0)
    &&& forall|i: int| 0 <= i < m.numbers.len() ==> typed(m, (#[trigger] m.numbers[i]).0)
    &&& forall|i: int| 0 <= i < m.strings.len() ==> typed(m, (#[trigger] m.strings[i]).0)
    &&& forall|i: int|
        0 <= i < m.maps.len() ==> typed(m, (#[trigger] m.maps[i]).0.0) && typed(m, m.maps[i].0.1)
            && typed(m, m.maps[i].1)
    &&& forall|i: int|
        0 <= i < m.struct_types.len() ==> typed(m, (#[trigger] m.struct_types[i]).0)
    &&& forall|i: int|
        0 <= i < m.structs.len() ==> typed(m, (#[trigger] m.structs[i]).0.0) && typed(
            m,
            m.structs[i].1,
        )
    &&& forall|i: int|
        0 <= i < m.seqs.len() ==> typed(m, (#[trigger] m.seqs[i]).0.0) && typed(m, m.seqs[i].1)
    &&& forall|i: int|
        0 <= i < m.variant_types.len() ==> typed(m, (#[trigger] m.variant_types[i]).0)
    &&& forall|i: int|
        0 <= i < m.tuples.len() ==> typed(m, (#[trigger] m.tuples[i]).0.0) && typed(
            m,
            m.tuples[i].1,
        )
}

/// Whether the tables are sound and every element on the two stacks has a
/// row in the `type` relation.
pub open spec fn grounded(s: State) -> bool {
    &&& sound(s.backend)
    &&& forall|i: int| 0 <= i < s.elem_stack.len() ==> typed(s.backend, #[trigger] s.elem_stack[i])
    &&& forall|i: int|
        0 <= i < s.parent_stack.len() ==> typed(s.backend, (#[trigger] s.parent_stack[i]).0)
}

/// Whether every element that `fact` mentions has a row in the `type`
/// relation.
pub open spec fn mentions_typed(m: DataModel<ElemId>, fact: Fact) -> bool {
    match fact {
        Fact::RootElem { file, elem } => typed(m, elem),
        Fact::Elem { elem, elem_type } => true,
        Fact::Bool { elem, value } => typed(m, elem),
        Fact::I64 { elem, value } => typed(m, elem),
        Fact::U64 { elem, value } => typed(m, elem),
        Fact::Str { elem, value } => typed(m, elem),
        Fact::MapEntry { elem, key, value } => typed(m, elem) && typed(m, key) && typed(m, value),
        Fact::StructType { elem, struct_name } => typed(m, elem),
        Fact::StructEntry { elem, key, value } => typed(m, elem) && typed(m, value),
        Fact::SeqEntry { elem, pos, value } => typed(m, elem) && typed(m, value),
        Fact::VariantType { elem, enum_name, variant_name } => typed(m, elem),
        Fact::TupleEntry { elem, pos, value } => typed(m, elem) && typed(m, value),
    }
}

/// A row more in the `type` relation leaves every element that had one with
/// one.
pub proof fn lemma_typed_stays(m: DataModel<ElemId>, row: (ElemId, SymbolId), elem: ElemId)
    requires
        typed(m, elem) || elem == row.0,
    ensures
        typed(DataModel { types: m.types.push(row), ..m }, elem),
{
    let after = m.types.push(row);
    if typed(m, elem) {
        let i = choose|i: int| 0 <= i < m.types.len() && (#[trigger] m.types[i]).0 == elem;
        assert(after[i].0 == elem);
    } else {
        assert(after[m.types.len() as int].0 == elem);
    }
}

/// A fact about elements that all have a type keeps the state grounded,
/// whether the backend takes it or not.
pub proof fn lemma_stated_grounded(s: State, fact: Fact)
    requires
        grounded(s),
        !(fact is Elem),
        mentions_typed(s.backend, fact),
    ensures
        grounded(DatalogExtractor::<Backend>::stated(s, fact).0),
        DatalogExtractor::<Backend>::stated(s, fact).0.backend.types == s.backend.types,
{
}

/// A run of steps followed by a fact about elements that all have a type
/// stays grounded.
pub proof fn lemma_and_then_grounded(step: Step, fact: Fact)
    requires
        grounded(step.0),
        !(fact is Elem),
        step.1 is Ok ==> mentions_typed(step.0.backend, fact),
    ensures
        grounded(DatalogExtractor::<Backend>::and_then(step, fact).0),
        DatalogExtractor::<Backend>::and_then(step, fact).0.elem_stack == step.0.elem_stack,
        DatalogExtractor::<Backend>::and_then(step, fact).0.parent_stack == step.0.parent_stack,
        DatalogExtractor::<Backend>::and_then(step, fact).0.next_id == step.0.next_id,
{
    if step.1 is Ok {
        lemma_stated_grounded(step.0, fact);
    }
}

/// A new element keeps the state grounded: it has its type before anything
/// else is stated about it.
pub proof fn lemma_fresh_grounded(s: State, elem_type: ElemType)
    requires
        grounded(s),
    ensures
        ({
            let (made, r) = DatalogExtractor::<Backend>::fresh(s, elem_type);
            &&& grounded(made)
            &&& made.parent_stack == s.parent_stack
            &&& r is Ok ==> {
                &&& made.elem_stack == s.elem_stack.push(ElemId(s.next_id))
                &&& typed(made.backend, ElemId(s.next_id))
            }
            &&& forall|elem: ElemId| typed(s.backend, elem) ==> typed(made.backend, elem)
        }),
{
    let id = ElemId(s.next_id);
    let (typed_state, r) = DatalogExtractor::<Backend>::stated(s, Fact::Elem { elem: id, elem_type });
    let fresh = DatalogExtractor::<Backend>::fresh(s, elem_type).0;
    if r is Ok {
        let row = (id, type_symbol(elem_type));
        assert(typed_state.backend == (DataModel { types: s.backend.types.push(row), ..s.backend }));
        assert forall|elem: ElemId| typed(s.backend, elem) || elem == id implies typed(
            typed_state.backend,
            elem,
        ) by {
            lemma_typed_stays(s.backend, row, elem);
        }
        let made = ExtractorModel {
            next_id: (s.next_id + 1) as usize,
            elem_stack: s.elem_stack.push(id),
            ..typed_state
        };
        assert(grounded(made)) by {
            assert forall|i: int| 0 <= i < made.elem_stack.len() implies typed(
                made.backend,
                #[trigger] made.elem_stack[i],
            ) by {
                if i < s.elem_stack.len() {
                    assert(made.elem_stack[i] == s.elem_stack[i]);
                }
            }
        }
        if s.cur_file is Some {
            let fact = Fact::RootElem { file: s.cur_file->Some_0, elem: id };
            lemma_stated_grounded(made, fact);
            let rooted = DatalogExtractor::<Backend>::stated(made, fact).0;
            lemma_typed_stays(s.backend, row, id);
            assert(typed(made.backend, id));
            assert(typed(rooted.backend, id));
            assert(grounded(ExtractorModel { cur_file: None, ..rooted }));
        }
        assert(fresh.backend.types == typed_state.backend.types);
    } else {
        assert(typed_state.backend == s.backend);
    }
}

/// The state without the element that waits for a parent is grounded, and
/// that element has a type.
pub proof fn lemma_without_child_grounded(s: State)
    requires
        grounded(s),
        s.elem_stack.len() > 0,
    ensures
        grounded(s.without_child()),
        typed(s.backend, s.elem_stack.last()),
        s.without_child().elem_stack.len() == s.elem_stack.len() - 1,
{
    let rest = s.without_child();
    assert forall|i: int| 0 <= i < rest.elem_stack.len() implies typed(
        rest.backend,
        #[trigger] rest.elem_stack[i],
    ) by {
        assert(rest.elem_stack[i] == s.elem_stack[i]);
    }
    assert(s.elem_stack[s.elem_stack.len() - 1] == s.elem_stack.last());
}

/// One child more for the innermost open container, or one open container
/// less, leaves the state grounded.
pub proof fn lemma_frames_grounded(s: State)
    requires
        grounded(s),
        s.parent_stack.len() > 0,
    ensures
        grounded(s.advanced()),
        grounded(DatalogExtractor::<Backend>::closed(s)),
        typed(s.backend, s.parent_stack.last().0),
{
    let advanced = s.advanced();
    assert forall|i: int| 0 <= i < advanced.parent_stack.len() implies typed(
        advanced.backend,
        (#[trigger] advanced.parent_stack[i]).0,
    ) by {
        assert(advanced.parent_stack[i].0 == s.parent_stack[i].0);
    }
    let closed = DatalogExtractor::<Backend>::closed(s);
    assert forall|i: int| 0 <= i < closed.parent_stack.len() implies typed(
        closed.backend,
        (#[trigger] closed.parent_stack[i]).0,
    ) by {
        assert(closed.parent_stack[i] == s.parent_stack[i]);
    }
    assert(s.parent_stack[s.parent_stack.len() - 1] == s.parent_stack.last());
}

/// A new element without children, named or with the value of a scalar,
/// leaves the state grounded.
pub proof fn lemma_made_grounded(s: State, elem_type: ElemType, fact: Option<Fact>)
    requires
        grounded(s),
        fact matches Some(fact) ==> !(fact is Elem) && (typed(
            DatalogExtractor::<Backend>::made(s, elem_type).0.backend,
            ElemId(s.next_id),
        ) ==> mentions_typed(DatalogExtractor::<Backend>::made(s, elem_type).0.backend, fact)),
    ensures
        ({
            let made = DatalogExtractor::<Backend>::made(s, elem_type);
            let step = match fact {
                Some(fact) => DatalogExtractor::<Backend>::and_then(made, fact),
                None => made,
            };
            &&& grounded(step.0)
            &&& step.0.parent_stack == s.parent_stack
            &&& step.1 is Ok ==> step.0.elem_stack == s.elem_stack.push(ElemId(s.next_id))
            &&& forall|elem: ElemId| typed(s.backend, elem) ==> typed(step.0.backend, elem)
        }),
{
    lemma_fresh_grounded(s, elem_type);
    let made = DatalogExtractor::<Backend>::made(s, elem_type);
    if fact is Some {
        lemma_and_then_grounded(made, fact->Some_0);
        if made.1 is Ok {
            lemma_stated_grounded(made.0, fact->Some_0);
        }
    }
}

/// A new container, named or not, leaves the state grounded.
pub proof fn lemma_opened_grounded(s: State, elem_type: ElemType, fact: Option<Fact>)
    requires
        grounded(s),
        fact matches Some(fact) ==> !(fact is Elem) && (typed(
            DatalogExtractor::<Backend>::opened(s, elem_type).0.backend,
            ElemId(s.next_id),
        ) ==> mentions_typed(DatalogExtractor::<Backend>::opened(s, elem_type).0.backend, fact)),
    ensures
        ({
            let opened = DatalogExtractor::<Backend>::opened(s, elem_type);
            let step = match fact {
                Some(fact) => DatalogExtractor::<Backend>::and_then(opened, fact),
                None => opened,
            };
            &&& grounded(step.0)
            &&& step.1 is Ok ==> {
                &&& step.0.elem_stack == s.elem_stack.push(ElemId(s.next_id))
                &&& step.0.parent_stack == s.parent_stack.push((ElemId(s.next_id), 0usize))
            }
        }),
{
    lemma_fresh_grounded(s, elem_type);
    let id = ElemId(s.next_id);
    let (made, r) = DatalogExtractor::<Backend>::fresh(s, elem_type);
    let opened = DatalogExtractor::<Backend>::opened(s, elem_type);
    if r is Ok {
        assert forall|i: int| 0 <= i < opened.0.parent_stack.len() implies typed(
            opened.0.backend,
            (#[trigger] opened.0.parent_stack[i]).0,
        ) by {
            if i < s.parent_stack.len() {
                assert(opened.0.parent_stack[i] == made.parent_stack[i]);
            }
        }
    }
    if fact is Some {
        lemma_and_then_grounded(opened, fact->Some_0);
    }
}

/// The extraction of a value into the in-memory backend leaves every
/// element that a fact mentions with a row in the `type` relation, whether
/// the extraction succeeds or stops at an error. After a success one element
/// more waits for a parent, and the open containers are as many as before.
pub proof fn lemma_extracted_grounded(s: State, value: Value)
    requires
        grounded(s),
    ensures
        ({
            let step = DatalogExtractor::<Backend>::extracted(s, value);
            &&& grounded(step.0)
            &&& step.1 is Ok ==> {
                &&& step.0.elem_stack.len() == s.elem_stack.len() + 1
                &&& step.0.parent_stack.len() == s.parent_stack.len()
            }
        }),
    decreases value,
{
    let id = ElemId(s.next_id);
    match value {
        Value::Scalar(scalar) => {
            if scalar_fact(scalar, id) is Some {
                lemma_made_grounded(s, scalar.elem_type(), scalar_fact(scalar, id));
            }
        },
        Value::Unit(name) => {
            lemma_made_grounded(
                s,
                unit_type(name),
                if name is Some {
                    Some(name_fact(name->Some_0, id))
                } else {
                    None
                },
            );
        },
        Value::Newtype(name, content) => {
            lemma_extracted_grounded(s, *content);
            let inner = DatalogExtractor::<Backend>::extracted(s, *content);
            if inner.1 is Ok {
                lemma_without_child_grounded(inner.0);
                let child = inner.0.elem_stack.last();
                let rest = inner.0.without_child();
                let wrapper = ElemId(rest.next_id);
                let ty = newtype_type(name);
                lemma_made_grounded(rest, ty, Some(name_fact(name, wrapper)));
                let made = DatalogExtractor::<Backend>::made(rest, ty);
                let named = DatalogExtractor::<Backend>::and_then(made, name_fact(name, wrapper));
                if named.1 is Ok {
                    lemma_fresh_grounded(rest, ty);
                    assert(typed(named.0.backend, child));
                    assert(named.0.elem_stack.last() == wrapper);
                    lemma_without_child_grounded(named.0);
                }
                lemma_and_then_grounded(
                    named,
                    Fact::TupleEntry { elem: wrapper, pos: 0, value: child },
                );
            }
        },
        Value::Sequence(items) => {
            lemma_opened_grounded(s, ElemType::Sequence, None);
            let start = DatalogExtractor::<Backend>::opened(s, ElemType::Sequence);
            lemma_elements_grounded(start, items@, items@.len(), ElemType::Sequence);
            let done = DatalogExtractor::<Backend>::elements_done(
                start,
                items@,
                items@.len(),
                ElemType::Sequence,
            );
            if done.1 is Ok {
                lemma_frames_grounded(done.0);
            }
        },
        Value::Tuple(name, items) => {
            let ty = tuple_type(name);
            lemma_opened_grounded(
                s,
                ty,
                if name is Some {
                    Some(name_fact(name->Some_0, id))
                } else {
                    None
                },
            );
            let start = DatalogExtractor::<Backend>::named(
                DatalogExtractor::<Backend>::opened(s, ty),
                name,
                id,
            );
            lemma_elements_grounded(start, items@, items@.len(), ty);
            let done = DatalogExtractor::<Backend>::elements_done(start, items@, items@.len(), ty);
            if done.1 is Ok {
                lemma_frames_grounded(done.0);
            }
        },
        Value::Mapping(entries) => {
            lemma_opened_grounded(s, ElemType::Mapping, None);
            let start = DatalogExtractor::<Backend>::opened(s, ElemType::Mapping);
            lemma_entries_grounded(start, entries@, entries@.len());
            let done = DatalogExtractor::<Backend>::entries_done(start, entries@, entries@.len());
            if done.1 is Ok {
                lemma_frames_grounded(done.0);
            }
        },
        Value::Struct(name, fields) => {
            let ty = struct_type(name);
            lemma_opened_grounded(s, ty, Some(name_fact(name, id)));
            let start = DatalogExtractor::<Backend>::named(
                DatalogExtractor::<Backend>::opened(s, ty),
                Some(name),
                id,
            );
            lemma_fields_grounded(start, fields@, fields@.len());
            let done = DatalogExtractor::<Backend>::fields_done(start, fields@, fields@.len());
            if done.1 is Ok {
                lemma_frames_grounded(done.0);
            }
        },
    }
}

/// The extraction of the first children of a sequence or a tuple leaves the
/// state grounded.
pub proof fn lemma_elements_grounded(start: Step, items: Seq<Value>, n: nat, elem_type: ElemType)
    requires
        n <= items.len(),
        grounded(start.0),
        start.1 is Ok ==> start.0.parent_stack.len() > 0,
    ensures
        ({
            let done = DatalogExtractor::<Backend>::elements_done(start, items, n, elem_type);
            &&& grounded(done.0)
            &&& done.1 is Ok ==> {
                &&& start.1 is Ok
                &&& done.0.elem_stack.len() == start.0.elem_stack.len()
                &&& done.0.parent_stack.len() == start.0.parent_stack.len()
            }
        }),
    decreases items, n,
{
    if n > 0 {
        lemma_elements_grounded(start, items, (n - 1) as nat, elem_type);
        let before = DatalogExtractor::<Backend>::elements_done(
            start,
            items,
            (n - 1) as nat,
            elem_type,
        );
        if before.1 is Ok {
            lemma_extracted_grounded(before.0, items[n - 1]);
            let item = DatalogExtractor::<Backend>::extracted(before.0, items[n - 1]);
            if item.1 is Ok {
                lemma_without_child_grounded(item.0);
                lemma_frames_grounded(item.0);
                let (parent, pos) = item.0.parent_stack.last();
                let fact = DatalogExtractor::<Backend>::position_fact(
                    elem_type,
                    parent,
                    pos,
                    item.0.elem_stack.last(),
                );
                lemma_stated_grounded(item.0.without_child(), fact);
                let linked = DatalogExtractor::<Backend>::stated(item.0.without_child(), fact);
                if linked.1 is Ok {
                    lemma_frames_grounded(linked.0);
                }
            }
        }
    }
}

/// The extraction of the first entries of a map leaves the state grounded.
pub proof fn lemma_entries_grounded(start: Step, entries: Seq<(Value, Value)>, n: nat)
    requires
        n <= entries.len(),
        grounded(start.0),
        start.1 is Ok ==> start.0.parent_stack.len() > 0,
    ensures
        ({
            let done = DatalogExtractor::<Backend>::entries_done(start, entries, n);
            &&& grounded(done.0)
            &&& done.1 is Ok ==> {
                &&& start.1 is Ok
                &&& done.0.elem_stack.len() == start.0.elem_stack.len()
                &&& done.0.parent_stack.len() == start.0.parent_stack.len()
            }
        }),
    decreases entries, n,
{
    if n > 0 {
        lemma_entries_grounded(start, entries, (n - 1) as nat);
        let before = DatalogExtractor::<Backend>::entries_done(start, entries, (n - 1) as nat);
        if before.1 is Ok {
            lemma_extracted_grounded(before.0, entries[n - 1].0);
            let key = DatalogExtractor::<Backend>::extracted(before.0, entries[n - 1].0);
            if key.1 is Ok {
                lemma_extracted_grounded(key.0, entries[n - 1].1);
                let value = DatalogExtractor::<Backend>::extracted(key.0, entries[n - 1].1);
                if value.1 is Ok {
                    lemma_without_child_grounded(value.0);
                    lemma_without_child_grounded(value.0.without_child());
                    lemma_frames_grounded(value.0);
                    let fact = Fact::MapEntry {
                        elem: value.0.parent_stack.last().0,
                        key: value.0.elem_stack[value.0.elem_stack.len() - 2],
                        value: value.0.elem_stack.last(),
                    };
                    assert(value.0.without_child().elem_stack.last()
                        == value.0.elem_stack[value.0.elem_stack.len() - 2]);
                    let rest = value.0.without_child().without_child();
                    lemma_stated_grounded(rest, fact);
                    let linked = DatalogExtractor::<Backend>::stated(rest, fact);
                    if linked.1 is Ok {
                        lemma_frames_grounded(linked.0);
                    }
                }
            }
        }
    }
}

/// The extraction of the first fields of a struct leaves the state
/// grounded.
pub proof fn lemma_fields_grounded(start: Step, fields: Seq<(String, Value)>, n: nat)
    requires
        n <= fields.len(),
        grounded(start.0),
        start.1 is Ok ==> start.0.parent_stack.len() > 0,
    ensures
        ({
            let done = DatalogExtractor::<Backend>::fields_done(start, fields, n);
            &&& grounded(done.0)
            &&& done.1 is Ok ==> {
                &&& start.1 is Ok
                &&& done.0.elem_stack.len() == start.0.elem_stack.len()
                &&& done.0.parent_stack.len() == start.0.parent_stack.len()
            }
        }),
    decreases fields, n,
{
    if n > 0 {
        lemma_fields_grounded(start, fields, (n - 1) as nat);
        let before = DatalogExtractor::<Backend>::fields_done(start, fields, (n - 1) as nat);
        if before.1 is Ok {
            lemma_extracted_grounded(before.0, fields[n - 1].1);
            let value = DatalogExtractor::<Backend>::extracted(before.0, fields[n - 1].1);
            if value.1 is Ok {
                lemma_without_child_grounded(value.0);
                lemma_frames_grounded(value.0);
                lemma_stated_grounded(
                    value.0.without_child(),
                    Fact::StructEntry {
                        elem: value.0.parent_stack.last().0,
                        key: fields[n - 1].0@,
                        value: value.0.elem_stack.last(),
                    },
                );
            }
        }
    }
}

/// A new extractor over a new backend is grounded: there is no fact yet.
pub proof fn lemma_initial_grounded()
    ensures
        grounded(ExtractorModel::initial(DataModel::<ElemId>::initial())),
{
}

} // verus!
