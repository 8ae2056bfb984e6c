//! The order of identifiers along the tree of a value: the state of the
//! extractor after the extraction of a whole value, and the order between
//! the two elements of every row that links a child to its parent.

use vstd::prelude::*;
use crate::backend::vector::{Backend, DataModel};
use crate::census::{State, Step};
use crate::elem::{ElemId, ElemType};
use crate::error::ErrorModel;
use crate::extractor::{
    children_linked, lemma_children_linked_advance, lemma_children_linked_push,
    lemma_container_precedes_child, lemma_container_precedes_entry, lemma_wrapper_follows_child,
    DatalogExtractor, ExtractorModel,
};
use crate::interface::{DatalogExtractorBackend, Fact};
use crate::value::{elements_of, elements_of_entries, elements_of_fields, Value};
use crate::walk::{
    filled, lemma_elements_of_entries_grows, lemma_elements_of_fields_grows,
    lemma_elements_of_grows, name_fact, newtype_type, scalar_fact, settled, struct_type,
    tuple_type, unit_type,
};

verus! {

/// One child more for the innermost open container keeps the invariant of
/// the stacks, where an element has been taken off the element stack for it.
pub proof fn lemma_advanced_wf<M>(s: ExtractorModel<M>)
    requires
        s.wf(),
        s.in_container(),
        children_linked(s.parent_stack) + s.elem_stack.len() + 1 < s.next_id,
    ensures
        s.advanced().wf(),
        s.advanced().parent_stack.last() == (
            s.parent_stack.last().0,
            (s.parent_stack.last().1 + 1) as usize,
        ),
        s.parent_stack.last().1 + 1 < s.next_id,
        s.advanced().parent_stack.drop_last() == s.parent_stack.drop_last(),
{
    let pos = s.parent_stack.last().1;
    lemma_children_linked_advance(s.parent_stack, (pos + 1) as usize);
    let after = s.advanced();
    assert(after.parent_stack.drop_last() =~= s.parent_stack.drop_last());
    assert forall|k: int| 0 <= k < after.parent_stack.len() implies after.elem_stack.contains(
        (#[trigger] after.parent_stack[k]).0,
    ) by {
        assert(after.parent_stack[k].0 == s.parent_stack[k].0);
    }
    assert forall|i: int, j: int| 0 <= i < j < after.parent_stack.len() implies (
    #[trigger] after.parent_stack[i]).0.0 < (#[trigger] after.parent_stack[j]).0.0 by {
        assert(after.parent_stack[i].0 == s.parent_stack[i].0);
        assert(after.parent_stack[j].0 == s.parent_stack[j].0);
    }
}

/// Closing the innermost open container keeps the invariant of the stacks.
pub proof fn lemma_closed_wf<M>(s: ExtractorModel<M>)
    requires
        s.wf(),
        s.in_container(),
    ensures
        (ExtractorModel { parent_stack: s.parent_stack.drop_last(), ..s }).wf(),
{
    lemma_children_linked_advance(s.parent_stack, s.parent_stack.last().1);
    let after = ExtractorModel { parent_stack: s.parent_stack.drop_last(), ..s };
    assert forall|k: int| 0 <= k < after.parent_stack.len() implies after.elem_stack.contains(
        (#[trigger] after.parent_stack[k]).0,
    ) by {
        assert(after.parent_stack[k] == s.parent_stack[k]);
    }
}

/// Opening the element that was made last as a container keeps the
/// invariant of the stacks, where it was made after every open container.
pub proof fn lemma_opened_wf<M>(s: ExtractorModel<M>)
    requires
        s.wf(),
        s.elem_stack.len() > 0,
        forall|k: int|
            0 <= k < s.parent_stack.len() ==> (#[trigger] s.parent_stack[k]).0.0
                < s.elem_stack.last().0,
    ensures
        (ExtractorModel {
            parent_stack: s.parent_stack.push((s.elem_stack.last(), 0usize)),
            ..s
        }).wf(),
{
    let id = s.elem_stack.last();
    lemma_children_linked_push(s.parent_stack, id);
    let after = ExtractorModel { parent_stack: s.parent_stack.push((id, 0usize)), ..s };
    assert(s.elem_stack[s.elem_stack.len() - 1] == id);
    assert forall|k: int| 0 <= k < after.parent_stack.len() implies after.elem_stack.contains(
        (#[trigger] after.parent_stack[k]).0,
    ) by {
        if k < s.parent_stack.len() {
            assert(after.parent_stack[k] == s.parent_stack[k]);
        }
    }
    assert forall|i: int, j: int| 0 <= i < j < after.parent_stack.len() implies (
    #[trigger] after.parent_stack[i]).0.0 < (#[trigger] after.parent_stack[j]).0.0 by {
        assert(after.parent_stack[i] == s.parent_stack[i]);
        if j < s.parent_stack.len() {
            assert(after.parent_stack[j] == s.parent_stack[j]);
        }
    }
}

impl<B: DatalogExtractorBackend> DatalogExtractor<B> {
    /// A new container keeps the invariant of the stacks; where it is
    /// opened, it is on top of both stacks.
    pub proof fn lemma_opened_settled(
        s: ExtractorModel<B::Model>,
        elem_type: ElemType,
        fact: Option<Fact>,
    )
        requires
            s.wf(),
            s.can_allocate(),
        ensures
            ({
                let step = match fact {
                    Some(fact) => Self::and_then(Self::opened(s, elem_type), fact),
                    None => Self::opened(s, elem_type),
                };
                &&& step.0.wf()
                &&& s.next_id <= step.0.next_id <= s.next_id + 1
                &&& step.1 is Ok ==> {
                    &&& step.0.next_id == s.next_id + 1
                    &&& step.0.elem_stack == s.elem_stack.push(ElemId(s.next_id))
                    &&& step.0.parent_stack == s.parent_stack.push((ElemId(s.next_id), 0usize))
                }
            }),
    {
        Self::lemma_identifiers_increase(s, elem_type);
        let (made, r) = Self::fresh(s, elem_type);
        if r is Ok {
            assert(made.elem_stack.last() == ElemId(s.next_id));
            lemma_opened_wf(made);
        }
    }

    /// A new element without children keeps the invariant of the stacks.
    pub proof fn lemma_made_wf(s: ExtractorModel<B::Model>, elem_type: ElemType, fact: Option<Fact>)
        requires
            s.wf(),
            s.can_allocate(),
        ensures
            ({
                let step = match fact {
                    Some(fact) => Self::and_then(Self::made(s, elem_type), fact),
                    None => Self::made(s, elem_type),
                };
                &&& step.0.wf()
                &&& settled(s, step.0, step.1 is Ok, 1)
            }),
    {
        Self::lemma_identifiers_increase(s, elem_type);
        Self::lemma_made_settled(s, elem_type, fact);
    }

    /// A wrapper keeps the invariant of the stacks; where it is made, it
    /// takes the place of its child on the element stack.
    pub proof fn lemma_wrapped_settled(s: ExtractorModel<B::Model>, elem_type: ElemType, name: Fact)
        requires
            s.wf(),
            s.can_allocate(),
            s.has_child(),
        ensures
            ({
                let step = Self::wrapped(s, elem_type, name);
                &&& step.0.wf()
                &&& s.next_id <= step.0.next_id <= s.next_id + 1
                &&& step.1 is Ok ==> {
                    &&& step.0.next_id == s.next_id + 1
                    &&& step.0.parent_stack == s.parent_stack
                    &&& step.0.elem_stack == s.elem_stack.drop_last().push(ElemId(s.next_id))
                }
            }),
    {
        lemma_wrapper_follows_child(s);
        Self::lemma_identifiers_increase(s.without_child(), elem_type);
    }

    /// Linking a child by position keeps the invariant of the stacks; where
    /// the entry is taken, the child has left the element stack and its
    /// parent counts one child more.
    pub proof fn lemma_element_settled(s: ExtractorModel<B::Model>, elem_type: ElemType)
        requires
            s.wf(),
            s.in_container(),
            s.has_child(),
        ensures
            ({
                let step = Self::element(s, elem_type);
                &&& step.0.wf()
                &&& step.0.next_id == s.next_id
                &&& step.1 is Ok ==> filled(s.without_child(), step.0, true, 0, 1)
            }),
    {
        lemma_container_precedes_child(s);
        let rest = s.without_child();
        let (parent, pos) = s.parent_stack.last();
        let linked = Self::stated(
            rest,
            Self::position_fact(elem_type, parent, pos, s.elem_stack.last()),
        );
        if linked.1 is Ok {
            lemma_advanced_wf(linked.0);
        }
    }

    /// Linking a child by the name of a field keeps the invariant of the
    /// stacks.
    pub proof fn lemma_field_settled(s: ExtractorModel<B::Model>, key: Seq<char>)
        requires
            s.wf(),
            s.in_container(),
            s.has_child(),
        ensures
            ({
                let step = Self::field(s, key);
                &&& step.0.wf()
                &&& step.0.next_id == s.next_id
                &&& step.0.elem_stack == s.elem_stack.drop_last()
                &&& step.0.parent_stack == s.parent_stack
            }),
    {
        lemma_container_precedes_child(s);
    }

    /// Linking a key and a value to a map keeps the invariant of the
    /// stacks; where the entry is taken, the two have left the element stack
    /// and the map counts one entry more.
    pub proof fn lemma_entry_settled(s: ExtractorModel<B::Model>)
        requires
            s.wf(),
            s.has_entry(),
        ensures
            ({
                let step = Self::entry(s);
                &&& step.0.wf()
                &&& step.0.next_id == s.next_id
                &&& step.1 is Ok ==> filled(s.without_child().without_child(), step.0, true, 0, 1)
            }),
    {
        lemma_container_precedes_entry(s);
        let rest = s.without_child().without_child();
        let linked = Self::stated(
            rest,
            Fact::MapEntry {
                elem: s.parent_stack.last().0,
                key: s.elem_stack[s.elem_stack.len() - 2],
                value: s.elem_stack.last(),
            },
        );
        if linked.1 is Ok {
            lemma_advanced_wf(linked.0);
        }
    }

    /// The extraction of a value keeps the invariant of the stacks, however
    /// it ends. Identifiers are only used up, at most one for each element
    /// of the value; after a success each element has got one, the open
    /// containers are as they were, and the element for the value itself,
    /// made during the extraction, waits for a parent.
    pub proof fn lemma_extracted_settled(s: ExtractorModel<B::Model>, value: Value)
        requires
            s.wf(),
            s.next_id + value.elements() <= usize::MAX,
        ensures
            ({
                let step = Self::extracted(s, value);
                &&& step.0.wf()
                &&& settled(s, step.0, step.1 is Ok, value.elements())
            }),
        decreases value,
    {
        let id = ElemId(s.next_id);
        match value {
            Value::Scalar(scalar) => {
                if scalar_fact(scalar, id) is Some {
                    Self::lemma_made_wf(s, scalar.elem_type(), scalar_fact(scalar, id));
                }
            },
            Value::Unit(name) => {
                Self::lemma_made_wf(
                    s,
                    unit_type(name),
                    if name is Some {
                        Some(name_fact(name->Some_0, id))
                    } else {
                        None
                    },
                );
            },
            Value::Newtype(name, content) => {
                Self::lemma_extracted_settled(s, *content);
                let inner = Self::extracted(s, *content);
                if inner.1 is Ok {
                    Self::lemma_has_child(s, inner.0);
                    Self::lemma_wrapped_settled(
                        inner.0,
                        newtype_type(name),
                        name_fact(name, ElemId(inner.0.next_id)),
                    );
                    let step = Self::wrapped(
                        inner.0,
                        newtype_type(name),
                        name_fact(name, ElemId(inner.0.next_id)),
                    );
                    if step.1 is Ok {
                        assert(step.0.elem_stack.drop_last() =~= s.elem_stack);
                    }
                }
            },
            Value::Sequence(items) => {
                Self::lemma_opened_settled(s, ElemType::Sequence, None);
                let start = Self::opened(s, ElemType::Sequence);
                Self::lemma_elements_settled(start, items@, items@.len(), ElemType::Sequence);
                let done = Self::elements_done(start, items@, items@.len(), ElemType::Sequence);
                if done.1 is Ok {
                    Self::lemma_finished_settled(s, start.0, done.0, elements_of(items@, items@.len()), items@.len());
                }
            },
            Value::Tuple(name, items) => {
                let ty = tuple_type(name);
                Self::lemma_opened_settled(
                    s,
                    ty,
                    if name is Some {
                        Some(name_fact(name->Some_0, id))
                    } else {
                        None
                    },
                );
                let start = Self::named(Self::opened(s, ty), name, id);
                Self::lemma_elements_settled(start, items@, items@.len(), ty);
                let done = Self::elements_done(start, items@, items@.len(), ty);
                if done.1 is Ok {
                    Self::lemma_finished_settled(s, start.0, done.0, elements_of(items@, items@.len()), items@.len());
                }
            },
            Value::Mapping(entries) => {
                Self::lemma_opened_settled(s, ElemType::Mapping, None);
                let start = Self::opened(s, ElemType::Mapping);
                Self::lemma_entries_settled(start, entries@, entries@.len());
                let done = Self::entries_done(start, entries@, entries@.len());
                if done.1 is Ok {
                    Self::lemma_finished_settled(
                        s,
                        start.0,
                        done.0,
                        elements_of_entries(entries@, entries@.len()),
                        entries@.len(),
                    );
                }
            },
            Value::Struct(name, fields) => {
                let ty = struct_type(name);
                Self::lemma_opened_settled(s, ty, Some(name_fact(name, id)));
                let start = Self::named(Self::opened(s, ty), Some(name), id);
                Self::lemma_fields_settled(start, fields@, fields@.len());
                let done = Self::fields_done(start, fields@, fields@.len());
                if done.1 is Ok {
                    Self::lemma_finished_settled(
                        s,
                        start.0,
                        done.0,
                        elements_of_fields(fields@, fields@.len()),
                        0,
                    );
                }
            },
        }
    }

    /// After the extraction of a value the element that was made for it
    /// waits for a parent.
    pub proof fn lemma_has_child(before: ExtractorModel<B::Model>, after: ExtractorModel<B::Model>)
        requires
            before.wf(),
            after.wf(),
            settled(before, after, true, (after.next_id - before.next_id) as nat),
        ensures
            after.has_child(),
            before.has_child() && before.in_container() ==> after.has_entry(),
    {
        if after.in_container() {
            let frame = after.parent_stack.last().0;
            assert(before.parent_stack[before.parent_stack.len() - 1].0 == frame);
            assert(before.elem_stack.contains(frame));
            let at = choose|at: int| 0 <= at < before.elem_stack.len() && before.elem_stack[at] == frame;
            assert(frame.0 < before.next_id);
            if before.has_child() {
                assert(after.elem_stack.drop_last()[before.elem_stack.len() - 1]
                    == before.elem_stack.last());
            }
        }
    }

    /// Closing a container that has got all its children leaves the state
    /// that the extraction of the whole container is to leave.
    pub proof fn lemma_finished_settled(
        before: ExtractorModel<B::Model>,
        opened: ExtractorModel<B::Model>,
        done: ExtractorModel<B::Model>,
        elements: nat,
        children: nat,
    )
        requires
            done.wf(),
            opened.next_id == before.next_id + 1,
            opened.elem_stack == before.elem_stack.push(ElemId(before.next_id)),
            opened.parent_stack == before.parent_stack.push((ElemId(before.next_id), 0usize)),
            filled(opened, done, true, elements, children),
        ensures
            Self::closed(done).wf(),
            settled(before, Self::closed(done), true, 1 + elements),
    {
        lemma_closed_wf(done);
        assert(opened.parent_stack.drop_last() =~= before.parent_stack);
        assert(opened.elem_stack.drop_last() =~= before.elem_stack);
        assert(Self::closed(done).parent_stack =~= before.parent_stack);
    }

    /// The extraction of the first children of a sequence or a tuple keeps
    /// the invariant of the stacks; after a success the container has got
    /// these children, and nothing else waits for a parent that did not
    /// before.
    pub proof fn lemma_elements_settled(
        start: (ExtractorModel<B::Model>, Result<(), ErrorModel>),
        items: Seq<Value>,
        n: nat,
        elem_type: ElemType,
    )
        requires
            n <= items.len(),
            start.0.wf(),
            start.1 is Ok ==> {
                &&& start.0.in_container()
                &&& start.0.elem_stack.len() > 0
                &&& start.0.elem_stack.last() == start.0.parent_stack.last().0
                &&& start.0.next_id + elements_of(items, items.len()) <= usize::MAX
            },
        ensures
            ({
                let done = Self::elements_done(start, items, n, elem_type);
                &&& done.0.wf()
                &&& start.1 is Err ==> done == start
                &&& start.1 is Ok ==> filled(
                    start.0,
                    done.0,
                    done.1 is Ok,
                    elements_of(items, n),
                    n,
                )
            }),
        decreases items, n,
    {
        if n > 0 {
            lemma_elements_of_grows(items, n, items.len());
            Self::lemma_elements_settled(start, items, (n - 1) as nat, elem_type);
            let before = Self::elements_done(start, items, (n - 1) as nat, elem_type);
            if before.1 is Ok {
                Self::lemma_extracted_settled(before.0, items[n - 1]);
                let item = Self::extracted(before.0, items[n - 1]);
                if item.1 is Ok {
                    Self::lemma_has_child(before.0, item.0);
                    Self::lemma_element_settled(item.0, elem_type);
                    let step = Self::element(item.0, elem_type);
                    if step.1 is Ok {
                        assert(step.0.elem_stack =~= start.0.elem_stack);
                        assert(step.0.parent_stack.drop_last() =~= start.0.parent_stack.drop_last());
                    }
                }
            }
        }
    }

    /// The extraction of the first entries of a map keeps the invariant of
    /// the stacks; after a success the map has got these entries.
    pub proof fn lemma_entries_settled(
        start: (ExtractorModel<B::Model>, Result<(), ErrorModel>),
        entries: Seq<(Value, Value)>,
        n: nat,
    )
        requires
            n <= entries.len(),
            start.0.wf(),
            start.1 is Ok ==> {
                &&& start.0.in_container()
                &&& start.0.elem_stack.len() > 0
                &&& start.0.elem_stack.last() == start.0.parent_stack.last().0
                &&& start.0.next_id + elements_of_entries(entries, entries.len()) <= usize::MAX
            },
        ensures
            ({
                let done = Self::entries_done(start, entries, n);
                &&& done.0.wf()
                &&& start.1 is Err ==> done == start
                &&& start.1 is Ok ==> filled(
                    start.0,
                    done.0,
                    done.1 is Ok,
                    elements_of_entries(entries, n),
                    n,
                )
            }),
        decreases entries, n,
    {
        if n > 0 {
            lemma_elements_of_entries_grows(entries, n, entries.len());
            Self::lemma_entries_settled(start, entries, (n - 1) as nat);
            let before = Self::entries_done(start, entries, (n - 1) as nat);
            if before.1 is Ok {
                Self::lemma_extracted_settled(before.0, entries[n - 1].0);
                let key = Self::extracted(before.0, entries[n - 1].0);
                if key.1 is Ok {
                    Self::lemma_has_child(before.0, key.0);
                    Self::lemma_extracted_settled(key.0, entries[n - 1].1);
                    let value = Self::extracted(key.0, entries[n - 1].1);
                    if value.1 is Ok {
                        Self::lemma_has_child(key.0, value.0);
                        Self::lemma_entry_settled(value.0);
                        let step = Self::entry(value.0);
                        if step.1 is Ok {
                            assert(step.0.elem_stack =~= start.0.elem_stack);
                            assert(step.0.parent_stack.drop_last()
                                =~= start.0.parent_stack.drop_last());
                        }
                    }
                }
            }
        }
    }

    /// The extraction of the first fields of a struct keeps the invariant
    /// of the stacks; after a success nothing waits for a parent that did
    /// not before.
    pub proof fn lemma_fields_settled(
        start: (ExtractorModel<B::Model>, Result<(), ErrorModel>),
        fields: Seq<(String, Value)>,
        n: nat,
    )
        requires
            n <= fields.len(),
            start.0.wf(),
            start.1 is Ok ==> {
                &&& start.0.in_container()
                &&& start.0.elem_stack.len() > 0
                &&& start.0.elem_stack.last() == start.0.parent_stack.last().0
                &&& start.0.next_id + elements_of_fields(fields, fields.len()) <= usize::MAX
            },
        ensures
            ({
                let done = Self::fields_done(start, fields, n);
                &&& done.0.wf()
                &&& start.1 is Err ==> done == start
                &&& start.1 is Ok ==> filled(
                    start.0,
                    done.0,
                    done.1 is Ok,
                    elements_of_fields(fields, n),
                    0,
                )
            }),
        decreases fields, n,
    {
        if n > 0 {
            lemma_elements_of_fields_grows(fields, n, fields.len());
            Self::lemma_fields_settled(start, fields, (n - 1) as nat);
            let before = Self::fields_done(start, fields, (n - 1) as nat);
            if before.1 is Ok {
                Self::lemma_extracted_settled(before.0, fields[n - 1].1);
                let value = Self::extracted(before.0, fields[n - 1].1);
                if value.1 is Ok {
                    Self::lemma_has_child(before.0, value.0);
                    Self::lemma_field_settled(value.0, fields[n - 1].0@);
                    let step = Self::field(value.0, fields[n - 1].0@);
                    if step.1 is Ok {
                        assert(step.0.elem_stack =~= start.0.elem_stack);
                    }
                }
            }
        }
    }
}

/// Whether the two elements of every row that links a child to its parent
/// are in the order in which they were made: a sequence, a struct, a map or
/// a tuple was made before each of its children, and the key of a map entry
/// before its value. A row of the `tuple` relation whose parent was made
/// after the child is the one entry of a wrapper.
pub open spec fn ordered(m: DataModel<ElemId>) -> bool {
    &&& forall|i: int| 0 <= i < m.seqs.len() ==> (#[trigger] m.seqs[i]).0.0.0 < m.seqs[i].1.0
    &&& forall|i: int|
        0 <= i < m.structs.len() ==> (#[trigger] m.structs[i]).0.0.0 < m.structs[i].1.0
    &&& forall|i: int|
        0 <= i < m.maps.len() ==> (#[trigger] m.maps[i]).0.0.0 < m.maps[i].0.1.0
            && m.maps[i].0.1.0 < m.maps[i].1.0
    &&& forall|i: int|
        0 <= i < m.tuples.len() ==> (#[trigger] m.tuples[i]).0.0.0 < m.tuples[i].1.0 || (
        m.tuples[i].1.0 < m.tuples[i].0.0.0 && m.tuples[i].0.1 == 0)
}

/// Whether the elements of a fact that links a child to its parent are in
/// the order in which they were made.
pub open spec fn fact_ordered(fact: Fact) -> bool {
    match fact {
        Fact::SeqEntry { elem, pos, value } => elem.0 < value.0,
        Fact::StructEntry { elem, key, value } => elem.0 < value.0,
        Fact::MapEntry { elem, key, value } => elem.0 < key.0 && key.0 < value.0,
        Fact::TupleEntry { elem, pos, value } => elem.0 < value.0 || (value.0 < elem.0 && pos
            == 0),
        _ => true,
    }
}

/// A fact whose elements are in order keeps the tables in order, whether
/// the backend takes it or not.
pub proof fn lemma_stated_ordered(s: State, fact: Fact)
    requires
        ordered(s.backend),
        fact_ordered(fact),
    ensures
        ordered(DatalogExtractor::<Backend>::stated(s, fact).0.backend),
{
}

/// A run of steps followed by a fact whose elements are in order keeps the
/// tables in order.
pub proof fn lemma_and_then_ordered(step: Step, fact: Fact)
    requires
        ordered(step.0.backend),
        step.1 is Ok ==> fact_ordered(fact),
    ensures
        ordered(DatalogExtractor::<Backend>::and_then(step, fact).0.backend),
{
    if step.1 is Ok {
        lemma_stated_ordered(step.0, fact);
    }
}

/// A new element, with or without a fact that names it or holds its value,
/// keeps the tables in order.
pub proof fn lemma_made_ordered(s: State, elem_type: ElemType, fact: Option<Fact>)
    requires
        ordered(s.backend),
        fact matches Some(fact) ==> !(fact is SeqEntry || fact is StructEntry || fact is MapEntry
            || fact is TupleEntry),
    ensures
        ({
            let made = DatalogExtractor::<Backend>::made(s, elem_type);
            let opened = DatalogExtractor::<Backend>::opened(s, elem_type);
            &&& ordered(made.0.backend)
            &&& ordered(opened.0.backend)
            &&& fact matches Some(fact) ==> {
                &&& ordered(DatalogExtractor::<Backend>::and_then(made, fact).0.backend)
                &&& ordered(DatalogExtractor::<Backend>::and_then(opened, fact).0.backend)
            }
        }),
{
    let id = ElemId(s.next_id);
    lemma_stated_ordered(s, Fact::Elem { elem: id, elem_type });
    let typed = DatalogExtractor::<Backend>::stated(s, Fact::Elem { elem: id, elem_type });
    if typed.1 is Ok && s.cur_file is Some {
        let made = ExtractorModel {
            next_id: (s.next_id + 1) as usize,
            elem_stack: s.elem_stack.push(id),
            ..typed.0
        };
        lemma_stated_ordered(made, Fact::RootElem { file: s.cur_file->Some_0, elem: id });
    }
    if fact is Some {
        lemma_and_then_ordered(DatalogExtractor::<Backend>::made(s, elem_type), fact->Some_0);
        lemma_and_then_ordered(DatalogExtractor::<Backend>::opened(s, elem_type), fact->Some_0);
    }
}

/// The extraction of a value into the in-memory backend keeps the tables
/// in order, however it ends: every container it makes has a lesser
/// identifier than each of its children, and every wrapper a greater one
/// than its child.
pub proof fn lemma_extracted_ordered(s: State, value: Value)
    requires
        s.wf(),
        ordered(s.backend),
        s.next_id + value.elements() <= usize::MAX,
    ensures
        ordered(DatalogExtractor::<Backend>::extracted(s, value).0.backend),
    decreases value,
{
    let id = ElemId(s.next_id);
    match value {
        Value::Scalar(scalar) => {
            lemma_made_ordered(s, scalar.elem_type(), scalar_fact(scalar, id));
        },
        Value::Unit(name) => {
            lemma_made_ordered(
                s,
                unit_type(name),
                if name is Some {
                    Some(name_fact(name->Some_0, id))
                } else {
                    None
                },
            );
        },
        Value::Newtype(name, content) => {
            lemma_extracted_ordered(s, *content);
            DatalogExtractor::<Backend>::lemma_extracted_settled(s, *content);
            let inner = DatalogExtractor::<Backend>::extracted(s, *content);
            if inner.1 is Ok {
                DatalogExtractor::<Backend>::lemma_has_child(s, inner.0);
                lemma_wrapper_follows_child(inner.0);
                let rest = inner.0.without_child();
                let wrapper = ElemId(rest.next_id);
                let ty = newtype_type(name);
                lemma_made_ordered(rest, ty, Some(name_fact(name, wrapper)));
                lemma_and_then_ordered(
                    DatalogExtractor::<Backend>::and_then(
                        DatalogExtractor::<Backend>::made(rest, ty),
                        name_fact(name, wrapper),
                    ),
                    Fact::TupleEntry { elem: wrapper, pos: 0, value: inner.0.elem_stack.last() },
                );
            }
        },
        Value::Sequence(items) => {
            lemma_made_ordered(s, ElemType::Sequence, None);
            DatalogExtractor::<Backend>::lemma_opened_settled(s, ElemType::Sequence, None);
            let start = DatalogExtractor::<Backend>::opened(s, ElemType::Sequence);
            lemma_elements_ordered(start, items@, items@.len(), ElemType::Sequence);
        },
        Value::Tuple(name, items) => {
            let ty = tuple_type(name);
            let fact = if name is Some {
                Some(name_fact(name->Some_0, id))
            } else {
                None
            };
            lemma_made_ordered(s, ty, fact);
            DatalogExtractor::<Backend>::lemma_opened_settled(s, ty, fact);
            let start = DatalogExtractor::<Backend>::named(
                DatalogExtractor::<Backend>::opened(s, ty),
                name,
                id,
            );
            lemma_elements_ordered(start, items@, items@.len(), ty);
        },
        Value::Mapping(entries) => {
            lemma_made_ordered(s, ElemType::Mapping, None);
            DatalogExtractor::<Backend>::lemma_opened_settled(s, ElemType::Mapping, None);
            let start = DatalogExtractor::<Backend>::opened(s, ElemType::Mapping);
            lemma_entries_ordered(start, entries@, entries@.len());
        },
        Value::Struct(name, fields) => {
            let ty = struct_type(name);
            lemma_made_ordered(s, ty, Some(name_fact(name, id)));
            DatalogExtractor::<Backend>::lemma_opened_settled(s, ty, Some(name_fact(name, id)));
            let start = DatalogExtractor::<Backend>::named(
                DatalogExtractor::<Backend>::opened(s, ty),
                Some(name),
                id,
            );
            lemma_fields_ordered(start, fields@, fields@.len());
        },
    }
}

/// The extraction of the first children of a sequence or a tuple keeps the
/// tables in order.
pub proof fn lemma_elements_ordered(start: Step, items: Seq<Value>, n: nat, elem_type: ElemType)
    requires
        n <= items.len(),
        start.0.wf(),
        ordered(start.0.backend),
        start.1 is Ok ==> {
            &&& start.0.in_container()
            &&& start.0.elem_stack.len() > 0
            &&& start.0.elem_stack.last() == start.0.parent_stack.last().0
            &&& start.0.next_id + elements_of(items, items.len()) <= usize::MAX
        },
    ensures
        ordered(DatalogExtractor::<Backend>::elements_done(start, items, n, elem_type).0.backend),
    decreases items, n,
{
    if n > 0 {
        lemma_elements_of_grows(items, n, items.len());
        lemma_elements_ordered(start, items, (n - 1) as nat, elem_type);
        DatalogExtractor::<Backend>::lemma_elements_settled(
            start,
            items,
            (n - 1) as nat,
            elem_type,
        );
        let before = DatalogExtractor::<Backend>::elements_done(
            start,
            items,
            (n - 1) as nat,
            elem_type,
        );
        if before.1 is Ok {
            lemma_extracted_ordered(before.0, items[n - 1]);
            DatalogExtractor::<Backend>::lemma_extracted_settled(before.0, items[n - 1]);
            let item = DatalogExtractor::<Backend>::extracted(before.0, items[n - 1]);
            if item.1 is Ok {
                DatalogExtractor::<Backend>::lemma_has_child(before.0, item.0);
                lemma_container_precedes_child(item.0);
                let (parent, pos) = item.0.parent_stack.last();
                lemma_stated_ordered(
                    item.0.without_child(),
                    DatalogExtractor::<Backend>::position_fact(
                        elem_type,
                        parent,
                        pos,
                        item.0.elem_stack.last(),
                    ),
                );
            }
        }
    }
}

/// The extraction of the first entries of a map keeps the tables in order.
pub proof fn lemma_entries_ordered(start: Step, entries: Seq<(Value, Value)>, n: nat)
    requires
        n <= entries.len(),
        start.0.wf(),
        ordered(start.0.backend),
        start.1 is Ok ==> {
            &&& start.0.in_container()
            &&& start.0.elem_stack.len() > 0
            &&& start.0.elem_stack.last() == start.0.parent_stack.last().0
            &&& start.0.next_id + elements_of_entries(entries, entries.len()) <= usize::MAX
        },
    ensures
        ordered(DatalogExtractor::<Backend>::entries_done(start, entries, n).0.backend),
    decreases entries, n,
{
    if n > 0 {
        lemma_elements_of_entries_grows(entries, n, entries.len());
        lemma_entries_ordered(start, entries, (n - 1) as nat);
        DatalogExtractor::<Backend>::lemma_entries_settled(start, entries, (n - 1) as nat);
        let before = DatalogExtractor::<Backend>::entries_done(start, entries, (n - 1) as nat);
        if before.1 is Ok {
            lemma_extracted_ordered(before.0, entries[n - 1].0);
            DatalogExtractor::<Backend>::lemma_extracted_settled(before.0, entries[n - 1].0);
            let key = DatalogExtractor::<Backend>::extracted(before.0, entries[n - 1].0);
            if key.1 is Ok {
                DatalogExtractor::<Backend>::lemma_has_child(before.0, key.0);
                lemma_extracted_ordered(key.0, entries[n - 1].1);
                DatalogExtractor::<Backend>::lemma_extracted_settled(key.0, entries[n - 1].1);
                let value = DatalogExtractor::<Backend>::extracted(key.0, entries[n - 1].1);
                if value.1 is Ok {
                    DatalogExtractor::<Backend>::lemma_has_child(key.0, value.0);
                    lemma_container_precedes_entry(value.0);
                    lemma_stated_ordered(
                        value.0.without_child().without_child(),
                        Fact::MapEntry {
                            elem: value.0.parent_stack.last().0,
                            key: value.0.elem_stack[value.0.elem_stack.len() - 2],
                            value: value.0.elem_stack.last(),
                        },
                    );
                }
            }
        }
    }
}

/// The extraction of the first fields of a struct keeps the tables in
/// order.
pub proof fn lemma_fields_ordered(start: Step, fields: Seq<(String, Value)>, n: nat)
    requires
        n <= fields.len(),
        start.0.wf(),
        ordered(start.0.backend),
        start.1 is Ok ==> {
            &&& start.0.in_container()
            &&& start.0.elem_stack.len() > 0
            &&& start.0.elem_stack.last() == start.0.parent_stack.last().0
            &&& start.0.next_id + elements_of_fields(fields, fields.len()) <= usize::MAX
        },
    ensures
        ordered(DatalogExtractor::<Backend>::fields_done(start, fields, n).0.backend),
    decreases fields, n,
{
    if n > 0 {
        lemma_elements_of_fields_grows(fields, n, fields.len());
        lemma_fields_ordered(start, fields, (n - 1) as nat);
        DatalogExtractor::<Backend>::lemma_fields_settled(start, fields, (n - 1) as nat);
        let before = DatalogExtractor::<Backend>::fields_done(start, fields, (n - 1) as nat);
        if before.1 is Ok {
            lemma_extracted_ordered(before.0, fields[n - 1].1);
            DatalogExtractor::<Backend>::lemma_extracted_settled(before.0, fields[n - 1].1);
            let value = DatalogExtractor::<Backend>::extracted(before.0, fields[n - 1].1);
            if value.1 is Ok {
                DatalogExtractor::<Backend>::lemma_has_child(before.0, value.0);
                lemma_container_precedes_child(value.0);
                lemma_stated_ordered(
                    value.0.without_child(),
                    Fact::StructEntry {
                        elem: value.0.parent_stack.last().0,
                        key: fields[n - 1].0@,
                        value: value.0.elem_stack.last(),
                    },
                );
            }
        }
    }
}

} // verus!
