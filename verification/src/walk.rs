//! Extraction of a whole value: the walk over a tree, depth first.

use vstd::prelude::*;
use crate::elem::{ElemId, ElemType};
use crate::error::{outcome, DatalogExtractionError, ErrorModel};
use crate::extractor::{DatalogExtractor, ExtractorModel};
use crate::interface::{DatalogExtractorBackend, Fact};
use crate::value::{
    elements_of, elements_of_entries, elements_of_fields, Scalar, TypeName, Value,
};

verus! {

/// The fact that holds the value of a scalar element; none for a floating
/// point number or a byte array, which no fact can hold.
pub open spec fn scalar_fact(scalar: Scalar, elem: ElemId) -> Option<Fact> {
    match scalar {
        Scalar::Bool(value) => Some(Fact::Bool { elem, value }),
        Scalar::I8(value) => Some(Fact::I64 { elem, value: value as i64 }),
        Scalar::I16(value) => Some(Fact::I64 { elem, value: value as i64 }),
        Scalar::I32(value) => Some(Fact::I64 { elem, value: value as i64 }),
        Scalar::I64(value) => Some(Fact::I64 { elem, value }),
        Scalar::U8(value) => Some(Fact::U64 { elem, value: value as u64 }),
        Scalar::U16(value) => Some(Fact::U64 { elem, value: value as u64 }),
        Scalar::U32(value) => Some(Fact::U64 { elem, value: value as u64 }),
        Scalar::U64(value) => Some(Fact::U64 { elem, value }),
        Scalar::Char(value) => Some(Fact::Str { elem, value: seq![value] }),
        Scalar::Str(value) => Some(Fact::Str { elem, value: value@ }),
        Scalar::Bytes(_) | Scalar::F32 | Scalar::F64 => None,
    }
}

/// The fact that names the type of a struct or of an enum variant.
pub open spec fn name_fact(name: TypeName, elem: ElemId) -> Fact {
    match name {
        TypeName::Struct(struct_name) => Fact::StructType { elem, struct_name: struct_name@ },
        TypeName::Variant(enum_name, variant_name) => Fact::VariantType {
            elem,
            enum_name: enum_name@,
            variant_name: variant_name@,
        },
    }
}

/// The shape of a value without parts and without a value of its own.
pub open spec fn unit_type(name: Option<TypeName>) -> ElemType {
    match name {
        None => ElemType::Unit,
        Some(TypeName::Struct(_)) => ElemType::UnitStruct,
        Some(TypeName::Variant(_, _)) => ElemType::UnitVariant,
    }
}

/// The shape of a wrapper around one value.
pub open spec fn newtype_type(name: TypeName) -> ElemType {
    match name {
        TypeName::Struct(_) => ElemType::NewtypeStruct,
        TypeName::Variant(_, _) => ElemType::NewtypeVariant,
    }
}

/// The shape of a tuple.
pub open spec fn tuple_type(name: Option<TypeName>) -> ElemType {
    match name {
        None => ElemType::Tuple,
        Some(TypeName::Struct(_)) => ElemType::TupleStruct,
        Some(TypeName::Variant(_, _)) => ElemType::TupleVariant,
    }
}

/// The shape of a value with named fields.
pub open spec fn struct_type(name: TypeName) -> ElemType {
    match name {
        TypeName::Struct(_) => ElemType::Struct,
        TypeName::Variant(_, _) => ElemType::StructVariant,
    }
}

/// How the state after the extraction of a value relates to the state
/// before it, where the value has `elements` elements. Identifiers are only
/// used up, at most one for each element. After a success each element has
/// got one, the open containers are as they were, and one element more waits
/// for a parent: the value's own, which was made during the extraction.
pub open spec fn settled<M>(
    before: ExtractorModel<M>,
    after: ExtractorModel<M>,
    ok: bool,
    elements: nat,
) -> bool {
    &&& before.next_id <= after.next_id <= before.next_id + elements
    &&& ok ==> {
        &&& after.next_id == before.next_id + elements
        &&& after.parent_stack == before.parent_stack
        &&& after.elem_stack.len() == before.elem_stack.len() + 1
        &&& after.elem_stack.drop_last() == before.elem_stack
        &&& after.elem_stack.last().0 >= before.next_id
    }
}

/// How the state after the children of the innermost open container relates
/// to the state before them, where the children have `elements` elements and
/// make up `children` entries. After a success the container has got its
/// entries, and nothing else waits for a parent that did not before.
pub open spec fn filled<M>(
    before: ExtractorModel<M>,
    after: ExtractorModel<M>,
    ok: bool,
    elements: nat,
    children: nat,
) -> bool {
    &&& before.next_id <= after.next_id <= before.next_id + elements
    &&& ok ==> {
        &&& after.next_id == before.next_id + elements
        &&& after.elem_stack == before.elem_stack
        &&& after.parent_stack.len() == before.parent_stack.len()
        &&& after.parent_stack.drop_last() == before.parent_stack.drop_last()
        &&& after.parent_stack.last().0 == before.parent_stack.last().0
        &&& after.parent_stack.last().1 == before.parent_stack.last().1 + children
    }
}

impl<B: DatalogExtractorBackend> DatalogExtractor<B> {
    /// The extraction of a scalar: a new element, then its value. A floating
    /// point number or a byte array is declined, and the state stays as it
    /// was.
    pub open spec fn scalar(s: ExtractorModel<B::Model>, scalar: Scalar) -> (
        ExtractorModel<B::Model>,
        Result<(), ErrorModel>,
    ) {
        match scalar_fact(scalar, ElemId(s.next_id)) {
            Some(fact) => Self::and_then(Self::made(s, scalar.elem_type()), fact),
            None => (s, Err(ErrorModel::UnextractableData(scalar.elem_type().rejected_name()))),
        }
    }

    /// A step followed by the fact that names the element `elem`, where it
    /// has a name.
    pub open spec fn named(
        step: (ExtractorModel<B::Model>, Result<(), ErrorModel>),
        name: Option<TypeName>,
        elem: ElemId,
    ) -> (ExtractorModel<B::Model>, Result<(), ErrorModel>) {
        match name {
            None => step,
            Some(name) => Self::and_then(step, name_fact(name, elem)),
        }
    }

    /// A run of steps followed by the closing of the innermost open
    /// container.
    pub open spec fn finished(step: (ExtractorModel<B::Model>, Result<(), ErrorModel>)) -> (
        ExtractorModel<B::Model>,
        Result<(), ErrorModel>,
    ) {
        if step.1 is Ok {
            (Self::closed(step.0), Ok(()))
        } else {
            step
        }
    }

    /// The extraction of a value. The walk is depth first and stops at the
    /// first error. A container is made before its children, each of which
    /// is linked to it as soon as it is extracted; a wrapper is made after
    /// its single child.
    pub open spec fn extracted(s: ExtractorModel<B::Model>, value: Value) -> (
        ExtractorModel<B::Model>,
        Result<(), ErrorModel>,
    )
        decreases value,
    {
        let id = ElemId(s.next_id);
        match value {
            Value::Scalar(scalar) => Self::scalar(s, scalar),
            Value::Unit(name) => Self::named(Self::made(s, unit_type(name)), name, id),
            Value::Newtype(name, content) => {
                let inner = Self::extracted(s, *content);
                if inner.1 is Ok {
                    Self::wrapped(
                        inner.0,
                        newtype_type(name),
                        name_fact(name, ElemId(inner.0.next_id)),
                    )
                } else {
                    inner
                }
            },
            Value::Sequence(items) => Self::finished(
                Self::elements_done(
                    Self::opened(s, ElemType::Sequence),
                    items@,
                    items@.len(),
                    ElemType::Sequence,
                ),
            ),
            Value::Tuple(name, items) => Self::finished(
                Self::elements_done(
                    Self::named(Self::opened(s, tuple_type(name)), name, id),
                    items@,
                    items@.len(),
                    tuple_type(name),
                ),
            ),
            Value::Mapping(entries) => Self::finished(
                Self::entries_done(Self::opened(s, ElemType::Mapping), entries@, entries@.len()),
            ),
            Value::Struct(name, fields) => Self::finished(
                Self::fields_done(
                    Self::named(Self::opened(s, struct_type(name)), Some(name), id),
                    fields@,
                    fields@.len(),
                ),
            ),
        }
    }

    /// The extraction of the first `n` of the children `items` of the
    /// innermost open container, a sequence or a tuple of the shape
    /// `elem_type`: each child is extracted and then linked.
    pub open spec fn elements_done(
        start: (ExtractorModel<B::Model>, Result<(), ErrorModel>),
        items: Seq<Value>,
        n: nat,
        elem_type: ElemType,
    ) -> (ExtractorModel<B::Model>, Result<(), ErrorModel>)
        decreases items, n,
    {
        if n == 0 || n > items.len() {
            start
        } else {
            let before = Self::elements_done(start, items, (n - 1) as nat, elem_type);
            if before.1 is Ok {
                let item = Self::extracted(before.0, items[n - 1]);
                if item.1 is Ok {
                    Self::element(item.0, elem_type)
                } else {
                    item
                }
            } else {
                before
            }
        }
    }

    /// The extraction of the first `n` of the entries of the innermost open
    /// container, a map: the key is extracted, then the value, then the two
    /// are linked.
    pub open spec fn entries_done(
        start: (ExtractorModel<B::Model>, Result<(), ErrorModel>),
        entries: Seq<(Value, Value)>,
        n: nat,
    ) -> (ExtractorModel<B::Model>, Result<(), ErrorModel>)
        decreases entries, n,
    {
        if n == 0 || n > entries.len() {
            start
        } else {
            let before = Self::entries_done(start, entries, (n - 1) as nat);
            if before.1 is Ok {
                let key = Self::extracted(before.0, entries[n - 1].0);
                if key.1 is Ok {
                    let value = Self::extracted(key.0, entries[n - 1].1);
                    if value.1 is Ok {
                        Self::entry(value.0)
                    } else {
                        value
                    }
                } else {
                    key
                }
            } else {
                before
            }
        }
    }

    /// The extraction of the first `n` of the fields of the innermost open
    /// container, a struct: each value is extracted and then linked under
    /// the name of its field.
    pub open spec fn fields_done(
        start: (ExtractorModel<B::Model>, Result<(), ErrorModel>),
        fields: Seq<(String, Value)>,
        n: nat,
    ) -> (ExtractorModel<B::Model>, Result<(), ErrorModel>)
        decreases fields, n,
    {
        if n == 0 || n > fields.len() {
            start
        } else {
            let before = Self::fields_done(start, fields, (n - 1) as nat);
            if before.1 is Ok {
                let value = Self::extracted(before.0, fields[n - 1].1);
                if value.1 is Ok {
                    Self::field(value.0, fields[n - 1].0@)
                } else {
                    value
                }
            } else {
                before
            }
        }
    }
}

impl<B: DatalogExtractorBackend> DatalogExtractor<B> {
    /// Extracts a scalar.
    fn extract_scalar(&mut self, scalar: &Scalar) -> (r: Result<(), DatalogExtractionError>)
        requires
            old(self).wf(),
            old(self)@.can_allocate(),
        ensures
            final(self).wf(),
            (final(self)@, outcome(r)) == Self::scalar(old(self)@, *scalar),
            settled(old(self)@, final(self)@, r is Ok, 1),
    {
        proof {
            Self::lemma_made_settled(
                old(self)@,
                scalar.elem_type(),
                scalar_fact(*scalar, ElemId(old(self)@.next_id)),
            );
        }
        match scalar {
            Scalar::Bool(value) => self.serialize_bool(*value),
            Scalar::I8(value) => self.serialize_i8(*value),
            Scalar::I16(value) => self.serialize_i16(*value),
            Scalar::I32(value) => self.serialize_i32(*value),
            Scalar::I64(value) => self.serialize_i64(*value),
            Scalar::U8(value) => self.serialize_u8(*value),
            Scalar::U16(value) => self.serialize_u16(*value),
            Scalar::U32(value) => self.serialize_u32(*value),
            Scalar::U64(value) => self.serialize_u64(*value),
            Scalar::F32 => self.serialize_f32(),
            Scalar::F64 => self.serialize_f64(),
            Scalar::Char(value) => self.serialize_char(*value),
            Scalar::Str(value) => self.serialize_str(value.as_str()),
            Scalar::Bytes(value) => self.serialize_bytes(value.as_slice()),
        }
    }

    /// Makes a new element for a value without parts, and names it where it
    /// has a name.
    fn extract_unit(&mut self, name: &Option<TypeName>) -> (r: Result<(), DatalogExtractionError>)
        requires
            old(self).wf(),
            old(self)@.can_allocate(),
        ensures
            final(self).wf(),
            (final(self)@, outcome(r)) == Self::named(
                Self::made(old(self)@, unit_type(*name)),
                *name,
                ElemId(old(self)@.next_id),
            ),
            settled(old(self)@, final(self)@, r is Ok, 1),
    {
        proof {
            Self::lemma_made_settled(
                old(self)@,
                unit_type(*name),
                if *name is Some {
                    Some(name_fact(name->Some_0, ElemId(old(self)@.next_id)))
                } else {
                    None
                },
            );
        }
        match name {
            None => self.serialize_unit(),
            Some(TypeName::Struct(struct_name)) => self.serialize_unit_struct(struct_name.as_str()),
            Some(TypeName::Variant(enum_name, variant_name)) => self.serialize_unit_variant(
                enum_name.as_str(),
                variant_name.as_str(),
            ),
        }
    }

    /// Wraps the element that waits for a parent in a new, named element.
    fn extract_wrapper(&mut self, name: &TypeName) -> (r: Result<(), DatalogExtractionError>)
        requires
            old(self).wf(),
            old(self)@.can_allocate(),
            old(self)@.has_child(),
        ensures
            final(self).wf(),
            (final(self)@, outcome(r)) == Self::wrapped(
                old(self)@,
                newtype_type(*name),
                name_fact(*name, ElemId(old(self)@.next_id)),
            ),
    {
        match name {
            TypeName::Struct(struct_name) => self.serialize_newtype_struct(struct_name.as_str()),
            TypeName::Variant(enum_name, variant_name) => self.serialize_newtype_variant(
                enum_name.as_str(),
                variant_name.as_str(),
            ),
        }
    }

    /// Opens a tuple, and names it where it has a name.
    fn open_tuple(&mut self, name: &Option<TypeName>) -> (r: Result<(), DatalogExtractionError>)
        requires
            old(self).wf(),
            old(self)@.can_allocate(),
        ensures
            final(self).wf(),
            (final(self)@, outcome(r)) == Self::named(
                Self::opened(old(self)@, tuple_type(*name)),
                *name,
                ElemId(old(self)@.next_id),
            ),
    {
        match name {
            None => self.serialize_tuple(),
            Some(TypeName::Struct(struct_name)) => self.serialize_tuple_struct(
                struct_name.as_str(),
            ),
            Some(TypeName::Variant(enum_name, variant_name)) => self.serialize_tuple_variant(
                enum_name.as_str(),
                variant_name.as_str(),
            ),
        }
    }

    /// Opens a struct or a struct variant and names it.
    fn open_struct(&mut self, name: &TypeName) -> (r: Result<(), DatalogExtractionError>)
        requires
            old(self).wf(),
            old(self)@.can_allocate(),
        ensures
            final(self).wf(),
            (final(self)@, outcome(r)) == Self::named(
                Self::opened(old(self)@, struct_type(*name)),
                Some(*name),
                ElemId(old(self)@.next_id),
            ),
    {
        match name {
            TypeName::Struct(struct_name) => self.serialize_struct(struct_name.as_str()),
            TypeName::Variant(enum_name, variant_name) => self.serialize_struct_variant(
                enum_name.as_str(),
                variant_name.as_str(),
            ),
        }
    }

    /// Extracts `value`: states the facts about all of its elements to the
    /// backend. The walk stops at the first error; what was stated before
    /// stays stated.
    pub fn extract(&mut self, value: &Value) -> (r: Result<(), DatalogExtractionError>)
        requires
            old(self).wf(),
            old(self)@.next_id + value.elements() <= usize::MAX,
        ensures
            final(self).wf(),
            (final(self)@, outcome(r)) == Self::extracted(old(self)@, *value),
            settled(old(self)@, final(self)@, r is Ok, value.elements()),
        decreases value, 0nat,
    {
        match value {
            Value::Scalar(scalar) => self.extract_scalar(scalar),
            Value::Unit(name) => self.extract_unit(name),
            Value::Newtype(name, content) => self.extract_newtype(name, content),
            Value::Sequence(items) => self.extract_sequence(items),
            Value::Tuple(name, items) => self.extract_tuple(name, items),
            Value::Mapping(entries) => self.extract_mapping(entries),
            Value::Struct(name, fields) => self.extract_struct(name, fields),
        }
    }

    /// Extracts a wrapper: its content first, then the wrapper around it.
    fn extract_newtype(&mut self, name: &TypeName, content: &Value) -> (r: Result<
        (),
        DatalogExtractionError,
    >)
        requires
            old(self).wf(),
            old(self)@.next_id + 1 + content.elements() <= usize::MAX,
        ensures
            final(self).wf(),
            (final(self)@, outcome(r)) == ({
                let inner = Self::extracted(old(self)@, *content);
                if inner.1 is Ok {
                    Self::wrapped(
                        inner.0,
                        newtype_type(*name),
                        name_fact(*name, ElemId(inner.0.next_id)),
                    )
                } else {
                    inner
                }
            }),
            settled(old(self)@, final(self)@, r is Ok, 1 + content.elements()),
        decreases content, 1nat,
    {
        match self.extract(content) {
            Err(e) => {
                return Err(e);
            },
            Ok(_) => {},
        }
        let ghost inner = self@;
        let r = self.extract_wrapper(name);
        proof {
            assert(inner.without_child().elem_stack =~= old(self)@.elem_stack);
            if r is Ok {
                assert(self@.elem_stack.drop_last() =~= old(self)@.elem_stack);
            }
        }
        r
    }

    /// Closes the container that was opened in the state `before` and has
    /// got its children since.
    fn close_container(
        &mut self,
        Ghost(before): Ghost<ExtractorModel<B::Model>>,
        Ghost(opened): Ghost<ExtractorModel<B::Model>>,
        Ghost(elements): Ghost<nat>,
        Ghost(children): Ghost<nat>,
    )
        requires
            old(self).wf(),
            before.wf(),
            opened.next_id == before.next_id + 1,
            opened.elem_stack == before.elem_stack.push(ElemId(before.next_id)),
            opened.parent_stack == before.parent_stack.push((ElemId(before.next_id), 0usize)),
            filled(opened, old(self)@, true, elements, children),
        ensures
            final(self).wf(),
            final(self)@ == Self::closed(old(self)@),
            settled(before, final(self)@, true, 1 + elements),
    {
        assert(opened.parent_stack.drop_last() =~= before.parent_stack);
        assert(opened.elem_stack.drop_last() =~= before.elem_stack);
        let _ = self.end_parent();
        assert(self@.parent_stack =~= before.parent_stack);
    }

    /// Extracts a sequence: the sequence itself, then its items.
    fn extract_sequence(&mut self, items: &Vec<Value>) -> (r: Result<(), DatalogExtractionError>)
        requires
            old(self).wf(),
            old(self)@.next_id + 1 + elements_of(items@, items@.len()) <= usize::MAX,
        ensures
            final(self).wf(),
            (final(self)@, outcome(r)) == Self::finished(
                Self::elements_done(
                    Self::opened(old(self)@, ElemType::Sequence),
                    items@,
                    items@.len(),
                    ElemType::Sequence,
                ),
            ),
            settled(old(self)@, final(self)@, r is Ok, 1 + elements_of(items@, items@.len())),
        decreases items, 2nat,
    {
        match self.serialize_seq() {
            Err(e) => {
                proof {
                    Self::lemma_elements_stop(
                        Self::opened(old(self)@, ElemType::Sequence),
                        items@,
                        0,
                        items@.len(),
                        ElemType::Sequence,
                    );
                }
                return Err(e);
            },
            Ok(_) => {},
        }
        let ghost opened = self@;
        match self.extract_elements(items, ElemType::Sequence) {
            Err(e) => {
                return Err(e);
            },
            Ok(_) => {},
        }
        self.close_container(
            Ghost(old(self)@),
            Ghost(opened),
            Ghost(elements_of(items@, items@.len())),
            Ghost(items@.len()),
        );
        Ok(())
    }

    /// Extracts a tuple: the tuple itself, its name where it has one, then
    /// its items.
    fn extract_tuple(&mut self, name: &Option<TypeName>, items: &Vec<Value>) -> (r: Result<
        (),
        DatalogExtractionError,
    >)
        requires
            old(self).wf(),
            old(self)@.next_id + 1 + elements_of(items@, items@.len()) <= usize::MAX,
        ensures
            final(self).wf(),
            (final(self)@, outcome(r)) == Self::finished(
                Self::elements_done(
                    Self::named(
                        Self::opened(old(self)@, tuple_type(*name)),
                        *name,
                        ElemId(old(self)@.next_id),
                    ),
                    items@,
                    items@.len(),
                    tuple_type(*name),
                ),
            ),
            settled(old(self)@, final(self)@, r is Ok, 1 + elements_of(items@, items@.len())),
        decreases items, 2nat,
    {
        match self.open_tuple(name) {
            Err(e) => {
                proof {
                    Self::lemma_elements_stop(
                        Self::named(
                            Self::opened(old(self)@, tuple_type(*name)),
                            *name,
                            ElemId(old(self)@.next_id),
                        ),
                        items@,
                        0,
                        items@.len(),
                        tuple_type(*name),
                    );
                }
                return Err(e);
            },
            Ok(_) => {},
        }
        let ghost opened = self@;
        let elem_type = match name {
            None => ElemType::Tuple,
            Some(TypeName::Struct(_)) => ElemType::TupleStruct,
            Some(TypeName::Variant(_, _)) => ElemType::TupleVariant,
        };
        match self.extract_elements(items, elem_type) {
            Err(e) => {
                return Err(e);
            },
            Ok(_) => {},
        }
        self.close_container(
            Ghost(old(self)@),
            Ghost(opened),
            Ghost(elements_of(items@, items@.len())),
            Ghost(items@.len()),
        );
        Ok(())
    }

    /// Extracts a map: the map itself, then its entries.
    fn extract_mapping(&mut self, entries: &Vec<(Value, Value)>) -> (r: Result<
        (),
        DatalogExtractionError,
    >)
        requires
            old(self).wf(),
            old(self)@.next_id + 1 + elements_of_entries(entries@, entries@.len()) <= usize::MAX,
        ensures
            final(self).wf(),
            (final(self)@, outcome(r)) == Self::finished(
                Self::entries_done(
                    Self::opened(old(self)@, ElemType::Mapping),
                    entries@,
                    entries@.len(),
                ),
            ),
            settled(
                old(self)@,
                final(self)@,
                r is Ok,
                1 + elements_of_entries(entries@, entries@.len()),
            ),
        decreases entries, 2nat,
    {
        match self.serialize_map() {
            Err(e) => {
                proof {
                    Self::lemma_entries_stop(
                        Self::opened(old(self)@, ElemType::Mapping),
                        entries@,
                        0,
                        entries@.len(),
                    );
                }
                return Err(e);
            },
            Ok(_) => {},
        }
        let ghost opened = self@;
        match self.extract_entries(entries) {
            Err(e) => {
                return Err(e);
            },
            Ok(_) => {},
        }
        self.close_container(
            Ghost(old(self)@),
            Ghost(opened),
            Ghost(elements_of_entries(entries@, entries@.len())),
            Ghost(entries@.len()),
        );
        Ok(())
    }

    /// Extracts a struct: the struct itself, its name, then its fields.
    fn extract_struct(&mut self, name: &TypeName, fields: &Vec<(String, Value)>) -> (r: Result<
        (),
        DatalogExtractionError,
    >)
        requires
            old(self).wf(),
            old(self)@.next_id + 1 + elements_of_fields(fields@, fields@.len()) <= usize::MAX,
        ensures
            final(self).wf(),
            (final(self)@, outcome(r)) == Self::finished(
                Self::fields_done(
                    Self::named(
                        Self::opened(old(self)@, struct_type(*name)),
                        Some(*name),
                        ElemId(old(self)@.next_id),
                    ),
                    fields@,
                    fields@.len(),
                ),
            ),
            settled(
                old(self)@,
                final(self)@,
                r is Ok,
                1 + elements_of_fields(fields@, fields@.len()),
            ),
        decreases fields, 2nat,
    {
        match self.open_struct(name) {
            Err(e) => {
                proof {
                    Self::lemma_fields_stop(
                        Self::named(
                            Self::opened(old(self)@, struct_type(*name)),
                            Some(*name),
                            ElemId(old(self)@.next_id),
                        ),
                        fields@,
                        0,
                        fields@.len(),
                    );
                }
                return Err(e);
            },
            Ok(_) => {},
        }
        let ghost opened = self@;
        match self.extract_fields(fields) {
            Err(e) => {
                return Err(e);
            },
            Ok(_) => {},
        }
        self.close_container(
            Ghost(old(self)@),
            Ghost(opened),
            Ghost(elements_of_fields(fields@, fields@.len())),
            Ghost(0),
        );
        Ok(())
    }

    /// Extracts the children of the innermost open container, a sequence or
    /// a tuple of the shape `elem_type`, and links each to it.
    fn extract_elements(&mut self, items: &Vec<Value>, elem_type: ElemType) -> (r: Result<
        (),
        DatalogExtractionError,
    >)
        requires
            old(self).wf(),
            old(self)@.in_container(),
            old(self)@.elem_stack.len() > 0,
            old(self)@.elem_stack.last() == old(self)@.parent_stack.last().0,
            old(self)@.next_id + elements_of(items@, items@.len()) <= usize::MAX,
            elem_type is Sequence || elem_type.is_tuple_like(),
        ensures
            final(self).wf(),
            (final(self)@, outcome(r)) == Self::elements_done(
                (old(self)@, Ok(())),
                items@,
                items@.len(),
                elem_type,
            ),
            filled(
                old(self)@,
                final(self)@,
                r is Ok,
                elements_of(items@, items@.len()),
                items@.len(),
            ),
        decreases items, 1nat,
    {
        let mut i: usize = 0;
        while i < items.len()
            invariant
                i <= items.len(),
                self.wf(),
                old(self)@.in_container(),
                old(self)@.elem_stack.len() > 0,
                old(self)@.elem_stack.last() == old(self)@.parent_stack.last().0,
                old(self)@.next_id + elements_of(items@, items@.len()) <= usize::MAX,
                elem_type is Sequence || elem_type.is_tuple_like(),
                (self@, Ok::<(), ErrorModel>(())) == Self::elements_done(
                    (old(self)@, Ok(())),
                    items@,
                    i as nat,
                    elem_type,
                ),
                filled(old(self)@, self@, true, elements_of(items@, i as nat), i as nat),
            decreases items.len() - i,
        {
            let ghost before = self@;
            proof {
                lemma_elements_of_grows(items@, (i + 1) as nat, items@.len());
            }
            match self.extract(&items[i]) {
                Err(e) => {
                    proof {
                        Self::lemma_elements_stop(
                            (old(self)@, Ok(())),
                            items@,
                            (i + 1) as nat,
                            items@.len(),
                            elem_type,
                        );
                    }
                    return Err(e);
                },
                Ok(_) => {},
            }
            proof {
                crate::extractor::lemma_children_linked_advance(self@.parent_stack, 0);
            }
            match self.serialize_tuple_or_seq_element(elem_type) {
                Err(e) => {
                    proof {
                        Self::lemma_elements_stop(
                            (old(self)@, Ok(())),
                            items@,
                            (i + 1) as nat,
                            items@.len(),
                            elem_type,
                        );
                    }
                    return Err(e);
                },
                Ok(_) => {},
            }
            proof {
                assert(self@.elem_stack =~= before.elem_stack);
                assert(self@.parent_stack.drop_last() =~= before.parent_stack.drop_last());
            }
            i = i + 1;
        }
        Ok(())
    }

    /// Extracts the entries of the innermost open container, a map, and
    /// links each to it.
    fn extract_entries(&mut self, entries: &Vec<(Value, Value)>) -> (r: Result<
        (),
        DatalogExtractionError,
    >)
        requires
            old(self).wf(),
            old(self)@.in_container(),
            old(self)@.elem_stack.len() > 0,
            old(self)@.elem_stack.last() == old(self)@.parent_stack.last().0,
            old(self)@.next_id + elements_of_entries(entries@, entries@.len()) <= usize::MAX,
        ensures
            final(self).wf(),
            (final(self)@, outcome(r)) == Self::entries_done(
                (old(self)@, Ok(())),
                entries@,
                entries@.len(),
            ),
            filled(
                old(self)@,
                final(self)@,
                r is Ok,
                elements_of_entries(entries@, entries@.len()),
                entries@.len(),
            ),
        decreases entries, 1nat,
    {
        let mut i: usize = 0;
        while i < entries.len()
            invariant
                i <= entries.len(),
                self.wf(),
                old(self)@.in_container(),
                old(self)@.elem_stack.len() > 0,
                old(self)@.elem_stack.last() == old(self)@.parent_stack.last().0,
                old(self)@.next_id + elements_of_entries(entries@, entries@.len()) <= usize::MAX,
                (self@, Ok::<(), ErrorModel>(())) == Self::entries_done(
                    (old(self)@, Ok(())),
                    entries@,
                    i as nat,
                ),
                filled(old(self)@, self@, true, elements_of_entries(entries@, i as nat), i as nat),
            decreases entries.len() - i,
        {
            let ghost before = self@;
            proof {
                lemma_elements_of_entries_grows(entries@, (i + 1) as nat, entries@.len());
            }
            match self.extract(&entries[i].0) {
                Err(e) => {
                    proof {
                        Self::lemma_entries_stop(
                            (old(self)@, Ok(())),
                            entries@,
                            (i + 1) as nat,
                            entries@.len(),
                        );
                    }
                    return Err(e);
                },
                Ok(_) => {},
            }
            match self.extract(&entries[i].1) {
                Err(e) => {
                    proof {
                        Self::lemma_entries_stop(
                            (old(self)@, Ok(())),
                            entries@,
                            (i + 1) as nat,
                            entries@.len(),
                        );
                    }
                    return Err(e);
                },
                Ok(_) => {},
            }
            proof {
                crate::extractor::lemma_children_linked_advance(self@.parent_stack, 0);
            }
            match self.serialize_value() {
                Err(e) => {
                    proof {
                        Self::lemma_entries_stop(
                            (old(self)@, Ok(())),
                            entries@,
                            (i + 1) as nat,
                            entries@.len(),
                        );
                    }
                    return Err(e);
                },
                Ok(_) => {},
            }
            proof {
                assert(self@.elem_stack =~= before.elem_stack);
                assert(self@.parent_stack.drop_last() =~= before.parent_stack.drop_last());
            }
            i = i + 1;
        }
        Ok(())
    }

    /// Extracts the fields of the innermost open container, a struct, and
    /// links each to it.
    fn extract_fields(&mut self, fields: &Vec<(String, Value)>) -> (r: Result<
        (),
        DatalogExtractionError,
    >)
        requires
            old(self).wf(),
            old(self)@.in_container(),
            old(self)@.elem_stack.len() > 0,
            old(self)@.elem_stack.last() == old(self)@.parent_stack.last().0,
            old(self)@.next_id + elements_of_fields(fields@, fields@.len()) <= usize::MAX,
        ensures
            final(self).wf(),
            (final(self)@, outcome(r)) == Self::fields_done(
                (old(self)@, Ok(())),
                fields@,
                fields@.len(),
            ),
            filled(
                old(self)@,
                final(self)@,
                r is Ok,
                elements_of_fields(fields@, fields@.len()),
                0,
            ),
        decreases fields, 1nat,
    {
        let mut i: usize = 0;
        while i < fields.len()
            invariant
                i <= fields.len(),
                self.wf(),
                old(self)@.in_container(),
                old(self)@.elem_stack.len() > 0,
                old(self)@.elem_stack.last() == old(self)@.parent_stack.last().0,
                old(self)@.next_id + elements_of_fields(fields@, fields@.len()) <= usize::MAX,
                (self@, Ok::<(), ErrorModel>(())) == Self::fields_done(
                    (old(self)@, Ok(())),
                    fields@,
                    i as nat,
                ),
                filled(old(self)@, self@, true, elements_of_fields(fields@, i as nat), 0),
            decreases fields.len() - i,
        {
            proof {
                lemma_elements_of_fields_grows(fields@, (i + 1) as nat, fields@.len());
            }
            match self.extract(&fields[i].1) {
                Err(e) => {
                    proof {
                        Self::lemma_fields_stop(
                            (old(self)@, Ok(())),
                            fields@,
                            (i + 1) as nat,
                            fields@.len(),
                        );
                    }
                    return Err(e);
                },
                Ok(_) => {},
            }
            match self.serialize_struct_element(fields[i].0.as_str()) {
                Err(e) => {
                    proof {
                        Self::lemma_fields_stop(
                            (old(self)@, Ok(())),
                            fields@,
                            (i + 1) as nat,
                            fields@.len(),
                        );
                    }
                    return Err(e);
                },
                Ok(_) => {},
            }
            i = i + 1;
        }
        Ok(())
    }

    /// A new element without children uses up at most one identifier; where
    /// it is made, and a fact about it is taken, it is the one element more
    /// that waits for a parent.
    pub proof fn lemma_made_settled(
        s: ExtractorModel<B::Model>,
        elem_type: ElemType,
        fact: Option<Fact>,
    )
        requires
            s.can_allocate(),
        ensures
            ({
                let step = match fact {
                    Some(fact) => Self::and_then(Self::made(s, elem_type), fact),
                    None => Self::made(s, elem_type),
                };
                settled(s, step.0, step.1 is Ok, 1)
            }),
    {
        assert(s.elem_stack.push(ElemId(s.next_id)).drop_last() =~= s.elem_stack);
    }

    /// Once a child has failed, the children after it change nothing.
    pub proof fn lemma_elements_stop(
        start: (ExtractorModel<B::Model>, Result<(), ErrorModel>),
        items: Seq<Value>,
        n: nat,
        m: nat,
        elem_type: ElemType,
    )
        requires
            n <= m <= items.len(),
            Self::elements_done(start, items, n, elem_type).1 is Err,
        ensures
            Self::elements_done(start, items, m, elem_type) == Self::elements_done(
                start,
                items,
                n,
                elem_type,
            ),
        decreases m,
    {
        if n < m {
            Self::lemma_elements_stop(start, items, n, (m - 1) as nat, elem_type);
        }
    }

    /// Once an entry has failed, the entries after it change nothing.
    pub proof fn lemma_entries_stop(
        start: (ExtractorModel<B::Model>, Result<(), ErrorModel>),
        entries: Seq<(Value, Value)>,
        n: nat,
        m: nat,
    )
        requires
            n <= m <= entries.len(),
            Self::entries_done(start, entries, n).1 is Err,
        ensures
            Self::entries_done(start, entries, m) == Self::entries_done(start, entries, n),
        decreases m,
    {
        if n < m {
            Self::lemma_entries_stop(start, entries, n, (m - 1) as nat);
        }
    }

    /// Once a field has failed, the fields after it change nothing.
    pub proof fn lemma_fields_stop(
        start: (ExtractorModel<B::Model>, Result<(), ErrorModel>),
        fields: Seq<(String, Value)>,
        n: nat,
        m: nat,
    )
        requires
            n <= m <= fields.len(),
            Self::fields_done(start, fields, n).1 is Err,
        ensures
            Self::fields_done(start, fields, m) == Self::fields_done(start, fields, n),
        decreases m,
    {
        if n < m {
            Self::lemma_fields_stop(start, fields, n, (m - 1) as nat);
        }
    }
}

/// The first children have no more elements than all of them.
pub proof fn lemma_elements_of_grows(items: Seq<Value>, n: nat, m: nat)
    requires
        n <= m <= items.len(),
    ensures
        elements_of(items, n) <= elements_of(items, m),
    decreases m,
{
    if n < m {
        lemma_elements_of_grows(items, n, (m - 1) as nat);
    }
}

/// The first entries have no more elements than all of them.
pub proof fn lemma_elements_of_entries_grows(entries: Seq<(Value, Value)>, n: nat, m: nat)
    requires
        n <= m <= entries.len(),
    ensures
        elements_of_entries(entries, n) <= elements_of_entries(entries, m),
    decreases m,
{
    if n < m {
        lemma_elements_of_entries_grows(entries, n, (m - 1) as nat);
    }
}

/// The first fields have no more elements than all of them.
pub proof fn lemma_elements_of_fields_grows(fields: Seq<(String, Value)>, n: nat, m: nat)
    requires
        n <= m <= fields.len(),
    ensures
        elements_of_fields(fields, n) <= elements_of_fields(fields, m),
    decreases m,
{
    if n < m {
        lemma_elements_of_fields_grows(fields, n, (m - 1) as nat);
    }
}

} // verus!
