//! The interface between the extractor and the backends that store facts.

use vstd::prelude::*;
use crate::elem::{ElemId, ElemType};
use crate::error::{outcome, DatalogExtractionError, ErrorModel};
use crate::text::push_char;

verus! {

/// One fact about an element, as the extractor states it to a backend.
#[allow(inconsistent_fields)]
pub enum Fact {
    /// `elem` is the root element of `file`.
    RootElem { file: Seq<char>, elem: ElemId },
    /// `elem` has the shape `elem_type`.
    Elem { elem: ElemId, elem_type: ElemType },
    /// `elem` is a boolean with this value.
    Bool { elem: ElemId, value: bool },
    /// `elem` is a signed number with this value.
    I64 { elem: ElemId, value: i64 },
    /// `elem` is an unsigned number with this value.
    U64 { elem: ElemId, value: u64 },
    /// `elem` is a string with this value.
    Str { elem: ElemId, value: Seq<char> },
    /// The map `elem` takes `key` to `value`.
    MapEntry { elem: ElemId, key: ElemId, value: ElemId },
    /// The struct `elem` has the type name `struct_name`.
    StructType { elem: ElemId, struct_name: Seq<char> },
    /// The struct `elem` holds `value` in its field `key`.
    StructEntry { elem: ElemId, key: Seq<char>, value: ElemId },
    /// The sequence `elem` holds `value` at position `pos`.
    SeqEntry { elem: ElemId, pos: usize, value: ElemId },
    /// The enum variant `elem` has these type and variant names.
    VariantType { elem: ElemId, enum_name: Seq<char>, variant_name: Seq<char> },
    /// The tuple `elem` holds `value` at position `pos`.
    TupleEntry { elem: ElemId, pos: usize, value: ElemId },
}

/// The result of stating a fact that a backend has no relation for: its
/// contents stay as they were and the kind of data is reported.
pub open spec fn declined<M>(m: M, kind: Seq<char>) -> (M, Result<(), ErrorModel>) {
    (m, Err(ErrorModel::UnextractableData(kind)))
}

/// A backend materializes the facts that the extractor states, in whatever
/// representation it chooses.
///
/// What a backend holds is described by its `Model`, and what it makes of
/// a fact by `apply`: every method states one fact and leaves the backend as
/// `apply` says. A backend without a relation for some kind of fact answers
/// it with `declined`. The methods for the narrow integer widths and for
/// characters have default bodies that widen the value and state the wider
/// fact. No fact holds a byte array: the default body for byte arrays
/// declines them, and so does every backend.
pub trait DatalogExtractorBackend: Sized {
    /// The mathematical content of the backend.
    type Model;

    /// The content of this backend.
    spec fn model(&self) -> Self::Model;

    /// The invariant of the backend's representation.
    spec fn inv(&self) -> bool;

    /// The content after `fact` was stated to a backend with content `m`,
    /// and whether the fact was taken.
    spec fn apply(m: Self::Model, fact: Fact) -> (Self::Model, Result<(), ErrorModel>);

    /// No backend takes an element whose shape facts cannot represent.
    proof fn lemma_rejects_unextractable(m: Self::Model, elem: ElemId, elem_type: ElemType)
        requires
            !elem_type.extractable(),
        ensures
            Self::apply(m, Fact::Elem { elem, elem_type }) == declined(
                m,
                elem_type.rejected_name(),
            ),
    ;

    /// Set `elem` as the root element of `file`.
    fn add_root_elem(&mut self, file: &str, elem: ElemId) -> (r: Result<
        (),
        DatalogExtractionError,
    >)
        requires
            old(self).inv(),
        ensures
            final(self).inv(),
            (final(self).model(), outcome(r)) == Self::apply(
                old(self).model(),
                Fact::RootElem { file: file@, elem },
            ),
    ;

    /// Materialize the fact that `elem` has the shape `elem_type`.
    fn add_elem(&mut self, elem: ElemId, elem_type: ElemType) -> (r: Result<
        (),
        DatalogExtractionError,
    >)
        requires
            old(self).inv(),
        ensures
            final(self).inv(),
            (final(self).model(), outcome(r)) == Self::apply(
                old(self).model(),
                Fact::Elem { elem, elem_type },
            ),
    ;

    /// Materialize the fact that `elem` is a boolean with value `value`.
    fn add_bool(&mut self, elem: ElemId, value: bool) -> (r: Result<(), DatalogExtractionError>)
        requires
            old(self).inv(),
        ensures
            final(self).inv(),
            (final(self).model(), outcome(r)) == Self::apply(
                old(self).model(),
                Fact::Bool { elem, value },
            ),
    ;

    /// Materialize the fact that `elem` is an i8 with value `value`, as the
    /// signed number of the same value.
    fn add_i8(&mut self, elem: ElemId, value: i8) -> (r: Result<(), DatalogExtractionError>)
        requires
            old(self).inv(),
        ensures
            final(self).inv(),
            (final(self).model(), outcome(r)) == Self::apply(
                old(self).model(),
                Fact::I64 { elem, value: value as i64 },
            ),
    {
        self.add_i64(elem, value as i64)
    }

    /// Materialize the fact that `elem` is an i16 with value `value`, as the
    /// signed number of the same value.
    fn add_i16(&mut self, elem: ElemId, value: i16) -> (r: Result<(), DatalogExtractionError>)
        requires
            old(self).inv(),
        ensures
            final(self).inv(),
            (final(self).model(), outcome(r)) == Self::apply(
                old(self).model(),
                Fact::I64 { elem, value: value as i64 },
            ),
    {
        self.add_i64(elem, value as i64)
    }

    /// Materialize the fact that `elem` is an i32 with value `value`, as the
    /// signed number of the same value.
    fn add_i32(&mut self, elem: ElemId, value: i32) -> (r: Result<(), DatalogExtractionError>)
        requires
            old(self).inv(),
        ensures
            final(self).inv(),
            (final(self).model(), outcome(r)) == Self::apply(
                old(self).model(),
                Fact::I64 { elem, value: value as i64 },
            ),
    {
        self.add_i64(elem, value as i64)
    }

    /// Materialize the fact that `elem` is an i64 with value `value`.
    fn add_i64(&mut self, elem: ElemId, value: i64) -> (r: Result<(), DatalogExtractionError>)
        requires
            old(self).inv(),
        ensures
            final(self).inv(),
            (final(self).model(), outcome(r)) == Self::apply(
                old(self).model(),
                Fact::I64 { elem, value },
            ),
    ;

    /// Materialize the fact that `elem` is a u8 with value `value`, as the
    /// unsigned number of the same value.
    fn add_u8(&mut self, elem: ElemId, value: u8) -> (r: Result<(), DatalogExtractionError>)
        requires
            old(self).inv(),
        ensures
            final(self).inv(),
            (final(self).model(), outcome(r)) == Self::apply(
                old(self).model(),
                Fact::U64 { elem, value: value as u64 },
            ),
    {
        self.add_u64(elem, value as u64)
    }

    /// Materialize the fact that `elem` is a u16 with value `value`, as the
    /// unsigned number of the same value.
    fn add_u16(&mut self, elem: ElemId, value: u16) -> (r: Result<(), DatalogExtractionError>)
        requires
            old(self).inv(),
        ensures
            final(self).inv(),
            (final(self).model(), outcome(r)) == Self::apply(
                old(self).model(),
                Fact::U64 { elem, value: value as u64 },
            ),
    {
        self.add_u64(elem, value as u64)
    }

    /// Materialize the fact that `elem` is a u32 with value `value`, as the
    /// unsigned number of the same value.
    fn add_u32(&mut self, elem: ElemId, value: u32) -> (r: Result<(), DatalogExtractionError>)
        requires
            old(self).inv(),
        ensures
            final(self).inv(),
            (final(self).model(), outcome(r)) == Self::apply(
                old(self).model(),
                Fact::U64 { elem, value: value as u64 },
            ),
    {
        self.add_u64(elem, value as u64)
    }

    /// Materialize the fact that `elem` is a u64 with value `value`.
    fn add_u64(&mut self, elem: ElemId, value: u64) -> (r: Result<(), DatalogExtractionError>)
        requires
            old(self).inv(),
        ensures
            final(self).inv(),
            (final(self).model(), outcome(r)) == Self::apply(
                old(self).model(),
                Fact::U64 { elem, value },
            ),
    ;

    /// Materialize the fact that `elem` is a character, as the string that
    /// holds this one character.
    fn add_char(&mut self, elem: ElemId, value: char) -> (r: Result<(), DatalogExtractionError>)
        requires
            old(self).inv(),
        ensures
            final(self).inv(),
            (final(self).model(), outcome(r)) == Self::apply(
                old(self).model(),
                Fact::Str { elem, value: seq![value] },
            ),
    {
        let mut text = String::new();
        push_char(&mut text, value);
        assert(text@ == seq![value]);
        self.add_str(elem, text.as_str())
    }

    /// Materialize the fact that `elem` is a string with value `value`.
    fn add_str(&mut self, elem: ElemId, value: &str) -> (r: Result<(), DatalogExtractionError>)
        requires
            old(self).inv(),
        ensures
            final(self).inv(),
            (final(self).model(), outcome(r)) == Self::apply(
                old(self).model(),
                Fact::Str { elem, value: value@ },
            ),
    ;

    /// Declines the byte array `elem`: there is no relation for byte arrays.
    fn add_bytes(&mut self, elem: ElemId, value: &[u8]) -> (r: Result<(), DatalogExtractionError>)
        requires
            old(self).inv(),
        ensures
            final(self).inv(),
            (final(self).model(), outcome(r)) == declined(old(self).model(), "bytes"@),
    {
        Err(DatalogExtractionError::unextractable("bytes"))
    }

    /// Materialize the fact that the map `elem` takes `key` to `value`.
    fn add_map_entry(&mut self, elem: ElemId, key: ElemId, value: ElemId) -> (r: Result<
        (),
        DatalogExtractionError,
    >)
        requires
            old(self).inv(),
        ensures
            final(self).inv(),
            (final(self).model(), outcome(r)) == Self::apply(
                old(self).model(),
                Fact::MapEntry { elem, key, value },
            ),
    ;

    /// Materialize the fact that `elem` is a struct with the type name
    /// `struct_name`. The struct may be a newtype, field, tuple or unit
    /// struct.
    fn add_struct_type(&mut self, elem: ElemId, struct_name: &str) -> (r: Result<
        (),
        DatalogExtractionError,
    >)
        requires
            old(self).inv(),
        ensures
            final(self).inv(),
            (final(self).model(), outcome(r)) == Self::apply(
                old(self).model(),
                Fact::StructType { elem, struct_name: struct_name@ },
            ),
    ;

    /// Materialize the fact that the struct or struct variant `elem` holds
    /// `value` in its field `key`.
    fn add_struct_entry(&mut self, elem: ElemId, key: &str, value: ElemId) -> (r: Result<
        (),
        DatalogExtractionError,
    >)
        requires
            old(self).inv(),
        ensures
            final(self).inv(),
            (final(self).model(), outcome(r)) == Self::apply(
                old(self).model(),
                Fact::StructEntry { elem, key: key@, value },
            ),
    ;

    /// Materialize the fact that the sequence `elem` holds `value` at
    /// position `pos`.
    fn add_seq_entry(&mut self, elem: ElemId, pos: usize, value: ElemId) -> (r: Result<
        (),
        DatalogExtractionError,
    >)
        requires
            old(self).inv(),
        ensures
            final(self).inv(),
            (final(self).model(), outcome(r)) == Self::apply(
                old(self).model(),
                Fact::SeqEntry { elem, pos, value },
            ),
    ;

    /// Materialize the fact that `elem` is an enum variant with the type
    /// name `enum_name` and the variant name `variant_name`. The variant may
    /// be a newtype, struct, tuple or unit variant.
    fn add_variant_type(&mut self, elem: ElemId, enum_name: &str, variant_name: &str) -> (r:
        Result<(), DatalogExtractionError>)
        requires
            old(self).inv(),
        ensures
            final(self).inv(),
            (final(self).model(), outcome(r)) == Self::apply(
                old(self).model(),
                Fact::VariantType { elem, enum_name: enum_name@, variant_name: variant_name@ },
            ),
    ;

    /// Materialize the fact that the tuple `elem` holds `value` at position
    /// `pos`. The tuple may be a plain tuple, a tuple or newtype struct, or a
    /// tuple or newtype variant.
    fn add_tuple_entry(&mut self, elem: ElemId, pos: usize, value: ElemId) -> (r: Result<
        (),
        DatalogExtractionError,
    >)
        requires
            old(self).inv(),
        ensures
            final(self).inv(),
            (final(self).model(), outcome(r)) == Self::apply(
                old(self).model(),
                Fact::TupleEntry { elem, pos, value },
            ),
    ;
}

} // verus!
