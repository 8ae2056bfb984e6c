//! Values as trees: the shapes of data that the extractor can walk.

use vstd::prelude::*;
use crate::elem::ElemType;

verus! {

/// A value without parts.
pub enum Scalar {
    Bool(bool),
    I8(i8),
    I16(i16),
    I32(i32),
    I64(i64),
    U8(u8),
    U16(u16),
    U32(u32),
    U64(u64),
    /// A 32-bit floating point number. Its value is not kept: no fact can
    /// hold it.
    F32,
    /// A 64-bit floating point number. Its value is not kept: no fact can
    /// hold it.
    F64,
    Char(char),
    Str(String),
    Bytes(Vec<u8>),
}

/// The name of the type of a struct, or the names of the type and the
/// variant of an enum variant.
pub enum TypeName {
    Struct(String),
    Variant(String, String),
}

/// A tree-shaped value. An absent optional value is the unit variant `None`
/// of the type `Option`; a present one is the newtype variant `Some` of that
/// type around its content.
pub enum Value {
    /// A boolean, a number, a character, a string or a byte array.
    Scalar(Scalar),
    /// A unit, a unit struct or a unit variant.
    Unit(Option<TypeName>),
    /// A newtype struct or a newtype variant around one value.
    Newtype(TypeName, Box<Value>),
    /// A sequence of values.
    Sequence(Vec<Value>),
    /// A tuple, a tuple struct or a tuple variant.
    Tuple(Option<TypeName>, Vec<Value>),
    /// A map, as its entries of a key and a value.
    Mapping(Vec<(Value, Value)>),
    /// A struct or a struct variant, as its fields of a name and a value.
    Struct(TypeName, Vec<(String, Value)>),
}

impl Scalar {
    /// The shape of the element that this scalar becomes.
    pub open spec fn elem_type(self) -> ElemType {
        match self {
            Scalar::Bool(_) => ElemType::Bool,
            Scalar::I8(_) => ElemType::I8,
            Scalar::I16(_) => ElemType::I16,
            Scalar::I32(_) => ElemType::I32,
            Scalar::I64(_) => ElemType::I64,
            Scalar::U8(_) => ElemType::U8,
            Scalar::U16(_) => ElemType::U16,
            Scalar::U32(_) => ElemType::U32,
            Scalar::U64(_) => ElemType::U64,
            Scalar::F32 => ElemType::F32,
            Scalar::F64 => ElemType::F64,
            Scalar::Char(_) => ElemType::Char,
            Scalar::Str(_) => ElemType::Str,
            Scalar::Bytes(_) => ElemType::Bytes,
        }
    }
}

impl Value {
    /// The number of elements of the value: itself and the elements of its
    /// parts.
    pub open spec fn elements(self) -> nat
        decreases self,
    {
        match self {
            Value::Scalar(_) => 1,
            Value::Unit(_) => 1,
            Value::Newtype(_, content) => 1 + content.elements(),
            Value::Sequence(items) => 1 + elements_of(items@, items@.len()),
            Value::Tuple(_, items) => 1 + elements_of(items@, items@.len()),
            Value::Mapping(entries) => 1 + elements_of_entries(entries@, entries@.len()),
            Value::Struct(_, fields) => 1 + elements_of_fields(fields@, fields@.len()),
        }
    }
}

/// The number of elements of the first `n` of `items`.
pub open spec fn elements_of(items: Seq<Value>, n: nat) -> nat
    decreases items, n,
{
    if n == 0 || n > items.len() {
        0
    } else {
        elements_of(items, (n - 1) as nat) + items[n - 1].elements()
    }
}

/// The number of elements of the keys and values of the first `n` of
/// `entries`.
pub open spec fn elements_of_entries(entries: Seq<(Value, Value)>, n: nat) -> nat
    decreases entries, n,
{
    if n == 0 || n > entries.len() {
        0
    } else {
        elements_of_entries(entries, (n - 1) as nat) + entries[n - 1].0.elements() + entries[n
            - 1].1.elements()
    }
}

/// The number of elements of the values of the first `n` of `fields`.
pub open spec fn elements_of_fields(fields: Seq<(String, Value)>, n: nat) -> nat
    decreases fields, n,
{
    if n == 0 || n > fields.len() {
        0
    } else {
        elements_of_fields(fields, (n - 1) as nat) + fields[n - 1].1.elements()
    }
}

} // verus!
