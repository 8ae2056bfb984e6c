//! Identifiers and shape tags of the elements of a value.

use vstd::prelude::*;
use crate::text::{decimal, render_decimal};

verus! {

/// A unique identifier for one element of a value. The extractor hands them
/// out in increasing order, starting at 1.
#[derive(PartialEq, Eq, Structural, Hash, Clone, Copy, Debug)]
pub struct ElemId(pub usize);

impl ElemId {
    /// The identifier as a decimal numeral.
    pub fn to_string(&self) -> (s: String)
        ensures
            s@ == decimal(self.0 as nat),
    {
        render_decimal(self.0 as u64)
    }
}

/// The shape of one element. Optional values have no tag of their own: an
/// absent value is a unit variant `None` of a type named `Option`, a present
/// one a newtype variant `Some` of the same type.
#[derive(PartialEq, Eq, Structural, Hash, Clone, Copy, Debug)]
pub enum ElemType {
    Bool,
    I8,
    I16,
    I32,
    I64,
    U8,
    U16,
    U32,
    U64,
    F32,
    F64,
    Char,
    Str,
    Bytes,
    Mapping,
    NewtypeStruct,
    NewtypeVariant,
    Sequence,
    Struct,
    StructVariant,
    Tuple,
    TupleStruct,
    TupleVariant,
    Unit,
    UnitStruct,
    UnitVariant,
}

impl ElemType {
    /// Whether facts can represent an element of this shape at all. Floating
    /// point numbers and byte arrays cannot.
    pub open spec fn extractable(self) -> bool {
        !(self is F32 || self is F64 || self is Bytes)
    }

    /// The name under which a rejected shape is reported.
    pub open spec fn rejected_name(self) -> Seq<char> {
        match self {
            ElemType::F32 => "f32"@,
            ElemType::F64 => "f64"@,
            _ => "bytes"@,
        }
    }

    /// Whether the children of an element of this shape are recorded by
    /// position in the `tuple` relation.
    pub open spec fn is_tuple_like(self) -> bool {
        self is Tuple || self is TupleStruct || self is TupleVariant
    }
}

} // verus!
