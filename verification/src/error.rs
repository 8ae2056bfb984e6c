//! The errors of an extraction.

use vstd::prelude::*;
use vstd::string::*;
use crate::elem::ElemId;
use crate::text::{append_decimal, decimal};

verus! {

/// Error encountered during extraction.
#[derive(Debug)]
pub enum DatalogExtractionError {
    /// A backend cannot represent this kind of data.
    UnextractableData(String),
    /// A file was given a second root element.
    NonuniqueRootElement(String),
    /// A fact about this element collides with one already stored.
    NonuniqueIdentifier(ElemId),
    /// An unsigned number does not fit the signed representation.
    IntegerCastOverflow(u64),
    /// Any other failure, as free text.
    Custom(String),
}

/// What an error says, with its text as a sequence of characters.
pub enum ErrorModel {
    UnextractableData(Seq<char>),
    NonuniqueRootElement(Seq<char>),
    NonuniqueIdentifier(ElemId),
    IntegerCastOverflow(u64),
    Custom(Seq<char>),
}

impl ErrorModel {
    /// The message shown for this error.
    pub open spec fn message(self) -> Seq<char> {
        match self {
            ErrorModel::UnextractableData(data) => "unextractable data "@ + data,
            ErrorModel::NonuniqueRootElement(file) => "multiple root elements for "@ + file,
            ErrorModel::NonuniqueIdentifier(elem) => "multiple elements associated with identifier "@
                + decimal(elem.0 as nat),
            ErrorModel::IntegerCastOverflow(value) => "could not coerce unsigned int "@ + decimal(
                value as nat,
            ) + " to signed int"@,
            ErrorModel::Custom(msg) => msg,
        }
    }
}

impl View for DatalogExtractionError {
    type V = ErrorModel;

    open spec fn view(&self) -> ErrorModel {
        match *self {
            DatalogExtractionError::UnextractableData(data) => ErrorModel::UnextractableData(data@),
            DatalogExtractionError::NonuniqueRootElement(file) => ErrorModel::NonuniqueRootElement(
                file@,
            ),
            DatalogExtractionError::NonuniqueIdentifier(elem) => ErrorModel::NonuniqueIdentifier(
                elem,
            ),
            DatalogExtractionError::IntegerCastOverflow(value) => ErrorModel::IntegerCastOverflow(
                value,
            ),
            DatalogExtractionError::Custom(msg) => ErrorModel::Custom(msg@),
        }
    }
}

/// The outcome of a step: what it gave on success, or the model of its
/// error.
pub open spec fn outcome<T>(r: Result<T, DatalogExtractionError>) -> Result<T, ErrorModel> {
    match r {
        Ok(value) => Ok(value),
        Err(e) => Err(e@),
    }
}

impl DatalogExtractionError {
    /// The message shown for this error.
    pub fn to_string(&self) -> (s: String)
        ensures
            s@ == self@.message(),
    {
        match self {
            DatalogExtractionError::UnextractableData(data) => {
                let mut s = String::from_str("unextractable data ");
                s.append(data.as_str());
                s
            },
            DatalogExtractionError::NonuniqueRootElement(file) => {
                let mut s = String::from_str("multiple root elements for ");
                s.append(file.as_str());
                s
            },
            DatalogExtractionError::NonuniqueIdentifier(elem) => {
                let mut s = String::from_str("multiple elements associated with identifier ");
                append_decimal(&mut s, elem.0 as u64);
                s
            },
            DatalogExtractionError::IntegerCastOverflow(value) => {
                let mut s = String::from_str("could not coerce unsigned int ");
                append_decimal(&mut s, *value);
                s.append(" to signed int");
                s
            },
            DatalogExtractionError::Custom(msg) => msg.clone(),
        }
    }

    /// The error for data of the named kind that a backend cannot represent.
    pub fn unextractable(kind: &str) -> (e: DatalogExtractionError)
        ensures
            e@ == ErrorModel::UnextractableData(kind@),
    {
        DatalogExtractionError::UnextractableData(kind.to_owned())
    }
}

} // verus!
