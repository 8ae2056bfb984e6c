//! Generates a database of facts from a tree-shaped value: records,
//! sequences, tuples, maps, enum variants and scalars. In Datalog terms, it
//! turns a value into an EDB.
//!
//! The [`DatalogExtractor`] walks a value and gives every element in it a
//! unique identifier; references between elements become identifiers in
//! facts. The extractor holds no facts itself: it states each fact to a
//! [`DatalogExtractorBackend`], which materializes it in a representation of
//! its choice.
//!
//! For the newtype variant `A` of an enum `Foo` around the newtype variant
//! `B` around the number 10, the extractor states these facts:
//!
//! - element 1 is a number,
//! - element 1 has the value 10,
//! - element 2 is a newtype variant,
//! - element 2 has the type `Foo` and the variant name `B`,
//! - the entry 0 of element 2 is element 1,
//! - element 3 is a newtype variant,
//! - element 3 has the type `Foo` and the variant name `A`,
//! - the entry 0 of element 3 is element 2.
//!
//! The [in-memory backend][backend::vector::Backend] keeps the facts as
//! tables of rows. The [relational backend][backend::souffle_sqlite::Backend]
//! gives them as the statements that create a SQLite database in the layout
//! that the Souffle Datalog engine reads.

pub mod backend;
pub mod census;
pub mod elem;
pub mod error;
pub mod extractor;
pub mod grounding;
pub mod input_format;
pub mod interface;
pub mod order;
pub mod text;
pub mod value;
pub mod walk;

pub use crate::elem::{ElemId, ElemType};
pub use crate::error::DatalogExtractionError;
pub use crate::extractor::DatalogExtractor;
pub use crate::interface::DatalogExtractorBackend;
