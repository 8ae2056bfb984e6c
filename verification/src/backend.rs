//! The backends that come with the library.

pub mod agreement;
pub mod dump;
pub mod rows;
pub mod souffle_sqlite;
pub mod symbols;
pub mod vector;
