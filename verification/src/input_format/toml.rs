//! The toml input format.

use vstd::prelude::*;
use crate::input_format::{slices, InputFormat};

verus! {

/// The TOML format.
pub struct InputFormatTOML;

impl InputFormat for InputFormatTOML {
    open spec fn format_name(&self) -> Seq<char> {
        "toml"@
    }

    open spec fn extensions(&self) -> Seq<Seq<char>> {
        seq!["toml"@]
    }

    open spec fn string_keys(&self) -> bool {
        true
    }

    fn name(&self) -> (name: &'static str) {
        "toml"
    }

    fn file_extensions(&self) -> (extensions: Vec<&'static str>) {
        let mut extensions: Vec<&'static str> = Vec::new();
        extensions.push("toml");
        assert(slices(extensions@) =~= self.extensions());
        extensions
    }

    fn has_string_keys(&self) -> (string_keys: bool) {
        true
    }
}

} // verus!
