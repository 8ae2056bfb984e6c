//! The yaml input format.

use vstd::prelude::*;
use crate::input_format::{slices, InputFormat};

verus! {

/// The YAML format.
pub struct InputFormatYAML;

impl InputFormat for InputFormatYAML {
    open spec fn format_name(&self) -> Seq<char> {
        "yaml"@
    }

    open spec fn extensions(&self) -> Seq<Seq<char>> {
        seq!["yaml"@, "yml"@]
    }

    open spec fn string_keys(&self) -> bool {
        false
    }

    fn name(&self) -> (name: &'static str) {
        "yaml"
    }

    fn file_extensions(&self) -> (extensions: Vec<&'static str>) {
        let mut extensions: Vec<&'static str> = Vec::new();
        extensions.push("yaml");
        extensions.push("yml");
        assert(slices(extensions@) =~= self.extensions());
        extensions
    }

    fn has_string_keys(&self) -> (string_keys: bool) {
        false
    }
}

} // verus!
