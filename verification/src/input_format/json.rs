//! The json input format.

use vstd::prelude::*;
use crate::input_format::{slices, InputFormat};

verus! {

/// The JSON format.
pub struct InputFormatJSON;

impl InputFormat for InputFormatJSON {
    open spec fn format_name(&self) -> Seq<char> {
        "json"@
    }

    open spec fn extensions(&self) -> Seq<Seq<char>> {
        seq!["json"@]
    }

    open spec fn string_keys(&self) -> bool {
        true
    }

    fn name(&self) -> (name: &'static str) {
        "json"
    }

    fn file_extensions(&self) -> (extensions: Vec<&'static str>) {
        let mut extensions: Vec<&'static str> = Vec::new();
        extensions.push("json");
        assert(slices(extensions@) =~= self.extensions());
        extensions
    }

    fn has_string_keys(&self) -> (string_keys: bool) {
        true
    }
}

} // verus!
