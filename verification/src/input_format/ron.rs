//! The ron input format.

use vstd::prelude::*;
use crate::input_format::{slices, InputFormat};

verus! {

/// The RON format.
pub struct InputFormatRON;

impl InputFormat for InputFormatRON {
    open spec fn format_name(&self) -> Seq<char> {
        "ron"@
    }

    open spec fn extensions(&self) -> Seq<Seq<char>> {
        seq!["ron"@]
    }

    open spec fn string_keys(&self) -> bool {
        false
    }

    fn name(&self) -> (name: &'static str) {
        "ron"
    }

    fn file_extensions(&self) -> (extensions: Vec<&'static str>) {
        let mut extensions: Vec<&'static str> = Vec::new();
        extensions.push("ron");
        assert(slices(extensions@) =~= self.extensions());
        extensions
    }

    fn has_string_keys(&self) -> (string_keys: bool) {
        false
    }
}

} // verus!
