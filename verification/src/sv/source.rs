//! A source file held in memory with its line map.
use crate::engine::linemap::{newline_count, LineMap};
use crate::strings::to_string;
use vstd::prelude::*;
use vstd::string::StringSliceAdditionalSpecFns;
use vstd::utf8::encode_utf8;

verus! {

/// A source file: the name it is shown by, its text and the line map of that text.
pub struct SourceFile {
    pub display: String,
    pub text: String,
    pub line_map: LineMap,
}

impl SourceFile {
    /// The line map belongs to the text, and line and column numbers fit their types.
    pub open spec fn wf(&self) -> bool {
        &&& self.line_map@ == encode_utf8(self.text@)
        &&& newline_count(self.line_map@) < u32::MAX
        &&& self.line_map@.len() < usize::MAX
    }

    /// A source file shown as `display` holding `text`.
    pub fn new(display: &str, text: &str) -> (r: Self)
        ensures
            r.display@ == display@,
            r.text@ == text@,
            r.line_map@ == text.spec_bytes(),
    {
        SourceFile { display: to_string(display), text: to_string(text), line_map: LineMap::new(text) }
    }
}

} // verus!
