//! The options of a run, and the run itself on a buffer already read.

use crate::color::ColorWhen;
use crate::pattern::{chosen_pattern, pattern_bytes, text_of, PatternError};
use crate::scan::{found, is_scan_result, report, report_text, scan, Hit};
use vstd::prelude::*;

verus! {

/// What the user asks for: the pattern as hexadecimal digits or as text, the
/// number of bytes of context on either side of a match, when to highlight,
/// and the file to search.
#[derive(Debug)]
pub struct Opt {
    pub hex_pattern: Option<String>,
    pub text_pattern: Option<String>,
    pub context: u64,
    pub color_when: ColorWhen,
    pub input: String,
}

/// What a run gives: the hits, the text to print for them, and whether
/// there was any hit.
pub struct Outcome {
    pub hits: Vec<Hit>,
    pub text: String,
    pub found: bool,
}

impl Opt {
    /// The pattern that these options give.
    pub open spec fn pattern_spec(self) -> Result<Seq<u8>, PatternError> {
        chosen_pattern(text_of(self.hex_pattern), text_of(self.text_pattern))
    }

    /// The pattern to search for.
    pub fn pattern(&self) -> (pattern: Result<Vec<u8>, PatternError>)
        ensures
            match pattern {
                Ok(bytes) => self.pattern_spec() == Ok::<Seq<u8>, PatternError>(bytes@),
                Err(e) => self.pattern_spec() == Err::<Seq<u8>, PatternError>(e),
            },
    {
        pattern_bytes(&self.hex_pattern, &self.text_pattern)
    }

    /// Searches `buffer`, the content of the input file, as these options
    /// say. `isatty` tells whether the text will be shown on a terminal.
    pub fn run(&self, buffer: &[u8], isatty: bool) -> (result: Result<Outcome, PatternError>)
        ensures
            match self.pattern_spec() {
                Err(e) => result == Err::<Outcome, PatternError>(e),
                Ok(pattern) => if pattern.len() == 0 {
                    result == Err::<Outcome, PatternError>(PatternError::Empty)
                } else {
                    &&& result is Ok
                    &&& is_scan_result(
                        buffer@,
                        pattern,
                        self.context as int,
                        self.color_when.enabled(isatty),
                        result->Ok_0.hits@,
                    )
                    &&& result->Ok_0.text@ == report_text(result->Ok_0.hits@)
                    &&& result->Ok_0.found == (result->Ok_0.hits@.len() > 0)
                },
            },
    {
        let pattern = match self.pattern() {
            Ok(pattern) => pattern,
            Err(e) => return Err(e),
        };
        let highlight_enabled = self.color_when.mix_isatty_to_color_flag(isatty);
        match scan(buffer, pattern.as_slice(), self.context, highlight_enabled) {
            Ok(hits) => {
                let text = report(&hits);
                let found = found(&hits);
                Ok(Outcome { hits, text, found })
            },
            Err(_) => Err(PatternError::Empty),
        }
    }
}

} // verus!
