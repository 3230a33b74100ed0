//! Error values carried out of the lexing and parsing stages.

use vstd::prelude::*;

use crate::text::chars_to_string;
use crate::text::spec_dec_digits;
use crate::text::usize_to_dec_chars;

verus! {

/// A lexing failure: a message with the 1-based source position at which the
/// lexer stopped.
#[derive(Debug)]
pub struct LexError {
    pub message: String,
    pub line: usize,
    pub column: usize,
}

/// The one-line rendering of a lexing failure.
pub open spec fn spec_lex_error_text(msg: Seq<char>, line: nat, col: nat) -> Seq<char> {
    "LexError, "@ + msg + ", Line: "@ + spec_dec_digits(line) + ", Column: "@ + spec_dec_digits(
        col,
    )
}

impl LexError {
    /// Render this error as one line of text.
    pub fn describe(&self) -> (r: String)
        ensures
            r@ == spec_lex_error_text(self.message@, self.line as nat, self.column as nat),
    {
        let mut r = String::new();
        r.append("LexError, ");
        r.append(self.message.as_str());
        r.append(", Line: ");
        let line_digits = usize_to_dec_chars(self.line);
        r.append(chars_to_string(&line_digits).as_str());
        r.append(", Column: ");
        let col_digits = usize_to_dec_chars(self.column);
        r.append(chars_to_string(&col_digits).as_str());
        r
    }
}

} // verus!
