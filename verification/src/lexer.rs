//! The lexer shared by the scene and logic dialects.

use vstd::prelude::*;

use crate::error::LexError;
use crate::text::char_to_string;
use crate::text::chars_to_string;
use crate::text::dec_value_up_to;
use crate::text::dec_val;
use crate::text::eq_range;
use crate::text::is_ascii_alpha_char;
use crate::text::is_ascii_digit_char;
use crate::text::is_digit_char;
use crate::text::is_ident_char;
use crate::text::is_identifier_char;
use crate::text::is_whitespace_char;
use crate::text::is_ws_char;
use crate::text::range_to_string;
use crate::text::spec_trim;
use crate::text::str_to_chars;
use crate::text::sub_chars;
use crate::text::trim_range;
use crate::token::Token;
use crate::token::TokenView;

verus! {

// ---------------------------------------------------------------------------
// The lexing model
// ---------------------------------------------------------------------------
//
// Positions are character indices into the source. `line` and `column` are
// the 1-based counters the lexer reports in errors; they move exactly as the
// scanner does, so error positions are pinned by the model.

/// Skip whitespace, advancing the line and column counters.
pub open spec fn spec_skip_ws(s: Seq<char>, pos: int, line: int, col: int) -> (int, int, int)
    decreases s.len() - pos,
{
    if 0 <= pos < s.len() && is_ws_char(s[pos]) {
        if s[pos] == '\n' {
            spec_skip_ws(s, pos + 1, line + 1, 2)
        } else {
            spec_skip_ws(s, pos + 1, line, col + 2)
        }
    } else {
        (pos, line, col)
    }
}

proof fn lemma_skip_ws_bounds(s: Seq<char>, pos: int, line: int, col: int)
    requires
        0 <= pos <= s.len(),
    ensures
        pos <= spec_skip_ws(s, pos, line, col).0 <= s.len(),
    decreases s.len() - pos,
{
    if pos < s.len() && is_ws_char(s[pos]) {
        if s[pos] == '\n' {
            lemma_skip_ws_bounds(s, pos + 1, line + 1, 2);
        } else {
            lemma_skip_ws_bounds(s, pos + 1, line, col + 2);
        }
    }
}

/// The position of the next newline at or after `pos`, or the end of input.
pub open spec fn spec_line_end(s: Seq<char>, pos: int) -> int
    decreases s.len() - pos,
{
    if 0 <= pos < s.len() {
        if s[pos] == '\n' {
            pos
        } else {
            spec_line_end(s, pos + 1)
        }
    } else {
        s.len() as int
    }
}

proof fn lemma_line_end_bounds(s: Seq<char>, pos: int)
    requires
        0 <= pos <= s.len(),
    ensures
        pos <= spec_line_end(s, pos) <= s.len(),
    decreases s.len() - pos,
{
    if pos < s.len() && s[pos] != '\n' {
        lemma_line_end_bounds(s, pos + 1);
    }
}

/// Skip a multi-line comment body, looking for the closing pair; reports the
/// line and column reached when the input ends first.
pub open spec fn spec_skip_ml(s: Seq<char>, pos: int, line: int, col: int) -> Result<
    (int, int, int),
    (int, int),
>
    decreases s.len() - pos,
{
    if 0 <= pos < s.len() {
        if s[pos] == '#' && pos + 1 < s.len() && s[pos + 1] == '/' {
            Ok((pos + 2, line, col + 2))
        } else if s[pos] == '\n' {
            spec_skip_ml(s, pos + 1, line + 1, 1)
        } else {
            spec_skip_ml(s, pos + 1, line, col + 1)
        }
    } else {
        Err((line, col))
    }
}

proof fn lemma_skip_ml_bounds(s: Seq<char>, pos: int, line: int, col: int)
    requires
        0 <= pos <= s.len(),
    ensures
        spec_skip_ml(s, pos, line, col) matches Ok(r) ==> pos < r.0 <= s.len(),
    decreases s.len() - pos,
{
    if 0 <= pos < s.len() {
        if s[pos] == '#' && pos + 1 < s.len() && s[pos + 1] == '/' {
        } else if s[pos] == '\n' {
            lemma_skip_ml_bounds(s, pos + 1, line + 1, 1);
        } else {
            lemma_skip_ml_bounds(s, pos + 1, line, col + 1);
        }
    }
}

/// Scan a string literal body starting after the opening quote. `acc` holds
/// the characters read so far, with escapes already interpreted. On success:
/// the content, the position after the closing quote, and the new column.
/// On failure: the column at which the scanner stopped.
pub open spec fn spec_read_string(s: Seq<char>, pos: int, col: int, acc: Seq<char>) -> Result<
    (Seq<char>, int, int),
    int,
>
    decreases s.len() - pos,
{
    if 0 <= pos < s.len() {
        if s[pos] == '"' {
            Ok((acc, pos + 1, col + 1))
        } else if s[pos] == '\\' {
            if pos + 1 < s.len() {
                let e = s[pos + 1];
                let piece = if e == 'n' {
                    seq!['\n']
                } else if e == 't' {
                    seq!['\t']
                } else if e == 'r' {
                    seq!['\r']
                } else if e == '\\' {
                    seq!['\\']
                } else if e == '"' {
                    seq!['"']
                } else {
                    seq!['\\', e]
                };
                spec_read_string(s, pos + 2, col + 2, acc + piece)
            } else {
                Err(col + 1)
            }
        } else {
            spec_read_string(s, pos + 1, col + 1, acc.push(s[pos]))
        }
    } else {
        Err(col)
    }
}

proof fn lemma_read_string_bounds(s: Seq<char>, pos: int, col: int, acc: Seq<char>)
    requires
        0 <= pos <= s.len(),
    ensures
        spec_read_string(s, pos, col, acc) matches Ok(r) ==> pos < r.1 <= s.len(),
    decreases s.len() - pos,
{
    if 0 <= pos < s.len() {
        if s[pos] == '"' {
        } else if s[pos] == '\\' {
            if pos + 1 < s.len() {
                let e = s[pos + 1];
                let piece = if e == 'n' {
                    seq!['\n']
                } else if e == 't' {
                    seq!['\t']
                } else if e == 'r' {
                    seq!['\r']
                } else if e == '\\' {
                    seq!['\\']
                } else if e == '"' {
                    seq!['"']
                } else {
                    seq!['\\', e]
                };
                lemma_read_string_bounds(s, pos + 2, col + 2, acc + piece);
            }
        } else {
            lemma_read_string_bounds(s, pos + 1, col + 1, acc.push(s[pos]));
        }
    }
}

/// The end of a run of decimal digits starting at `pos`.
pub open spec fn spec_digits_end(s: Seq<char>, pos: int) -> int
    decreases s.len() - pos,
{
    if 0 <= pos < s.len() && is_digit_char(s[pos]) {
        spec_digits_end(s, pos + 1)
    } else {
        pos
    }
}

proof fn lemma_digits_end_bounds(s: Seq<char>, pos: int)
    requires
        0 <= pos <= s.len(),
    ensures
        pos <= spec_digits_end(s, pos) <= s.len(),
        forall|k: int| pos <= k < spec_digits_end(s, pos) ==> is_digit_char(#[trigger] s[k]),
    decreases s.len() - pos,
{
    if pos < s.len() && is_digit_char(s[pos]) {
        lemma_digits_end_bounds(s, pos + 1);
    }
}

/// The extent of a numeric literal at `pos`: its end position and whether a
/// decimal point was consumed. A `.` only joins the number when a digit
/// follows it directly.
pub open spec fn spec_number_end(s: Seq<char>, pos: int) -> (int, bool) {
    let e1 = spec_digits_end(s, pos);
    if 0 <= e1 < s.len() && s[e1] == '.' && e1 + 1 < s.len() && is_digit_char(s[e1 + 1]) {
        (spec_digits_end(s, e1 + 1), true)
    } else {
        (e1, false)
    }
}

/// The end of a run of identifier characters starting at `pos`.
pub open spec fn spec_ident_end(s: Seq<char>, pos: int) -> int
    decreases s.len() - pos,
{
    if 0 <= pos < s.len() && is_ident_char(s[pos]) {
        spec_ident_end(s, pos + 1)
    } else {
        pos
    }
}

proof fn lemma_ident_end_bounds(s: Seq<char>, pos: int)
    requires
        0 <= pos <= s.len(),
    ensures
        pos <= spec_ident_end(s, pos) <= s.len(),
    decreases s.len() - pos,
{
    if pos < s.len() && is_ident_char(s[pos]) {
        lemma_ident_end_bounds(s, pos + 1);
    }
}

/// The identifier token for a spelled word: keywords and boolean literals
/// become dedicated tokens, everything else stays an identifier.
pub open spec fn spec_word_token(w: Seq<char>) -> TokenView {
    if w == "true"@ {
        TokenView::Bool(true)
    } else if w == "false"@ {
        TokenView::Bool(false)
    } else if w == "on"@ {
        TokenView::On
    } else if w == "spawn"@ {
        TokenView::Spawn
    } else if w == "extend"@ {
        TokenView::Extend
    } else if w == "fn"@ {
        TokenView::Fn
    } else {
        TokenView::Ident(w)
    }
}

/// One step of the lexer: the next token with the scanner state after it,
/// the end of input, or a failure.
pub enum LexStep {
    Tok(TokenView, int, int, int),
    End,
    Fail(Seq<char>, int, int),
}

/// The next token of `s` starting at `pos` with counters `line` and `col`.
pub open spec fn spec_next_token(s: Seq<char>, pos: int, line: int, col: int) -> LexStep
    decreases s.len() - pos,
{
    let (p, l, c) = spec_skip_ws(s, pos, line, col);
    if !(pos <= p <= s.len()) {
        LexStep::End
    } else if p >= s.len() {
        LexStep::End
    } else {
        let ch = s[p];
        if ch == '#' {
            LexStep::Tok(TokenView::Hash, p + 1, l, c + 1)
        } else if ch == '/' {
            if p + 1 < s.len() && s[p + 1] == '/' && p + 2 < s.len() && s[p + 2] == '/' {
                let e = spec_line_end(s, p + 3);
                LexStep::Tok(
                    TokenView::DocComment(spec_trim(s.subrange(p + 3, e))),
                    e,
                    l,
                    c + 3 + (e - (p + 3)),
                )
            } else if p + 1 < s.len() && s[p + 1] == '/' {
                let e = spec_line_end(s, p + 2);
                if pos < e <= s.len() {
                    spec_next_token(s, e, l, c + 2 + (e - (p + 2)))
                } else {
                    LexStep::End
                }
            } else if p + 1 < s.len() && s[p + 1] == '#' {
                match spec_skip_ml(s, p + 2, l, c + 2) {
                    Ok((p2, l2, c2)) => if pos < p2 <= s.len() {
                        spec_next_token(s, p2, l2, c2)
                    } else {
                        LexStep::End
                    },
                    Err((le, ce)) => LexStep::Fail(
                        "Unterminated multiline comment (/# ... #/)"@,
                        le,
                        ce,
                    ),
                }
            } else {
                LexStep::Tok(TokenView::Divide, p + 1, l, c + 1)
            }
        } else if ch == '(' {
            LexStep::Tok(TokenView::LParen, p + 1, l, c + 1)
        } else if ch == ')' {
            LexStep::Tok(TokenView::RParen, p + 1, l, c + 1)
        } else if ch == '{' {
            LexStep::Tok(TokenView::LBrace, p + 1, l, c + 1)
        } else if ch == '}' {
            LexStep::Tok(TokenView::RBrace, p + 1, l, c + 1)
        } else if ch == ',' {
            LexStep::Tok(TokenView::Comma, p + 1, l, c + 1)
        } else if ch == ':' {
            LexStep::Tok(TokenView::Colon, p + 1, l, c + 1)
        } else if ch == '.' {
            LexStep::Tok(TokenView::Dot, p + 1, l, c + 1)
        } else if ch == ';' {
            LexStep::Tok(TokenView::Semi, p + 1, l, c + 1)
        } else if ch == '+' {
            LexStep::Tok(TokenView::Plus, p + 1, l, c + 1)
        } else if ch == '-' {
            LexStep::Tok(TokenView::Minus, p + 1, l, c + 1)
        } else if ch == '*' {
            LexStep::Tok(TokenView::Multiply, p + 1, l, c + 1)
        } else if ch == '=' {
            if p + 1 < s.len() && s[p + 1] == '=' {
                LexStep::Tok(TokenView::EqEq, p + 2, l, c + 2)
            } else {
                LexStep::Tok(TokenView::Eq, p + 1, l, c + 1)
            }
        } else if ch == '!' {
            if p + 1 < s.len() && s[p + 1] == '=' {
                LexStep::Tok(TokenView::NotEq, p + 2, l, c + 2)
            } else {
                LexStep::Tok(TokenView::Not, p + 1, l, c + 1)
            }
        } else if ch == '<' {
            if p + 1 < s.len() && s[p + 1] == '=' {
                LexStep::Tok(TokenView::LessEq, p + 2, l, c + 2)
            } else {
                LexStep::Tok(TokenView::Less, p + 1, l, c + 1)
            }
        } else if ch == '>' {
            if p + 1 < s.len() && s[p + 1] == '=' {
                LexStep::Tok(TokenView::GreaterEq, p + 2, l, c + 2)
            } else {
                LexStep::Tok(TokenView::Greater, p + 1, l, c + 1)
            }
        } else if ch == '&' {
            if p + 1 < s.len() && s[p + 1] == '&' {
                LexStep::Tok(TokenView::And, p + 2, l, c + 2)
            } else {
                LexStep::Fail("Expected '&&'"@, l, c)
            }
        } else if ch == '|' {
            if p + 1 < s.len() && s[p + 1] == '|' {
                LexStep::Tok(TokenView::Or, p + 2, l, c + 2)
            } else {
                LexStep::Fail("Expected '||'"@, l, c)
            }
        } else if ch == '"' {
            match spec_read_string(s, p + 1, c + 1, Seq::empty()) {
                Ok((content, p2, c2)) => LexStep::Tok(TokenView::String(content), p2, l, c2),
                Err(ce) => LexStep::Fail("Unterminated string literal"@, l, ce),
            }
        } else if is_digit_char(ch) {
            let (e, is_float) = spec_number_end(s, p);
            let text = s.subrange(p, e);
            if is_float {
                LexStep::Tok(TokenView::Float(text), e, l, c + (e - p))
            } else if dec_val(text) <= 0x7fffffffffffffff {
                LexStep::Tok(TokenView::Integer(dec_val(text) as i64), e, l, c + (e - p))
            } else {
                LexStep::Fail("Invalid integer: "@ + text, l, c + (e - p))
            }
        } else if is_ident_char(ch) {
            let e = spec_ident_end(s, p);
            LexStep::Tok(spec_word_token(s.subrange(p, e)), e, l, c + (e - p))
        } else {
            LexStep::Fail("Unexpected character: '"@ + seq![ch] + "'"@, l, c)
        }
    }
}

/// The token stream of `s` from the given scanner state: all remaining
/// tokens, or the first lexing failure.
pub open spec fn spec_lex(s: Seq<char>, pos: int, line: int, col: int) -> Result<
    Seq<TokenView>,
    (Seq<char>, int, int),
>
    decreases s.len() - pos,
{
    match spec_next_token(s, pos, line, col) {
        LexStep::End => Ok(Seq::empty()),
        LexStep::Fail(m, l, c) => Err((m, l, c)),
        LexStep::Tok(t, p, l, c) => if pos < p <= s.len() {
            match spec_lex(s, p, l, c) {
                Ok(rest) => Ok(seq![t] + rest),
                Err(e) => Err(e),
            }
        } else {
            Ok(seq![t])
        },
    }
}

/// The token stream of a whole source text.
pub open spec fn spec_tokenize(s: Seq<char>) -> Result<Seq<TokenView>, (Seq<char>, int, int)> {
    spec_lex(s, 0, 1, 1)
}

/// An unterminated string literal fails on the opening quote's line: the
/// line counter never moves inside a string literal, so whatever the
/// scanner state, a string opened after the skipped whitespace and never
/// closed reports the line at which its quote stood — not the line the
/// input ends on.
pub proof fn lemma_unterminated_string_line(s: Seq<char>, pos: int, line: int, col: int)
    requires
        0 <= pos,
    ensures
        ({
            let r = spec_skip_ws(s, pos, line, col);
            (r.0 < s.len() && s[r.0] == '"') ==> (spec_read_string(
                s,
                r.0 + 1,
                r.2 + 1,
                Seq::empty(),
            ) matches Err(ce) ==> spec_next_token(s, pos, line, col) == LexStep::Fail(
                "Unterminated string literal"@,
                r.1,
                ce,
            ))
        }),
{
    if pos <= s.len() {
        lemma_skip_ws_bounds(s, pos, line, col);
    }
}

/// Every produced token consumes at least one character.
pub proof fn lemma_next_token_advances(s: Seq<char>, pos: int, line: int, col: int)
    requires
        0 <= pos,
    ensures
        spec_next_token(s, pos, line, col) matches LexStep::Tok(_t, p2, _l2, _c2) ==> pos < p2
            <= s.len(),
    decreases s.len() - pos,
{
    if pos > s.len() {
        return ;
    }
    lemma_skip_ws_bounds(s, pos, line, col);
    let (p, l, c) = spec_skip_ws(s, pos, line, col);
    if p >= s.len() {
        return ;
    }
    let ch = s[p];
    if ch == '/' {
        if p + 1 < s.len() && s[p + 1] == '/' && p + 2 < s.len() && s[p + 2] == '/' {
            lemma_line_end_bounds(s, p + 3);
        } else if p + 1 < s.len() && s[p + 1] == '/' {
            lemma_line_end_bounds(s, p + 2);
            let e = spec_line_end(s, p + 2);
            if pos < e <= s.len() {
                lemma_next_token_advances(s, e, l, c + 2 + (e - (p + 2)));
            }
        } else if p + 1 < s.len() && s[p + 1] == '#' {
            lemma_skip_ml_bounds(s, p + 2, l, c + 2);
            match spec_skip_ml(s, p + 2, l, c + 2) {
                Ok((p2, l2, c2)) => {
                    if pos < p2 <= s.len() {
                        lemma_next_token_advances(s, p2, l2, c2);
                    }
                },
                Err(_) => (),
            }
        }
    } else if ch == '"' {
        lemma_read_string_bounds(s, p + 1, c + 1, Seq::empty());
    } else if is_digit_char(ch) {
        lemma_digits_end_bounds(s, p + 1);
        let e1 = spec_digits_end(s, p);
        if 0 <= e1 < s.len() && s[e1] == '.' && e1 + 1 < s.len() && is_digit_char(s[e1 + 1]) {
            lemma_digits_end_bounds(s, e1 + 1);
        }
    } else if is_ident_char(ch) {
        lemma_ident_end_bounds(s, p + 1);
    }
}

// ---------------------------------------------------------------------------
// The lexer
// ---------------------------------------------------------------------------

/// A scanner over one source text. Positions index characters; `line` and
/// `column` are the 1-based counters reported in errors.
pub struct Lexer {
    input: Vec<char>,
    position: usize,
    line: usize,
    column: usize,
}

impl Lexer {
    /// The source text being scanned.
    pub closed spec fn src(&self) -> Seq<char> {
        self.input@
    }

    /// The current scan position, as a character index.
    pub closed spec fn pos(&self) -> int {
        self.position as int
    }

    /// The current 1-based line counter.
    pub closed spec fn cur_line(&self) -> int {
        self.line as int
    }

    /// The current 1-based column counter.
    pub closed spec fn cur_col(&self) -> int {
        self.column as int
    }

    /// The scanner is consistent: the position is inside the text and the
    /// counters stay within machine range however far the scan proceeds.
    pub closed spec fn wf(&self) -> bool {
        self.position <= self.input@.len()
            && 2 * self.input@.len() + 2 <= usize::MAX as int
            && self.line as int <= 1 + self.position as int
            && self.column as int <= 1 + 2 * self.position as int
    }

    /// Start a scanner at the beginning of `input`. The length bound keeps
    /// the column counter, which can grow twice per character, within
    /// machine range; any text that fits in memory satisfies it.
    pub fn new(input: String) -> (r: Lexer)
        requires
            2 * input@.len() + 2 <= usize::MAX as int,
        ensures
            r.wf(),
            r.src() == input@,
            r.pos() == 0,
            r.cur_line() == 1,
            r.cur_col() == 1,
    {
        let chars = str_to_chars(input.as_str());
        Lexer { input: chars, position: 0, line: 1, column: 1 }
    }

    /// Step past the current character, bumping the column counter.
    fn advance(&mut self)
        requires
            old(self).wf(),
        ensures
            final(self).wf(),
            final(self).src() == old(self).src(),
            final(self).cur_line() == old(self).cur_line(),
            old(self).pos() < old(self).src().len() ==> final(self).pos() == old(self).pos() + 1
                && final(self).cur_col() == old(self).cur_col() + 1,
            old(self).pos() >= old(self).src().len() ==> final(self).pos() == old(self).pos()
                && final(self).cur_col() == old(self).cur_col(),
    {
        if self.position < self.input.len() {
            self.position += 1;
            self.column += 1;
        }
    }

    /// Skip whitespace, tracking line breaks.
    fn skip_whitespace(&mut self)
        requires
            old(self).wf(),
        ensures
            final(self).wf(),
            final(self).src() == old(self).src(),
            old(self).pos() <= final(self).pos(),
            (final(self).pos(), final(self).cur_line(), final(self).cur_col()) == spec_skip_ws(
                old(self).src(),
                old(self).pos(),
                old(self).cur_line(),
                old(self).cur_col(),
            ),
    {
        let ghost s = self.input@;
        let ghost p0 = self.pos();
        let ghost l0 = self.cur_line();
        let ghost c0 = self.cur_col();
        while self.position < self.input.len() && is_whitespace_char(self.input[self.position])
            invariant
                self.wf(),
                self.src() == s,
                p0 <= self.pos(),
                spec_skip_ws(s, p0, l0, c0) == spec_skip_ws(
                    s,
                    self.pos(),
                    self.cur_line(),
                    self.cur_col(),
                ),
            decreases s.len() - self.pos(),
        {
            let ch = self.input[self.position];
            if ch == '\n' {
                self.line += 1;
                self.column = 1;
            } else {
                self.column += 1;
            }
            self.position += 1;
            self.column += 1;
        }
    }

    /// Skip to the next newline, leaving the position on it.
    fn skip_rest_of_line(&mut self)
        requires
            old(self).wf(),
        ensures
            final(self).wf(),
            final(self).src() == old(self).src(),
            final(self).cur_line() == old(self).cur_line(),
            final(self).pos() == spec_line_end(old(self).src(), old(self).pos()),
            final(self).cur_col() == old(self).cur_col() + (final(self).pos() - old(self).pos()),
            old(self).pos() <= final(self).pos(),
    {
        let ghost s = self.input@;
        let ghost p0 = self.pos();
        while self.position < self.input.len() && self.input[self.position] != '\n'
            invariant
                self.wf(),
                self.src() == s,
                p0 <= self.pos(),
                self.cur_line() == old(self).cur_line(),
                self.cur_col() == old(self).cur_col() + (self.pos() - p0),
                spec_line_end(s, p0) == spec_line_end(s, self.pos()),
            decreases s.len() - self.pos(),
        {
            self.position += 1;
            self.column += 1;
        }
    }

    /// Collect the rest of the line and return it trimmed, as the text of a
    /// doc comment.
    fn collect_line(&mut self) -> (r: String)
        requires
            old(self).wf(),
        ensures
            final(self).wf(),
            final(self).src() == old(self).src(),
            final(self).cur_line() == old(self).cur_line(),
            final(self).pos() == spec_line_end(old(self).src(), old(self).pos()),
            final(self).cur_col() == old(self).cur_col() + (final(self).pos() - old(self).pos()),
            old(self).pos() <= final(self).pos(),
            r@ == spec_trim(old(self).src().subrange(old(self).pos(), final(self).pos())),
    {
        let ghost s = self.input@;
        let start = self.position;
        self.skip_rest_of_line();
        let raw = sub_chars(&self.input, start, self.position);
        let (lo, hi) = trim_range(&raw, 0, raw.len());
        proof {
            assert(raw@.subrange(0, raw@.len() as int) =~= raw@);
        }
        range_to_string(&raw, lo, hi)
    }

    /// Skip a multi-line comment body, or fail at end of input.
    fn skip_multiline_comment(&mut self) -> (r: Result<(), LexError>)
        requires
            old(self).wf(),
        ensures
            final(self).wf(),
            final(self).src() == old(self).src(),
            old(self).pos() <= final(self).pos(),
            match r {
                Ok(()) => spec_skip_ml(
                    old(self).src(),
                    old(self).pos(),
                    old(self).cur_line(),
                    old(self).cur_col(),
                ) == Ok::<(int, int, int), (int, int)>(
                    (final(self).pos(), final(self).cur_line(), final(self).cur_col()),
                ) && old(self).pos() < final(self).pos(),
                Err(e) => spec_skip_ml(
                    old(self).src(),
                    old(self).pos(),
                    old(self).cur_line(),
                    old(self).cur_col(),
                ) == Err::<(int, int, int), (int, int)>((e.line as int, e.column as int))
                    && e.message@ == "Unterminated multiline comment (/# ... #/)"@,
            },
    {
        let ghost s = self.input@;
        let ghost p0 = self.pos();
        let ghost l0 = self.cur_line();
        let ghost c0 = self.cur_col();
        while self.position < self.input.len()
            invariant
                self.wf(),
                self.src() == old(self).src(),
                old(self).pos() <= self.pos(),
                spec_skip_ml(
                    old(self).src(),
                    old(self).pos(),
                    old(self).cur_line(),
                    old(self).cur_col(),
                ) == spec_skip_ml(self.src(), self.pos(), self.cur_line(), self.cur_col()),
            decreases self.src().len() - self.pos(),
        {
            if self.input[self.position] == '#' && self.position + 1 < self.input.len()
                && self.input[self.position + 1] == '/' {
                self.position += 1;
                self.column += 1;
                self.position += 1;
                self.column += 1;
                return Ok(());
            }
            let ch = self.input[self.position];
            if ch == '\n' {
                self.position += 1;
                self.line += 1;
                self.column = 1;
            } else {
                self.position += 1;
                self.column += 1;
            }
        }
        Err(
            LexError {
                message: String::from_str("Unterminated multiline comment (/# ... #/)"),
                line: self.line,
                column: self.column,
            },
        )
    }

    /// Scan a string literal; the opening quote is at the current position.
    fn read_string(&mut self) -> (r: Result<Option<Token>, LexError>)
        requires
            old(self).wf(),
            old(self).pos() < old(self).src().len(),
        ensures
            final(self).wf(),
            final(self).src() == old(self).src(),
            old(self).pos() < final(self).pos(),
            match r {
                Ok(opt) => opt matches Some(t) && spec_read_string(
                    old(self).src(),
                    old(self).pos() + 1,
                    old(self).cur_col() + 1,
                    Seq::empty(),
                ) matches Ok(ok3)
                    && t@ == TokenView::String(ok3.0)
                    && final(self).pos() == ok3.1
                    && final(self).cur_col() == ok3.2
                    && final(self).cur_line() == old(self).cur_line(),
                Err(e) => spec_read_string(
                    old(self).src(),
                    old(self).pos() + 1,
                    old(self).cur_col() + 1,
                    Seq::empty(),
                ) matches Err(ce)
                    && e.message@ == "Unterminated string literal"@
                    && e.line as int == old(self).cur_line()
                    && e.column as int == ce,
            },
    {
        self.advance();
        let mut value: Vec<char> = Vec::new();
        while self.position < self.input.len()
            invariant
                self.wf(),
                self.src() == old(self).src(),
                old(self).pos() < self.pos(),
                self.cur_line() == old(self).cur_line(),
                spec_read_string(
                    old(self).src(),
                    old(self).pos() + 1,
                    old(self).cur_col() + 1,
                    Seq::empty(),
                ) == spec_read_string(self.src(), self.pos(), self.cur_col(), value@),
            decreases self.src().len() - self.pos(),
        {
            let ch = self.input[self.position];
            if ch == '"' {
                self.advance();
                return Ok(Some(Token::String(chars_to_string(&value))));
            } else if ch == '\\' {
                self.advance();
                if self.position >= self.input.len() {
                    return Err(
                        LexError {
                            message: String::from_str("Unterminated string literal"),
                            line: self.line,
                            column: self.column,
                        },
                    );
                }
                let escaped = self.input[self.position];
                let ghost acc0 = value@;
                if escaped == 'n' {
                    value.push('\n');
                } else if escaped == 't' {
                    value.push('\t');
                } else if escaped == 'r' {
                    value.push('\r');
                } else if escaped == '\\' {
                    value.push('\\');
                } else if escaped == '"' {
                    value.push('"');
                } else {
                    value.push('\\');
                    value.push(escaped);
                }
                proof {
                    if escaped == 'n' || escaped == 't' || escaped == 'r' || escaped == '\\'
                        || escaped == '"' {
                        assert(value@ =~= acc0 + seq![value@.last()]);
                    } else {
                        assert(value@ =~= acc0 + seq!['\\', escaped]);
                    }
                }
                self.advance();
            } else {
                value.push(ch);
                proof {
                    assert(value@ =~= value@.drop_last() + seq![ch]);
                }
                self.advance();
            }
        }
        Err(
            LexError {
                message: String::from_str("Unterminated string literal"),
                line: self.line,
                column: self.column,
            },
        )
    }

    /// Scan a numeric literal; a digit is at the current position.
    fn read_number(&mut self) -> (r: Result<Option<Token>, LexError>)
        requires
            old(self).wf(),
            old(self).pos() < old(self).src().len(),
            is_digit_char(old(self).src()[old(self).pos()]),
        ensures
            final(self).wf(),
            final(self).src() == old(self).src(),
            final(self).pos() == spec_number_end(old(self).src(), old(self).pos()).0,
            final(self).cur_line() == old(self).cur_line(),
            final(self).cur_col() == old(self).cur_col() + (final(self).pos() - old(self).pos()),
            old(self).pos() < final(self).pos(),
            ({
                let e = spec_number_end(old(self).src(), old(self).pos()).0;
                let isf = spec_number_end(old(self).src(), old(self).pos()).1;
                let text = old(self).src().subrange(old(self).pos(), e);
                if isf {
                    r matches Ok(Some(t)) && t@ == TokenView::Float(text)
                } else if dec_val(text) <= 0x7fffffffffffffff {
                    r matches Ok(Some(t)) && t@ == TokenView::Integer(dec_val(text) as i64)
                } else {
                    r matches Err(err) && err.message@ == "Invalid integer: "@ + text
                        && err.line as int == old(self).cur_line()
                        && err.column as int == old(self).cur_col() + (e - old(self).pos())
                }
            }),
    {
        let start = self.position;
        while self.position < self.input.len() && is_ascii_digit_char(self.input[self.position])
            invariant
                self.wf(),
                self.src() == old(self).src(),
                old(self).pos() <= self.pos(),
                self.cur_line() == old(self).cur_line(),
                self.cur_col() == old(self).cur_col() + (self.pos() - old(self).pos()),
                start == old(self).position,
                spec_digits_end(self.src(), old(self).pos()) == spec_digits_end(
                    self.src(),
                    self.pos(),
                ),
            decreases self.src().len() - self.pos(),
        {
            self.position += 1;
            self.column += 1;
        }
        proof {
            assert(self.pos() == spec_digits_end(self.src(), old(self).pos()));
            lemma_digits_end_bounds(self.src(), old(self).pos());
        }
        let mut is_float = false;
        if self.position < self.input.len() && self.input[self.position] == '.'
            && self.position + 1 < self.input.len()
            && is_ascii_digit_char(self.input[self.position + 1]) {
            is_float = true;
            self.position += 1;
            self.column += 1;
            let ghost f0 = self.pos();
            while self.position < self.input.len() && is_ascii_digit_char(
                self.input[self.position],
            )
                invariant
                    self.wf(),
                    self.src() == old(self).src(),
                    f0 <= self.pos(),
                    self.cur_line() == old(self).cur_line(),
                    self.cur_col() == old(self).cur_col() + (self.pos() - old(self).pos()),
                    spec_digits_end(self.src(), f0) == spec_digits_end(self.src(), self.pos()),
                decreases self.src().len() - self.pos(),
            {
                self.position += 1;
                self.column += 1;
            }
            proof {
                assert(self.pos() == spec_digits_end(self.src(), f0));
            }
        }
        let ghost e = spec_number_end(old(self).src(), old(self).pos()).0;
        proof {
            assert(self.pos() == e);
        }
        if is_float {
            let text = range_to_string(&self.input, start, self.position);
            Ok(Some(Token::Float(text)))
        } else {
            proof {
                lemma_digits_end_bounds(self.src(), old(self).pos());
            }
            match dec_value_up_to(&self.input, start, self.position, 0x7fffffffffffffff) {
                Some(n) => Ok(Some(Token::Integer(n as i64))),
                None => {
                    let text = range_to_string(&self.input, start, self.position);
                    let mut message = String::new();
                    message.append("Invalid integer: ");
                    message.append(text.as_str());
                    Err(LexError { message, line: self.line, column: self.column })
                },
            }
        }
    }

    /// Scan an identifier or keyword; an identifier character is at the
    /// current position.
    fn read_identifier(&mut self) -> (r: Result<Option<Token>, LexError>)
        requires
            old(self).wf(),
            old(self).pos() < old(self).src().len(),
            is_ident_char(old(self).src()[old(self).pos()]),
        ensures
            final(self).wf(),
            final(self).src() == old(self).src(),
            final(self).pos() == spec_ident_end(old(self).src(), old(self).pos()),
            final(self).cur_line() == old(self).cur_line(),
            final(self).cur_col() == old(self).cur_col() + (final(self).pos() - old(self).pos()),
            old(self).pos() < final(self).pos(),
            r matches Ok(Some(t)) && t@ == spec_word_token(
                old(self).src().subrange(old(self).pos(), final(self).pos()),
            ),
    {
        let start = self.position;
        while self.position < self.input.len() && is_identifier_char(self.input[self.position])
            invariant
                self.wf(),
                self.src() == old(self).src(),
                old(self).pos() <= self.pos(),
                self.cur_line() == old(self).cur_line(),
                self.cur_col() == old(self).cur_col() + (self.pos() - old(self).pos()),
                start == old(self).position,
                spec_ident_end(self.src(), old(self).pos()) == spec_ident_end(
                    self.src(),
                    self.pos(),
                ),
            decreases self.src().len() - self.pos(),
        {
            self.position += 1;
            self.column += 1;
        }
        proof {
            assert(self.pos() == spec_ident_end(self.src(), old(self).pos()));
        }
        let token = if eq_range(&self.input, start, self.position, "true") {
            Token::Bool(true)
        } else if eq_range(&self.input, start, self.position, "false") {
            Token::Bool(false)
        } else if eq_range(&self.input, start, self.position, "on") {
            Token::On
        } else if eq_range(&self.input, start, self.position, "spawn") {
            Token::Spawn
        } else if eq_range(&self.input, start, self.position, "extend") {
            Token::Extend
        } else if eq_range(&self.input, start, self.position, "fn") {
            Token::Fn
        } else {
            Token::Ident(range_to_string(&self.input, start, self.position))
        };
        Ok(Some(token))
    }

    /// Produce the next token, skipping whitespace and comments, or report
    /// the end of input or a failure.
    fn next_token(&mut self) -> (r: Result<Option<Token>, LexError>)
        requires
            old(self).wf(),
        ensures
            final(self).wf(),
            final(self).src() == old(self).src(),
            old(self).pos() <= final(self).pos(),
            match r {
                Ok(opt) => match opt {
                    Some(t) => spec_next_token(
                        old(self).src(),
                        old(self).pos(),
                        old(self).cur_line(),
                        old(self).cur_col(),
                    ) == LexStep::Tok(
                        t@,
                        final(self).pos(),
                        final(self).cur_line(),
                        final(self).cur_col(),
                    ) && old(self).pos() < final(self).pos()
                        && final(self).pos() <= final(self).src().len(),
                    None => spec_next_token(
                        old(self).src(),
                        old(self).pos(),
                        old(self).cur_line(),
                        old(self).cur_col(),
                    ) == LexStep::End,
                },
                Err(e) => spec_next_token(
                    old(self).src(),
                    old(self).pos(),
                    old(self).cur_line(),
                    old(self).cur_col(),
                ) == LexStep::Fail(e.message@, e.line as int, e.column as int),
            },
        decreases old(self).src().len() - old(self).pos(),
    {
        self.skip_whitespace();
        if self.position >= self.input.len() {
            return Ok(None);
        }
        let ch = self.input[self.position];
        if ch == '#' {
            self.advance();
            return Ok(Some(Token::Hash));
        }
        if ch == '/' {
            if self.position + 1 < self.input.len() && self.input[self.position + 1] == '/'
                && self.position + 2 < self.input.len() && self.input[self.position + 2] == '/' {
                self.advance();
                self.advance();
                self.advance();
                let content = self.collect_line();
                proof {
                    lemma_line_end_bounds(self.src(), self.pos());
                }
                return Ok(Some(Token::DocComment(content)));
            }
            if self.position + 1 < self.input.len() && self.input[self.position + 1] == '/' {
                self.advance();
                self.advance();
                self.skip_rest_of_line();
                return self.next_token();
            }
            if self.position + 1 < self.input.len() && self.input[self.position + 1] == '#' {
                self.advance();
                self.advance();
                match self.skip_multiline_comment() {
                    Ok(()) => {
                        return self.next_token();
                    },
                    Err(e) => {
                        return Err(e);
                    },
                }
            }
            self.advance();
            return Ok(Some(Token::Divide));
        }
        if ch == '(' {
            self.advance();
            return Ok(Some(Token::LParen));
        }
        if ch == ')' {
            self.advance();
            return Ok(Some(Token::RParen));
        }
        if ch == '{' {
            self.advance();
            return Ok(Some(Token::LBrace));
        }
        if ch == '}' {
            self.advance();
            return Ok(Some(Token::RBrace));
        }
        if ch == ',' {
            self.advance();
            return Ok(Some(Token::Comma));
        }
        if ch == ':' {
            self.advance();
            return Ok(Some(Token::Colon));
        }
        if ch == '.' {
            self.advance();
            return Ok(Some(Token::Dot));
        }
        if ch == ';' {
            self.advance();
            return Ok(Some(Token::Semi));
        }
        if ch == '+' {
            self.advance();
            return Ok(Some(Token::Plus));
        }
        if ch == '-' {
            self.advance();
            return Ok(Some(Token::Minus));
        }
        if ch == '*' {
            self.advance();
            return Ok(Some(Token::Multiply));
        }
        if ch == '=' {
            if self.position + 1 < self.input.len() && self.input[self.position + 1] == '=' {
                self.advance();
                self.advance();
                return Ok(Some(Token::EqEq));
            }
            self.advance();
            return Ok(Some(Token::Eq));
        }
        if ch == '!' {
            if self.position + 1 < self.input.len() && self.input[self.position + 1] == '=' {
                self.advance();
                self.advance();
                return Ok(Some(Token::NotEq));
            }
            self.advance();
            return Ok(Some(Token::Not));
        }
        if ch == '<' {
            if self.position + 1 < self.input.len() && self.input[self.position + 1] == '=' {
                self.advance();
                self.advance();
                return Ok(Some(Token::LessEq));
            }
            self.advance();
            return Ok(Some(Token::Less));
        }
        if ch == '>' {
            if self.position + 1 < self.input.len() && self.input[self.position + 1] == '=' {
                self.advance();
                self.advance();
                return Ok(Some(Token::GreaterEq));
            }
            self.advance();
            return Ok(Some(Token::Greater));
        }
        if ch == '&' {
            if self.position + 1 < self.input.len() && self.input[self.position + 1] == '&' {
                self.advance();
                self.advance();
                return Ok(Some(Token::And));
            }
            return Err(
                LexError {
                    message: String::from_str("Expected '&&'"),
                    line: self.line,
                    column: self.column,
                },
            );
        }
        if ch == '|' {
            if self.position + 1 < self.input.len() && self.input[self.position + 1] == '|' {
                self.advance();
                self.advance();
                return Ok(Some(Token::Or));
            }
            return Err(
                LexError {
                    message: String::from_str("Expected '||'"),
                    line: self.line,
                    column: self.column,
                },
            );
        }
        if ch == '"' {
            return self.read_string();
        }
        if is_ascii_digit_char(ch) {
            return self.read_number();
        }
        if is_ascii_alpha_char(ch) || ch == '_' {
            return self.read_identifier();
        }
        let mut message = String::new();
        message.append("Unexpected character: '");
        message.append(char_to_string(ch).as_str());
        message.append("'");
        Err(LexError { message, line: self.line, column: self.column })
    }

    /// Scan the whole input into a token vector, or stop at the first
    /// failure. The result is pinned by the lexing model applied to the
    /// scanner's starting state.
    pub fn tokenize(&mut self) -> (r: Result<Vec<Token>, LexError>)
        requires
            old(self).wf(),
        ensures
            final(self).wf(),
            final(self).src() == old(self).src(),
            match r {
                Ok(toks) => spec_lex(
                    old(self).src(),
                    old(self).pos(),
                    old(self).cur_line(),
                    old(self).cur_col(),
                ) == Ok::<Seq<TokenView>, (Seq<char>, int, int)>(toks.deep_view()),
                Err(e) => spec_lex(
                    old(self).src(),
                    old(self).pos(),
                    old(self).cur_line(),
                    old(self).cur_col(),
                ) == Err::<Seq<TokenView>, (Seq<char>, int, int)>(
                    (e.message@, e.line as int, e.column as int),
                ),
            },
    {
        let mut tokens: Vec<Token> = Vec::new();
        loop
            invariant
                self.wf(),
                self.src() == old(self).src(),
                ({
                    let full = spec_lex(
                        old(self).src(),
                        old(self).pos(),
                        old(self).cur_line(),
                        old(self).cur_col(),
                    );
                    match spec_lex(self.src(), self.pos(), self.cur_line(), self.cur_col()) {
                        Ok(rest) => full == Ok::<Seq<TokenView>, (Seq<char>, int, int)>(
                            tokens.deep_view() + rest,
                        ),
                        Err(e) => full == Err::<Seq<TokenView>, (Seq<char>, int, int)>(e),
                    }
                }),
            decreases self.src().len() - self.pos(),
        {
            let ghost pre = *self;
            let ghost toks0 = tokens.deep_view();
            match self.next_token() {
                Ok(Some(t)) => {
                    tokens.push(t);
                    proof {
                        assert(tokens.deep_view() =~= toks0.push(t.deep_view()));
                        let rest = spec_lex(
                            self.src(),
                            self.pos(),
                            self.cur_line(),
                            self.cur_col(),
                        );
                        match rest {
                            Ok(rs) => {
                                assert(toks0 + (seq![t@] + rs) =~= tokens.deep_view() + rs);
                            },
                            Err(e) => {},
                        }
                    }
                },
                Ok(None) => {
                    proof {
                        assert(tokens.deep_view() + Seq::<TokenView>::empty() =~= tokens.deep_view());
                    }
                    return Ok(tokens);
                },
                Err(e) => {
                    return Err(e);
                },
            }
        }
    }
}

} // verus!
