//! The lexer: transforms a Unicode-codepoint sequence into an ordered
//! sequence of position-annotated tokens, or fails with a diagnostic.
//!
//! The module is organised in two halves. The first half is the mathematical
//! description of lexing: spec functions over `Seq<char>` and a ghost cursor
//! [`LexPos`] that define, for every input, exactly which token stream or
//! which error comes out. The second half is the executable [`Lexer`], whose
//! contracts state that it computes precisely those functions.

use vstd::prelude::*;
use vstd::string::StringExecFns;
use vstd::std_specs::iter::IteratorSpec;
use crate::token::{Token, TokenV, Spanned, SpannedV, view_spanneds, lemma_view_spanneds_push};

verus! {

/// Whether a character has the Unicode white-space property, as
/// `char::is_whitespace` decides it.
pub uninterp spec fn char_whitespace(c: char) -> bool;

/// Relies on `char::is_whitespace`: the result depends on the character
/// alone (a fixed Unicode property table).
pub assume_specification[ char::is_whitespace ](c: char) -> (r: bool)
    ensures
        r == char_whitespace(c),
;

/// Whether a character is alphabetic, as `char::is_alphabetic` decides it.
pub uninterp spec fn char_alphabetic(c: char) -> bool;

/// Relies on `char::is_alphabetic`: the result depends on the character
/// alone (a fixed Unicode property table).
pub assume_specification[ char::is_alphabetic ](c: char) -> (r: bool)
    ensures
        r == char_alphabetic(c),
;

/// Whether a character is alphanumeric, as `char::is_alphanumeric` decides it.
pub uninterp spec fn char_alphanumeric(c: char) -> bool;

/// Relies on `char::is_alphanumeric`: the result depends on the character
/// alone (a fixed Unicode property table).
pub assume_specification[ char::is_alphanumeric ](c: char) -> (r: bool)
    ensures
        r == char_alphanumeric(c),
;

/// Relies on `String::push`: appends the given character to the end of the
/// string.
pub assume_specification[ std::string::String::push ](s: &mut String, ch: char)
    ensures
        final(s)@ == old(s)@.push(ch),
;

/// Whether a character is an ASCII decimal digit.
pub open spec fn is_digit(c: char) -> bool {
    48 <= c as u32 <= 57
}

/// The numeric value of an ASCII decimal digit character.
pub open spec fn digit_val(c: char) -> int {
    c as u32 - 48
}

/// The value of a run of decimal digits read left to right.
pub open spec fn digits_value(ds: Seq<char>) -> int
    decreases ds.len(),
{
    if ds.len() == 0 {
        0
    } else {
        digits_value(ds.drop_last()) * 10 + digit_val(ds.last())
    }
}

/// A lexing failure. Every variant carries the 1-based line and column at
/// which the offending text stands.
#[derive(Debug)]
pub enum LexError {
    /// The first non-whitespace content was not the `<?php` tag.
    UnexpectedPrefix { line: usize, col: usize },
    /// A `$` sigil not followed by an identifier-start character.
    InvalidVariableName { line: usize, col: usize },
    /// A `$` sigil standing at the very end of the input.
    UnexpectedEndAfterDollar { line: usize, col: usize },
    /// A character that begins no token.
    UnexpectedCharacter { ch: char, line: usize, col: usize },
    /// An integer literal whose value exceeds the signed 64-bit range.
    IntegerOverflow { line: usize, col: usize },
}

/// The mathematical value of a [`LexError`].
pub enum LexErrV {
    UnexpectedPrefix { line: int, col: int },
    InvalidVariableName { line: int, col: int },
    UnexpectedEndAfterDollar { line: int, col: int },
    UnexpectedCharacter { ch: char, line: int, col: int },
    IntegerOverflow { line: int, col: int },
}

impl View for LexError {
    type V = LexErrV;

    open spec fn view(&self) -> LexErrV {
        match self {
            LexError::UnexpectedPrefix { line, col } => (LexErrV::UnexpectedPrefix {
                line: *line as int,
                col: *col as int,
            }),
            LexError::InvalidVariableName { line, col } => (LexErrV::InvalidVariableName {
                line: *line as int,
                col: *col as int,
            }),
            LexError::UnexpectedEndAfterDollar { line, col } => (
            LexErrV::UnexpectedEndAfterDollar { line: *line as int, col: *col as int }),
            LexError::UnexpectedCharacter { ch, line, col } => (LexErrV::UnexpectedCharacter {
                ch: *ch,
                line: *line as int,
                col: *col as int,
            }),
            LexError::IntegerOverflow { line, col } => (LexErrV::IntegerOverflow {
                line: *line as int,
                col: *col as int,
            }),
        }
    }
}

/// The ghost cursor of the lexer: an offset into the character sequence and
/// the 1-based line and column of that offset.
pub struct LexPos {
    pub pos: int,
    pub line: int,
    pub col: int,
}

/// The cursor after consuming one character: a newline advances the line
/// counter and resets the column to 1; any other character advances the
/// column.
pub open spec fn step(s: Seq<char>, p: LexPos) -> LexPos {
    if 0 <= p.pos < s.len() && s[p.pos] == '\n' {
        LexPos { pos: p.pos + 1, line: p.line + 1, col: 1 }
    } else {
        LexPos { pos: p.pos + 1, line: p.line, col: p.col + 1 }
    }
}

/// The cursor after skipping to (but not past) the next newline, or to the
/// end of input.
pub open spec fn skip_line(s: Seq<char>, p: LexPos) -> LexPos
    decreases s.len() - p.pos,
{
    if p.pos < 0 || p.pos >= s.len() {
        p
    } else if s[p.pos] == '\n' {
        p
    } else {
        skip_line(s, step(s, p))
    }
}

/// The cursor after skipping the body of a block comment: everything up to
/// and including the first `*/`, or to the end of input.
pub open spec fn skip_block(s: Seq<char>, p: LexPos) -> LexPos
    decreases s.len() - p.pos,
{
    if p.pos < 0 || p.pos >= s.len() {
        p
    } else if s[p.pos] == '*' && p.pos + 1 < s.len() && s[p.pos + 1] == '/' {
        step(s, step(s, p))
    } else {
        skip_block(s, step(s, p))
    }
}

/// The cursor after skipping all insignificant text: whitespace, `//` and
/// `#` line comments, and `/* ... */` block comments.
pub open spec fn skip_ws(s: Seq<char>, p: LexPos) -> LexPos
    decreases s.len() - p.pos,
{
    if p.pos < 0 || p.pos >= s.len() {
        p
    } else if char_whitespace(s[p.pos]) {
        skip_ws(s, step(s, p))
    } else if s[p.pos] == '/' && p.pos + 1 < s.len() && s[p.pos + 1] == '/' {
        let q = skip_line(s, p);
        if p.pos < q.pos <= s.len() {
            skip_ws(s, q)
        } else {
            p
        }
    } else if s[p.pos] == '/' && p.pos + 1 < s.len() && s[p.pos + 1] == '*' {
        let q = skip_block(s, step(s, step(s, p)));
        if p.pos < q.pos <= s.len() {
            skip_ws(s, q)
        } else {
            p
        }
    } else if s[p.pos] == '#' {
        let q = skip_line(s, p);
        if p.pos < q.pos <= s.len() {
            skip_ws(s, q)
        } else {
            p
        }
    } else {
        p
    }
}

/// The decoded content and end cursor of a string literal whose opening
/// delimiter `quote` has just been consumed, starting at `p`. `\n`, `\t`,
/// `\\` and an escaped delimiter decode to one character; any other escaped
/// character keeps its backslash; end of input silently terminates the
/// literal.
pub open spec fn read_string(s: Seq<char>, p: LexPos, quote: char) -> (Seq<char>, LexPos)
    decreases s.len() - p.pos,
{
    if p.pos < 0 || p.pos >= s.len() {
        (Seq::empty(), p)
    } else if s[p.pos] == '\\' {
        if p.pos + 1 >= s.len() {
            (Seq::empty(), step(s, p))
        } else {
            let c = s[p.pos + 1];
            let rest = read_string(s, step(s, step(s, p)), quote);
            let decoded: Seq<char> = if c == 'n' {
                seq!['\n']
            } else if c == 't' {
                seq!['\t']
            } else if c == '\\' {
                seq!['\\']
            } else if c == quote {
                seq![c]
            } else {
                seq!['\\', c]
            };
            (decoded + rest.0, rest.1)
        }
    } else if s[p.pos] == quote {
        (Seq::empty(), step(s, p))
    } else {
        let rest = read_string(s, step(s, p), quote);
        (seq![s[p.pos]] + rest.0, rest.1)
    }
}

/// The maximal run of ASCII digits starting at `p`, and the cursor after it.
pub open spec fn read_digits(s: Seq<char>, p: LexPos) -> (Seq<char>, LexPos)
    decreases s.len() - p.pos,
{
    if p.pos < 0 || p.pos >= s.len() || !is_digit(s[p.pos]) {
        (Seq::empty(), p)
    } else {
        let rest = read_digits(s, step(s, p));
        (seq![s[p.pos]] + rest.0, rest.1)
    }
}

/// The maximal run of alphanumeric-or-underscore characters starting at
/// `p` (the continuation of an identifier whose first character is already
/// consumed), and the cursor after it.
pub open spec fn read_ident_rest(s: Seq<char>, p: LexPos) -> (Seq<char>, LexPos)
    decreases s.len() - p.pos,
{
    if p.pos < 0 || p.pos >= s.len() || !(char_alphanumeric(s[p.pos]) || s[p.pos] == '_') {
        (Seq::empty(), p)
    } else {
        let rest = read_ident_rest(s, step(s, p));
        (seq![s[p.pos]] + rest.0, rest.1)
    }
}

/// The token of a numeric literal whose first digit `first` stands at the
/// position recorded by (`line`, `col`) and has been consumed, leaving the
/// cursor at `p`. The literal is float-typed exactly when the digit run is
/// followed by a `.` that is immediately followed by another digit; an
/// integer literal whose value exceeds `i64::MAX` is an error.
pub open spec fn read_number(s: Seq<char>, p: LexPos, first: char, line: int, col: int) -> Result<
    (TokenV, LexPos),
    LexErrV,
> {
    let whole = seq![first] + read_digits(s, p).0;
    let p1 = read_digits(s, p).1;
    if p1.pos + 1 < s.len() && s[p1.pos] == '.' && is_digit(s[p1.pos + 1]) {
        let frac = read_digits(s, step(s, p1)).0;
        let p2 = read_digits(s, step(s, p1)).1;
        Result::Ok((TokenV::Float(whole + seq!['.'] + frac), p2))
    } else {
        if digits_value(whole) > i64::MAX {
            Result::Err(LexErrV::IntegerOverflow { line: line, col: col })
        } else {
            Result::Ok((TokenV::Integer(digits_value(whole)), p1))
        }
    }
}

/// The keyword token for a recognised identifier spelling, or an
/// `Identifier` token carrying the spelling itself. Keywords are
/// case-sensitive, except `true`, `false` and `null`, whose all-caps forms
/// map to the same tokens.
pub open spec fn keyword_token(name: Seq<char>) -> TokenV {
    if name == "echo"@ {
        TokenV::Echo
    } else if name == "if"@ {
        TokenV::If
    } else if name == "else"@ {
        TokenV::Else
    } else if name == "elseif"@ {
        TokenV::Elseif
    } else if name == "while"@ {
        TokenV::While
    } else if name == "for"@ {
        TokenV::For
    } else if name == "function"@ {
        TokenV::Function
    } else if name == "return"@ {
        TokenV::Return
    } else if name == "true"@ || name == "TRUE"@ {
        TokenV::True
    } else if name == "false"@ || name == "FALSE"@ {
        TokenV::False
    } else if name == "null"@ || name == "NULL"@ {
        TokenV::Null
    } else {
        TokenV::Identifier(name)
    }
}

/// The next token starting at `p`, which must stand on a non-whitespace
/// character, together with the cursor after it; or the lexical error there.
/// Multi-character operators are matched by maximal munch.
pub open spec fn next_token(s: Seq<char>, p: LexPos) -> Result<(TokenV, LexPos), LexErrV> {
    let c = s[p.pos];
    let p1 = step(s, p);
    if c == '+' {
        Result::Ok((TokenV::Plus, p1))
    } else if c == '-' {
        Result::Ok((TokenV::Minus, p1))
    } else if c == '*' {
        Result::Ok((TokenV::Star, p1))
    } else if c == '/' {
        Result::Ok((TokenV::Slash, p1))
    } else if c == '%' {
        Result::Ok((TokenV::Percent, p1))
    } else if c == '(' {
        Result::Ok((TokenV::OpenParen, p1))
    } else if c == ')' {
        Result::Ok((TokenV::CloseParen, p1))
    } else if c == '{' {
        Result::Ok((TokenV::OpenBrace, p1))
    } else if c == '}' {
        Result::Ok((TokenV::CloseBrace, p1))
    } else if c == '[' {
        Result::Ok((TokenV::OpenBracket, p1))
    } else if c == ']' {
        Result::Ok((TokenV::CloseBracket, p1))
    } else if c == ';' {
        Result::Ok((TokenV::Semicolon, p1))
    } else if c == ',' {
        Result::Ok((TokenV::Comma, p1))
    } else if c == '.' {
        Result::Ok((TokenV::Dot, p1))
    } else if c == '=' {
        if p1.pos < s.len() && s[p1.pos] == '=' {
            let p2 = step(s, p1);
            if p2.pos < s.len() && s[p2.pos] == '=' {
                Result::Ok((TokenV::Identical, step(s, p2)))
            } else {
                Result::Ok((TokenV::Equal, p2))
            }
        } else if p1.pos < s.len() && s[p1.pos] == '>' {
            Result::Ok((TokenV::Arrow, step(s, p1)))
        } else {
            Result::Ok((TokenV::Assign, p1))
        }
    } else if c == '!' {
        if p1.pos < s.len() && s[p1.pos] == '=' {
            let p2 = step(s, p1);
            if p2.pos < s.len() && s[p2.pos] == '=' {
                Result::Ok((TokenV::NotIdentical, step(s, p2)))
            } else {
                Result::Ok((TokenV::NotEqual, p2))
            }
        } else {
            Result::Ok((TokenV::Not, p1))
        }
    } else if c == '<' {
        if p1.pos < s.len() && s[p1.pos] == '=' {
            Result::Ok((TokenV::LessEqual, step(s, p1)))
        } else {
            Result::Ok((TokenV::Less, p1))
        }
    } else if c == '>' {
        if p1.pos < s.len() && s[p1.pos] == '=' {
            Result::Ok((TokenV::GreaterEqual, step(s, p1)))
        } else {
            Result::Ok((TokenV::Greater, p1))
        }
    } else if c == '&' && p1.pos < s.len() && s[p1.pos] == '&' {
        Result::Ok((TokenV::And, step(s, p1)))
    } else if c == '|' && p1.pos < s.len() && s[p1.pos] == '|' {
        Result::Ok((TokenV::Or, step(s, p1)))
    } else if c == '$' {
        if p1.pos >= s.len() {
            Result::Err(LexErrV::UnexpectedEndAfterDollar { line: p.line, col: p.col })
        } else if char_alphabetic(s[p1.pos]) || s[p1.pos] == '_' {
            let r = read_ident_rest(s, step(s, p1));
            Result::Ok((TokenV::Variable(seq![s[p1.pos]] + r.0), r.1))
        } else {
            Result::Err(LexErrV::InvalidVariableName { line: p.line, col: p.col })
        }
    } else if c == '\'' || c == '"' {
        let r = read_string(s, p1, c);
        Result::Ok((TokenV::StringLiteral(r.0), r.1))
    } else if is_digit(c) {
        read_number(s, p1, c, p.line, p.col)
    } else if char_alphabetic(c) || c == '_' {
        let r = read_ident_rest(s, p1);
        Result::Ok((keyword_token(seq![c] + r.0), r.1))
    } else {
        Result::Err(LexErrV::UnexpectedCharacter { ch: c, line: p.line, col: p.col })
    }
}

/// The token stream from `p` to the end of input: insignificant text, then
/// one token, repeatedly; ending with exactly one `Eof` token at the final
/// cursor position. The first lexical error aborts the whole pass.
pub open spec fn tokenize_loop(s: Seq<char>, p: LexPos) -> Result<Seq<SpannedV>, LexErrV>
    decreases s.len() - p.pos,
{
    let q = skip_ws(s, p);
    if q.pos < 0 || q.pos >= s.len() {
        Result::Ok(seq![SpannedV { token: TokenV::Eof, line: q.line, col: q.col }])
    } else {
        match next_token(s, q) {
            Result::Err(e) => Result::Err(e),
            Result::Ok(r) => {
                if p.pos < r.1.pos <= s.len() {
                    match tokenize_loop(s, r.1) {
                        Result::Err(e) => Result::Err(e),
                        Result::Ok(rest) => Result::Ok(
                            seq![SpannedV { token: r.0, line: q.line, col: q.col }] + rest,
                        ),
                    }
                } else {
                    // Unreachable: every token consumes at least one character.
                    Result::Err(arbitrary())
                }
            },
        }
    }
}

/// The `<?php` tag as a character sequence.
pub open spec fn php_tag() -> Seq<char> {
    seq!['<', '?', 'p', 'h', 'p']
}

/// The whole token stream of a source text whose lexing starts at cursor
/// `p`: after leading insignificant text the input must carry the literal
/// `<?php`, which is emitted as an `OpenTag` token; the remaining text is
/// tokenized to the end of input.
pub open spec fn tokenize_from(s: Seq<char>, p: LexPos) -> Result<Seq<SpannedV>, LexErrV> {
    let q = skip_ws(s, p);
    if q.pos + 5 <= s.len() && s.subrange(q.pos, q.pos + 5) == php_tag() {
        let p5 = step(s, step(s, step(s, step(s, step(s, q)))));
        match tokenize_loop(s, p5) {
            Result::Err(e) => Result::Err(e),
            Result::Ok(rest) => Result::Ok(
                seq![SpannedV { token: TokenV::OpenTag, line: q.line, col: q.col }] + rest,
            ),
        }
    } else {
        Result::Err(LexErrV::UnexpectedPrefix { line: q.line, col: q.col })
    }
}

/// The whole token stream of a source text, from its first character, at
/// line 1 and column 1.
pub open spec fn spec_tokenize(s: Seq<char>) -> Result<Seq<SpannedV>, LexErrV> {
    tokenize_from(s, LexPos { pos: 0, line: 1, col: 1 })
}

/// Skipping to a newline moves the cursor forward, never past the end.
pub proof fn lemma_skip_line_bounds(s: Seq<char>, p: LexPos)
    requires
        0 <= p.pos <= s.len(),
    ensures
        p.pos <= skip_line(s, p).pos <= s.len(),
    decreases s.len() - p.pos,
{
    if p.pos < s.len() && s[p.pos] != '\n' {
        lemma_skip_line_bounds(s, step(s, p));
    }
}

/// Skipping a block-comment body moves the cursor forward, never past the
/// end.
pub proof fn lemma_skip_block_bounds(s: Seq<char>, p: LexPos)
    requires
        0 <= p.pos <= s.len(),
    ensures
        p.pos <= skip_block(s, p).pos <= s.len(),
    decreases s.len() - p.pos,
{
    if p.pos < s.len() {
        if s[p.pos] == '*' && p.pos + 1 < s.len() && s[p.pos + 1] == '/' {
        } else {
            lemma_skip_block_bounds(s, step(s, p));
        }
    }
}

/// Skipping insignificant text moves the cursor forward, never past the end.
pub proof fn lemma_skip_ws_bounds(s: Seq<char>, p: LexPos)
    requires
        0 <= p.pos <= s.len(),
    ensures
        p.pos <= skip_ws(s, p).pos <= s.len(),
    decreases s.len() - p.pos,
{
    if 0 <= p.pos < s.len() {
        if char_whitespace(s[p.pos]) {
            lemma_skip_ws_bounds(s, step(s, p));
        } else if s[p.pos] == '/' && p.pos + 1 < s.len() && s[p.pos + 1] == '/' {
            let q = skip_line(s, p);
            if p.pos < q.pos <= s.len() {
                lemma_skip_ws_bounds(s, q);
            }
        } else if s[p.pos] == '/' && p.pos + 1 < s.len() && s[p.pos + 1] == '*' {
            let q = skip_block(s, step(s, step(s, p)));
            lemma_skip_block_bounds(s, step(s, step(s, p)));
            if p.pos < q.pos <= s.len() {
                lemma_skip_ws_bounds(s, q);
            }
        } else if s[p.pos] == '#' {
            let q = skip_line(s, p);
            if p.pos < q.pos <= s.len() {
                lemma_skip_ws_bounds(s, q);
            }
        }
    }
}

/// The lexer: an owned character buffer and a cursor over it, with 1-based
/// line and column tracking.
pub struct Lexer {
    pub source: Vec<char>,
    pub pos: usize,
    pub line: usize,
    pub col: usize,
}

impl Lexer {
    /// The character sequence being lexed.
    pub open spec fn src(&self) -> Seq<char> {
        self.source@
    }

    /// The current cursor as a ghost [`LexPos`].
    pub open spec fn cursor(&self) -> LexPos {
        LexPos { pos: self.pos as int, line: self.line as int, col: self.col as int }
    }

    /// Well-formedness: the cursor stays within the buffer and the 1-based
    /// line and column counters stay small enough that advancing one
    /// character cannot overflow them.
    pub open spec fn wf(&self) -> bool {
        &&& self.pos <= self.source.len()
        &&& self.source.len() < usize::MAX
        &&& 1 <= self.line
        &&& 1 <= self.col
        &&& self.line + self.col <= self.pos + 2
    }

    /// Builds a lexer over the characters of `source`, with the cursor at
    /// the first character, line 1, column 1. The length bound is a machine
    /// limit: a buffer of one character per byte cannot reach `usize::MAX`.
    #[verifier::loop_isolation(false)]
    pub fn new(source: &str) -> (r: Lexer)
        requires
            source@.len() < usize::MAX,
        ensures
            r.src() == source@,
            r.cursor() == (LexPos { pos: 0, line: 1, col: 1 }),
            r.wf(),
    {
        broadcast use vstd::string::axiom_spec_iter;
        broadcast use vstd::string::next_postcondition;

        let mut buf: Vec<char> = Vec::new();
        let mut it = source.chars();
        loop
            invariant
                it.obeys_prophetic_iter_laws(),
                buf@ + it.remaining() == source@,
            decreases source@.len() - buf@.len(),
        {
            match it.next() {
                Option::Some(c) => {
                    buf.push(c);
                    proof {
                        assert(buf@ + it.remaining() =~= source@);
                    }
                },
                Option::None => {
                    proof {
                        assert(buf@ =~= source@);
                    }
                    break ;
                },
            }
        }
        Lexer { source: buf, pos: 0, line: 1, col: 1 }
    }

    /// The character under the cursor, if any; the cursor does not move.
    fn peek(&self) -> (r: Option<char>)
        ensures
            r == (if self.pos < self.source.len() {
                Option::Some(self.src()[self.pos as int])
            } else {
                Option::None
            }),
    {
        if self.pos < self.source.len() {
            Option::Some(self.source[self.pos])
        } else {
            Option::None
        }
    }

    /// Whether the character under the cursor is exactly `c`.
    fn peek_eq(&self, c: char) -> (r: bool)
        ensures
            r == (self.pos < self.source.len() && self.src()[self.pos as int] == c),
    {
        match self.peek() {
            Option::Some(x) => x == c,
            Option::None => false,
        }
    }

    /// The character one past the cursor, if any; the cursor does not move.
    fn peek_next(&self) -> (r: Option<char>)
        requires
            self.pos < usize::MAX,
        ensures
            r == (if self.pos + 1 < self.source.len() {
                Option::Some(self.src()[self.pos + 1])
            } else {
                Option::None
            }),
    {
        if self.pos + 1 < self.source.len() {
            Option::Some(self.source[self.pos + 1])
        } else {
            Option::None
        }
    }

    /// Consumes one character, stepping the line and column counters; at the
    /// end of input the lexer is unchanged.
    fn advance(&mut self) -> (r: Option<char>)
        requires
            old(self).wf(),
        ensures
            final(self).wf(),
            final(self).src() == old(self).src(),
            match r {
                Option::Some(c) => {
                    &&& old(self).pos < old(self).source.len()
                    &&& c == old(self).src()[old(self).pos as int]
                    &&& final(self).cursor() == step(old(self).src(), old(self).cursor())
                },
                Option::None => {
                    &&& old(self).pos == old(self).source.len()
                    &&& final(self).cursor() == old(self).cursor()
                },
            },
    {
        if self.pos < self.source.len() {
            let c = self.source[self.pos];
            self.pos = self.pos + 1;
            if c == '\n' {
                self.line = self.line + 1;
                self.col = 1;
            } else {
                self.col = self.col + 1;
            }
            Option::Some(c)
        } else {
            Option::None
        }
    }

    /// Consumes up to (but not including) the next newline.
    fn skip_line_comment(&mut self)
        requires
            old(self).wf(),
        ensures
            final(self).wf(),
            final(self).src() == old(self).src(),
            final(self).cursor() == skip_line(old(self).src(), old(self).cursor()),
            final(self).pos >= old(self).pos,
    {
        let ghost s = self.src();
        let ghost p0 = self.cursor();
        loop
            invariant
                self.wf(),
                self.src() == s,
                self.pos >= p0.pos,
                skip_line(s, self.cursor()) == skip_line(s, p0),
            ensures
                self.wf(),
                self.src() == s,
                self.pos >= p0.pos,
                self.cursor() == skip_line(s, p0),
            decreases s.len() - self.pos,
        {
            match self.peek() {
                Option::None => {
                    break ;
                },
                Option::Some(c) => {
                    if c == '\n' {
                        break ;
                    }
                    self.advance();
                },
            }
        }
    }

    /// Consumes the body of a block comment, up to and including the first
    /// `*/`, or to the end of input.
    fn skip_block_comment(&mut self)
        requires
            old(self).wf(),
        ensures
            final(self).wf(),
            final(self).src() == old(self).src(),
            final(self).cursor() == skip_block(old(self).src(), old(self).cursor()),
            final(self).pos >= old(self).pos,
    {
        let ghost s = self.src();
        let ghost p0 = self.cursor();
        loop
            invariant_except_break
                skip_block(s, self.cursor()) == skip_block(s, p0),
            invariant
                self.wf(),
                self.src() == s,
                self.pos >= p0.pos,
            ensures
                self.wf(),
                self.src() == s,
                self.pos >= p0.pos,
                self.cursor() == skip_block(s, p0),
            decreases s.len() - self.pos,
        {
            let ghost pre = self.cursor();
            match self.advance() {
                Option::None => {
                    break ;
                },
                Option::Some(c) => {
                    if c == '*' {
                        match self.peek() {
                            Option::Some(n) => {
                                if n == '/' {
                                    self.advance();
                                    break ;
                                }
                            },
                            Option::None => {
                            },
                        }
                    }
                },
            }
        }
    }

    /// Consumes all insignificant text: whitespace and the three comment
    /// forms; comment newlines still advance line tracking.
    fn skip_whitespace(&mut self)
        requires
            old(self).wf(),
        ensures
            final(self).wf(),
            final(self).src() == old(self).src(),
            final(self).cursor() == skip_ws(old(self).src(), old(self).cursor()),
            final(self).pos >= old(self).pos,
    {
        let ghost s = self.src();
        let ghost p0 = self.cursor();
        loop
            invariant
                self.wf(),
                self.src() == s,
                self.pos >= p0.pos,
                skip_ws(s, self.cursor()) == skip_ws(s, p0),
            ensures
                self.wf(),
                self.src() == s,
                self.pos >= p0.pos,
                self.cursor() == skip_ws(s, p0),
            decreases s.len() - self.pos,
        {
            let ghost pre = self.cursor();
            match self.peek() {
                Option::None => {
                    break ;
                },
                Option::Some(c) => {
                    if c.is_whitespace() {
                        self.advance();
                    } else if c == '/' && self.peek_next() == Option::Some('/') {
                        self.skip_line_comment();
                        proof {
                            lemma_skip_line_bounds(s, step(s, pre));
                        }
                    } else if c == '/' && self.peek_next() == Option::Some('*') {
                        self.advance();
                        self.advance();
                        self.skip_block_comment();
                        proof {
                            lemma_skip_block_bounds(s, step(s, step(s, pre)));
                        }
                    } else if c == '#' {
                        self.skip_line_comment();
                        proof {
                            lemma_skip_line_bounds(s, step(s, pre));
                        }
                    } else {
                        break ;
                    }
                },
            }
        }
    }

    /// Reads the body of a string literal whose opening delimiter `quote`
    /// has just been consumed, decoding escapes as [`read_string`] states.
    fn read_string(&mut self, quote: char) -> (t: Token)
        requires
            old(self).wf(),
        ensures
            final(self).wf(),
            final(self).src() == old(self).src(),
            final(self).pos >= old(self).pos,
            t@ == TokenV::StringLiteral(
                read_string(old(self).src(), old(self).cursor(), quote).0,
            ),
            final(self).cursor() == read_string(old(self).src(), old(self).cursor(), quote).1,
    {
        let ghost s = self.src();
        let ghost p0 = self.cursor();
        let mut out = String::new();
        loop
            invariant_except_break
                read_string(s, p0, quote).0 == out@ + read_string(s, self.cursor(), quote).0,
                read_string(s, p0, quote).1 == read_string(s, self.cursor(), quote).1,
            invariant
                self.wf(),
                self.src() == s,
                self.pos >= p0.pos,
            ensures
                self.wf(),
                self.src() == s,
                self.pos >= p0.pos,
                read_string(s, p0, quote).0 == out@,
                read_string(s, p0, quote).1 == self.cursor(),
            decreases s.len() - self.pos,
        {
            let ghost pre = self.cursor();
            match self.advance() {
                Option::None => {
                    proof {
                        assert(out@ + Seq::<char>::empty() =~= out@);
                    }
                    break ;
                },
                Option::Some(c) => {
                    if c == '\\' {
                        match self.advance() {
                            Option::Some(e) => {
                                if e == 'n' {
                                    out.push('\n');
                                } else if e == 't' {
                                    out.push('\t');
                                } else if e == '\\' {
                                    out.push('\\');
                                } else if e == quote {
                                    out.push(e);
                                } else {
                                    out.push('\\');
                                    out.push(e);
                                }
                                proof {
                                    let rest = read_string(s, self.cursor(), quote);
                                    assert(read_string(s, p0, quote).0 == out@ + rest.0) by {
                                        assert(out@ + rest.0 =~= read_string(s, p0, quote).0);
                                    }
                                }
                            },
                            Option::None => {
                                proof {
                                    assert(out@ + Seq::<char>::empty() =~= out@);
                                }
                                break ;
                            },
                        }
                    } else if c == quote {
                        proof {
                            assert(out@ + Seq::<char>::empty() =~= out@);
                        }
                        break ;
                    } else {
                        out.push(c);
                        proof {
                            let rest = read_string(s, self.cursor(), quote);
                            assert(read_string(s, p0, quote).0 == out@ + rest.0) by {
                                assert(out@ + rest.0 =~= read_string(s, p0, quote).0);
                            }
                        }
                    }
                },
            }
        }
        Token::StringLiteral(out)
    }

    /// Reads the continuation of an identifier whose first character
    /// `first` has just been consumed.
    fn read_identifier(&mut self, first: char) -> (r: String)
        requires
            old(self).wf(),
        ensures
            final(self).wf(),
            final(self).src() == old(self).src(),
            final(self).pos >= old(self).pos,
            r@ == seq![first] + read_ident_rest(old(self).src(), old(self).cursor()).0,
            final(self).cursor() == read_ident_rest(old(self).src(), old(self).cursor()).1,
    {
        let ghost s = self.src();
        let ghost p0 = self.cursor();
        let mut out = String::new();
        out.push(first);
        proof {
            assert(out@ =~= seq![first]);
        }
        loop
            invariant
                self.wf(),
                self.src() == s,
                self.pos >= p0.pos,
                seq![first] + read_ident_rest(s, p0).0 == out@ + read_ident_rest(
                    s,
                    self.cursor(),
                ).0,
                read_ident_rest(s, p0).1 == read_ident_rest(s, self.cursor()).1,
            ensures
                self.wf(),
                self.src() == s,
                self.pos >= p0.pos,
                seq![first] + read_ident_rest(s, p0).0 == out@,
                read_ident_rest(s, p0).1 == self.cursor(),
            decreases s.len() - self.pos,
        {
            let cont = match self.peek() {
                Option::Some(c) => c.is_alphanumeric() || c == '_',
                Option::None => false,
            };
            if !cont {
                proof {
                    assert(out@ + Seq::<char>::empty() =~= out@);
                }
                break ;
            }
            let c = self.advance().unwrap();
            out.push(c);
            proof {
                let rest = read_ident_rest(s, self.cursor());
                assert(seq![first] + read_ident_rest(s, p0).0 == out@ + rest.0) by {
                    assert(out@ + rest.0 =~= seq![first] + read_ident_rest(s, p0).0);
                }
            }
        }
        out
    }


    /// Reads the rest of a numeric literal whose first digit `first` has
    /// just been consumed at source position (`line`, `col`).
    fn read_number(&mut self, first: char, line: usize, col: usize) -> (r: Result<
        Token,
        LexError,
    >)
        requires
            old(self).wf(),
            is_digit(first),
        ensures
            final(self).wf(),
            final(self).src() == old(self).src(),
            final(self).pos >= old(self).pos,
            match r {
                Result::Ok(t) => read_number(
                    old(self).src(),
                    old(self).cursor(),
                    first,
                    line as int,
                    col as int,
                ) == Result::<(TokenV, LexPos), LexErrV>::Ok((t@, final(self).cursor())),
                Result::Err(e) => read_number(
                    old(self).src(),
                    old(self).cursor(),
                    first,
                    line as int,
                    col as int,
                ) == Result::<(TokenV, LexPos), LexErrV>::Err(e@),
            },
    {
        let ghost s = self.src();
        let ghost p0 = self.cursor();
        let mut num = String::new();
        num.push(first);
        let mut val: u64 = (first as u32 - 48) as u64;
        let mut overflow = false;
        proof {
            assert(num@ =~= seq![first]);
            assert(num@.drop_last() =~= Seq::<char>::empty());
            assert(num@.last() == first);
            assert(digits_value(Seq::<char>::empty()) == 0);
            assert(digits_value(num@) == digit_val(first));
        }
        loop
            invariant
                self.wf(),
                self.src() == s,
                self.pos >= p0.pos,
                num@.len() >= 1,
                seq![first] + read_digits(s, p0).0 == num@ + read_digits(s, self.cursor()).0,
                read_digits(s, p0).1 == read_digits(s, self.cursor()).1,
                overflow ==> digits_value(num@) > i64::MAX,
                !overflow ==> val == digits_value(num@) && val <= i64::MAX as u64,
            ensures
                self.wf(),
                self.src() == s,
                self.pos >= p0.pos,
                num@.len() >= 1,
                seq![first] + read_digits(s, p0).0 == num@,
                read_digits(s, p0).1 == self.cursor(),
                overflow ==> digits_value(num@) > i64::MAX,
                !overflow ==> val == digits_value(num@) && val <= i64::MAX as u64,
            decreases s.len() - self.pos,
        {
            let cont = match self.peek() {
                Option::Some(c) => {
                    let u = c as u32;
                    48 <= u && u <= 57
                },
                Option::None => false,
            };
            if !cont {
                proof {
                    assert(num@ + Seq::<char>::empty() =~= num@);
                }
                break ;
            }
            let c = self.advance().unwrap();
            let ghost num_pre = num@;
            num.push(c);
            let d = c as u32 - 48;
            if !overflow {
                if val > 922337203685477580u64 || (val == 922337203685477580u64 && d > 7) {
                    overflow = true;
                } else {
                    val = val * 10 + d as u64;
                }
            }
            proof {
                let rest = read_digits(s, self.cursor());
                assert(num@ + rest.0 =~= seq![first] + read_digits(s, p0).0);
                assert(num@.drop_last() =~= num_pre);
                assert(num@.last() == c);
                assert(digits_value(num@) == digits_value(num_pre) * 10 + digit_val(c));
            }
        }
        let is_float = match self.peek() {
            Option::Some(c) => {
                if c == '.' {
                    match self.peek_next() {
                        Option::Some(n) => {
                            let u = n as u32;
                            48 <= u && u <= 57
                        },
                        Option::None => false,
                    }
                } else {
                    false
                }
            },
            Option::None => false,
        };
        if is_float {
            let ghost whole = num@;
            let dot = self.advance().unwrap();
            num.push(dot);
            proof {
                assert(num@ =~= whole + seq!['.']);
            }
            let ghost p1 = self.cursor();
            loop
                invariant
                    self.wf(),
                    self.src() == s,
                    self.pos >= p0.pos,
                    whole + seq!['.'] + read_digits(s, p1).0 == num@ + read_digits(
                        s,
                        self.cursor(),
                    ).0,
                    read_digits(s, p1).1 == read_digits(s, self.cursor()).1,
                ensures
                    self.wf(),
                    self.src() == s,
                    self.pos >= p0.pos,
                    whole + seq!['.'] + read_digits(s, p1).0 == num@,
                    read_digits(s, p1).1 == self.cursor(),
                decreases s.len() - self.pos,
            {
                let cont = match self.peek() {
                    Option::Some(c) => {
                        let u = c as u32;
                        48 <= u && u <= 57
                    },
                    Option::None => false,
                };
                if !cont {
                    proof {
                        assert(num@ + Seq::<char>::empty() =~= num@);
                    }
                    break ;
                }
                let c = self.advance().unwrap();
                num.push(c);
                proof {
                    let rest = read_digits(s, self.cursor());
                    assert(num@ + rest.0 =~= whole + seq!['.'] + read_digits(s, p1).0);
                }
            }
            Result::Ok(Token::Float(num))
        } else {
            if overflow {
                Result::Err(LexError::IntegerOverflow { line: line, col: col })
            } else {
                Result::Ok(Token::Integer(val as i64))
            }
        }
    }

    /// Classifies an identifier spelling against the keyword table.
    fn keyword_or_ident(&self, ident: String) -> (t: Token)
        ensures
            t@ == keyword_token(ident@),
    {
        if ident == String::from_str("echo") {
            Token::Echo
        } else if ident == String::from_str("if") {
            Token::If
        } else if ident == String::from_str("else") {
            Token::Else
        } else if ident == String::from_str("elseif") {
            Token::Elseif
        } else if ident == String::from_str("while") {
            Token::While
        } else if ident == String::from_str("for") {
            Token::For
        } else if ident == String::from_str("function") {
            Token::Function
        } else if ident == String::from_str("return") {
            Token::Return
        } else if ident == String::from_str("true") || ident == String::from_str("TRUE") {
            Token::True
        } else if ident == String::from_str("false") || ident == String::from_str("FALSE") {
            Token::False
        } else if ident == String::from_str("null") || ident == String::from_str("NULL") {
            Token::Null
        } else {
            Token::Identifier(ident)
        }
    }

    /// Transforms the remaining input into the whole token stream, or the
    /// first lexical error: exactly the value of [`tokenize_from`] at the
    /// current cursor. On a fresh lexer this is [`spec_tokenize`] of the
    /// whole source.
    #[verifier::rlimit(100)]
    #[verifier::loop_isolation(false)]
    pub fn tokenize(&mut self) -> (r: Result<Vec<Spanned>, LexError>)
        requires
            old(self).wf(),
        ensures
            final(self).wf(),
            final(self).src() == old(self).src(),
            match r {
                Result::Ok(v) => tokenize_from(old(self).src(), old(self).cursor())
                    == Result::<Seq<SpannedV>, LexErrV>::Ok(view_spanneds(v@)),
                Result::Err(e) => tokenize_from(old(self).src(), old(self).cursor())
                    == Result::<Seq<SpannedV>, LexErrV>::Err(e@),
            },
    {
        let ghost s = self.src();
        let ghost p0 = self.cursor();
        let mut tokens: Vec<Spanned> = Vec::new();
        self.skip_whitespace();
        let ghost q = self.cursor();
        let has_tag = if self.source.len() >= 5 && self.pos <= self.source.len() - 5 {
            self.source[self.pos] == '<' && self.source[self.pos + 1] == '?' && self.source[self.pos
                + 2] == 'p' && self.source[self.pos + 3] == 'h' && self.source[self.pos + 4] == 'p'
        } else {
            false
        };
        if !has_tag {
            proof {
                if q.pos + 5 <= s.len() && s.subrange(q.pos, q.pos + 5) == php_tag() {
                    assert(s[q.pos] == s.subrange(q.pos, q.pos + 5)[0]);
                    assert(s[q.pos + 1] == s.subrange(q.pos, q.pos + 5)[1]);
                    assert(s[q.pos + 2] == s.subrange(q.pos, q.pos + 5)[2]);
                    assert(s[q.pos + 3] == s.subrange(q.pos, q.pos + 5)[3]);
                    assert(s[q.pos + 4] == s.subrange(q.pos, q.pos + 5)[4]);
                }
            }
            return Result::Err(LexError::UnexpectedPrefix { line: self.line, col: self.col });
        }
        let line0 = self.line;
        let col0 = self.col;
        self.advance();
        self.advance();
        self.advance();
        self.advance();
        self.advance();
        let sp0 = Spanned { token: Token::OpenTag, line: line0, col: col0 };
        tokens.push(sp0);
        proof {
            assert(s.subrange(q.pos, q.pos + 5) =~= php_tag());
            assert(tokens@ =~= Seq::<Spanned>::empty().push(tokens@.last()));
            lemma_view_spanneds_push(Seq::empty(), tokens@.last());
            assert(view_spanneds(Seq::<Spanned>::empty()) == Seq::<SpannedV>::empty());
            assert(view_spanneds(tokens@) =~= seq![
                SpannedV { token: TokenV::OpenTag, line: q.line, col: q.col },
            ]);
        }
        loop
            invariant
                self.wf(),
                self.src() == s,
                match tokenize_loop(s, self.cursor()) {
                    Result::Ok(rest) => tokenize_from(s, p0) == Result::<
                        Seq<SpannedV>,
                        LexErrV,
                    >::Ok(view_spanneds(tokens@) + rest),
                    Result::Err(e) => tokenize_from(s, p0) == Result::<
                        Seq<SpannedV>,
                        LexErrV,
                    >::Err(e),
                },
            decreases s.len() - self.pos,
        {
            let ghost head = self.cursor();
            self.skip_whitespace();
            let ghost q2 = self.cursor();
            let line1 = self.line;
            let col1 = self.col;
            let c = match self.advance() {
                Option::None => {
                    let ghost tks = tokens@;
                    let sp = Spanned { token: Token::Eof, line: line1, col: col1 };
                    tokens.push(sp);
                    proof {
                        lemma_view_spanneds_push(tks, sp);
                        assert(view_spanneds(tks) + seq![sp@] =~= view_spanneds(tokens@));
                    }
                    return Result::Ok(tokens);
                },
                Option::Some(c) => c,
            };
            let cu = c as u32;
            let tok: Token;
            if c == '+' {
                tok = Token::Plus;
            } else if c == '-' {
                tok = Token::Minus;
            } else if c == '*' {
                tok = Token::Star;
            } else if c == '/' {
                tok = Token::Slash;
            } else if c == '%' {
                tok = Token::Percent;
            } else if c == '(' {
                tok = Token::OpenParen;
            } else if c == ')' {
                tok = Token::CloseParen;
            } else if c == '{' {
                tok = Token::OpenBrace;
            } else if c == '}' {
                tok = Token::CloseBrace;
            } else if c == '[' {
                tok = Token::OpenBracket;
            } else if c == ']' {
                tok = Token::CloseBracket;
            } else if c == ';' {
                tok = Token::Semicolon;
            } else if c == ',' {
                tok = Token::Comma;
            } else if c == '.' {
                tok = Token::Dot;
            } else if c == '=' {
                match self.peek() {
                    Option::Some('=') => {
                        self.advance();
                        match self.peek() {
                            Option::Some('=') => {
                                self.advance();
                                tok = Token::Identical;
                            },
                            _ => {
                                tok = Token::Equal;
                            },
                        }
                    },
                    Option::Some('>') => {
                        self.advance();
                        tok = Token::Arrow;
                    },
                    _ => {
                        tok = Token::Assign;
                    },
                }
            } else if c == '!' {
                match self.peek() {
                    Option::Some('=') => {
                        self.advance();
                        match self.peek() {
                            Option::Some('=') => {
                                self.advance();
                                tok = Token::NotIdentical;
                            },
                            _ => {
                                tok = Token::NotEqual;
                            },
                        }
                    },
                    _ => {
                        tok = Token::Not;
                    },
                }
            } else if c == '<' {
                match self.peek() {
                    Option::Some('=') => {
                        self.advance();
                        tok = Token::LessEqual;
                    },
                    _ => {
                        tok = Token::Less;
                    },
                }
            } else if c == '>' {
                match self.peek() {
                    Option::Some('=') => {
                        self.advance();
                        tok = Token::GreaterEqual;
                    },
                    _ => {
                        tok = Token::Greater;
                    },
                }
            } else if c == '&' && self.peek_eq('&') {
                self.advance();
                tok = Token::And;
            } else if c == '|' && self.peek_eq('|') {
                self.advance();
                tok = Token::Or;
            } else if c == '$' {
                match self.peek() {
                    Option::None => {
                        return Result::Err(LexError::UnexpectedEndAfterDollar {
                            line: line1,
                            col: col1,
                        });
                    },
                    Option::Some(c2) => {
                        if c2.is_alphabetic() || c2 == '_' {
                            self.advance();
                            let name = self.read_identifier(c2);
                            tok = Token::Variable(name);
                        } else {
                            return Result::Err(LexError::InvalidVariableName {
                                line: line1,
                                col: col1,
                            });
                        }
                    },
                }
            } else if c == '\'' || c == '"' {
                tok = self.read_string(c);
            } else if 48 <= cu && cu <= 57 {
                match self.read_number(c, line1, col1) {
                    Result::Ok(t) => {
                        tok = t;
                    },
                    Result::Err(e) => {
                        return Result::Err(e);
                    },
                }
            } else if c.is_alphabetic() || c == '_' {
                let name = self.read_identifier(c);
                tok = self.keyword_or_ident(name);
            } else {
                return Result::Err(LexError::UnexpectedCharacter {
                    ch: c,
                    line: line1,
                    col: col1,
                });
            }
            let ghost tks = tokens@;
            let sp = Spanned { token: tok, line: line1, col: col1 };
            tokens.push(sp);
            proof {
                lemma_view_spanneds_push(tks, sp);
                assert(next_token(s, q2) == Result::<(TokenV, LexPos), LexErrV>::Ok(
                    (tok@, self.cursor()),
                ));
                assert(head.pos < self.cursor().pos <= s.len());
                match tokenize_loop(s, self.cursor()) {
                    Result::Ok(rest) => {
                        assert(view_spanneds(tks) + (seq![sp@] + rest) =~= view_spanneds(tokens@)
                            + rest);
                    },
                    Result::Err(e) => {},
                }
            }
        }
    }
}


/// Every successful run of the token loop produces at least one token, ends
/// with an `Eof` token, and holds no `Eof` token anywhere earlier.
pub proof fn lemma_tokenize_loop_eof(s: Seq<char>, p: LexPos)
    ensures
        tokenize_loop(s, p) matches Result::Ok(toks) ==> toks.len() >= 1 && toks.last().token
            == TokenV::Eof && (forall|i: int|
            0 <= i < toks.len() - 1 ==> #[trigger] toks[i].token != TokenV::Eof),
    decreases s.len() - p.pos,
{
    let q = skip_ws(s, p);
    if 0 <= q.pos < s.len() {
        match next_token(s, q) {
            Result::Err(e) => {},
            Result::Ok(r) => {
                assert(r.0 != TokenV::Eof);
                if p.pos < r.1.pos <= s.len() {
                    lemma_tokenize_loop_eof(s, r.1);
                    match tokenize_loop(s, r.1) {
                        Result::Ok(rest) => {
                            let sv = SpannedV { token: r.0, line: q.line, col: q.col };
                            let toks = seq![sv] + rest;
                            assert(toks.last() == rest.last());
                            assert forall|i: int|
                                0 <= i < toks.len() - 1 implies #[trigger] toks[i].token
                                != TokenV::Eof by {
                                if i > 0 {
                                    assert(toks[i] == rest[i - 1]);
                                }
                            }
                        },
                        Result::Err(e) => {},
                    }
                }
            },
        }
    }
}

/// For every input on which tokenisation succeeds, the token stream begins
/// with `OpenTag` and ends with exactly one `Eof` token: the final token is
/// `Eof` and no earlier token is.
pub proof fn lemma_tokenize_ends_with_one_eof(s: Seq<char>)
    ensures
        spec_tokenize(s) matches Result::Ok(toks) ==> toks.len() >= 2 && toks[0].token
            == TokenV::OpenTag && toks.last().token == TokenV::Eof && (forall|i: int|
            0 <= i < toks.len() - 1 ==> #[trigger] toks[i].token != TokenV::Eof),
{
    let p0 = LexPos { pos: 0, line: 1, col: 1 };
    let q = skip_ws(s, p0);
    if q.pos + 5 <= s.len() && s.subrange(q.pos, q.pos + 5) == php_tag() {
        let p5 = step(s, step(s, step(s, step(s, step(s, q)))));
        lemma_tokenize_loop_eof(s, p5);
        match tokenize_loop(s, p5) {
            Result::Ok(rest) => {
                let sv = SpannedV { token: TokenV::OpenTag, line: q.line, col: q.col };
                let toks = seq![sv] + rest;
                assert(toks.last() == rest.last());
                assert forall|i: int|
                    0 <= i < toks.len() - 1 implies #[trigger] toks[i].token != TokenV::Eof by {
                    if i > 0 {
                        assert(toks[i] == rest[i - 1]);
                    }
                }
            },
            Result::Err(e) => {},
        }
    }
}

} // verus!
