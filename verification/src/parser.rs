//! The parser: consumes the token sequence produced by the lexer and builds
//! an ordered sequence of top-level statements, or fails with a diagnostic
//! identifying the offending token and its index.
//!
//! As in the lexer, the module has two halves: spec functions over
//! `Seq<TokenV>` that define, tier by tier of the precedence-climbing
//! grammar, exactly which tree or which error comes out of every token
//! sequence; and the executable [`Parser`], whose contracts state that it
//! computes precisely those functions. The spec functions recurse along a
//! lexicographic measure (remaining tokens, grammar tier); branches that a
//! run can never reach (a sub-parse that would not consume input) are cut
//! off by explicit cursor guards and left unspecified.

use vstd::prelude::*;
use vstd::string::StringExecFns;
use crate::token::{Token, TokenV, Spanned, SpannedV, token_eq, clone_token, view_spanneds};
use crate::lexer::{LexError, LexErrV, spec_tokenize, lemma_tokenize_ends_with_one_eof};
use crate::ast::{
    Expr, ExprV, ArrayEntry, ArrayEntryV, BinOp, UnaryOp, Stmt, StmtV, Block, view_expr,
    view_entry, view_exprs, view_entries, view_stmt, view_stmts, view_elseifs, view_params,
    view_opt_expr, lemma_view_exprs_push, lemma_view_entries_push, lemma_view_stmts_push,
    lemma_view_elseifs_push, lemma_view_params_push,
};

verus! {

/// A parsing failure. `pos` is the index of the offending token in the
/// input sequence.
#[allow(inconsistent_fields)]
#[derive(Debug)]
pub enum ParseError {
    /// A specific token was required and another stood there.
    Expected { expected: Token, found: Token, pos: usize },
    /// `function` was not followed by an identifier.
    ExpectedFunctionName { found: Token, pos: usize },
    /// A parameter position held something other than a variable.
    ExpectedParameter { found: Token, pos: usize },
    /// The left-hand side of `=` was neither a variable nor an array access.
    InvalidAssignmentTarget { pos: usize },
    /// A bare identifier not followed by a call's `(`.
    UnexpectedIdentifier { name: String, pos: usize },
    /// A token that can begin no primary expression.
    UnexpectedToken { found: Token, pos: usize },
}

/// The mathematical value of a [`ParseError`].
#[allow(inconsistent_fields)]
pub enum ParseErrV {
    Expected { expected: TokenV, found: TokenV, pos: int },
    ExpectedFunctionName { found: TokenV, pos: int },
    ExpectedParameter { found: TokenV, pos: int },
    InvalidAssignmentTarget { pos: int },
    UnexpectedIdentifier { name: Seq<char>, pos: int },
    UnexpectedToken { found: TokenV, pos: int },
}

impl View for ParseError {
    type V = ParseErrV;

    open spec fn view(&self) -> ParseErrV {
        match self {
            ParseError::Expected { expected, found, pos } => (ParseErrV::Expected {
                expected: expected@,
                found: found@,
                pos: *pos as int,
            }),
            ParseError::ExpectedFunctionName { found, pos } => (ParseErrV::ExpectedFunctionName {
                found: found@,
                pos: *pos as int,
            }),
            ParseError::ExpectedParameter { found, pos } => (ParseErrV::ExpectedParameter {
                found: found@,
                pos: *pos as int,
            }),
            ParseError::InvalidAssignmentTarget { pos } => (ParseErrV::InvalidAssignmentTarget {
                pos: *pos as int,
            }),
            ParseError::UnexpectedIdentifier { name, pos } => (ParseErrV::UnexpectedIdentifier {
                name: name@,
                pos: *pos as int,
            }),
            ParseError::UnexpectedToken { found, pos } => (ParseErrV::UnexpectedToken {
                found: found@,
                pos: *pos as int,
            }),
        }
    }
}

/// The outcome of one spec-level parsing step: a value together with the
/// cursor after it, or a failure.
pub enum PRes<T> {
    Found { v: T, next: int },
    Fail(ParseErrV),
}

/// Demanding one specific token: it is consumed, or the mismatch is the
/// failure.
pub open spec fn spec_expect(t: Seq<TokenV>, pos: int, want: TokenV) -> PRes<()> {
    if t[pos] == want {
        PRes::Found { v: (), next: pos + 1 }
    } else {
        PRes::Fail(ParseErrV::Expected { expected: want, found: t[pos], pos: pos })
    }
}

/// A primary expression: a literal, a variable, a parenthesized expression,
/// a function call, or an array literal. A bare identifier not followed by
/// `(` is a failure.
pub open spec fn spec_parse_primary(t: Seq<TokenV>, pos: int) -> PRes<ExprV>
    decreases t.len() - pos, 1int,
{
    if !(0 <= pos < t.len()) {
        arbitrary()
    } else {
        match t[pos] {
            TokenV::Integer(n) => PRes::Found { v: ExprV::Integer(n), next: pos + 1 },
            TokenV::Float(s) => PRes::Found { v: ExprV::Float(s), next: pos + 1 },
            TokenV::StringLiteral(s) => PRes::Found { v: ExprV::String(s), next: pos + 1 },
            TokenV::True => PRes::Found { v: ExprV::Bool(true), next: pos + 1 },
            TokenV::False => PRes::Found { v: ExprV::Bool(false), next: pos + 1 },
            TokenV::Null => PRes::Found { v: ExprV::Null, next: pos + 1 },
            TokenV::Variable(name) => PRes::Found { v: ExprV::Variable(name), next: pos + 1 },
            TokenV::Identifier(name) => {
                if t[pos + 1] == TokenV::OpenParen && pos + 2 <= t.len() {
                    if t[pos + 2] == TokenV::CloseParen {
                        PRes::Found {
                            v: ExprV::FunctionCall { name: name, args: Seq::empty() },
                            next: pos + 3,
                        }
                    } else if pos + 2 < t.len() {
                        match spec_parse_expr(t, pos + 2) {
                            PRes::Fail(e) => PRes::Fail(e),
                            PRes::Found { v: first, next } => {
                                if pos + 2 < next <= t.len() {
                                    spec_parse_args(t, next, name, seq![first])
                                } else {
                                    arbitrary()
                                }
                            },
                        }
                    } else {
                        arbitrary()
                    }
                } else {
                    PRes::Fail(ParseErrV::UnexpectedIdentifier { name: name, pos: pos })
                }
            },
            TokenV::OpenParen => {
                if pos + 1 < t.len() {
                    match spec_parse_expr(t, pos + 1) {
                        PRes::Fail(e) => PRes::Fail(e),
                        PRes::Found { v, next } => {
                            match spec_expect(t, next, TokenV::CloseParen) {
                                PRes::Fail(e) => PRes::Fail(e),
                                PRes::Found { v: _, next: after } => PRes::Found { v: v, next: after },
                            }
                        },
                    }
                } else {
                    arbitrary()
                }
            },
            TokenV::OpenBracket => {
                if t[pos + 1] == TokenV::CloseBracket {
                    PRes::Found { v: ExprV::ArrayLiteral(Seq::empty()), next: pos + 2 }
                } else if pos + 1 < t.len() {
                    spec_parse_entries(t, pos + 1, Seq::empty())
                } else {
                    arbitrary()
                }
            },
            _ => PRes::Fail(ParseErrV::UnexpectedToken { found: t[pos], pos: pos }),
        }
    }
}

/// The remaining arguments of a function call, after the first: `,` and a
/// further expression repeatedly, then the closing `)`.
pub open spec fn spec_parse_args(t: Seq<TokenV>, pos: int, name: Seq<char>, acc: Seq<ExprV>) -> PRes<
    ExprV,
>
    decreases t.len() - pos, 13int,
{
    if !(0 <= pos < t.len()) {
        arbitrary()
    } else if t[pos] == TokenV::Comma {
        if pos + 1 < t.len() {
            match spec_parse_expr(t, pos + 1) {
                PRes::Fail(e) => PRes::Fail(e),
                PRes::Found { v, next } => {
                    if pos + 1 < next <= t.len() {
                        spec_parse_args(t, next, name, acc.push(v))
                    } else {
                        arbitrary()
                    }
                },
            }
        } else {
            arbitrary()
        }
    } else {
        match spec_expect(t, pos, TokenV::CloseParen) {
            PRes::Fail(e) => PRes::Fail(e),
            PRes::Found { v: _, next } => PRes::Found {
                v: ExprV::FunctionCall { name: name, args: acc },
                next: next,
            },
        }
    }
}

/// The entries of a non-empty array literal: each entry an expression, or a
/// key expression, `=>` and a value expression; separated by commas, with an
/// optional trailing comma; closed by `]`.
pub open spec fn spec_parse_entries(t: Seq<TokenV>, pos: int, acc: Seq<ArrayEntryV>) -> PRes<ExprV>
    decreases t.len() - pos, 27int,
{
    if !(0 <= pos < t.len()) {
        arbitrary()
    } else {
        match spec_parse_expr(t, pos) {
            PRes::Fail(e) => PRes::Fail(e),
            PRes::Found { v: first, next } => {
                if pos < next <= t.len() {
                    if t[next] == TokenV::Arrow && next + 1 < t.len() {
                        match spec_parse_expr(t, next + 1) {
                            PRes::Fail(e) => PRes::Fail(e),
                            PRes::Found { v: value, next: n2 } => {
                                if next + 1 < n2 <= t.len() {
                                    spec_parse_entries_sep(
                                        t,
                                        n2,
                                        acc.push(
                                            ArrayEntryV { key: Option::Some(first), value: value },
                                        ),
                                    )
                                } else {
                                    arbitrary()
                                }
                            },
                        }
                    } else if t[next] == TokenV::Arrow {
                        arbitrary()
                    } else {
                        spec_parse_entries_sep(
                            t,
                            next,
                            acc.push(ArrayEntryV { key: Option::None, value: first }),
                        )
                    }
                } else {
                    arbitrary()
                }
            },
        }
    }
}

/// After one array-literal entry: a comma continues (unless the bracket
/// follows, the trailing-comma form), anything else must be the closing `]`.
pub open spec fn spec_parse_entries_sep(t: Seq<TokenV>, pos: int, acc: Seq<ArrayEntryV>) -> PRes<
    ExprV,
>
    decreases t.len() - pos, 14int,
{
    if !(0 <= pos < t.len()) {
        arbitrary()
    } else if t[pos] == TokenV::Comma {
        if t[pos + 1] == TokenV::CloseBracket {
            PRes::Found { v: ExprV::ArrayLiteral(acc), next: pos + 2 }
        } else if pos + 1 < t.len() {
            spec_parse_entries(t, pos + 1, acc)
        } else {
            arbitrary()
        }
    } else {
        match spec_expect(t, pos, TokenV::CloseBracket) {
            PRes::Fail(e) => PRes::Fail(e),
            PRes::Found { v: _, next } => PRes::Found { v: ExprV::ArrayLiteral(acc), next: next },
        }
    }
}

/// A postfix expression: a primary followed by any number of `[` index `]`
/// accesses.
pub open spec fn spec_parse_postfix(t: Seq<TokenV>, pos: int) -> PRes<ExprV>
    decreases t.len() - pos, 2int,
{
    if !(0 <= pos < t.len()) {
        arbitrary()
    } else {
        match spec_parse_primary(t, pos) {
            PRes::Fail(e) => PRes::Fail(e),
            PRes::Found { v, next } => {
                if pos < next <= t.len() {
                    spec_parse_postfix_more(t, next, v)
                } else {
                    arbitrary()
                }
            },
        }
    }
}

/// The repeatable `[` index `]` tail of a postfix expression.
pub open spec fn spec_parse_postfix_more(t: Seq<TokenV>, pos: int, e: ExprV) -> PRes<ExprV>
    decreases t.len() - pos, 3int,
{
    if !(0 <= pos < t.len()) {
        arbitrary()
    } else if t[pos] == TokenV::OpenBracket {
        if pos + 1 < t.len() {
            match spec_parse_expr(t, pos + 1) {
                PRes::Fail(er) => PRes::Fail(er),
                PRes::Found { v: idx, next } => {
                    match spec_expect(t, next, TokenV::CloseBracket) {
                        PRes::Fail(er) => PRes::Fail(er),
                        PRes::Found { v: _, next: after } => {
                            if pos < after <= t.len() {
                                spec_parse_postfix_more(
                                    t,
                                    after,
                                    ExprV::ArrayAccess {
                                        array: Box::new(e),
                                        index: Box::new(idx),
                                    },
                                )
                            } else {
                                arbitrary()
                            }
                        },
                    }
                },
            }
        } else {
            arbitrary()
        }
    } else {
        PRes::Found { v: e, next: pos }
    }
}

/// A unary expression: any number of prefix `-` or `!`, then a postfix
/// expression.
pub open spec fn spec_parse_unary(t: Seq<TokenV>, pos: int) -> PRes<ExprV>
    decreases t.len() - pos, 4int,
{
    if !(0 <= pos < t.len()) {
        arbitrary()
    } else if t[pos] == TokenV::Minus {
        match spec_parse_unary(t, pos + 1) {
            PRes::Fail(e) => PRes::Fail(e),
            PRes::Found { v, next } => PRes::Found {
                v: ExprV::UnaryOp { op: UnaryOp::Negate, expr: Box::new(v) },
                next: next,
            },
        }
    } else if t[pos] == TokenV::Not {
        match spec_parse_unary(t, pos + 1) {
            PRes::Fail(e) => PRes::Fail(e),
            PRes::Found { v, next } => PRes::Found {
                v: ExprV::UnaryOp { op: UnaryOp::Not, expr: Box::new(v) },
                next: next,
            },
        }
    } else {
        spec_parse_postfix(t, pos)
    }
}

/// The binary operator of a token at one precedence tier, if any.
pub open spec fn tier_op(tier: int, tok: TokenV) -> Option<BinOp> {
    if tier == 5 && tok == TokenV::Star {
        Option::Some(BinOp::Mul)
    } else if tier == 5 && tok == TokenV::Slash {
        Option::Some(BinOp::Div)
    } else if tier == 5 && tok == TokenV::Percent {
        Option::Some(BinOp::Mod)
    } else if tier == 6 && tok == TokenV::Plus {
        Option::Some(BinOp::Add)
    } else if tier == 6 && tok == TokenV::Minus {
        Option::Some(BinOp::Sub)
    } else if tier == 7 && tok == TokenV::Dot {
        Option::Some(BinOp::Concat)
    } else if tier == 8 && tok == TokenV::Less {
        Option::Some(BinOp::Less)
    } else if tier == 8 && tok == TokenV::LessEqual {
        Option::Some(BinOp::LessEqual)
    } else if tier == 8 && tok == TokenV::Greater {
        Option::Some(BinOp::Greater)
    } else if tier == 8 && tok == TokenV::GreaterEqual {
        Option::Some(BinOp::GreaterEqual)
    } else if tier == 9 && tok == TokenV::Equal {
        Option::Some(BinOp::Equal)
    } else if tier == 9 && tok == TokenV::Identical {
        Option::Some(BinOp::Identical)
    } else if tier == 9 && tok == TokenV::NotEqual {
        Option::Some(BinOp::NotEqual)
    } else if tier == 9 && tok == TokenV::NotIdentical {
        Option::Some(BinOp::NotIdentical)
    } else if tier == 10 && tok == TokenV::And {
        Option::Some(BinOp::And)
    } else if tier == 11 && tok == TokenV::Or {
        Option::Some(BinOp::Or)
    } else {
        Option::None
    }
}

/// One left-associative binary tier: the next-tighter tier, then a fold of
/// `operand op operand` while this tier's operators continue. `tier` is 5
/// (multiplicative) through 11 (logical or); tier `k` delegates to `k - 1`.
pub open spec fn spec_parse_tier(t: Seq<TokenV>, pos: int, tier: int) -> PRes<ExprV>
    decreases t.len() - pos, 2 * tier + 1,
{
    if !(0 <= pos < t.len() && 5 <= tier <= 11) {
        arbitrary()
    } else {
        let sub = if tier == 5 {
            spec_parse_unary(t, pos)
        } else {
            spec_parse_tier(t, pos, tier - 1)
        };
        match sub {
            PRes::Fail(e) => PRes::Fail(e),
            PRes::Found { v, next } => {
                if pos < next <= t.len() {
                    spec_parse_tier_more(t, next, tier, v)
                } else {
                    arbitrary()
                }
            },
        }
    }
}

/// The fold of one binary tier: while the next token is one of this tier's
/// operators, the next-tighter tier parses the right operand and the pair
/// folds into a left-leaning `BinaryOp`.
pub open spec fn spec_parse_tier_more(t: Seq<TokenV>, pos: int, tier: int, left: ExprV) -> PRes<
    ExprV,
>
    decreases t.len() - pos, 2 * tier + 2,
{
    if !(0 <= pos < t.len() && 5 <= tier <= 11) {
        arbitrary()
    } else {
        match tier_op(tier, t[pos]) {
            Option::None => PRes::Found { v: left, next: pos },
            Option::Some(op) => {
                if pos + 1 < t.len() {
                    let sub = if tier == 5 {
                        spec_parse_unary(t, pos + 1)
                    } else {
                        spec_parse_tier(t, pos + 1, tier - 1)
                    };
                    match sub {
                        PRes::Fail(e) => PRes::Fail(e),
                        PRes::Found { v: right, next } => {
                            if pos + 1 < next <= t.len() {
                                spec_parse_tier_more(
                                    t,
                                    next,
                                    tier,
                                    ExprV::BinaryOp {
                                        left: Box::new(left),
                                        op: op,
                                        right: Box::new(right),
                                    },
                                )
                            } else {
                                arbitrary()
                            }
                        },
                    }
                } else {
                    arbitrary()
                }
            },
        }
    }
}

/// An assignment expression (right-associative): a logical-or expression,
/// and if `=` follows, a further assignment as the value. Only a variable
/// target keeps its name; an array-access target degrades to the fixed
/// sentinel name; anything else is a failure.
pub open spec fn spec_parse_assignment(t: Seq<TokenV>, pos: int) -> PRes<ExprV>
    decreases t.len() - pos, 25int,
{
    if !(0 <= pos < t.len()) {
        arbitrary()
    } else {
        match spec_parse_tier(t, pos, 11) {
            PRes::Fail(e) => PRes::Fail(e),
            PRes::Found { v: lhs, next } => {
                if t[next] == TokenV::Assign && pos < next && next + 1 < t.len() {
                    match spec_parse_assignment(t, next + 1) {
                        PRes::Fail(e) => PRes::Fail(e),
                        PRes::Found { v: value, next: n2 } => match lhs {
                            ExprV::Variable(name) => PRes::Found {
                                v: ExprV::Assign { variable: name, value: Box::new(value) },
                                next: n2,
                            },
                            ExprV::ArrayAccess { array: _, index: _ } => PRes::Found {
                                v: ExprV::Assign {
                                    variable: "__array_set"@,
                                    value: Box::new(value),
                                },
                                next: n2,
                            },
                            _ => PRes::Fail(ParseErrV::InvalidAssignmentTarget { pos: next }),
                        },
                    }
                } else if t[next] == TokenV::Assign {
                    arbitrary()
                } else {
                    PRes::Found { v: lhs, next: next }
                }
            },
        }
    }
}

/// A full expression: the assignment tier.
pub open spec fn spec_parse_expr(t: Seq<TokenV>, pos: int) -> PRes<ExprV>
    decreases t.len() - pos, 26int,
{
    if !(0 <= pos < t.len()) {
        arbitrary()
    } else {
        spec_parse_assignment(t, pos)
    }
}


/// An optional expression clause in a `for` head: absent exactly when the
/// terminator token stands there (which is not consumed).
pub open spec fn spec_opt_clause(t: Seq<TokenV>, pos: int, stop: TokenV) -> PRes<Option<ExprV>>
    decreases t.len() - pos, 29int,
{
    if !(0 <= pos < t.len()) {
        arbitrary()
    } else if t[pos] == stop {
        PRes::Found { v: Option::None, next: pos }
    } else {
        match spec_parse_expr(t, pos) {
            PRes::Fail(e) => PRes::Fail(e),
            PRes::Found { v, next } => PRes::Found { v: Option::Some(v), next: next },
        }
    }
}

/// An `echo` statement: `echo`, one expression, further comma-separated
/// expressions, and `;`.
pub open spec fn spec_parse_echo(t: Seq<TokenV>, pos: int) -> PRes<StmtV>
    decreases t.len() - pos, 30int,
{
    if !(0 <= pos < t.len()) {
        arbitrary()
    } else {
        match spec_parse_expr(t, pos + 1) {
            PRes::Fail(e) => PRes::Fail(e),
            PRes::Found { v, next } => {
                if pos + 1 < next <= t.len() {
                    spec_parse_echo_more(t, next, seq![v])
                } else {
                    arbitrary()
                }
            },
        }
    }
}

/// The comma-continued tail of an `echo` statement, ending at `;`.
pub open spec fn spec_parse_echo_more(t: Seq<TokenV>, pos: int, acc: Seq<ExprV>) -> PRes<StmtV>
    decreases t.len() - pos, 30int,
{
    if !(0 <= pos < t.len()) {
        arbitrary()
    } else if t[pos] == TokenV::Comma {
        if pos + 1 < t.len() {
            match spec_parse_expr(t, pos + 1) {
                PRes::Fail(e) => PRes::Fail(e),
                PRes::Found { v, next } => {
                    if pos + 1 < next <= t.len() {
                        spec_parse_echo_more(t, next, acc.push(v))
                    } else {
                        arbitrary()
                    }
                },
            }
        } else {
            arbitrary()
        }
    } else {
        match spec_expect(t, pos, TokenV::Semicolon) {
            PRes::Fail(e) => PRes::Fail(e),
            PRes::Found { v: _, next } => PRes::Found { v: StmtV::Echo(acc), next: next },
        }
    }
}

/// A brace-delimited block: `{`, any number of statements, `}`.
pub open spec fn spec_parse_block(t: Seq<TokenV>, pos: int) -> PRes<Seq<StmtV>>
    decreases t.len() - pos, 30int,
{
    if !(0 <= pos < t.len()) {
        arbitrary()
    } else {
        match spec_expect(t, pos, TokenV::OpenBrace) {
            PRes::Fail(e) => PRes::Fail(e),
            PRes::Found { v: _, next } => spec_parse_block_rest(t, next, Seq::empty()),
        }
    }
}

/// The statements of a block, up to and including the closing `}`.
pub open spec fn spec_parse_block_rest(t: Seq<TokenV>, pos: int, acc: Seq<StmtV>) -> PRes<
    Seq<StmtV>,
>
    decreases t.len() - pos, 32int,
{
    if !(0 <= pos < t.len()) {
        arbitrary()
    } else if t[pos] == TokenV::CloseBrace {
        PRes::Found { v: acc, next: pos + 1 }
    } else {
        match spec_parse_stmt(t, pos) {
            PRes::Fail(e) => PRes::Fail(e),
            PRes::Found { v, next } => {
                if pos < next <= t.len() {
                    spec_parse_block_rest(t, next, acc.push(v))
                } else {
                    arbitrary()
                }
            },
        }
    }
}

/// An `if` statement: condition, then-block, any number of ordered `elseif`
/// branches, and an optional terminating `else` block.
pub open spec fn spec_parse_if(t: Seq<TokenV>, pos: int) -> PRes<StmtV>
    decreases t.len() - pos, 30int,
{
    if !(0 <= pos < t.len()) {
        arbitrary()
    } else {
        match spec_expect(t, pos + 1, TokenV::OpenParen) {
            PRes::Fail(e) => PRes::Fail(e),
            PRes::Found { v: _, next: p2 } => {
                if p2 < t.len() {
                    match spec_parse_expr(t, p2) {
                        PRes::Fail(e) => PRes::Fail(e),
                        PRes::Found { v: cond, next: p3 } => {
                            if p2 < p3 <= t.len() {
                                match spec_expect(t, p3, TokenV::CloseParen) {
                                    PRes::Fail(e) => PRes::Fail(e),
                                    PRes::Found { v: _, next: p4 } => {
                                        if pos < p4 <= t.len() {
                                            match spec_parse_block(t, p4) {
                                                PRes::Fail(e) => PRes::Fail(e),
                                                PRes::Found { v: then, next: p5 } => {
                                                    if pos < p5 <= t.len() {
                                                        spec_parse_if_tail(
                                                            t,
                                                            p5,
                                                            cond,
                                                            then,
                                                            Seq::empty(),
                                                        )
                                                    } else {
                                                        arbitrary()
                                                    }
                                                },
                                            }
                                        } else {
                                            arbitrary()
                                        }
                                    },
                                }
                            } else {
                                arbitrary()
                            }
                        },
                    }
                } else {
                    arbitrary()
                }
            },
        }
    }
}

/// The `elseif` chain and optional `else` block after an `if`'s then-block.
pub open spec fn spec_parse_if_tail(
    t: Seq<TokenV>,
    pos: int,
    cond: ExprV,
    then: Seq<StmtV>,
    elifs: Seq<(ExprV, Seq<StmtV>)>,
) -> PRes<StmtV>
    decreases t.len() - pos, 30int,
{
    if !(0 <= pos < t.len()) {
        arbitrary()
    } else if t[pos] == TokenV::Elseif {
        match spec_expect(t, pos + 1, TokenV::OpenParen) {
            PRes::Fail(e) => PRes::Fail(e),
            PRes::Found { v: _, next: p2 } => {
                if p2 < t.len() {
                    match spec_parse_expr(t, p2) {
                        PRes::Fail(e) => PRes::Fail(e),
                        PRes::Found { v: c2, next: p3 } => {
                            if p2 < p3 <= t.len() {
                                match spec_expect(t, p3, TokenV::CloseParen) {
                                    PRes::Fail(e) => PRes::Fail(e),
                                    PRes::Found { v: _, next: p4 } => {
                                        if pos < p4 <= t.len() {
                                            match spec_parse_block(t, p4) {
                                                PRes::Fail(e) => PRes::Fail(e),
                                                PRes::Found { v: b2, next: p5 } => {
                                                    if pos < p5 <= t.len() {
                                                        spec_parse_if_tail(
                                                            t,
                                                            p5,
                                                            cond,
                                                            then,
                                                            elifs.push((c2, b2)),
                                                        )
                                                    } else {
                                                        arbitrary()
                                                    }
                                                },
                                            }
                                        } else {
                                            arbitrary()
                                        }
                                    },
                                }
                            } else {
                                arbitrary()
                            }
                        },
                    }
                } else {
                    arbitrary()
                }
            },
        }
    } else if t[pos] == TokenV::Else {
        match spec_parse_block(t, pos + 1) {
            PRes::Fail(e) => PRes::Fail(e),
            PRes::Found { v: eb, next: p2 } => PRes::Found {
                v: StmtV::If {
                    condition: cond,
                    then_block: then,
                    elseif_blocks: elifs,
                    else_block: Option::Some(eb),
                },
                next: p2,
            },
        }
    } else {
        PRes::Found {
            v: StmtV::If {
                condition: cond,
                then_block: then,
                elseif_blocks: elifs,
                else_block: Option::None,
            },
            next: pos,
        }
    }
}

/// A `while` statement: condition and body block.
pub open spec fn spec_parse_while(t: Seq<TokenV>, pos: int) -> PRes<StmtV>
    decreases t.len() - pos, 30int,
{
    if !(0 <= pos < t.len()) {
        arbitrary()
    } else {
        match spec_expect(t, pos + 1, TokenV::OpenParen) {
            PRes::Fail(e) => PRes::Fail(e),
            PRes::Found { v: _, next: p2 } => {
                if p2 < t.len() {
                    match spec_parse_expr(t, p2) {
                        PRes::Fail(e) => PRes::Fail(e),
                        PRes::Found { v: cond, next: p3 } => {
                            if p2 < p3 <= t.len() {
                                match spec_expect(t, p3, TokenV::CloseParen) {
                                    PRes::Fail(e) => PRes::Fail(e),
                                    PRes::Found { v: _, next: p4 } => {
                                        if pos < p4 <= t.len() {
                                            match spec_parse_block(t, p4) {
                                                PRes::Fail(e) => PRes::Fail(e),
                                                PRes::Found { v: b, next: p5 } => PRes::Found {
                                                    v: StmtV::While { condition: cond, body: b },
                                                    next: p5,
                                                },
                                            }
                                        } else {
                                            arbitrary()
                                        }
                                    },
                                }
                            } else {
                                arbitrary()
                            }
                        },
                    }
                } else {
                    arbitrary()
                }
            },
        }
    }
}

/// A `for` statement: three independently optional clauses separated by
/// semicolons, and a body block.
pub open spec fn spec_parse_for(t: Seq<TokenV>, pos: int) -> PRes<StmtV>
    decreases t.len() - pos, 30int,
{
    if !(0 <= pos < t.len()) {
        arbitrary()
    } else {
        match spec_expect(t, pos + 1, TokenV::OpenParen) {
            PRes::Fail(e) => PRes::Fail(e),
            PRes::Found { v: _, next: p2 } => {
                if p2 < t.len() {
                    match spec_opt_clause(t, p2, TokenV::Semicolon) {
                        PRes::Fail(e) => PRes::Fail(e),
                        PRes::Found { v: init, next: p3 } => {
                            if p2 <= p3 <= t.len() {
                                match spec_expect(t, p3, TokenV::Semicolon) {
                                    PRes::Fail(e) => PRes::Fail(e),
                                    PRes::Found { v: _, next: p4 } => {
                                        if pos < p4 < t.len() {
                                            match spec_opt_clause(t, p4, TokenV::Semicolon) {
                                                PRes::Fail(e) => PRes::Fail(e),
                                                PRes::Found { v: cond, next: p5 } => {
                                                    if p4 <= p5 <= t.len() {
                                                        match spec_expect(
                                                            t,
                                                            p5,
                                                            TokenV::Semicolon,
                                                        ) {
                                                            PRes::Fail(e) => PRes::Fail(e),
                                                            PRes::Found { v: _, next: p6 } => {
                                                                if pos < p6 < t.len() {
                                                                    spec_parse_for_tail(
                                                                        t,
                                                                        p6,
                                                                        init,
                                                                        cond,
                                                                    )
                                                                } else {
                                                                    arbitrary()
                                                                }
                                                            },
                                                        }
                                                    } else {
                                                        arbitrary()
                                                    }
                                                },
                                            }
                                        } else {
                                            arbitrary()
                                        }
                                    },
                                }
                            } else {
                                arbitrary()
                            }
                        },
                    }
                } else {
                    arbitrary()
                }
            },
        }
    }
}

/// The update clause, closing `)` and body of a `for` statement.
pub open spec fn spec_parse_for_tail(
    t: Seq<TokenV>,
    pos: int,
    init: Option<ExprV>,
    cond: Option<ExprV>,
) -> PRes<StmtV>
    decreases t.len() - pos, 30int,
{
    if !(0 <= pos < t.len()) {
        arbitrary()
    } else {
        match spec_opt_clause(t, pos, TokenV::CloseParen) {
            PRes::Fail(e) => PRes::Fail(e),
            PRes::Found { v: upd, next: p1 } => {
                if pos <= p1 <= t.len() {
                    match spec_expect(t, p1, TokenV::CloseParen) {
                        PRes::Fail(e) => PRes::Fail(e),
                        PRes::Found { v: _, next: p2 } => {
                            if pos < p2 <= t.len() {
                                match spec_parse_block(t, p2) {
                                    PRes::Fail(e) => PRes::Fail(e),
                                    PRes::Found { v: b, next: p3 } => PRes::Found {
                                        v: StmtV::For {
                                            init: init,
                                            condition: cond,
                                            update: upd,
                                            body: b,
                                        },
                                        next: p3,
                                    },
                                }
                            } else {
                                arbitrary()
                            }
                        },
                    }
                } else {
                    arbitrary()
                }
            },
        }
    }
}

/// A function definition: name, parenthesized variable-only parameter list,
/// and body block.
pub open spec fn spec_parse_function_def(t: Seq<TokenV>, pos: int) -> PRes<StmtV>
    decreases t.len() - pos, 30int,
{
    if !(0 <= pos < t.len()) {
        arbitrary()
    } else if pos + 1 < t.len() {
        match t[pos + 1] {
            TokenV::Identifier(name) => {
                match spec_expect(t, pos + 2, TokenV::OpenParen) {
                    PRes::Fail(e) => PRes::Fail(e),
                    PRes::Found { v: _, next: p3 } => {
                        if p3 < t.len() {
                            if t[p3] == TokenV::CloseParen {
                                if p3 + 1 <= t.len() {
                                    match spec_parse_block(t, p3 + 1) {
                                        PRes::Fail(e) => PRes::Fail(e),
                                        PRes::Found { v: b, next: p4 } => PRes::Found {
                                            v: StmtV::FunctionDef {
                                                name: name,
                                                params: Seq::empty(),
                                                body: b,
                                            },
                                            next: p4,
                                        },
                                    }
                                } else {
                                    arbitrary()
                                }
                            } else {
                                spec_parse_params(t, p3, name, Seq::empty())
                            }
                        } else {
                            arbitrary()
                        }
                    },
                }
            },
            _ => PRes::Fail(ParseErrV::ExpectedFunctionName { found: t[pos + 1], pos: pos + 1 }),
        }
    } else {
        arbitrary()
    }
}

/// The non-empty parameter list of a function definition: each parameter a
/// variable token, separated by commas, then `)` and the body block.
pub open spec fn spec_parse_params(
    t: Seq<TokenV>,
    pos: int,
    name: Seq<char>,
    acc: Seq<Seq<char>>,
) -> PRes<StmtV>
    decreases t.len() - pos, 29int,
{
    if !(0 <= pos < t.len()) {
        arbitrary()
    } else {
        match t[pos] {
            TokenV::Variable(p) => {
                if t[pos + 1] == TokenV::Comma && pos + 2 < t.len() {
                    spec_parse_params(t, pos + 2, name, acc.push(p))
                } else if t[pos + 1] == TokenV::Comma {
                    arbitrary()
                } else {
                    match spec_expect(t, pos + 1, TokenV::CloseParen) {
                        PRes::Fail(e) => PRes::Fail(e),
                        PRes::Found { v: _, next: p2 } => {
                            if pos < p2 <= t.len() {
                                match spec_parse_block(t, p2) {
                                    PRes::Fail(e) => PRes::Fail(e),
                                    PRes::Found { v: b, next: p3 } => PRes::Found {
                                        v: StmtV::FunctionDef {
                                            name: name,
                                            params: acc.push(p),
                                            body: b,
                                        },
                                        next: p3,
                                    },
                                }
                            } else {
                                arbitrary()
                            }
                        },
                    }
                }
            },
            _ => PRes::Fail(ParseErrV::ExpectedParameter { found: t[pos], pos: pos }),
        }
    }
}

/// A `return` statement, with an optional value expression.
pub open spec fn spec_parse_return(t: Seq<TokenV>, pos: int) -> PRes<StmtV>
    decreases t.len() - pos, 30int,
{
    if !(0 <= pos < t.len()) {
        arbitrary()
    } else if t[pos + 1] == TokenV::Semicolon {
        PRes::Found { v: StmtV::Return(Option::None), next: pos + 2 }
    } else if pos + 1 < t.len() {
        match spec_parse_expr(t, pos + 1) {
            PRes::Fail(e) => PRes::Fail(e),
            PRes::Found { v, next } => {
                match spec_expect(t, next, TokenV::Semicolon) {
                    PRes::Fail(e) => PRes::Fail(e),
                    PRes::Found { v: _, next: p2 } => PRes::Found {
                        v: StmtV::Return(Option::Some(v)),
                        next: p2,
                    },
                }
            },
        }
    } else {
        arbitrary()
    }
}

/// One statement, dispatched on the current token; anything that is not a
/// statement keyword is an expression statement ending in `;`.
pub open spec fn spec_parse_stmt(t: Seq<TokenV>, pos: int) -> PRes<StmtV>
    decreases t.len() - pos, 31int,
{
    if !(0 <= pos < t.len()) {
        arbitrary()
    } else {
        match t[pos] {
            TokenV::Echo => spec_parse_echo(t, pos),
            TokenV::If => spec_parse_if(t, pos),
            TokenV::While => spec_parse_while(t, pos),
            TokenV::For => spec_parse_for(t, pos),
            TokenV::Function => spec_parse_function_def(t, pos),
            TokenV::Return => spec_parse_return(t, pos),
            _ => match spec_parse_expr(t, pos) {
                PRes::Fail(e) => PRes::Fail(e),
                PRes::Found { v, next } => {
                    match spec_expect(t, next, TokenV::Semicolon) {
                        PRes::Fail(e) => PRes::Fail(e),
                        PRes::Found { v: _, next: p2 } => PRes::Found {
                            v: StmtV::ExprStmt(v),
                            next: p2,
                        },
                    }
                },
            },
        }
    }
}

/// The top-level statement sequence, ending at (and not consuming) `Eof`.
pub open spec fn spec_parse_program_rest(t: Seq<TokenV>, pos: int, acc: Seq<StmtV>) -> PRes<
    Seq<StmtV>,
>
    decreases t.len() - pos, 33int,
{
    if !(0 <= pos < t.len()) {
        arbitrary()
    } else if t[pos] == TokenV::Eof {
        PRes::Found { v: acc, next: pos }
    } else {
        match spec_parse_stmt(t, pos) {
            PRes::Fail(e) => PRes::Fail(e),
            PRes::Found { v, next } => {
                if pos < next <= t.len() {
                    spec_parse_program_rest(t, next, acc.push(v))
                } else {
                    arbitrary()
                }
            },
        }
    }
}

/// The whole program: the leading `OpenTag` token, then statements to `Eof`.
pub open spec fn spec_parse(t: Seq<TokenV>) -> PRes<Seq<StmtV>> {
    match spec_expect(t, 0, TokenV::OpenTag) {
        PRes::Fail(e) => PRes::Fail(e),
        PRes::Found { v: _, next } => spec_parse_program_rest(t, next, Seq::empty()),
    }
}


/// The parser: an owned token sequence and a forward-only cursor.
pub struct Parser {
    pub tokens: Vec<Spanned>,
    pub pos: usize,
}

impl Parser {
    /// The mathematical token sequence the parser reads: the token of each
    /// spanned element, positions stripped.
    pub open spec fn toks(&self) -> Seq<TokenV> {
        let ts = self.tokens@;
        Seq::new(ts.len(), |i: int| ts[i]@.token)
    }

    /// The cursor.
    pub open spec fn at_pos(&self) -> int {
        self.pos as int
    }

    /// Well-formedness: the sequence is non-empty, its last token is `Eof`,
    /// and the cursor stands on a token.
    pub open spec fn wf(&self) -> bool {
        &&& self.tokens@.len() >= 1
        &&& self.toks().last() == TokenV::Eof
        &&& self.pos < self.tokens@.len()
    }

    /// Builds a parser over a token sequence, which must end with the `Eof`
    /// token the lexer always emits; the cursor starts at the first token.
    pub fn new(tokens: Vec<Spanned>) -> (r: Parser)
        requires
            tokens@.len() >= 1,
            tokens@.last().token@ == TokenV::Eof,
        ensures
            r.toks() == Seq::new(tokens@.len(), |i: int| tokens@[i]@.token),
            r.at_pos() == 0,
            r.wf(),
    {
        Parser { tokens: tokens, pos: 0 }
    }

    /// The token under the cursor.
    fn peek(&self) -> (r: &Token)
        requires
            self.wf(),
        ensures
            r@ == self.toks()[self.at_pos()],
    {
        &self.tokens[self.pos].token
    }

    /// An owned copy of the token under the cursor.
    fn peek_clone(&self) -> (r: Token)
        requires
            self.wf(),
        ensures
            r@ == self.toks()[self.at_pos()],
    {
        clone_token(self.peek())
    }

    /// Whether the token under the cursor equals `token`.
    fn at_tok(&self, token: &Token) -> (r: bool)
        requires
            self.wf(),
        ensures
            r == (self.toks()[self.at_pos()] == token@),
    {
        token_eq(self.peek(), token)
    }

    /// Moves the cursor one token forward.
    fn advance(&mut self)
        requires
            old(self).wf(),
        ensures
            final(self).tokens@ == old(self).tokens@,
            final(self).pos == old(self).pos + 1,
    {
        // Reading the length here establishes that it fits in usize, so the
        // increment below cannot overflow.
        let n = self.tokens.len();
        self.pos = self.pos + 1;
    }

    /// Demands one specific token, as [`spec_expect`] states: consumed on a
    /// match, reported with its index on a mismatch (the cursor then stays).
    fn expect(&mut self, expected: &Token) -> (r: Result<(), ParseError>)
        requires
            old(self).wf(),
        ensures
            final(self).tokens@ == old(self).tokens@,
            old(self).pos <= final(self).pos <= old(self).tokens@.len(),
            match r {
                Result::Ok(u) => {
                    &&& spec_expect(old(self).toks(), old(self).at_pos(), expected@)
                        == (PRes::Found { v: (), next: final(self).at_pos() })
                    &&& final(self).pos == old(self).pos + 1
                    &&& (expected@ != TokenV::Eof ==> final(self).wf())
                },
                Result::Err(e) => {
                    &&& spec_expect(old(self).toks(), old(self).at_pos(), expected@)
                        == PRes::<()>::Fail(e@)
                    &&& *final(self) == *old(self)
                },
            },
    {
        if token_eq(self.peek(), expected) {
            self.advance();
            Result::Ok(())
        } else {
            Result::Err(ParseError::Expected {
                expected: clone_token(expected),
                found: self.peek_clone(),
                pos: self.pos,
            })
        }
    }

    /// A full expression: the assignment tier.
    pub fn parse_expr(&mut self) -> (r: Result<Expr, ParseError>)
        requires
            old(self).wf(),
        ensures
            final(self).tokens@ == old(self).tokens@,
            old(self).pos <= final(self).pos <= old(self).tokens@.len(),
            match r {
                Result::Ok(e) => {
                    &&& spec_parse_expr(old(self).toks(), old(self).at_pos()) == (PRes::Found {
                        v: view_expr(e),
                        next: final(self).at_pos(),
                    })
                    &&& final(self).wf()
                    &&& old(self).pos < final(self).pos
                },
                Result::Err(er) => spec_parse_expr(old(self).toks(), old(self).at_pos())
                    == PRes::<ExprV>::Fail(er@),
            },
        decreases self.tokens@.len() - self.pos, 26int,
    {
        self.parse_assignment()
    }

    /// An assignment expression, right-associative, as
    /// [`spec_parse_assignment`] states.
    fn parse_assignment(&mut self) -> (r: Result<Expr, ParseError>)
        requires
            old(self).wf(),
        ensures
            final(self).tokens@ == old(self).tokens@,
            old(self).pos <= final(self).pos <= old(self).tokens@.len(),
            match r {
                Result::Ok(e) => {
                    &&& spec_parse_assignment(old(self).toks(), old(self).at_pos())
                        == (PRes::Found { v: view_expr(e), next: final(self).at_pos() })
                    &&& final(self).wf()
                    &&& old(self).pos < final(self).pos
                },
                Result::Err(er) => spec_parse_assignment(old(self).toks(), old(self).at_pos())
                    == PRes::<ExprV>::Fail(er@),
            },
        decreases self.tokens@.len() - self.pos, 25int,
    {
        let lhs = match self.parse_tier(11) {
            Result::Ok(e) => e,
            Result::Err(er) => {
                return Result::Err(er);
            },
        };
        if self.at_tok(&Token::Assign) {
            let eqpos = self.pos;
            self.advance();
            proof {
                assert(self.wf());
            }
            let value = match self.parse_assignment() {
                Result::Ok(e) => e,
                Result::Err(er) => {
                    return Result::Err(er);
                },
            };
            match lhs {
                Expr::Variable(name) => Result::Ok(
                    Expr::Assign { variable: name, value: Box::new(value) },
                ),
                Expr::ArrayAccess { array: _, index: _ } => Result::Ok(
                    Expr::Assign {
                        variable: String::from_str("__array_set"),
                        value: Box::new(value),
                    },
                ),
                _ => Result::Err(ParseError::InvalidAssignmentTarget { pos: eqpos }),
            }
        } else {
            Result::Ok(lhs)
        }
    }

    /// The binary operator under the cursor at one precedence tier, if any.
    fn peek_tier_op(&self, tier: u8) -> (r: Option<BinOp>)
        requires
            self.wf(),
        ensures
            r == tier_op(tier as int, self.toks()[self.at_pos()]),
    {
        match (tier, self.peek()) {
            (5, Token::Star) => Option::Some(BinOp::Mul),
            (5, Token::Slash) => Option::Some(BinOp::Div),
            (5, Token::Percent) => Option::Some(BinOp::Mod),
            (6, Token::Plus) => Option::Some(BinOp::Add),
            (6, Token::Minus) => Option::Some(BinOp::Sub),
            (7, Token::Dot) => Option::Some(BinOp::Concat),
            (8, Token::Less) => Option::Some(BinOp::Less),
            (8, Token::LessEqual) => Option::Some(BinOp::LessEqual),
            (8, Token::Greater) => Option::Some(BinOp::Greater),
            (8, Token::GreaterEqual) => Option::Some(BinOp::GreaterEqual),
            (9, Token::Equal) => Option::Some(BinOp::Equal),
            (9, Token::Identical) => Option::Some(BinOp::Identical),
            (9, Token::NotEqual) => Option::Some(BinOp::NotEqual),
            (9, Token::NotIdentical) => Option::Some(BinOp::NotIdentical),
            (10, Token::And) => Option::Some(BinOp::And),
            (11, Token::Or) => Option::Some(BinOp::Or),
            _ => Option::None,
        }
    }

    /// One left-associative binary tier (5 multiplicative through 11 logical
    /// or): the next-tighter tier, then a left fold over this tier's
    /// operators, as [`spec_parse_tier`] states.
    #[verifier::loop_isolation(false)]
    fn parse_tier(&mut self, tier: u8) -> (r: Result<Expr, ParseError>)
        requires
            old(self).wf(),
            5 <= tier <= 11,
        ensures
            final(self).tokens@ == old(self).tokens@,
            old(self).pos <= final(self).pos <= old(self).tokens@.len(),
            match r {
                Result::Ok(e) => {
                    &&& spec_parse_tier(old(self).toks(), old(self).at_pos(), tier as int)
                        == (PRes::Found { v: view_expr(e), next: final(self).at_pos() })
                    &&& final(self).wf()
                    &&& old(self).pos < final(self).pos
                },
                Result::Err(er) => spec_parse_tier(
                    old(self).toks(),
                    old(self).at_pos(),
                    tier as int,
                ) == PRes::<ExprV>::Fail(er@),
            },
        decreases self.tokens@.len() - self.pos, 2 * tier + 1,
    {
        let ghost t = self.toks();
        let ghost p0 = self.at_pos();
        let sub = if tier == 5 {
            self.parse_unary()
        } else {
            self.parse_tier(tier - 1)
        };
        let mut left = match sub {
            Result::Ok(e) => e,
            Result::Err(er) => {
                return Result::Err(er);
            },
        };
        loop
            invariant
                self.wf(),
                self.toks() == t,
                self.tokens@ == old(self).tokens@,
                5 <= tier <= 11,
                p0 < self.at_pos() <= t.len(),
                match spec_parse_tier_more(t, self.at_pos(), tier as int, view_expr(left)) {
                    PRes::Found { v, next } => spec_parse_tier(t, p0, tier as int)
                        == (PRes::Found { v: v, next: next }),
                    PRes::Fail(e) => spec_parse_tier(t, p0, tier as int) == PRes::<ExprV>::Fail(
                        e,
                    ),
                },
            decreases t.len() - self.at_pos(), 28int,
        {
            let op = match self.peek_tier_op(tier) {
                Option::Some(op) => op,
                Option::None => {
                    break ;
                },
            };
            self.advance();
            proof {
                assert(self.wf());
            }
            let sub2 = if tier == 5 {
                self.parse_unary()
            } else {
                self.parse_tier(tier - 1)
            };
            let right = match sub2 {
                Result::Ok(e) => e,
                Result::Err(er) => {
                    return Result::Err(er);
                },
            };
            left = Expr::BinaryOp { left: Box::new(left), op: op, right: Box::new(right) };
        }
        Result::Ok(left)
    }

    /// A unary expression: prefix `-` and `!` recurse, anything else is a
    /// postfix expression, as [`spec_parse_unary`] states.
    fn parse_unary(&mut self) -> (r: Result<Expr, ParseError>)
        requires
            old(self).wf(),
        ensures
            final(self).tokens@ == old(self).tokens@,
            old(self).pos <= final(self).pos <= old(self).tokens@.len(),
            match r {
                Result::Ok(e) => {
                    &&& spec_parse_unary(old(self).toks(), old(self).at_pos()) == (PRes::Found {
                        v: view_expr(e),
                        next: final(self).at_pos(),
                    })
                    &&& final(self).wf()
                    &&& old(self).pos < final(self).pos
                },
                Result::Err(er) => spec_parse_unary(old(self).toks(), old(self).at_pos())
                    == PRes::<ExprV>::Fail(er@),
            },
        decreases self.tokens@.len() - self.pos, 4int,
    {
        if self.at_tok(&Token::Minus) {
            self.advance();
            proof {
                assert(self.wf());
            }
            match self.parse_unary() {
                Result::Ok(e) => Result::Ok(
                    Expr::UnaryOp { op: UnaryOp::Negate, expr: Box::new(e) },
                ),
                Result::Err(er) => Result::Err(er),
            }
        } else if self.at_tok(&Token::Not) {
            self.advance();
            proof {
                assert(self.wf());
            }
            match self.parse_unary() {
                Result::Ok(e) => Result::Ok(Expr::UnaryOp { op: UnaryOp::Not, expr: Box::new(e) }),
                Result::Err(er) => Result::Err(er),
            }
        } else {
            self.parse_postfix()
        }
    }

    /// A postfix expression: a primary and any number of `[` index `]`
    /// accesses, as [`spec_parse_postfix`] states.
    #[verifier::loop_isolation(false)]
    fn parse_postfix(&mut self) -> (r: Result<Expr, ParseError>)
        requires
            old(self).wf(),
        ensures
            final(self).tokens@ == old(self).tokens@,
            old(self).pos <= final(self).pos <= old(self).tokens@.len(),
            match r {
                Result::Ok(e) => {
                    &&& spec_parse_postfix(old(self).toks(), old(self).at_pos()) == (PRes::Found {
                        v: view_expr(e),
                        next: final(self).at_pos(),
                    })
                    &&& final(self).wf()
                    &&& old(self).pos < final(self).pos
                },
                Result::Err(er) => spec_parse_postfix(old(self).toks(), old(self).at_pos())
                    == PRes::<ExprV>::Fail(er@),
            },
        decreases self.tokens@.len() - self.pos, 2int,
    {
        let ghost t = self.toks();
        let ghost p0 = self.at_pos();
        let mut e = match self.parse_primary() {
            Result::Ok(e) => e,
            Result::Err(er) => {
                return Result::Err(er);
            },
        };
        loop
            invariant
                self.wf(),
                self.toks() == t,
                self.tokens@ == old(self).tokens@,
                p0 < self.at_pos() <= t.len(),
                match spec_parse_postfix_more(t, self.at_pos(), view_expr(e)) {
                    PRes::Found { v, next } => spec_parse_postfix(t, p0) == (PRes::Found {
                        v: v,
                        next: next,
                    }),
                    PRes::Fail(er) => spec_parse_postfix(t, p0) == PRes::<ExprV>::Fail(er),
                },
            decreases t.len() - self.at_pos(), 28int,
        {
            if self.at_tok(&Token::OpenBracket) {
                self.advance();
                proof {
                    assert(self.wf());
                }
                let idx = match self.parse_expr() {
                    Result::Ok(i) => i,
                    Result::Err(er) => {
                        return Result::Err(er);
                    },
                };
                match self.expect(&Token::CloseBracket) {
                    Result::Ok(u) => {},
                    Result::Err(er) => {
                        return Result::Err(er);
                    },
                }
                e = Expr::ArrayAccess { array: Box::new(e), index: Box::new(idx) };
            } else {
                break ;
            }
        }
        Result::Ok(e)
    }

    /// A primary expression, as [`spec_parse_primary`] states: a literal, a
    /// variable, a parenthesized expression, a function call, or an array
    /// literal.
    #[verifier::rlimit(100)]
    #[verifier::loop_isolation(false)]
    fn parse_primary(&mut self) -> (r: Result<Expr, ParseError>)
        requires
            old(self).wf(),
        ensures
            final(self).tokens@ == old(self).tokens@,
            old(self).pos <= final(self).pos <= old(self).tokens@.len(),
            match r {
                Result::Ok(e) => {
                    &&& spec_parse_primary(old(self).toks(), old(self).at_pos()) == (PRes::Found {
                        v: view_expr(e),
                        next: final(self).at_pos(),
                    })
                    &&& final(self).wf()
                    &&& old(self).pos < final(self).pos
                },
                Result::Err(er) => spec_parse_primary(old(self).toks(), old(self).at_pos())
                    == PRes::<ExprV>::Fail(er@),
            },
        decreases self.tokens@.len() - self.pos, 1int,
    {
        let ghost t = self.toks();
        let ghost p0 = self.at_pos();
        match self.peek_clone() {
            Token::Integer(n) => {
                self.advance();
                proof {
                    assert(self.wf());
                }
                Result::Ok(Expr::Integer(n))
            },
            Token::Float(s) => {
                self.advance();
                proof {
                    assert(self.wf());
                }
                Result::Ok(Expr::Float(s))
            },
            Token::StringLiteral(s) => {
                self.advance();
                proof {
                    assert(self.wf());
                }
                Result::Ok(Expr::String(s))
            },
            Token::True => {
                self.advance();
                proof {
                    assert(self.wf());
                }
                Result::Ok(Expr::Bool(true))
            },
            Token::False => {
                self.advance();
                proof {
                    assert(self.wf());
                }
                Result::Ok(Expr::Bool(false))
            },
            Token::Null => {
                self.advance();
                proof {
                    assert(self.wf());
                }
                Result::Ok(Expr::Null)
            },
            Token::Variable(name) => {
                self.advance();
                proof {
                    assert(self.wf());
                }
                Result::Ok(Expr::Variable(name))
            },
            Token::Identifier(name) => {
                let idpos = self.pos;
                self.advance();
                proof {
                    assert(self.wf());
                }
                self.parse_primary_ident(name, idpos)
            },
            Token::OpenParen => {
                let ppos = self.pos;
                self.advance();
                proof {
                    assert(self.wf());
                }
                self.parse_primary_paren(ppos)
            },
            Token::OpenBracket => {
                let bpos = self.pos;
                self.advance();
                proof {
                    assert(self.wf());
                }
                self.parse_array_literal(bpos)
            },
            other => {
                Result::Err(ParseError::UnexpectedToken { found: other, pos: self.pos })
            },
        }
    }

    /// The comma-separated remaining arguments of a function call whose
    /// first arguments are already in `args`, ending at `)`, as
    /// [`spec_parse_args`] states.
    #[verifier::loop_isolation(false)]
    fn parse_call_args(&mut self, name: String, args: Vec<Expr>) -> (r: Result<Expr, ParseError>)
        requires
            old(self).wf(),
        ensures
            final(self).tokens@ == old(self).tokens@,
            old(self).pos <= final(self).pos <= old(self).tokens@.len(),
            match r {
                Result::Ok(e) => {
                    &&& spec_parse_args(
                        old(self).toks(),
                        old(self).at_pos(),
                        name@,
                        view_exprs(args@),
                    ) == (PRes::Found { v: view_expr(e), next: final(self).at_pos() })
                    &&& final(self).wf()
                },
                Result::Err(er) => spec_parse_args(
                    old(self).toks(),
                    old(self).at_pos(),
                    name@,
                    view_exprs(args@),
                ) == PRes::<ExprV>::Fail(er@),
            },
        decreases self.tokens@.len() - self.pos, 28int,
    {
        let ghost t = self.toks();
        let ghost p0 = self.at_pos();
        let mut args = args;
        let ghost args0 = args@;
        loop
            invariant
                self.wf(),
                self.tokens@ == old(self).tokens@,
                p0 <= self.at_pos() <= t.len(),
                match spec_parse_args(t, self.at_pos(), name@, view_exprs(args@)) {
                    PRes::Found { v, next } => spec_parse_args(t, p0, name@, view_exprs(args0))
                        == (PRes::Found { v: v, next: next }),
                    PRes::Fail(e) => spec_parse_args(t, p0, name@, view_exprs(args0)) == PRes::<
                        ExprV,
                    >::Fail(e),
                },
            decreases t.len() - self.at_pos(), 28int,
        {
            if self.at_tok(&Token::Comma) {
                self.advance();
                proof {
                    assert(self.wf());
                }
                let a = match self.parse_expr() {
                    Result::Ok(e) => e,
                    Result::Err(er) => {
                        return Result::Err(er);
                    },
                };
                let ghost args_pre = args@;
                args.push(a);
                proof {
                    lemma_view_exprs_push(args_pre, args@.last());
                    assert(args@ =~= args_pre.push(args@.last()));
                }
            } else {
                match self.expect(&Token::CloseParen) {
                    Result::Ok(u) => {},
                    Result::Err(er) => {
                        return Result::Err(er);
                    },
                }
                return Result::Ok(Expr::FunctionCall { name: name, args: args });
            }
        }
    }

    /// The entries of a non-empty array literal, from the first entry to
    /// the closing `]`, as [`spec_parse_entries`] states.
    #[verifier::rlimit(100)]
    #[verifier::loop_isolation(false)]
    fn parse_array_entries(&mut self) -> (r: Result<Expr, ParseError>)
        requires
            old(self).wf(),
        ensures
            final(self).tokens@ == old(self).tokens@,
            old(self).pos <= final(self).pos <= old(self).tokens@.len(),
            match r {
                Result::Ok(e) => {
                    &&& spec_parse_entries(old(self).toks(), old(self).at_pos(), Seq::empty())
                        == (PRes::Found { v: view_expr(e), next: final(self).at_pos() })
                    &&& final(self).wf()
                },
                Result::Err(er) => spec_parse_entries(
                    old(self).toks(),
                    old(self).at_pos(),
                    Seq::empty(),
                ) == PRes::<ExprV>::Fail(er@),
            },
        decreases self.tokens@.len() - self.pos, 27int,
    {
        let ghost t = self.toks();
        let ghost p0 = self.at_pos();
        let mut entries: Vec<ArrayEntry> = Vec::new();
        loop
            invariant
                self.wf(),
                self.tokens@ == old(self).tokens@,
                p0 <= self.at_pos() <= t.len(),
                match spec_parse_entries(t, self.at_pos(), view_entries(entries@)) {
                    PRes::Found { v, next } => spec_parse_entries(t, p0, Seq::empty())
                        == (PRes::Found { v: v, next: next }),
                    PRes::Fail(e) => spec_parse_entries(t, p0, Seq::empty()) == PRes::<
                        ExprV,
                    >::Fail(e),
                },
            decreases t.len() - self.at_pos(), 28int,
        {
            let first = match self.parse_expr() {
                Result::Ok(e) => e,
                Result::Err(er) => {
                    return Result::Err(er);
                },
            };
            let entry: ArrayEntry;
            if self.at_tok(&Token::Arrow) {
                self.advance();
                proof {
                    assert(self.wf());
                }
                let value = match self.parse_expr() {
                    Result::Ok(e) => e,
                    Result::Err(er) => {
                        return Result::Err(er);
                    },
                };
                entry = ArrayEntry { key: Option::Some(first), value: value };
            } else {
                entry = ArrayEntry { key: Option::None, value: first };
            }
            let ghost entries_pre = entries@;
            entries.push(entry);
            proof {
                lemma_view_entries_push(entries_pre, entries@.last());
                assert(entries@ =~= entries_pre.push(entries@.last()));
            }
            if self.at_tok(&Token::Comma) {
                self.advance();
                proof {
                    assert(self.wf());
                }
                if self.at_tok(&Token::CloseBracket) {
                    self.advance();
                    proof {
                        assert(self.wf());
                    }
                    return Result::Ok(Expr::ArrayLiteral(entries));
                }
            } else {
                match self.expect(&Token::CloseBracket) {
                    Result::Ok(u) => {},
                    Result::Err(er) => {
                        return Result::Err(er);
                    },
                }
                return Result::Ok(Expr::ArrayLiteral(entries));
            }
        }
    }

    /// After an `Identifier` token: a call's argument list must follow, or
    /// the bare identifier is a failure, as the identifier arm of
    /// [`spec_parse_primary`] states.
    fn parse_primary_ident(&mut self, name: String, idpos: usize) -> (r: Result<Expr, ParseError>)
        requires
            old(self).wf(),
            old(self).at_pos() == idpos + 1,
            old(self).toks()[idpos as int] == TokenV::Identifier(name@),
        ensures
            final(self).tokens@ == old(self).tokens@,
            old(self).pos <= final(self).pos <= old(self).tokens@.len(),
            match r {
                Result::Ok(e) => {
                    &&& spec_parse_primary(old(self).toks(), idpos as int) == (PRes::Found {
                        v: view_expr(e),
                        next: final(self).at_pos(),
                    })
                    &&& final(self).wf()
                    &&& old(self).pos <= final(self).pos
                },
                Result::Err(er) => spec_parse_primary(old(self).toks(), idpos as int) == PRes::<
                    ExprV,
                >::Fail(er@),
            },
        decreases self.tokens@.len() - self.pos, 28int,
    {
        if self.at_tok(&Token::OpenParen) {
            self.advance();
            proof {
                assert(self.wf());
            }
            if self.at_tok(&Token::CloseParen) {
                self.advance();
                let noargs: Vec<Expr> = Vec::new();
                proof {
                    assert(self.wf());
                    assert(view_exprs(noargs@) =~= Seq::<ExprV>::empty());
                }
                Result::Ok(Expr::FunctionCall { name: name, args: noargs })
            } else {
                let first = match self.parse_expr() {
                    Result::Ok(e) => e,
                    Result::Err(er) => {
                        return Result::Err(er);
                    },
                };
                let ghost fv = view_expr(first);
                let mut args: Vec<Expr> = Vec::new();
                args.push(first);
                proof {
                    assert(args@ =~= Seq::<Expr>::empty().push(args@.last()));
                    lemma_view_exprs_push(Seq::empty(), args@.last());
                    assert(view_exprs(args@) =~= seq![fv]);
                }
                self.parse_call_args(name, args)
            }
        } else {
            Result::Err(ParseError::UnexpectedIdentifier { name: name, pos: idpos })
        }
    }

    /// After an `OpenParen` token: the inner expression and the closing
    /// `)`, as the parenthesis arm of [`spec_parse_primary`] states.
    fn parse_primary_paren(&mut self, ppos: usize) -> (r: Result<Expr, ParseError>)
        requires
            old(self).wf(),
            old(self).at_pos() == ppos + 1,
            old(self).toks()[ppos as int] == TokenV::OpenParen,
        ensures
            final(self).tokens@ == old(self).tokens@,
            old(self).pos <= final(self).pos <= old(self).tokens@.len(),
            match r {
                Result::Ok(e) => {
                    &&& spec_parse_primary(old(self).toks(), ppos as int) == (PRes::Found {
                        v: view_expr(e),
                        next: final(self).at_pos(),
                    })
                    &&& final(self).wf()
                },
                Result::Err(er) => spec_parse_primary(old(self).toks(), ppos as int) == PRes::<
                    ExprV,
                >::Fail(er@),
            },
        decreases self.tokens@.len() - self.pos, 28int,
    {
        let e = match self.parse_expr() {
            Result::Ok(e) => e,
            Result::Err(er) => {
                return Result::Err(er);
            },
        };
        match self.expect(&Token::CloseParen) {
            Result::Ok(u) => {},
            Result::Err(er) => {
                return Result::Err(er);
            },
        }
        Result::Ok(e)
    }

    /// After an `OpenBracket` token: an empty or non-empty array literal,
    /// as the bracket arm of [`spec_parse_primary`] states.
    fn parse_array_literal(&mut self, bpos: usize) -> (r: Result<Expr, ParseError>)
        requires
            old(self).wf(),
            old(self).at_pos() == bpos + 1,
            old(self).toks()[bpos as int] == TokenV::OpenBracket,
        ensures
            final(self).tokens@ == old(self).tokens@,
            old(self).pos <= final(self).pos <= old(self).tokens@.len(),
            match r {
                Result::Ok(e) => {
                    &&& spec_parse_primary(old(self).toks(), bpos as int) == (PRes::Found {
                        v: view_expr(e),
                        next: final(self).at_pos(),
                    })
                    &&& final(self).wf()
                },
                Result::Err(er) => spec_parse_primary(old(self).toks(), bpos as int) == PRes::<
                    ExprV,
                >::Fail(er@),
            },
        decreases self.tokens@.len() - self.pos, 28int,
    {
        if self.at_tok(&Token::CloseBracket) {
            self.advance();
            let noentries: Vec<ArrayEntry> = Vec::new();
            proof {
                assert(self.wf());
                assert(view_entries(noentries@) =~= Seq::<ArrayEntryV>::empty());
            }
            Result::Ok(Expr::ArrayLiteral(noentries))
        } else {
            self.parse_array_entries()
        }
    }

    /// An optional expression clause of a `for` head, absent when `stop`
    /// stands there, as [`spec_opt_clause`] states.
    fn parse_opt_clause(&mut self, stop: &Token) -> (r: Result<Option<Expr>, ParseError>)
        requires
            old(self).wf(),
        ensures
            final(self).tokens@ == old(self).tokens@,
            old(self).pos <= final(self).pos <= old(self).tokens@.len(),
            match r {
                Result::Ok(e) => {
                    &&& spec_opt_clause(old(self).toks(), old(self).at_pos(), stop@)
                        == (PRes::Found { v: view_opt_expr(e), next: final(self).at_pos() })
                    &&& final(self).wf()
                },
                Result::Err(er) => spec_opt_clause(old(self).toks(), old(self).at_pos(), stop@)
                    == PRes::<Option<ExprV>>::Fail(er@),
            },
        decreases self.tokens@.len() - self.pos, 29int,
    {
        if self.at_tok(stop) {
            Result::Ok(Option::None)
        } else {
            match self.parse_expr() {
                Result::Ok(e) => Result::Ok(Option::Some(e)),
                Result::Err(er) => Result::Err(er),
            }
        }
    }

    /// An `echo` statement, as [`spec_parse_echo`] states.
    #[verifier::loop_isolation(false)]
    fn parse_echo(&mut self) -> (r: Result<Stmt, ParseError>)
        requires
            old(self).wf(),
            old(self).toks()[old(self).at_pos()] == TokenV::Echo,
        ensures
            final(self).tokens@ == old(self).tokens@,
            old(self).pos <= final(self).pos <= old(self).tokens@.len(),
            match r {
                Result::Ok(st) => {
                    &&& spec_parse_echo(old(self).toks(), old(self).at_pos()) == (PRes::Found {
                        v: view_stmt(st),
                        next: final(self).at_pos(),
                    })
                    &&& final(self).wf()
                    &&& old(self).pos < final(self).pos
                },
                Result::Err(er) => spec_parse_echo(old(self).toks(), old(self).at_pos())
                    == PRes::<StmtV>::Fail(er@),
            },
        decreases self.tokens@.len() - self.pos, 30int,
    {
        let ghost t = self.toks();
        let ghost p0 = self.at_pos();
        self.advance();
        proof {
            assert(self.wf());
        }
        let first = match self.parse_expr() {
            Result::Ok(e) => e,
            Result::Err(er) => {
                return Result::Err(er);
            },
        };
        let ghost fv = view_expr(first);
        let mut exprs: Vec<Expr> = Vec::new();
        exprs.push(first);
        proof {
            assert(exprs@ =~= Seq::<Expr>::empty().push(exprs@.last()));
            lemma_view_exprs_push(Seq::empty(), exprs@.last());
            assert(view_exprs(exprs@) =~= seq![fv]);
        }
        loop
            invariant
                self.wf(),
                self.tokens@ == old(self).tokens@,
                p0 < self.at_pos() <= t.len(),
                match spec_parse_echo_more(t, self.at_pos(), view_exprs(exprs@)) {
                    PRes::Found { v, next } => spec_parse_echo(t, p0) == (PRes::Found {
                        v: v,
                        next: next,
                    }),
                    PRes::Fail(e) => spec_parse_echo(t, p0) == PRes::<StmtV>::Fail(e),
                },
            decreases t.len() - self.at_pos(), 28int,
        {
            if self.at_tok(&Token::Comma) {
                self.advance();
                proof {
                    assert(self.wf());
                }
                let a = match self.parse_expr() {
                    Result::Ok(e) => e,
                    Result::Err(er) => {
                        return Result::Err(er);
                    },
                };
                let ghost exprs_pre = exprs@;
                exprs.push(a);
                proof {
                    lemma_view_exprs_push(exprs_pre, exprs@.last());
                    assert(exprs@ =~= exprs_pre.push(exprs@.last()));
                }
            } else {
                match self.expect(&Token::Semicolon) {
                    Result::Ok(u) => {},
                    Result::Err(er) => {
                        return Result::Err(er);
                    },
                }
                return Result::Ok(Stmt::Echo(exprs));
            }
        }
    }

    /// An `if` statement with its `elseif` chain and optional `else`, as
    /// [`spec_parse_if`] states.
    #[verifier::rlimit(100)]
    #[verifier::loop_isolation(false)]
    fn parse_if(&mut self) -> (r: Result<Stmt, ParseError>)
        requires
            old(self).wf(),
            old(self).toks()[old(self).at_pos()] == TokenV::If,
        ensures
            final(self).tokens@ == old(self).tokens@,
            old(self).pos <= final(self).pos <= old(self).tokens@.len(),
            match r {
                Result::Ok(st) => {
                    &&& spec_parse_if(old(self).toks(), old(self).at_pos()) == (PRes::Found {
                        v: view_stmt(st),
                        next: final(self).at_pos(),
                    })
                    &&& final(self).wf()
                    &&& old(self).pos < final(self).pos
                },
                Result::Err(er) => spec_parse_if(old(self).toks(), old(self).at_pos())
                    == PRes::<StmtV>::Fail(er@),
            },
        decreases self.tokens@.len() - self.pos, 30int,
    {
        let ghost t = self.toks();
        let ghost p0 = self.at_pos();
        self.advance();
        proof {
            assert(self.wf());
        }
        match self.expect(&Token::OpenParen) {
            Result::Ok(u) => {},
            Result::Err(er) => {
                return Result::Err(er);
            },
        }
        let cond = match self.parse_expr() {
            Result::Ok(e) => e,
            Result::Err(er) => {
                return Result::Err(er);
            },
        };
        match self.expect(&Token::CloseParen) {
            Result::Ok(u) => {},
            Result::Err(er) => {
                return Result::Err(er);
            },
        }
        let then_block = match self.parse_block() {
            Result::Ok(b) => b,
            Result::Err(er) => {
                return Result::Err(er);
            },
        };
        let ghost condv = view_expr(cond);
        let ghost thenv = view_stmts(then_block@);
        let mut elifs: Vec<(Expr, Block)> = Vec::new();
        proof {
            assert(view_elseifs(elifs@) =~= Seq::<(ExprV, Seq<StmtV>)>::empty());
        }
        loop
            invariant
                self.wf(),
                self.tokens@ == old(self).tokens@,
                p0 < self.at_pos() <= t.len(),
                match spec_parse_if_tail(t, self.at_pos(), condv, thenv, view_elseifs(elifs@)) {
                    PRes::Found { v, next } => spec_parse_if(t, p0) == (PRes::Found {
                        v: v,
                        next: next,
                    }),
                    PRes::Fail(e) => spec_parse_if(t, p0) == PRes::<StmtV>::Fail(e),
                },
            decreases t.len() - self.at_pos(), 28int,
        {
            if self.at_tok(&Token::Elseif) {
                self.advance();
                proof {
                    assert(self.wf());
                }
                match self.expect(&Token::OpenParen) {
                    Result::Ok(u) => {},
                    Result::Err(er) => {
                        return Result::Err(er);
                    },
                }
                let c2 = match self.parse_expr() {
                    Result::Ok(e) => e,
                    Result::Err(er) => {
                        return Result::Err(er);
                    },
                };
                match self.expect(&Token::CloseParen) {
                    Result::Ok(u) => {},
                    Result::Err(er) => {
                        return Result::Err(er);
                    },
                }
                let b2 = match self.parse_block() {
                    Result::Ok(b) => b,
                    Result::Err(er) => {
                        return Result::Err(er);
                    },
                };
                let ghost elifs_pre = elifs@;
                elifs.push((c2, b2));
                proof {
                    lemma_view_elseifs_push(elifs_pre, elifs@.last());
                    assert(elifs@ =~= elifs_pre.push(elifs@.last()));
                }
            } else if self.at_tok(&Token::Else) {
                self.advance();
                proof {
                    assert(self.wf());
                }
                let eb = match self.parse_block() {
                    Result::Ok(b) => b,
                    Result::Err(er) => {
                        return Result::Err(er);
                    },
                };
                return Result::Ok(Stmt::If {
                    condition: cond,
                    then_block: then_block,
                    elseif_blocks: elifs,
                    else_block: Option::Some(eb),
                });
            } else {
                return Result::Ok(Stmt::If {
                    condition: cond,
                    then_block: then_block,
                    elseif_blocks: elifs,
                    else_block: Option::None,
                });
            }
        }
    }

    /// A `while` statement, as [`spec_parse_while`] states.
    fn parse_while(&mut self) -> (r: Result<Stmt, ParseError>)
        requires
            old(self).wf(),
            old(self).toks()[old(self).at_pos()] == TokenV::While,
        ensures
            final(self).tokens@ == old(self).tokens@,
            old(self).pos <= final(self).pos <= old(self).tokens@.len(),
            match r {
                Result::Ok(st) => {
                    &&& spec_parse_while(old(self).toks(), old(self).at_pos()) == (PRes::Found {
                        v: view_stmt(st),
                        next: final(self).at_pos(),
                    })
                    &&& final(self).wf()
                    &&& old(self).pos < final(self).pos
                },
                Result::Err(er) => spec_parse_while(old(self).toks(), old(self).at_pos())
                    == PRes::<StmtV>::Fail(er@),
            },
        decreases self.tokens@.len() - self.pos, 30int,
    {
        self.advance();
        proof {
            assert(self.wf());
        }
        match self.expect(&Token::OpenParen) {
            Result::Ok(u) => {},
            Result::Err(er) => {
                return Result::Err(er);
            },
        }
        let cond = match self.parse_expr() {
            Result::Ok(e) => e,
            Result::Err(er) => {
                return Result::Err(er);
            },
        };
        match self.expect(&Token::CloseParen) {
            Result::Ok(u) => {},
            Result::Err(er) => {
                return Result::Err(er);
            },
        }
        let body = match self.parse_block() {
            Result::Ok(b) => b,
            Result::Err(er) => {
                return Result::Err(er);
            },
        };
        Result::Ok(Stmt::While { condition: cond, body: body })
    }

    /// A `for` statement, as [`spec_parse_for`] states.
    #[verifier::rlimit(100)]
    fn parse_for(&mut self) -> (r: Result<Stmt, ParseError>)
        requires
            old(self).wf(),
            old(self).toks()[old(self).at_pos()] == TokenV::For,
        ensures
            final(self).tokens@ == old(self).tokens@,
            old(self).pos <= final(self).pos <= old(self).tokens@.len(),
            match r {
                Result::Ok(st) => {
                    &&& spec_parse_for(old(self).toks(), old(self).at_pos()) == (PRes::Found {
                        v: view_stmt(st),
                        next: final(self).at_pos(),
                    })
                    &&& final(self).wf()
                    &&& old(self).pos < final(self).pos
                },
                Result::Err(er) => spec_parse_for(old(self).toks(), old(self).at_pos())
                    == PRes::<StmtV>::Fail(er@),
            },
        decreases self.tokens@.len() - self.pos, 30int,
    {
        self.advance();
        proof {
            assert(self.wf());
        }
        match self.expect(&Token::OpenParen) {
            Result::Ok(u) => {},
            Result::Err(er) => {
                return Result::Err(er);
            },
        }
        let init = match self.parse_opt_clause(&Token::Semicolon) {
            Result::Ok(e) => e,
            Result::Err(er) => {
                return Result::Err(er);
            },
        };
        match self.expect(&Token::Semicolon) {
            Result::Ok(u) => {},
            Result::Err(er) => {
                return Result::Err(er);
            },
        }
        let cond = match self.parse_opt_clause(&Token::Semicolon) {
            Result::Ok(e) => e,
            Result::Err(er) => {
                return Result::Err(er);
            },
        };
        match self.expect(&Token::Semicolon) {
            Result::Ok(u) => {},
            Result::Err(er) => {
                return Result::Err(er);
            },
        }
        let update = match self.parse_opt_clause(&Token::CloseParen) {
            Result::Ok(e) => e,
            Result::Err(er) => {
                return Result::Err(er);
            },
        };
        match self.expect(&Token::CloseParen) {
            Result::Ok(u) => {},
            Result::Err(er) => {
                return Result::Err(er);
            },
        }
        let body = match self.parse_block() {
            Result::Ok(b) => b,
            Result::Err(er) => {
                return Result::Err(er);
            },
        };
        Result::Ok(Stmt::For { init: init, condition: cond, update: update, body: body })
    }

    /// A function definition, as [`spec_parse_function_def`] states.
    #[verifier::rlimit(100)]
    #[verifier::loop_isolation(false)]
    fn parse_function_def(&mut self) -> (r: Result<Stmt, ParseError>)
        requires
            old(self).wf(),
            old(self).toks()[old(self).at_pos()] == TokenV::Function,
        ensures
            final(self).tokens@ == old(self).tokens@,
            old(self).pos <= final(self).pos <= old(self).tokens@.len(),
            match r {
                Result::Ok(st) => {
                    &&& spec_parse_function_def(old(self).toks(), old(self).at_pos())
                        == (PRes::Found { v: view_stmt(st), next: final(self).at_pos() })
                    &&& final(self).wf()
                    &&& old(self).pos < final(self).pos
                },
                Result::Err(er) => spec_parse_function_def(old(self).toks(), old(self).at_pos())
                    == PRes::<StmtV>::Fail(er@),
            },
        decreases self.tokens@.len() - self.pos, 30int,
    {
        let ghost t = self.toks();
        let ghost p0 = self.at_pos();
        self.advance();
        proof {
            assert(self.wf());
        }
        let name = match self.peek_clone() {
            Token::Identifier(n) => n,
            other => {
                return Result::Err(ParseError::ExpectedFunctionName {
                    found: other,
                    pos: self.pos,
                });
            },
        };
        self.advance();
        proof {
            assert(self.wf());
        }
        match self.expect(&Token::OpenParen) {
            Result::Ok(u) => {},
            Result::Err(er) => {
                return Result::Err(er);
            },
        }
        if self.at_tok(&Token::CloseParen) {
            self.advance();
            proof {
                assert(self.wf());
            }
            let body = match self.parse_block() {
                Result::Ok(b) => b,
                Result::Err(er) => {
                    return Result::Err(er);
                },
            };
            let noparams: Vec<String> = Vec::new();
            proof {
                assert(view_params(noparams@) =~= Seq::<Seq<char>>::empty());
            }
            return Result::Ok(Stmt::FunctionDef { name: name, params: noparams, body: body });
        }
        let mut params: Vec<String> = Vec::new();
        proof {
            assert(view_params(params@) =~= Seq::<Seq<char>>::empty());
        }
        loop
            invariant
                self.wf(),
                self.tokens@ == old(self).tokens@,
                p0 < self.at_pos() <= t.len(),
                match spec_parse_params(t, self.at_pos(), name@, view_params(params@)) {
                    PRes::Found { v, next } => spec_parse_function_def(t, p0) == (PRes::Found {
                        v: v,
                        next: next,
                    }),
                    PRes::Fail(e) => spec_parse_function_def(t, p0) == PRes::<StmtV>::Fail(e),
                },
            decreases t.len() - self.at_pos(), 28int,
        {
            let p = match self.peek_clone() {
                Token::Variable(p) => p,
                other => {
                    return Result::Err(ParseError::ExpectedParameter {
                        found: other,
                        pos: self.pos,
                    });
                },
            };
            self.advance();
            proof {
                assert(self.wf());
            }
            let ghost params_pre = params@;
            params.push(p);
            proof {
                lemma_view_params_push(params_pre, params@.last());
                assert(params@ =~= params_pre.push(params@.last()));
            }
            if self.at_tok(&Token::Comma) {
                self.advance();
                proof {
                    assert(self.wf());
                }
            } else {
                match self.expect(&Token::CloseParen) {
                    Result::Ok(u) => {},
                    Result::Err(er) => {
                        return Result::Err(er);
                    },
                }
                let body = match self.parse_block() {
                    Result::Ok(b) => b,
                    Result::Err(er) => {
                        return Result::Err(er);
                    },
                };
                return Result::Ok(Stmt::FunctionDef { name: name, params: params, body: body });
            }
        }
    }

    /// A `return` statement, as [`spec_parse_return`] states.
    fn parse_return(&mut self) -> (r: Result<Stmt, ParseError>)
        requires
            old(self).wf(),
            old(self).toks()[old(self).at_pos()] == TokenV::Return,
        ensures
            final(self).tokens@ == old(self).tokens@,
            old(self).pos <= final(self).pos <= old(self).tokens@.len(),
            match r {
                Result::Ok(st) => {
                    &&& spec_parse_return(old(self).toks(), old(self).at_pos()) == (PRes::Found {
                        v: view_stmt(st),
                        next: final(self).at_pos(),
                    })
                    &&& final(self).wf()
                    &&& old(self).pos < final(self).pos
                },
                Result::Err(er) => spec_parse_return(old(self).toks(), old(self).at_pos())
                    == PRes::<StmtV>::Fail(er@),
            },
        decreases self.tokens@.len() - self.pos, 30int,
    {
        self.advance();
        proof {
            assert(self.wf());
        }
        if self.at_tok(&Token::Semicolon) {
            self.advance();
            proof {
                assert(self.wf());
            }
            return Result::Ok(Stmt::Return(Option::None));
        }
        let e = match self.parse_expr() {
            Result::Ok(e) => e,
            Result::Err(er) => {
                return Result::Err(er);
            },
        };
        match self.expect(&Token::Semicolon) {
            Result::Ok(u) => {},
            Result::Err(er) => {
                return Result::Err(er);
            },
        }
        Result::Ok(Stmt::Return(Option::Some(e)))
    }

    /// A brace-delimited block of statements, as [`spec_parse_block`]
    /// states.
    #[verifier::loop_isolation(false)]
    fn parse_block(&mut self) -> (r: Result<Block, ParseError>)
        requires
            old(self).wf(),
        ensures
            final(self).tokens@ == old(self).tokens@,
            old(self).pos <= final(self).pos <= old(self).tokens@.len(),
            match r {
                Result::Ok(b) => {
                    &&& spec_parse_block(old(self).toks(), old(self).at_pos()) == (PRes::Found {
                        v: view_stmts(b@),
                        next: final(self).at_pos(),
                    })
                    &&& final(self).wf()
                    &&& old(self).pos < final(self).pos
                },
                Result::Err(er) => spec_parse_block(old(self).toks(), old(self).at_pos())
                    == PRes::<Seq<StmtV>>::Fail(er@),
            },
        decreases self.tokens@.len() - self.pos, 30int,
    {
        let ghost t = self.toks();
        let ghost p0 = self.at_pos();
        match self.expect(&Token::OpenBrace) {
            Result::Ok(u) => {},
            Result::Err(er) => {
                return Result::Err(er);
            },
        }
        let mut stmts: Vec<Stmt> = Vec::new();
        proof {
            assert(view_stmts(stmts@) =~= Seq::<StmtV>::empty());
        }
        loop
            invariant
                self.wf(),
                self.tokens@ == old(self).tokens@,
                p0 < self.at_pos() <= t.len(),
                match spec_parse_block_rest(t, self.at_pos(), view_stmts(stmts@)) {
                    PRes::Found { v, next } => spec_parse_block(t, p0) == (PRes::Found {
                        v: v,
                        next: next,
                    }),
                    PRes::Fail(e) => spec_parse_block(t, p0) == PRes::<Seq<StmtV>>::Fail(e),
                },
            decreases t.len() - self.at_pos(), 32int,
        {
            if self.at_tok(&Token::CloseBrace) {
                self.advance();
                proof {
                    assert(self.wf());
                }
                return Result::Ok(stmts);
            }
            let st = match self.parse_stmt() {
                Result::Ok(st) => st,
                Result::Err(er) => {
                    return Result::Err(er);
                },
            };
            let ghost stmts_pre = stmts@;
            stmts.push(st);
            proof {
                lemma_view_stmts_push(stmts_pre, stmts@.last());
                assert(stmts@ =~= stmts_pre.push(stmts@.last()));
            }
        }
    }

    /// One statement, dispatched on the current token, as
    /// [`spec_parse_stmt`] states.
    fn parse_stmt(&mut self) -> (r: Result<Stmt, ParseError>)
        requires
            old(self).wf(),
        ensures
            final(self).tokens@ == old(self).tokens@,
            old(self).pos <= final(self).pos <= old(self).tokens@.len(),
            match r {
                Result::Ok(st) => {
                    &&& spec_parse_stmt(old(self).toks(), old(self).at_pos()) == (PRes::Found {
                        v: view_stmt(st),
                        next: final(self).at_pos(),
                    })
                    &&& final(self).wf()
                    &&& old(self).pos < final(self).pos
                },
                Result::Err(er) => spec_parse_stmt(old(self).toks(), old(self).at_pos())
                    == PRes::<StmtV>::Fail(er@),
            },
        decreases self.tokens@.len() - self.pos, 31int,
    {
        if self.at_tok(&Token::Echo) {
            self.parse_echo()
        } else if self.at_tok(&Token::If) {
            self.parse_if()
        } else if self.at_tok(&Token::While) {
            self.parse_while()
        } else if self.at_tok(&Token::For) {
            self.parse_for()
        } else if self.at_tok(&Token::Function) {
            self.parse_function_def()
        } else if self.at_tok(&Token::Return) {
            self.parse_return()
        } else {
            let e = match self.parse_expr() {
                Result::Ok(e) => e,
                Result::Err(er) => {
                    return Result::Err(er);
                },
            };
            match self.expect(&Token::Semicolon) {
                Result::Ok(u) => {},
                Result::Err(er) => {
                    return Result::Err(er);
                },
            }
            Result::Ok(Stmt::ExprStmt(e))
        }
    }

    /// The whole program: the leading `OpenTag`, then statements up to
    /// `Eof`, exactly the value of [`spec_parse`] on the token sequence.
    #[verifier::loop_isolation(false)]
    pub fn parse(&mut self) -> (r: Result<Block, ParseError>)
        requires
            old(self).wf(),
            old(self).pos == 0,
        ensures
            final(self).tokens@ == old(self).tokens@,
            match r {
                Result::Ok(b) => spec_parse(old(self).toks()) == (PRes::Found {
                    v: view_stmts(b@),
                    next: final(self).at_pos(),
                }),
                Result::Err(er) => spec_parse(old(self).toks()) == PRes::<Seq<StmtV>>::Fail(er@),
            },
    {
        let ghost t = self.toks();
        match self.expect(&Token::OpenTag) {
            Result::Ok(u) => {},
            Result::Err(er) => {
                return Result::Err(er);
            },
        }
        let mut stmts: Vec<Stmt> = Vec::new();
        proof {
            assert(view_stmts(stmts@) =~= Seq::<StmtV>::empty());
        }
        loop
            invariant
                self.wf(),
                self.tokens@ == old(self).tokens@,
                0 < self.at_pos() <= t.len(),
                match spec_parse_program_rest(t, self.at_pos(), view_stmts(stmts@)) {
                    PRes::Found { v, next } => spec_parse(t) == (PRes::Found { v: v, next: next }),
                    PRes::Fail(e) => spec_parse(t) == PRes::<Seq<StmtV>>::Fail(e),
                },
            decreases t.len() - self.at_pos(), 33int,
        {
            if self.at_tok(&Token::Eof) {
                return Result::Ok(stmts);
            }
            let st = match self.parse_stmt() {
                Result::Ok(st) => st,
                Result::Err(er) => {
                    return Result::Err(er);
                },
            };
            let ghost stmts_pre = stmts@;
            stmts.push(st);
            proof {
                lemma_view_stmts_push(stmts_pre, stmts@.last());
                assert(stmts@ =~= stmts_pre.push(stmts@.last()));
            }
        }
    }
}


/// A front-end failure: lexical or syntactic.
pub enum FrontEndError {
    Lex(LexError),
    Parse(ParseError),
}

/// The token sequence carried by a spanned-token sequence, positions
/// stripped.
pub open spec fn token_seq(s: Seq<SpannedV>) -> Seq<TokenV> {
    Seq::new(s.len(), |i: int| s[i].token)
}

/// The whole front end: tokenize the source text, then parse the token
/// stream, handing back either the statement sequence or the first error of
/// whichever stage failed.
#[verifier::rlimit(100)]
pub fn parse_source(source: &str) -> (r: Result<Block, FrontEndError>)
    requires
        source@.len() < usize::MAX,
    ensures
        match r {
            Result::Ok(b) => {
                &&& spec_tokenize(source@) is Ok
                &&& (spec_parse(token_seq(spec_tokenize(source@)->Ok_0)) matches PRes::Found {
                    v,
                    next,
                } && v == view_stmts(b@))
            },
            Result::Err(e) => match e {
                FrontEndError::Lex(le) => spec_tokenize(source@) == Result::<
                    Seq<SpannedV>,
                    LexErrV,
                >::Err(le@),
                FrontEndError::Parse(pe) => {
                    &&& spec_tokenize(source@) is Ok
                    &&& spec_parse(token_seq(spec_tokenize(source@)->Ok_0)) == PRes::<
                        Seq<StmtV>,
                    >::Fail(pe@)
                },
            },
        },
{
    let mut lexer = crate::lexer::Lexer::new(source);
    let tokens = match lexer.tokenize() {
        Result::Ok(v) => v,
        Result::Err(e) => {
            return Result::Err(FrontEndError::Lex(e));
        },
    };
    let ghost tksv = tokens@;
    proof {
        lemma_tokenize_ends_with_one_eof(source@);
        crate::token::lemma_view_spanneds_len(tokens@);
        assert(tokens@.last()@ == view_spanneds(tokens@)[tokens@.len() - 1]);
    }
    let mut parser = Parser::new(tokens);
    proof {
        assert(parser.toks() =~= token_seq(view_spanneds(tksv)));
    }
    match parser.parse() {
        Result::Ok(b) => Result::Ok(b),
        Result::Err(e) => Result::Err(FrontEndError::Parse(e)),
    }
}

} // verus!
