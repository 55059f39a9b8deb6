use php_front::ast::{BinOp, Expr, Stmt, UnaryOp};
use php_front::lexer::{LexError, Lexer};
use php_front::parser::{FrontEndError, ParseError, Parser};
use php_front::token::{Spanned, Token};

fn toks(src: &str) -> Vec<Spanned> {
    Lexer::new(src).tokenize().expect("lexing failed")
}

fn bare_tokens(src: &str) -> Vec<Token> {
    toks(src).into_iter().map(|s| s.token).collect()
}

fn ast(src: &str) -> Vec<Stmt> {
    let mut p = Parser::new(toks(src));
    p.parse().expect("parsing failed")
}

fn one_expr(src: &str) -> Expr {
    let mut stmts = ast(src);
    assert_eq!(stmts.len(), 1);
    match stmts.remove(0) {
        Stmt::ExprStmt(e) => e,
        _ => panic!("expected an expression statement"),
    }
}

#[test]
fn stream_ends_with_exactly_one_eof() {
    let ts = bare_tokens("<?php $x = 1; // trailing comment");
    assert!(matches!(ts.last(), Some(Token::Eof)));
    let eofs = ts.iter().filter(|t| matches!(t, Token::Eof)).count();
    assert_eq!(eofs, 1);
    assert!(matches!(ts[0], Token::OpenTag));
}

#[test]
fn string_escapes_decode() {
    let ts = bare_tokens("<?php \"hello\\nworld\";");
    match &ts[1] {
        Token::StringLiteral(s) => assert_eq!(s, "hello\nworld"),
        t => panic!("unexpected token {:?}", token_kind(t)),
    }
    let ts = bare_tokens("<?php 'a\\tb\\\\c\\'d\\qe';");
    match &ts[1] {
        Token::StringLiteral(s) => assert_eq!(s, "a\tb\\c'd\\qe"),
        t => panic!("unexpected token {:?}", token_kind(t)),
    }
}

#[test]
fn unterminated_string_keeps_prefix() {
    let ts = bare_tokens("<?php \"abc");
    match &ts[1] {
        Token::StringLiteral(s) => assert_eq!(s, "abc"),
        t => panic!("unexpected token {:?}", token_kind(t)),
    }
}

#[test]
fn numeric_literals() {
    let ts = bare_tokens("<?php 42 007 1.5 3.25 2.x");
    assert!(matches!(ts[1], Token::Integer(42)));
    assert!(matches!(ts[2], Token::Integer(7)));
    match &ts[3] {
        Token::Float(s) => assert_eq!(s, "1.5"),
        t => panic!("unexpected token {:?}", token_kind(t)),
    }
    match &ts[4] {
        Token::Float(s) => assert_eq!(s, "3.25"),
        t => panic!("unexpected token {:?}", token_kind(t)),
    }
    // `2.x`: the dot is not followed by a digit, so it stays an integer and a Dot.
    assert!(matches!(ts[5], Token::Integer(2)));
    assert!(matches!(ts[6], Token::Dot));
}

#[test]
fn integer_overflow_is_an_error() {
    let r = Lexer::new("<?php 9223372036854775808;").tokenize();
    assert!(matches!(r, Err(LexError::IntegerOverflow { .. })));
    let ok = Lexer::new("<?php 9223372036854775807;").tokenize().unwrap();
    assert!(matches!(ok[1].token, Token::Integer(i64::MAX)));
}

#[test]
fn maximal_munch_identical() {
    let ts = bare_tokens("<?php $a === $b");
    match (&ts[1], &ts[2], &ts[3]) {
        (Token::Variable(a), Token::Identical, Token::Variable(b)) => {
            assert_eq!(a, "a");
            assert_eq!(b, "b");
        }
        _ => panic!("maximal munch violated"),
    }
    let ts = bare_tokens("<?php != !== <= >= == = => ! < >");
    assert!(matches!(ts[1], Token::NotEqual));
    assert!(matches!(ts[2], Token::NotIdentical));
    assert!(matches!(ts[3], Token::LessEqual));
    assert!(matches!(ts[4], Token::GreaterEqual));
    assert!(matches!(ts[5], Token::Equal));
    assert!(matches!(ts[6], Token::Assign));
    assert!(matches!(ts[7], Token::Arrow));
    assert!(matches!(ts[8], Token::Not));
    assert!(matches!(ts[9], Token::Less));
    assert!(matches!(ts[10], Token::Greater));
}

#[test]
fn keywords_and_case() {
    let ts = bare_tokens("<?php true TRUE false FALSE null NULL True echo");
    assert!(matches!(ts[1], Token::True));
    assert!(matches!(ts[2], Token::True));
    assert!(matches!(ts[3], Token::False));
    assert!(matches!(ts[4], Token::False));
    assert!(matches!(ts[5], Token::Null));
    assert!(matches!(ts[6], Token::Null));
    // Keywords are otherwise case-sensitive: `True` is a plain identifier.
    assert!(matches!(&ts[7], Token::Identifier(n) if n == "True"));
    assert!(matches!(ts[8], Token::Echo));
}

#[test]
fn comments_are_skipped_and_lines_tracked() {
    let ts = toks("<?php // one\n# two\n/* three\nfour */ $x");
    match &ts[1].token {
        Token::Variable(n) => assert_eq!(n, "x"),
        _ => panic!("comment not skipped"),
    }
    assert_eq!(ts[1].line, 4);
    assert_eq!(ts[1].col, 9);
}

#[test]
fn positions_are_one_based() {
    let ts = toks("<?php\n  $ab + 1;");
    assert_eq!((ts[0].line, ts[0].col), (1, 1));
    assert_eq!((ts[1].line, ts[1].col), (2, 3));
    assert_eq!((ts[2].line, ts[2].col), (2, 7));
}

#[test]
fn missing_prefix_fails_before_any_token() {
    assert!(matches!(
        Lexer::new("echo 1;").tokenize(),
        Err(LexError::UnexpectedPrefix { .. })
    ));
    assert!(matches!(
        Lexer::new("   ").tokenize(),
        Err(LexError::UnexpectedPrefix { .. })
    ));
    assert!(matches!(
        Lexer::new("").tokenize(),
        Err(LexError::UnexpectedPrefix { .. })
    ));
}

#[test]
fn bad_characters_fail() {
    assert!(matches!(
        Lexer::new("<?php @").tokenize(),
        Err(LexError::UnexpectedCharacter { ch: '@', .. })
    ));
    assert!(matches!(
        Lexer::new("<?php 1 & 2;").tokenize(),
        Err(LexError::UnexpectedCharacter { ch: '&', .. })
    ));
    assert!(matches!(
        Lexer::new("<?php $1").tokenize(),
        Err(LexError::InvalidVariableName { .. })
    ));
    assert!(matches!(
        Lexer::new("<?php $").tokenize(),
        Err(LexError::UnexpectedEndAfterDollar { .. })
    ));
}

#[test]
fn precedence_mul_over_add() {
    let e = one_expr("<?php 2 + 3 * 4;");
    match e {
        Expr::BinaryOp { left, op: BinOp::Add, right } => {
            assert!(matches!(*left, Expr::Integer(2)));
            match *right {
                Expr::BinaryOp { left, op: BinOp::Mul, right } => {
                    assert!(matches!(*left, Expr::Integer(3)));
                    assert!(matches!(*right, Expr::Integer(4)));
                }
                _ => panic!("multiplication did not bind tighter"),
            }
        }
        _ => panic!("expected an addition at the top"),
    }
}

#[test]
fn precedence_concat_looser_than_add() {
    let e = one_expr("<?php \"a\" . 1 + 2;");
    match e {
        Expr::BinaryOp { left, op: BinOp::Concat, right } => {
            assert!(matches!(&*left, Expr::String(s) if s == "a"));
            assert!(matches!(
                &*right,
                Expr::BinaryOp { op: BinOp::Add, .. }
            ));
        }
        _ => panic!("expected concat at the top"),
    }
}

#[test]
fn assignment_is_right_associative() {
    let e = one_expr("<?php $a = $b = 1;");
    match e {
        Expr::Assign { variable, value } => {
            assert_eq!(variable, "a");
            match *value {
                Expr::Assign { variable, value } => {
                    assert_eq!(variable, "b");
                    assert!(matches!(*value, Expr::Integer(1)));
                }
                _ => panic!("inner assignment missing"),
            }
        }
        _ => panic!("expected an assignment"),
    }
}

#[test]
fn array_access_assignment_degrades_to_sentinel() {
    let e = one_expr("<?php $a[0] = 5;");
    match e {
        Expr::Assign { variable, value } => {
            assert_eq!(variable, "__array_set");
            assert!(matches!(*value, Expr::Integer(5)));
        }
        _ => panic!("expected an assignment"),
    }
}

#[test]
fn invalid_assignment_target_fails() {
    let mut p = Parser::new(toks("<?php 1 = 2;"));
    assert!(matches!(
        p.parse(),
        Err(ParseError::InvalidAssignmentTarget { .. })
    ));
}

#[test]
fn if_elseif_else_shape() {
    let stmts = ast(
        "<?php if ($x > $y) { echo \"a\"; } elseif ($x < $y) { echo \"b\"; } else { echo \"c\"; }",
    );
    assert_eq!(stmts.len(), 1);
    match &stmts[0] {
        Stmt::If { condition, then_block, elseif_blocks, else_block } => {
            assert!(matches!(condition, Expr::BinaryOp { op: BinOp::Greater, .. }));
            assert_eq!(then_block.len(), 1);
            assert!(matches!(&then_block[0], Stmt::Echo(es) if es.len() == 1));
            assert_eq!(elseif_blocks.len(), 1);
            assert!(matches!(&elseif_blocks[0].0, Expr::BinaryOp { op: BinOp::Less, .. }));
            assert_eq!(elseif_blocks[0].1.len(), 1);
            let eb = else_block.as_ref().expect("else block missing");
            assert_eq!(eb.len(), 1);
            assert!(matches!(&eb[0], Stmt::Echo(es) if es.len() == 1));
        }
        _ => panic!("expected an if statement"),
    }
}

#[test]
fn array_literal_keys_and_trailing_comma() {
    let e = one_expr("<?php [1, \"k\" => 2, 3];");
    match e {
        Expr::ArrayLiteral(entries) => {
            assert_eq!(entries.len(), 3);
            assert!(entries[0].key.is_none());
            assert!(matches!(&entries[1].key, Some(Expr::String(s)) if s == "k"));
            assert!(matches!(entries[1].value, Expr::Integer(2)));
            assert!(entries[2].key.is_none());
            assert!(matches!(entries[2].value, Expr::Integer(3)));
        }
        _ => panic!("expected an array literal"),
    }
    let a = one_expr("<?php [1, 2,];");
    let b = one_expr("<?php [1, 2];");
    match (a, b) {
        (Expr::ArrayLiteral(x), Expr::ArrayLiteral(y)) => {
            assert_eq!(x.len(), 2);
            assert_eq!(y.len(), 2);
            assert!(matches!(x[1].value, Expr::Integer(2)));
            assert!(matches!(y[1].value, Expr::Integer(2)));
        }
        _ => panic!("expected array literals"),
    }
    match one_expr("<?php [];") {
        Expr::ArrayLiteral(entries) => assert_eq!(entries.len(), 0),
        _ => panic!("expected an empty array literal"),
    }
}

#[test]
fn malformed_input_fails_at_the_semicolon() {
    let ts = toks("<?php $x = ;");
    // Token indices: 0 OpenTag, 1 Variable, 2 Assign, 3 Semicolon, 4 Eof.
    let mut p = Parser::new(ts);
    match p.parse() {
        Err(ParseError::UnexpectedToken { found: Token::Semicolon, pos }) => {
            assert_eq!(pos, 3);
        }
        _ => panic!("expected a syntax error at the semicolon"),
    }
}

#[test]
fn function_def_params_and_calls() {
    let stmts = ast("<?php function add($a, $b) { return $a + $b; } echo add(5, 3);");
    assert_eq!(stmts.len(), 2);
    match &stmts[0] {
        Stmt::FunctionDef { name, params, body } => {
            assert_eq!(name, "add");
            assert_eq!(params, &vec!["a".to_string(), "b".to_string()]);
            assert_eq!(body.len(), 1);
            assert!(matches!(&body[0], Stmt::Return(Some(_))));
        }
        _ => panic!("expected a function definition"),
    }
    match &stmts[1] {
        Stmt::Echo(es) => match &es[0] {
            Expr::FunctionCall { name, args } => {
                assert_eq!(name, "add");
                assert_eq!(args.len(), 2);
            }
            _ => panic!("expected a call"),
        },
        _ => panic!("expected an echo"),
    }
}

#[test]
fn bad_parameter_fails() {
    let mut p = Parser::new(toks("<?php function f(x) {}"));
    assert!(matches!(p.parse(), Err(ParseError::ExpectedParameter { .. })));
    let mut p = Parser::new(toks("<?php function 1() {}"));
    assert!(matches!(p.parse(), Err(ParseError::ExpectedFunctionName { .. })));
}

#[test]
fn bare_identifier_fails() {
    let mut p = Parser::new(toks("<?php foo;"));
    assert!(matches!(
        p.parse(),
        Err(ParseError::UnexpectedIdentifier { name, .. }) if name == "foo"
    ));
}

#[test]
fn missing_semicolon_reports_expected() {
    let mut p = Parser::new(toks("<?php $x = 1"));
    match p.parse() {
        Err(ParseError::Expected { expected: Token::Semicolon, found: Token::Eof, .. }) => {}
        _ => panic!("expected a missing-semicolon error"),
    }
}

#[test]
fn while_for_return_unary_postfix() {
    let stmts = ast("<?php while ($i < 3) { $i = $i + 1; } for ($i = 0; $i < 2; $i = $i + 1) {} for (;;) {} return;");
    assert!(matches!(&stmts[0], Stmt::While { .. }));
    match &stmts[1] {
        Stmt::For { init, condition, update, body } => {
            assert!(init.is_some());
            assert!(condition.is_some());
            assert!(update.is_some());
            assert_eq!(body.len(), 0);
        }
        _ => panic!("expected a for statement"),
    }
    match &stmts[2] {
        Stmt::For { init, condition, update, .. } => {
            assert!(init.is_none());
            assert!(condition.is_none());
            assert!(update.is_none());
        }
        _ => panic!("expected a clause-free for statement"),
    }
    assert!(matches!(&stmts[3], Stmt::Return(None)));
    let e = one_expr("<?php -!$a[0][1];");
    match e {
        Expr::UnaryOp { op: UnaryOp::Negate, expr } => match *expr {
            Expr::UnaryOp { op: UnaryOp::Not, expr } => match *expr {
                Expr::ArrayAccess { array, index } => {
                    assert!(matches!(*index, Expr::Integer(1)));
                    assert!(matches!(*array, Expr::ArrayAccess { .. }));
                }
                _ => panic!("expected a chained array access"),
            },
            _ => panic!("expected logical not"),
        },
        _ => panic!("expected negation"),
    }
}

#[test]
fn logic_equality_grouping() {
    let e = one_expr("<?php $a == 1 && $b != 2 || !($c === 3);");
    assert!(matches!(e, Expr::BinaryOp { op: BinOp::Or, .. }));
    let e = one_expr("<?php 1 . 2 . 3;");
    match e {
        Expr::BinaryOp { left, op: BinOp::Concat, right } => {
            assert!(matches!(*left, Expr::BinaryOp { op: BinOp::Concat, .. }));
            assert!(matches!(*right, Expr::Integer(3)));
        }
        _ => panic!("concat should fold to the left"),
    }
}

#[test]
fn parse_source_end_to_end() {
    let r = php_front::parser::parse_source("<?php echo 1 + 2, \"x\";");
    match r {
        Ok(stmts) => {
            assert_eq!(stmts.len(), 1);
            assert!(matches!(&stmts[0], Stmt::Echo(es) if es.len() == 2));
        }
        Err(_) => panic!("expected a successful parse"),
    }
    assert!(matches!(
        php_front::parser::parse_source("echo;"),
        Err(FrontEndError::Lex(LexError::UnexpectedPrefix { .. }))
    ));
    assert!(matches!(
        php_front::parser::parse_source("<?php echo;"),
        Err(FrontEndError::Parse(ParseError::UnexpectedToken { .. }))
    ));
}

fn token_kind(t: &Token) -> &'static str {
    match t {
        Token::Integer(_) => "Integer",
        Token::Float(_) => "Float",
        Token::StringLiteral(_) => "StringLiteral",
        Token::Variable(_) => "Variable",
        Token::Identifier(_) => "Identifier",
        Token::Eof => "Eof",
        _ => "other",
    }
}
