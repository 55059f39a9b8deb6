//! The AST model: expression and statement node shapes produced by the
//! parser, together with their mathematical values.

use vstd::prelude::*;

verus! {

/// Binary operator kinds.
#[derive(Clone, Copy, PartialEq, Eq, Structural)]
pub enum BinOp {
    Add,
    Sub,
    Mul,
    Div,
    Mod,
    Concat,
    Equal,
    Identical,
    NotEqual,
    NotIdentical,
    Less,
    LessEqual,
    Greater,
    GreaterEqual,
    And,
    Or,
}

/// Unary (prefix) operator kinds.
#[derive(Clone, Copy, PartialEq, Eq, Structural)]
pub enum UnaryOp {
    Negate,
    Not,
}

/// An expression node. Every nested expression is exclusively owned by its
/// parent; the tree is strict (no sharing, no cycles). A float literal is
/// carried as its source text, as in [`crate::token::Token`].
#[allow(inconsistent_fields)]
pub enum Expr {
    Integer(i64),
    Float(String),
    String(String),
    Bool(bool),
    Null,
    Variable(String),
    BinaryOp { left: Box<Expr>, op: BinOp, right: Box<Expr> },
    UnaryOp { op: UnaryOp, expr: Box<Expr> },
    Assign { variable: String, value: Box<Expr> },
    FunctionCall { name: String, args: Vec<Expr> },
    ArrayAccess { array: Box<Expr>, index: Box<Expr> },
    ArrayLiteral(Vec<ArrayEntry>),
}

/// One entry of an array literal: an optional key expression and a value.
pub struct ArrayEntry {
    pub key: Option<Expr>,
    pub value: Expr,
}

/// The mathematical value of an expression node.
#[allow(inconsistent_fields)]
pub enum ExprV {
    Integer(int),
    Float(Seq<char>),
    String(Seq<char>),
    Bool(bool),
    Null,
    Variable(Seq<char>),
    BinaryOp { left: Box<ExprV>, op: BinOp, right: Box<ExprV> },
    UnaryOp { op: UnaryOp, expr: Box<ExprV> },
    Assign { variable: Seq<char>, value: Box<ExprV> },
    FunctionCall { name: Seq<char>, args: Seq<ExprV> },
    ArrayAccess { array: Box<ExprV>, index: Box<ExprV> },
    ArrayLiteral(Seq<ArrayEntryV>),
}

/// The mathematical value of an array-literal entry.
pub struct ArrayEntryV {
    pub key: Option<ExprV>,
    pub value: ExprV,
}

/// The mathematical value of an expression node.
pub open spec fn view_expr(e: Expr) -> ExprV
    decreases e,
{
    match e {
        Expr::Integer(n) => ExprV::Integer(n as int),
        Expr::Float(s) => ExprV::Float(s@),
        Expr::String(s) => ExprV::String(s@),
        Expr::Bool(b) => ExprV::Bool(b),
        Expr::Null => ExprV::Null,
        Expr::Variable(s) => ExprV::Variable(s@),
        Expr::BinaryOp { left, op, right } => ExprV::BinaryOp {
            left: Box::new(view_expr(*left)),
            op: op,
            right: Box::new(view_expr(*right)),
        },
        Expr::UnaryOp { op, expr } => ExprV::UnaryOp { op: op, expr: Box::new(view_expr(*expr)) },
        Expr::Assign { variable, value } => ExprV::Assign {
            variable: variable@,
            value: Box::new(view_expr(*value)),
        },
        Expr::FunctionCall { name, args } => ExprV::FunctionCall {
            name: name@,
            args: view_exprs(args@),
        },
        Expr::ArrayAccess { array, index } => ExprV::ArrayAccess {
            array: Box::new(view_expr(*array)),
            index: Box::new(view_expr(*index)),
        },
        Expr::ArrayLiteral(entries) => ExprV::ArrayLiteral(view_entries(entries@)),
    }
}

/// The mathematical value of a sequence of expressions, element by element.
pub open spec fn view_exprs(s: Seq<Expr>) -> Seq<ExprV>
    decreases s,
{
    if s.len() == 0 {
        Seq::empty()
    } else {
        view_exprs(s.drop_last()).push(view_expr(s.last()))
    }
}

/// The mathematical value of a sequence of array-literal entries.
pub open spec fn view_entries(s: Seq<ArrayEntry>) -> Seq<ArrayEntryV>
    decreases s,
{
    if s.len() == 0 {
        Seq::empty()
    } else {
        view_entries(s.drop_last()).push(view_entry(s.last()))
    }
}

/// The mathematical value of an array-literal entry.
pub open spec fn view_entry(e: ArrayEntry) -> ArrayEntryV
    decreases e,
{
    ArrayEntryV {
        key: match e.key {
            Option::Some(k) => Option::Some(view_expr(k)),
            Option::None => Option::None,
        },
        value: view_expr(e.value),
    }
}

/// A statement node.
#[allow(inconsistent_fields)]
pub enum Stmt {
    /// `echo` with one or more expressions, in source order.
    Echo(Vec<Expr>),
    ExprStmt(Expr),
    If {
        condition: Expr,
        then_block: Block,
        /// Ordered `elseif` branches: condition and block each.
        elseif_blocks: Vec<(Expr, Block)>,
        else_block: Option<Block>,
    },
    While { condition: Expr, body: Block },
    For { init: Option<Expr>, condition: Option<Expr>, update: Option<Expr>, body: Block },
    FunctionDef { name: String, params: Vec<String>, body: Block },
    Return(Option<Expr>),
}

/// An ordered sequence of statements.
pub type Block = Vec<Stmt>;

/// The mathematical value of a statement node.
#[allow(inconsistent_fields)]
pub enum StmtV {
    Echo(Seq<ExprV>),
    ExprStmt(ExprV),
    If {
        condition: ExprV,
        then_block: Seq<StmtV>,
        elseif_blocks: Seq<(ExprV, Seq<StmtV>)>,
        else_block: Option<Seq<StmtV>>,
    },
    While { condition: ExprV, body: Seq<StmtV> },
    For { init: Option<ExprV>, condition: Option<ExprV>, update: Option<ExprV>, body: Seq<StmtV> },
    FunctionDef { name: Seq<char>, params: Seq<Seq<char>>, body: Seq<StmtV> },
    Return(Option<ExprV>),
}

/// The mathematical value of an optional expression.
pub open spec fn view_opt_expr(e: Option<Expr>) -> Option<ExprV> {
    match e {
        Option::Some(x) => Option::Some(view_expr(x)),
        Option::None => Option::None,
    }
}

/// The mathematical value of a parameter-name list.
pub open spec fn view_params(s: Seq<String>) -> Seq<Seq<char>> {
    Seq::new(s.len(), |i: int| s[i]@)
}

/// The mathematical value of a statement node.
pub open spec fn view_stmt(s: Stmt) -> StmtV
    decreases s,
{
    match s {
        Stmt::Echo(es) => StmtV::Echo(view_exprs(es@)),
        Stmt::ExprStmt(e) => StmtV::ExprStmt(view_expr(e)),
        Stmt::If { condition, then_block, elseif_blocks, else_block } => StmtV::If {
            condition: view_expr(condition),
            then_block: view_stmts(then_block@),
            elseif_blocks: view_elseifs(elseif_blocks@),
            else_block: match else_block {
                Option::Some(b) => Option::Some(view_stmts(b@)),
                Option::None => Option::None,
            },
        },
        Stmt::While { condition, body } => StmtV::While {
            condition: view_expr(condition),
            body: view_stmts(body@),
        },
        Stmt::For { init, condition, update, body } => StmtV::For {
            init: view_opt_expr(init),
            condition: view_opt_expr(condition),
            update: view_opt_expr(update),
            body: view_stmts(body@),
        },
        Stmt::FunctionDef { name, params, body } => StmtV::FunctionDef {
            name: name@,
            params: view_params(params@),
            body: view_stmts(body@),
        },
        Stmt::Return(e) => StmtV::Return(view_opt_expr(e)),
    }
}

/// The mathematical value of a sequence of statements, element by element.
pub open spec fn view_stmts(s: Seq<Stmt>) -> Seq<StmtV>
    decreases s,
{
    if s.len() == 0 {
        Seq::empty()
    } else {
        view_stmts(s.drop_last()).push(view_stmt(s.last()))
    }
}

/// The mathematical value of a sequence of `elseif` branches.
pub open spec fn view_elseifs(s: Seq<(Expr, Block)>) -> Seq<(ExprV, Seq<StmtV>)>
    decreases s,
{
    if s.len() == 0 {
        Seq::empty()
    } else {
        view_elseifs(s.drop_last()).push(
            (view_expr(s.last().0), view_stmts(s.last().1@)),
        )
    }
}

impl View for Stmt {
    type V = StmtV;

    open spec fn view(&self) -> StmtV {
        view_stmt(*self)
    }
}

impl View for Expr {
    type V = ExprV;

    open spec fn view(&self) -> ExprV {
        view_expr(*self)
    }
}

impl View for ArrayEntry {
    type V = ArrayEntryV;

    open spec fn view(&self) -> ArrayEntryV {
        view_entry(*self)
    }
}


/// Appending one expression appends its mathematical value.
pub proof fn lemma_view_exprs_push(s: Seq<Expr>, x: Expr)
    ensures
        view_exprs(s.push(x)) == view_exprs(s).push(view_expr(x)),
{
    assert(s.push(x).drop_last() =~= s);
    assert(s.push(x).last() == x);
}

/// Appending one entry appends its mathematical value.
pub proof fn lemma_view_entries_push(s: Seq<ArrayEntry>, x: ArrayEntry)
    ensures
        view_entries(s.push(x)) == view_entries(s).push(view_entry(x)),
{
    assert(s.push(x).drop_last() =~= s);
    assert(s.push(x).last() == x);
}

/// Appending one statement appends its mathematical value.
pub proof fn lemma_view_stmts_push(s: Seq<Stmt>, x: Stmt)
    ensures
        view_stmts(s.push(x)) == view_stmts(s).push(view_stmt(x)),
{
    assert(s.push(x).drop_last() =~= s);
    assert(s.push(x).last() == x);
}

/// Appending one `elseif` branch appends its mathematical value.
pub proof fn lemma_view_elseifs_push(s: Seq<(Expr, Block)>, x: (Expr, Block))
    ensures
        view_elseifs(s.push(x)) == view_elseifs(s).push((view_expr(x.0), view_stmts(x.1@))),
{
    assert(s.push(x).drop_last() =~= s);
    assert(s.push(x).last() == x);
}

/// Appending one parameter name appends its mathematical value.
pub proof fn lemma_view_params_push(s: Seq<String>, x: String)
    ensures
        view_params(s.push(x)) == view_params(s).push(x@),
{
    assert(view_params(s.push(x)) =~= view_params(s).push(x@));
}

} // verus!
