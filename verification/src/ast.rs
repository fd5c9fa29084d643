//! The abstract syntax tree: values, expressions, statements and tokens,
//! together with their mathematical models and well-formedness.
//!
//! Each executable type has a spec-level mirror (`AtomicV`, `ExprV`, ...)
//! over `Seq`, `int` and `bool`, reached through the view functions
//! `atomic_v`, `expr_v`, `stmt_v`, `token_v` and `tokens_v`.  Contracts all
//! speak of these models.

use vstd::prelude::*;

verus! {

/// A runtime value: string, number, boolean, null, or the internal
/// interrupt sentinel that signals early loop exit.  Numbers are 64-bit
/// signed integers.
#[derive(Debug, Clone, PartialEq)]
pub enum Atomic {
    String(String),
    Number(i64),
    Bool(bool),
    Null,
    Interrupt,
}

/// A logical operation over two sub-expressions; both sides are always
/// evaluated (no short-circuiting).
#[derive(Debug)]
pub enum LogicOp {
    And(Expression, Expression),
    Or(Expression, Expression),
}

/// A comparison over two sub-expressions.
#[derive(Debug)]
pub enum Comparison {
    Smaller(Expression, Expression),
    SmallerEquals(Expression, Expression),
    Equals(Expression, Expression),
    Greater(Expression, Expression),
    GreaterEquals(Expression, Expression),
}

/// A binary arithmetic operation.  The `Unset` variant exists only as a
/// builder placeholder and must never reach evaluation.
#[derive(Debug)]
pub enum BinaryOp {
    Plus { left: Expression, right: Expression },
    Minus { left: Expression, right: Expression },
    Mul { left: Expression, right: Expression },
    Div { left: Expression, right: Expression },
    Mod { left: Expression, right: Expression },
    Pow { left: Expression, right: Expression },
    Unset,
}

/// An if/else used as a value: exactly one branch's body runs (for side
/// effects) and that branch's result expression gives the value.
#[derive(Debug)]
pub struct ConditionalExpression {
    pub condition: Box<Expression>,
    pub body: Vec<Token>,
    pub body_expression: Box<Expression>,
    pub else_body: Vec<Token>,
    pub else_body_expression: Box<Expression>,
}

/// An explicit cast of a sub-expression to string, number or boolean.
#[derive(Debug)]
pub enum Cast {
    String(Expression),
    Int(Expression),
    Bool(Expression),
}

/// An expression: something that yields a value.
#[derive(Debug)]
pub enum Expression {
    Atomic(Atomic),
    Ident(String),
    LogicOp(Box<LogicOp>),
    Comparison(Box<Comparison>),
    BinaryOp(Box<BinaryOp>),
    Conditional(ConditionalExpression),
    Input(Box<Expression>),
    Cast(Box<Cast>),
}

/// A statement: something that runs for its effect, yielding a value only
/// as the tail of a block.
#[derive(Debug)]
pub enum Statement {
    VariableAssignment(VariableAssignment),
    Conditional(Conditional),
    Expression(Expression),
    Print(Expression),
    Loop(Loop),
}

/// A while loop: condition and body block.
#[derive(Debug)]
pub struct Loop {
    pub condition: Box<Expression>,
    pub body: Vec<Token>,
}

/// An if statement: condition, body block and optional else block.
#[derive(Debug)]
pub struct Conditional {
    pub condition: Box<Expression>,
    pub body: Vec<Token>,
    pub else_body: Option<Vec<Token>>,
}

/// A variable assignment; `new_definition` distinguishes `let` bindings
/// from reassignments.
#[derive(Debug)]
pub struct VariableAssignment {
    pub new_definition: bool,
    pub ident: String,
    pub value: Expression,
}

/// The unit of a block body.  `Break` and `Return` both unwind the nearest
/// enclosing block evaluation.
#[derive(Debug)]
pub enum Token {
    Expression(Expression),
    Statement(Statement),
    Break,
    Return,
}

/// Comparison operators, as tags.
#[derive(Clone, Copy, Debug, PartialEq, Eq, Structural)]
pub enum CmpTag {
    Smaller,
    SmallerEquals,
    Equals,
    Greater,
    GreaterEquals,
}

/// Arithmetic operators, as tags.
#[derive(Clone, Copy, Debug, PartialEq, Eq, Structural)]
pub enum ArithTag {
    Plus,
    Minus,
    Mul,
    Div,
    Mod,
    Pow,
}

/// The model of a runtime value.
pub enum AtomicV {
    Str(Seq<char>),
    Num(int),
    Bool(bool),
    Null,
    Interrupt,
}

/// The model of an expression.
pub enum ExprV {
    Atomic(AtomicV),
    Ident(Seq<char>),
    And(Box<ExprV>, Box<ExprV>),
    Or(Box<ExprV>, Box<ExprV>),
    Cmp(CmpTag, Box<ExprV>, Box<ExprV>),
    Arith(ArithTag, Box<ExprV>, Box<ExprV>),
    ArithNone,
    Conditional {
        condition: Box<ExprV>,
        body: Seq<TokenV>,
        body_expression: Box<ExprV>,
        else_body: Seq<TokenV>,
        else_body_expression: Box<ExprV>,
    },
    Input(Box<ExprV>),
    CastString(Box<ExprV>),
    CastNum(Box<ExprV>),
    CastBool(Box<ExprV>),
}

/// The model of a statement.
pub enum StmtV {
    Assign { new_definition: bool, ident: Seq<char>, value: Box<ExprV> },
    Conditional { condition: Box<ExprV>, body: Seq<TokenV>, else_body: Option<Seq<TokenV>> },
    Expr(Box<ExprV>),
    Print(Box<ExprV>),
    Loop { condition: Box<ExprV>, body: Seq<TokenV> },
}

/// The model of a block token.
pub enum TokenV {
    Expr(ExprV),
    Stmt(StmtV),
    Break,
    Return,
}

pub open spec fn atomic_v(a: Atomic) -> AtomicV {
    match a {
        Atomic::String(s) => AtomicV::Str(s@),
        Atomic::Number(n) => AtomicV::Num(n as int),
        Atomic::Bool(b) => AtomicV::Bool(b),
        Atomic::Null => AtomicV::Null,
        Atomic::Interrupt => AtomicV::Interrupt,
    }
}

pub open spec fn expr_v(e: Expression) -> ExprV
    decreases e,
{
    match e {
        Expression::Atomic(a) => ExprV::Atomic(atomic_v(a)),
        Expression::Ident(s) => ExprV::Ident(s@),
        Expression::LogicOp(l) => match *l {
            LogicOp::And(a, b) => ExprV::And(Box::new(expr_v(a)), Box::new(expr_v(b))),
            LogicOp::Or(a, b) => ExprV::Or(Box::new(expr_v(a)), Box::new(expr_v(b))),
        },
        Expression::Comparison(c) => match *c {
            Comparison::Smaller(a, b) => ExprV::Cmp(
                CmpTag::Smaller,
                Box::new(expr_v(a)),
                Box::new(expr_v(b)),
            ),
            Comparison::SmallerEquals(a, b) => ExprV::Cmp(
                CmpTag::SmallerEquals,
                Box::new(expr_v(a)),
                Box::new(expr_v(b)),
            ),
            Comparison::Equals(a, b) => ExprV::Cmp(
                CmpTag::Equals,
                Box::new(expr_v(a)),
                Box::new(expr_v(b)),
            ),
            Comparison::Greater(a, b) => ExprV::Cmp(
                CmpTag::Greater,
                Box::new(expr_v(a)),
                Box::new(expr_v(b)),
            ),
            Comparison::GreaterEquals(a, b) => ExprV::Cmp(
                CmpTag::GreaterEquals,
                Box::new(expr_v(a)),
                Box::new(expr_v(b)),
            ),
        },
        Expression::BinaryOp(b) => match *b {
            BinaryOp::Plus { left, right } => ExprV::Arith(
                ArithTag::Plus,
                Box::new(expr_v(left)),
                Box::new(expr_v(right)),
            ),
            BinaryOp::Minus { left, right } => ExprV::Arith(
                ArithTag::Minus,
                Box::new(expr_v(left)),
                Box::new(expr_v(right)),
            ),
            BinaryOp::Mul { left, right } => ExprV::Arith(
                ArithTag::Mul,
                Box::new(expr_v(left)),
                Box::new(expr_v(right)),
            ),
            BinaryOp::Div { left, right } => ExprV::Arith(
                ArithTag::Div,
                Box::new(expr_v(left)),
                Box::new(expr_v(right)),
            ),
            BinaryOp::Mod { left, right } => ExprV::Arith(
                ArithTag::Mod,
                Box::new(expr_v(left)),
                Box::new(expr_v(right)),
            ),
            BinaryOp::Pow { left, right } => ExprV::Arith(
                ArithTag::Pow,
                Box::new(expr_v(left)),
                Box::new(expr_v(right)),
            ),
            BinaryOp::Unset => ExprV::ArithNone,
        },
        Expression::Conditional(c) => ExprV::Conditional {
            condition: Box::new(expr_v(*c.condition)),
            body: tokens_v(c.body@),
            body_expression: Box::new(expr_v(*c.body_expression)),
            else_body: tokens_v(c.else_body@),
            else_body_expression: Box::new(expr_v(*c.else_body_expression)),
        },
        Expression::Input(i) => ExprV::Input(Box::new(expr_v(*i))),
        Expression::Cast(c) => match *c {
            Cast::String(e) => ExprV::CastString(Box::new(expr_v(e))),
            Cast::Int(e) => ExprV::CastNum(Box::new(expr_v(e))),
            Cast::Bool(e) => ExprV::CastBool(Box::new(expr_v(e))),
        },
    }
}

pub open spec fn stmt_v(s: Statement) -> StmtV
    decreases s,
{
    match s {
        Statement::VariableAssignment(a) => StmtV::Assign {
            new_definition: a.new_definition,
            ident: a.ident@,
            value: Box::new(expr_v(a.value)),
        },
        Statement::Conditional(c) => StmtV::Conditional {
            condition: Box::new(expr_v(*c.condition)),
            body: tokens_v(c.body@),
            else_body: match c.else_body {
                Option::Some(eb) => Option::Some(tokens_v(eb@)),
                Option::None => Option::None,
            },
        },
        Statement::Expression(e) => StmtV::Expr(Box::new(expr_v(e))),
        Statement::Print(e) => StmtV::Print(Box::new(expr_v(e))),
        Statement::Loop(l) => StmtV::Loop {
            condition: Box::new(expr_v(*l.condition)),
            body: tokens_v(l.body@),
        },
    }
}

pub open spec fn token_v(t: Token) -> TokenV
    decreases t,
{
    match t {
        Token::Expression(e) => TokenV::Expr(expr_v(e)),
        Token::Statement(s) => TokenV::Stmt(stmt_v(s)),
        Token::Break => TokenV::Break,
        Token::Return => TokenV::Return,
    }
}

pub open spec fn tokens_v(ts: Seq<Token>) -> Seq<TokenV>
    decreases ts,
{
    if ts.len() == 0 {
        Seq::empty()
    } else {
        seq![token_v(ts[0])] + tokens_v(ts.drop_first())
    }
}

pub broadcast proof fn lemma_tokens_v_len(ts: Seq<Token>)
    ensures
        #[trigger] tokens_v(ts).len() == ts.len(),
    decreases ts,
{
    if ts.len() > 0 {
        lemma_tokens_v_len(ts.drop_first());
    }
}

pub broadcast proof fn lemma_tokens_v_index(ts: Seq<Token>, i: int)
    requires
        0 <= i < ts.len(),
    ensures
        tokens_v(ts).len() == ts.len(),
        #[trigger] tokens_v(ts)[i] == token_v(ts[i]),
    decreases ts,
{
    lemma_tokens_v_len(ts);
    if i > 0 {
        lemma_tokens_v_index(ts.drop_first(), i - 1);
    }
}

pub broadcast proof fn lemma_tokens_v_push(ts: Seq<Token>, t: Token)
    ensures
        #[trigger] tokens_v(ts.push(t)) == tokens_v(ts).push(token_v(t)),
    decreases ts,
{
    if ts.len() == 0 {
        assert(ts.push(t).drop_first() =~= Seq::<Token>::empty());
        assert(tokens_v(ts.push(t).drop_first()) == Seq::<TokenV>::empty());
        assert(ts.push(t)[0] == t);
        assert(tokens_v(ts.push(t)) == seq![token_v(t)] + Seq::<TokenV>::empty());
        assert(tokens_v(ts) == Seq::<TokenV>::empty());
        assert(seq![token_v(t)] + Seq::<TokenV>::empty() =~= Seq::<TokenV>::empty().push(
            token_v(t),
        ));
    } else {
        lemma_tokens_v_push(ts.drop_first(), t);
        assert(ts.push(t).drop_first() =~= ts.drop_first().push(t));
        assert(ts.push(t)[0] == ts[0]);
        assert(tokens_v(ts.push(t)) == seq![token_v(ts[0])] + tokens_v(ts.drop_first()).push(
            token_v(t),
        ));
        assert(seq![token_v(ts[0])] + tokens_v(ts.drop_first()).push(token_v(t)) =~= (
        seq![token_v(ts[0])] + tokens_v(ts.drop_first())).push(token_v(t)));
    }
}

/// Well-formedness of a value model: the interrupt sentinel never appears
/// as a literal in a program or as a stored variable value.
pub open spec fn wf_atomic_v(a: AtomicV) -> bool {
    !(a is Interrupt)
}

pub open spec fn wf_expr_v(e: ExprV) -> bool
    decreases e,
{
    match e {
        ExprV::Atomic(a) => wf_atomic_v(a),
        ExprV::Ident(_) => true,
        ExprV::And(l, r) => wf_expr_v(*l) && wf_expr_v(*r),
        ExprV::Or(l, r) => wf_expr_v(*l) && wf_expr_v(*r),
        ExprV::Cmp(_, l, r) => wf_expr_v(*l) && wf_expr_v(*r),
        ExprV::Arith(_, l, r) => wf_expr_v(*l) && wf_expr_v(*r),
        ExprV::ArithNone => false,
        ExprV::Conditional { condition, body, body_expression, else_body, else_body_expression } => {
            wf_expr_v(*condition) && wf_tokens_v(body) && wf_expr_v(*body_expression)
                && wf_tokens_v(else_body) && wf_expr_v(*else_body_expression)
        },
        ExprV::Input(i) => wf_expr_v(*i),
        ExprV::CastString(i) => wf_expr_v(*i),
        ExprV::CastNum(i) => wf_expr_v(*i),
        ExprV::CastBool(i) => wf_expr_v(*i),
    }
}

pub open spec fn wf_stmt_v(s: StmtV) -> bool
    decreases s,
{
    match s {
        StmtV::Assign { new_definition: _, ident: _, value } => wf_expr_v(*value),
        StmtV::Conditional { condition, body, else_body } => {
            wf_expr_v(*condition) && wf_tokens_v(body) && match else_body {
                Option::Some(eb) => wf_tokens_v(eb),
                Option::None => true,
            }
        },
        StmtV::Expr(e) => wf_expr_v(*e),
        StmtV::Print(e) => wf_expr_v(*e),
        StmtV::Loop { condition, body } => wf_expr_v(*condition) && wf_tokens_v(body),
    }
}

pub open spec fn wf_token_v(t: TokenV) -> bool
    decreases t,
{
    match t {
        TokenV::Expr(e) => wf_expr_v(e),
        TokenV::Stmt(s) => wf_stmt_v(s),
        TokenV::Break => true,
        TokenV::Return => true,
    }
}

pub open spec fn wf_tokens_v(ts: Seq<TokenV>) -> bool
    decreases ts,
{
    if ts.len() == 0 {
        true
    } else {
        wf_token_v(ts[0]) && wf_tokens_v(ts.drop_first())
    }
}

pub broadcast proof fn lemma_wf_tokens_v_index(ts: Seq<TokenV>, i: int)
    requires
        0 <= i < ts.len(),
        wf_tokens_v(ts),
    ensures
        #[trigger] wf_token_v(ts[i]),
    decreases ts,
{
    if i > 0 {
        lemma_wf_tokens_v_index(ts.drop_first(), i - 1);
    }
}


pub proof fn lemma_wf_tokens_v_push(ts: Seq<TokenV>, t: TokenV)
    ensures
        wf_tokens_v(ts.push(t)) == (wf_tokens_v(ts) && wf_token_v(t)),
    decreases ts,
{
    if ts.len() == 0 {
        assert(ts.push(t).drop_first() =~= Seq::<TokenV>::empty());
        assert(wf_tokens_v(ts.push(t).drop_first()));
        assert(ts.push(t)[0] == t);
        assert(wf_tokens_v(ts.push(t)) == wf_token_v(t));
    } else {
        lemma_wf_tokens_v_push(ts.drop_first(), t);
        assert(ts.push(t).drop_first() =~= ts.drop_first().push(t));
        assert(ts.push(t)[0] == ts[0]);
        assert(wf_tokens_v(ts.push(t)) == (wf_token_v(ts[0]) && wf_tokens_v(
            ts.drop_first().push(t),
        )));
    }
}

impl Atomic {
    /// An exact copy: the model of the result equals the model of `self`.
    pub fn duplicate(&self) -> (r: Atomic)
        ensures
            atomic_v(r) == atomic_v(*self),
    {
        match self {
            Atomic::String(s) => Atomic::String(s.clone()),
            Atomic::Number(n) => Atomic::Number(*n),
            Atomic::Bool(b) => Atomic::Bool(*b),
            Atomic::Null => Atomic::Null,
            Atomic::Interrupt => Atomic::Interrupt,
        }
    }
}

} // verus!
