//! The tree-walking evaluator.
//!
//! `eval_tokens` runs a block strictly in order against the single mutable
//! scope and yields the block's tail value, or `Atomic::Interrupt` when a
//! `break` (or `return`) unwinds it.  A loop absorbs the interrupt and
//! yields null.  Expressions never yield the interrupt sentinel, and the
//! scope never stores it; both invariants are part of every contract here.
//!
//! Each evaluation function ensures that its result and final scope are
//! exactly those of the spec-level interpreter in `semantics`, whenever
//! that interpreter's outcome is not `Lost` (the point where a read input
//! line, which no specification can fix, entered the run).
//!
//! Termination bookkeeping: a `while` loop of the interpreted program may
//! genuinely diverge; each loop therefore carries an iteration budget of
//! `u64::MAX` and reports `EvalError::LoopLimit` if it is ever spent — the
//! spec interpreter spends the same budget.  Every other part of
//! evaluation is structural recursion over the tree.

use vstd::prelude::*;

use std::io::Write;

use crate::ast::{
    ArithTag, Atomic, BinaryOp, Cast, CmpTag, Comparison, Conditional, ConditionalExpression,
    Expression, ExprV, LogicOp, Loop, Statement, StmtV, Token, atomic_v, expr_v,
    lemma_tokens_v_index, lemma_wf_tokens_v_index, stmt_v, token_v, tokens_v, wf_atomic_v,
    wf_expr_v, wf_stmt_v, wf_token_v, wf_tokens_v,
};
use crate::scope::{Scope, scope_ok};
use crate::semantics::{
    Ev, ev_as_bool, ev_as_num, ev_as_text, ev_expr, ev_loop, ev_stmt, ev_token, ev_tokens,
    out_matches, out_matches_bool, out_matches_num, out_matches_text, out_matches_unit,
};
use crate::value::{
    EvalError, arith_nums, atomic_as_bool, atomic_as_num, cmp_ints_exec, cmp_strs_exec,
    coerce_num, plus_atomics, text_of,
};

verus! {

/// Relies on std::io::Stdin::read_line: yields one line of input, with its
/// trailing newline where one was read, or nothing when reading fails.
#[verifier::external_body]
fn read_input_line() -> (r: Option<String>) {
    let mut s = String::new();
    match std::io::stdin().read_line(&mut s) {
        Ok(_) => Some(s),
        Err(_) => None,
    }
}

/// Relies on std::io::Stdout::write_fmt, through writeln: prints the text
/// followed by a newline.
#[verifier::external_body]
fn print_line(s: &str) {
    let mut out = std::io::stdout();
    let _ = writeln!(out, "{}", s);
}

impl Expression {
    /// Evaluate to a runtime value.
    pub fn as_atomic(&self, global_scope: &mut Scope) -> (r: Result<Atomic, EvalError>)
        requires
            wf_expr_v(expr_v(*self)),
            scope_ok(old(global_scope)@),
        ensures
            scope_ok(final(global_scope)@),
            r matches Ok(a) ==> !(atomic_v(a) is Interrupt),
            out_matches(ev_expr(expr_v(*self), old(global_scope)@), r, final(global_scope)@),
        decreases *self, 1int,
    {
        eval_expression(self, global_scope)
    }

    /// Evaluate, then coerce the value to a boolean.
    pub fn as_bool(&self, global_scope: &mut Scope) -> (r: Result<bool, EvalError>)
        requires
            wf_expr_v(expr_v(*self)),
            scope_ok(old(global_scope)@),
        ensures
            scope_ok(final(global_scope)@),
            out_matches_bool(
                ev_as_bool(expr_v(*self), old(global_scope)@),
                r,
                final(global_scope)@,
            ),
        decreases *self, 1int,
    {
        let a = match eval_expression(self, global_scope) {
            Ok(a) => a,
            Err(e) => return Err(e),
        };
        atomic_as_bool(&a)
    }

    /// Evaluate, then take the value's text.
    pub fn as_string(&self, global_scope: &mut Scope) -> (r: Result<String, EvalError>)
        requires
            wf_expr_v(expr_v(*self)),
            scope_ok(old(global_scope)@),
        ensures
            scope_ok(final(global_scope)@),
            out_matches_text(
                ev_as_text(expr_v(*self), old(global_scope)@),
                r,
                final(global_scope)@,
            ),
        decreases *self, 1int,
    {
        let a = match eval_expression(self, global_scope) {
            Ok(a) => a,
            Err(e) => return Err(e),
        };
        Ok(a.to_text())
    }

    /// Evaluate, then coerce the value to a number.
    pub fn as_num(&self, global_scope: &mut Scope) -> (r: Result<i64, EvalError>)
        requires
            wf_expr_v(expr_v(*self)),
            scope_ok(old(global_scope)@),
        ensures
            scope_ok(final(global_scope)@),
            out_matches_num(
                ev_as_num(expr_v(*self), old(global_scope)@),
                r,
                final(global_scope)@,
            ),
        decreases *self, 1int,
    {
        let a = match eval_expression(self, global_scope) {
            Ok(a) => a,
            Err(e) => return Err(e),
        };
        atomic_as_num(&a)
    }
}

/// Evaluate a token sequence strictly in order.  The result is the value
/// of the last evaluated token, null for an empty block, or the interrupt
/// sentinel when a `break` or `return` unwinds the block early; the first
/// error aborts it.  Result and final scope are `ev_tokens` of the block's
/// model.
/// Evaluate one block token: an expression or statement by its own
/// evaluation, a `break` or `return` as the interrupt sentinel.
fn eval_one_token(t: &Token, global_scope: &mut Scope) -> (r: Result<Atomic, EvalError>)
    requires
        wf_token_v(token_v(*t)),
        scope_ok(old(global_scope)@),
    ensures
        scope_ok(final(global_scope)@),
        out_matches(ev_token(token_v(*t), old(global_scope)@), r, final(global_scope)@),
    decreases *t, 2int,
{
    match t {
        Token::Expression(e) => eval_expression(e, global_scope),
        Token::Statement(stmt) => eval_statement(stmt, global_scope),
        Token::Break => Ok(Atomic::Interrupt),
        Token::Return => Ok(Atomic::Interrupt),
    }
}

/// Evaluate a token sequence strictly in order.  The result is the value
/// of the last evaluated token, null for an empty block, or the interrupt
/// sentinel when a `break` or `return` unwinds the block early; the first
/// error aborts it.  Result and final scope are `ev_tokens` of the block's
/// model.
pub fn eval_tokens(tokens: &Vec<Token>, global_scope: &mut Scope) -> (r: Result<
    Atomic,
    EvalError,
>)
    requires
        wf_tokens_v(tokens_v(tokens@)),
        scope_ok(old(global_scope)@),
    ensures
        scope_ok(final(global_scope)@),
        out_matches(ev_tokens(tokens_v(tokens@), old(global_scope)@), r, final(global_scope)@),
    decreases tokens@, 1int,
{
    let ghost tv = tokens_v(tokens@);
    let ghost m0 = global_scope@;
    let ghost lres = ev_tokens(tv, m0);
    let mut last = Atomic::Null;
    let n = tokens.len();
    proof {
        crate::ast::lemma_tokens_v_len(tokens@);
        assert(tv.skip(0) =~= tv);
    }
    if n == 0 {
        return Ok(last);
    }
    let mut idx: usize = 0;
    while idx < n
        invariant
            0 <= idx <= n,
            n == tokens@.len(),
            tv == tokens_v(tokens@),
            tv.len() == n,
            m0 == old(global_scope)@,
            lres == ev_tokens(tv, m0),
            wf_tokens_v(tv),
            scope_ok(global_scope@),
            !(atomic_v(last) is Interrupt),
            lres.0 is Lost || (if idx < n {
                lres == ev_tokens(tv.skip(idx as int), global_scope@)
            } else {
                lres == (Ev::<crate::ast::AtomicV>::Val(atomic_v(last)), global_scope@)
            }),
        decreases n - idx,
    {
        let ghost suffix = tv.skip(idx as int);
        let ghost cur = global_scope@;
        proof {
            lemma_tokens_v_index(tokens@, idx as int);
            lemma_wf_tokens_v_index(tv, idx as int);
            assert(suffix[0] == tv[idx as int]);
            assert(suffix.drop_first() =~= tv.skip(idx as int + 1));
        }
        let v = match eval_one_token(&tokens[idx], global_scope) {
            Ok(a) => a,
            Err(er) => {
                return Err(er);
            },
        };
        if matches!(v, Atomic::Interrupt) {
            return Ok(v);
        }
        last = v;
        idx = idx + 1;
    }
    Ok(last)
}

/// Evaluate one statement; result and final scope are `ev_stmt` of its
/// model.  A loop statement's own success is always null, as is an
/// assignment's.
pub fn eval_statement(stmt: &Statement, global_scope: &mut Scope) -> (r: Result<Atomic, EvalError>)
    requires
        wf_stmt_v(stmt_v(*stmt)),
        scope_ok(old(global_scope)@),
    ensures
        scope_ok(final(global_scope)@),
        stmt_v(*stmt) is Loop ==> (r is Err || (r matches Ok(a) && atomic_v(a) is Null)),
        stmt_v(*stmt) is Assign ==> (r is Err || (r matches Ok(a) && atomic_v(a) is Null)),
        out_matches(ev_stmt(stmt_v(*stmt), old(global_scope)@), r, final(global_scope)@),
    decreases *stmt, 1int,
{
    match stmt {
        Statement::VariableAssignment(assignment) => {
            let res = eval_assignment(assignment, global_scope);
            match res {
                Ok(_) => Ok(Atomic::Null),
                Err(e) => Err(e),
            }
        },
        Statement::Conditional(c) => eval_conditional(c, global_scope),
        Statement::Expression(e) => eval_expression(e, global_scope),
        Statement::Print(expression) => {
            let result = match eval_expression(expression, global_scope) {
                Ok(a) => a,
                Err(e) => return Err(e),
            };
            let text = result.to_text();
            print_line(text.as_str());
            Ok(result)
        },
        Statement::Loop(loop_statement) => eval_loop(loop_statement, global_scope),
    }
}

/// Run a while loop: the condition is re-evaluated before every iteration;
/// an interrupt from the body ends the loop, which itself yields null.
/// Result and final scope are `ev_loop` at the full iteration budget.
fn eval_loop(loop_statement: &Loop, global_scope: &mut Scope) -> (r: Result<Atomic, EvalError>)
    requires
        wf_expr_v(expr_v(*loop_statement.condition)),
        wf_tokens_v(tokens_v(loop_statement.body@)),
        scope_ok(old(global_scope)@),
    ensures
        scope_ok(final(global_scope)@),
        r matches Ok(a) ==> atomic_v(a) is Null,
        out_matches(
            ev_loop(
                StmtV::Loop {
                    condition: Box::new(expr_v(*loop_statement.condition)),
                    body: tokens_v(loop_statement.body@),
                },
                u64::MAX as nat,
                old(global_scope)@,
            ),
            r,
            final(global_scope)@,
        ),
    decreases *loop_statement, 1int,
{
    let ghost lv = StmtV::Loop {
        condition: Box::new(expr_v(*loop_statement.condition)),
        body: tokens_v(loop_statement.body@),
    };
    let ghost m0 = global_scope@;
    let ghost lres = ev_loop(lv, u64::MAX as nat, m0);
    let mut budget: u64 = u64::MAX;
    loop
        invariant
            wf_expr_v(expr_v(*loop_statement.condition)),
            wf_tokens_v(tokens_v(loop_statement.body@)),
            scope_ok(global_scope@),
            lv == (StmtV::Loop {
                condition: Box::new(expr_v(*loop_statement.condition)),
                body: tokens_v(loop_statement.body@),
            }),
            m0 == old(global_scope)@,
            lres == ev_loop(lv, u64::MAX as nat, m0),
            lres.0 is Lost || lres == ev_loop(lv, budget as nat, global_scope@),
        decreases budget,
    {
        let ghost cur = global_scope@;
        let condition = match loop_statement.condition.as_bool(global_scope) {
            Ok(c) => c,
            Err(e) => return Err(e),
        };
        if !condition {
            return Ok(Atomic::Null);
        }
        if budget == 0 {
            return Err(EvalError::LoopLimit);
        }
        budget = budget - 1;
        let token = match eval_tokens(&loop_statement.body, global_scope) {
            Ok(a) => a,
            Err(e) => return Err(e),
        };
        if matches!(token, Atomic::Interrupt) {
            return Ok(Atomic::Null);
        }
    }
}

/// Run an if statement: the chosen block's tail value, or null when the
/// condition is false and there is no else block.  Result and final scope
/// are `ev_stmt` of the conditional's model.
fn eval_conditional(conditional: &Conditional, global_scope: &mut Scope) -> (r: Result<
    Atomic,
    EvalError,
>)
    requires
        wf_expr_v(expr_v(*conditional.condition)),
        wf_tokens_v(tokens_v(conditional.body@)),
        (conditional.else_body matches Some(eb) ==> wf_tokens_v(tokens_v(eb@))),
        scope_ok(old(global_scope)@),
    ensures
        scope_ok(final(global_scope)@),
        out_matches(
            ev_stmt(
                StmtV::Conditional {
                    condition: Box::new(expr_v(*conditional.condition)),
                    body: tokens_v(conditional.body@),
                    else_body: match conditional.else_body {
                        Option::Some(eb) => Option::Some(tokens_v(eb@)),
                        Option::None => Option::None,
                    },
                },
                old(global_scope)@,
            ),
            r,
            final(global_scope)@,
        ),
    decreases *conditional, 1int,
{
    let condition = match conditional.condition.as_bool(global_scope) {
        Ok(c) => c,
        Err(e) => return Err(e),
    };
    if condition {
        eval_tokens(&conditional.body, global_scope)
    } else {
        match &conditional.else_body {
            Some(tokens) => eval_tokens(tokens, global_scope),
            None => Ok(Atomic::Null),
        }
    }
}

/// Bind a variable: a `let` for an already-bound name is an error and
/// leaves the scope unchanged; otherwise the value expression is evaluated
/// and the name bound or rebound to the result, all other bindings kept —
/// exactly `ev_stmt` of the assignment's model.
pub fn eval_assignment(assignment: &crate::ast::VariableAssignment, global_scope: &mut Scope) -> (r:
    Result<(), EvalError>)
    requires
        wf_expr_v(expr_v(assignment.value)),
        scope_ok(old(global_scope)@),
    ensures
        scope_ok(final(global_scope)@),
        out_matches_unit(
            ev_stmt(
                StmtV::Assign {
                    new_definition: assignment.new_definition,
                    ident: assignment.ident@,
                    value: Box::new(expr_v(assignment.value)),
                },
                old(global_scope)@,
            ),
            r,
            final(global_scope)@,
        ),
    decreases *assignment, 1int,
{
    if assignment.new_definition && global_scope.contains(&assignment.ident) {
        return Err(EvalError::AlreadyDefined(assignment.ident.clone()));
    }
    let result = match eval_expression(&assignment.value, global_scope) {
        Ok(a) => a,
        Err(e) => return Err(e),
    };
    global_scope.set(assignment.ident.clone(), result);
    Ok(())
}

/// Evaluate one expression to a runtime value; expressions never yield the
/// interrupt sentinel.  Result and final scope are `ev_expr` of the
/// expression's model.
pub fn eval_expression(e: &Expression, global_scope: &mut Scope) -> (r: Result<Atomic, EvalError>)
    requires
        wf_expr_v(expr_v(*e)),
        scope_ok(old(global_scope)@),
    ensures
        scope_ok(final(global_scope)@),
        r matches Ok(a) ==> !(atomic_v(a) is Interrupt),
        out_matches(ev_expr(expr_v(*e), old(global_scope)@), r, final(global_scope)@),
    decreases *e, 0int,
{
    match e {
        Expression::Atomic(atomic) => Ok(atomic.duplicate()),
        Expression::Ident(ident) => match global_scope.get_value(ident) {
            Some(a) => Ok(a),
            None => Err(EvalError::UndefinedVariable(ident.clone())),
        },
        Expression::Input(expression) => {
            let prompt = match expression.as_string(global_scope) {
                Ok(s) => s,
                Err(e2) => return Err(e2),
            };
            print_line(prompt.as_str());
            match read_input_line() {
                Some(s) => Ok(Atomic::String(s)),
                None => Err(EvalError::InputFailed),
            }
        },
        Expression::LogicOp(logic_operation) => eval_logic_op(logic_operation, global_scope),
        Expression::Comparison(comparison) => eval_comparison(comparison, global_scope),
        Expression::BinaryOp(num_op) => eval_binary_op(num_op, global_scope),
        Expression::Conditional(conditional) => eval_conditional_expression(
            conditional,
            global_scope,
        ),
        Expression::Cast(cast) => match &**cast {
            Cast::String(expr) => {
                let result = match expr.as_string(global_scope) {
                    Ok(s) => s,
                    Err(e2) => return Err(e2),
                };
                Ok(Atomic::String(result))
            },
            Cast::Int(expr) => {
                let result = match expr.as_num(global_scope) {
                    Ok(n) => n,
                    Err(e2) => return Err(e2),
                };
                Ok(Atomic::Number(result))
            },
            Cast::Bool(expr) => {
                let result = match expr.as_bool(global_scope) {
                    Ok(b) => b,
                    Err(e2) => return Err(e2),
                };
                Ok(Atomic::Bool(result))
            },
        },
    }
}

/// Run an if/else used as a value: exactly one branch's body runs, for its
/// side effects only — its errors are swallowed — and that branch's result
/// expression gives the value, as `ev_expr` of the conditional's model
/// states.
fn eval_conditional_expression(conditional: &ConditionalExpression, global_scope: &mut Scope) -> (r:
    Result<Atomic, EvalError>)
    requires
        wf_expr_v(expr_v(*conditional.condition)),
        wf_tokens_v(tokens_v(conditional.body@)),
        wf_expr_v(expr_v(*conditional.body_expression)),
        wf_tokens_v(tokens_v(conditional.else_body@)),
        wf_expr_v(expr_v(*conditional.else_body_expression)),
        scope_ok(old(global_scope)@),
    ensures
        scope_ok(final(global_scope)@),
        r matches Ok(a) ==> !(atomic_v(a) is Interrupt),
        out_matches(
            ev_expr(
                ExprV::Conditional {
                    condition: Box::new(expr_v(*conditional.condition)),
                    body: tokens_v(conditional.body@),
                    body_expression: Box::new(expr_v(*conditional.body_expression)),
                    else_body: tokens_v(conditional.else_body@),
                    else_body_expression: Box::new(expr_v(*conditional.else_body_expression)),
                },
                old(global_scope)@,
            ),
            r,
            final(global_scope)@,
        ),
    decreases *conditional, 1int,
{
    let condition = match conditional.condition.as_bool(global_scope) {
        Ok(c) => c,
        Err(e) => return Err(e),
    };
    if condition {
        let _ignored = eval_tokens(&conditional.body, global_scope);
        eval_expression(&conditional.body_expression, global_scope)
    } else {
        let _ignored = eval_tokens(&conditional.else_body, global_scope);
        eval_expression(&conditional.else_body_expression, global_scope)
    }
}

/// Both operands are always evaluated and coerced to booleans; there is no
/// short-circuiting.  Result and final scope are `ev_expr` of the
/// operation's model.
fn eval_logic_op(logic_operation: &LogicOp, global_scope: &mut Scope) -> (r: Result<
    Atomic,
    EvalError,
>)
    requires
        (match *logic_operation {
            LogicOp::And(ref a, ref b) => wf_expr_v(expr_v(*a)) && wf_expr_v(expr_v(*b)),
            LogicOp::Or(ref a, ref b) => wf_expr_v(expr_v(*a)) && wf_expr_v(expr_v(*b)),
        }),
        scope_ok(old(global_scope)@),
    ensures
        scope_ok(final(global_scope)@),
        r matches Ok(a) ==> atomic_v(a) is Bool,
        out_matches(
            ev_expr(expr_v(Expression::LogicOp(Box::new(*logic_operation))), old(global_scope)@),
            r,
            final(global_scope)@,
        ),
    decreases *logic_operation, 1int,
{
    match logic_operation {
        LogicOp::And(lhs, rhs) => {
            let l = match lhs.as_bool(global_scope) {
                Ok(b) => b,
                Err(e) => return Err(e),
            };
            let r = match rhs.as_bool(global_scope) {
                Ok(b) => b,
                Err(e) => return Err(e),
            };
            Ok(Atomic::Bool(l && r))
        },
        LogicOp::Or(lhs, rhs) => {
            let l = match lhs.as_bool(global_scope) {
                Ok(b) => b,
                Err(e) => return Err(e),
            };
            let r = match rhs.as_bool(global_scope) {
                Ok(b) => b,
                Err(e) => return Err(e),
            };
            Ok(Atomic::Bool(l || r))
        },
    }
}

/// The numeric half of a comparison attempt: the coerced number of an
/// evaluation result, if the evaluation succeeded and the value coerces.
fn num_attempt(r: &Result<Atomic, EvalError>) -> (o: Option<i64>)
    requires
        (*r matches Ok(a) ==> wf_atomic_v(atomic_v(a))),
    ensures
        o is Some <==> (*r matches Ok(a) && coerce_num(atomic_v(a)) is Some),
        o matches Some(m) ==> (*r matches Ok(a) && coerce_num(atomic_v(a)) == Option::Some(
            m as int,
        )),
{
    match r {
        Ok(a) => match atomic_as_num(a) {
            Ok(n) => Option::Some(n),
            Err(_) => Option::None,
        },
        Err(_) => Option::None,
    }
}

/// The text half of a comparison attempt: the text of an evaluation
/// result, if the evaluation succeeded.
fn text_attempt(r: &Result<Atomic, EvalError>) -> (o: Option<String>)
    ensures
        o is Some <==> r is Ok,
        o matches Some(s) ==> (*r matches Ok(a) && s@ == text_of(atomic_v(a))),
{
    match r {
        Ok(a) => Option::Some(a.to_text()),
        Err(_) => Option::None,
    }
}

/// A comparison first tries to coerce both evaluated sides to numbers; if
/// either side fails — to evaluate or to coerce — both sides are evaluated
/// again and compared as text.  Only when that also fails is the
/// comparison an error.  Result and final scope are `ev_expr` of the
/// comparison's model.
fn eval_comparison(comparison: &Comparison, global_scope: &mut Scope) -> (r: Result<
    Atomic,
    EvalError,
>)
    requires
        (match *comparison {
            Comparison::Smaller(ref a, ref b) => wf_expr_v(expr_v(*a)) && wf_expr_v(expr_v(*b)),
            Comparison::SmallerEquals(ref a, ref b) => wf_expr_v(expr_v(*a)) && wf_expr_v(
                expr_v(*b),
            ),
            Comparison::Equals(ref a, ref b) => wf_expr_v(expr_v(*a)) && wf_expr_v(expr_v(*b)),
            Comparison::Greater(ref a, ref b) => wf_expr_v(expr_v(*a)) && wf_expr_v(expr_v(*b)),
            Comparison::GreaterEquals(ref a, ref b) => wf_expr_v(expr_v(*a)) && wf_expr_v(
                expr_v(*b),
            ),
        }),
        scope_ok(old(global_scope)@),
    ensures
        scope_ok(final(global_scope)@),
        r matches Ok(a) ==> atomic_v(a) is Bool,
        out_matches(
            ev_expr(expr_v(Expression::Comparison(Box::new(*comparison))), old(global_scope)@),
            r,
            final(global_scope)@,
        ),
    decreases *comparison, 1int,
{
    match comparison {
        Comparison::Smaller(lhs, rhs) => compare_sides(
            CmpTag::Smaller,
            lhs,
            rhs,
            global_scope,
            Ghost(*comparison),
        ),
        Comparison::SmallerEquals(lhs, rhs) => compare_sides(
            CmpTag::SmallerEquals,
            lhs,
            rhs,
            global_scope,
            Ghost(*comparison),
        ),
        Comparison::Equals(lhs, rhs) => compare_sides(
            CmpTag::Equals,
            lhs,
            rhs,
            global_scope,
            Ghost(*comparison),
        ),
        Comparison::Greater(lhs, rhs) => compare_sides(
            CmpTag::Greater,
            lhs,
            rhs,
            global_scope,
            Ghost(*comparison),
        ),
        Comparison::GreaterEquals(lhs, rhs) => compare_sides(
            CmpTag::GreaterEquals,
            lhs,
            rhs,
            global_scope,
            Ghost(*comparison),
        ),
    }
}

/// One comparison, both attempts.
fn compare_sides(
    t: CmpTag,
    lhs: &Expression,
    rhs: &Expression,
    global_scope: &mut Scope,
    parent: Ghost<Comparison>,
) -> (r: Result<Atomic, EvalError>)
    requires
        wf_expr_v(expr_v(*lhs)),
        wf_expr_v(expr_v(*rhs)),
        scope_ok(old(global_scope)@),
        decreases_to!(parent@ => *lhs),
        decreases_to!(parent@ => *rhs),
    ensures
        scope_ok(final(global_scope)@),
        r matches Ok(a) ==> atomic_v(a) is Bool,
        out_matches(
            ev_expr(
                ExprV::Cmp(t, Box::new(expr_v(*lhs)), Box::new(expr_v(*rhs))),
                old(global_scope)@,
            ),
            r,
            final(global_scope)@,
        ),
    decreases parent@, 0int,
{
    let ghost m_in = global_scope@;
    let l1 = eval_expression(lhs, global_scope);
    let ghost m_l1 = global_scope@;
    let r1 = eval_expression(rhs, global_scope);
    let ghost m_r1 = global_scope@;
    let ln = num_attempt(&l1);
    let rn = num_attempt(&r1);
    match (ln, rn) {
        (Option::Some(a), Option::Some(b)) => Ok(Atomic::Bool(cmp_ints_exec(t, a, b))),
        _ => {
            let l2 = eval_expression(lhs, global_scope);
            let ghost m_l2 = global_scope@;
            let r2 = eval_expression(rhs, global_scope);
            let ls = text_attempt(&l2);
            let rs = text_attempt(&r2);
            match (ls, rs) {
                (Option::Some(a), Option::Some(b)) => Ok(
                    Atomic::Bool(cmp_strs_exec(t, &a, &b)),
                ),
                _ => Err(EvalError::InvalidOperands),
            }
        },
    }
}

/// `Plus` concatenates when strings are involved and adds two numbers;
/// every other operator coerces both sides to numbers, left first.
/// Result and final scope are `ev_expr` of the operation's model.
fn eval_binary_op(num_op: &BinaryOp, global_scope: &mut Scope) -> (r: Result<Atomic, EvalError>)
    requires
        wf_expr_v(expr_v(Expression::BinaryOp(Box::new(*num_op)))),
        scope_ok(old(global_scope)@),
    ensures
        scope_ok(final(global_scope)@),
        r matches Ok(a) ==> !(atomic_v(a) is Interrupt),
        out_matches(
            ev_expr(expr_v(Expression::BinaryOp(Box::new(*num_op))), old(global_scope)@),
            r,
            final(global_scope)@,
        ),
    decreases *num_op, 1int,
{
    match num_op {
        BinaryOp::Plus { left, right } => {
            let l = match eval_expression(left, global_scope) {
                Ok(a) => a,
                Err(e) => return Err(e),
            };
            let r = match eval_expression(right, global_scope) {
                Ok(a) => a,
                Err(e) => return Err(e),
            };
            plus_atomics(&l, &r)
        },
        BinaryOp::Minus { left, right } => num_sides(
            ArithTag::Minus,
            left,
            right,
            global_scope,
            Ghost(*num_op),
        ),
        BinaryOp::Mul { left, right } => num_sides(
            ArithTag::Mul,
            left,
            right,
            global_scope,
            Ghost(*num_op),
        ),
        BinaryOp::Div { left, right } => num_sides(
            ArithTag::Div,
            left,
            right,
            global_scope,
            Ghost(*num_op),
        ),
        BinaryOp::Mod { left, right } => num_sides(
            ArithTag::Mod,
            left,
            right,
            global_scope,
            Ghost(*num_op),
        ),
        BinaryOp::Pow { left, right } => num_sides(
            ArithTag::Pow,
            left,
            right,
            global_scope,
            Ghost(*num_op),
        ),
        BinaryOp::Unset => Err(EvalError::InvalidOperands),
    }
}

/// One numeric operator: coerce the left side, then the right, then apply.
fn num_sides(
    t: ArithTag,
    left: &Expression,
    right: &Expression,
    global_scope: &mut Scope,
    parent: Ghost<BinaryOp>,
) -> (r: Result<Atomic, EvalError>)
    requires
        !(t is Plus),
        wf_expr_v(expr_v(*left)),
        wf_expr_v(expr_v(*right)),
        scope_ok(old(global_scope)@),
        decreases_to!(parent@ => *left),
        decreases_to!(parent@ => *right),
    ensures
        scope_ok(final(global_scope)@),
        r matches Ok(a) ==> atomic_v(a) is Num,
        out_matches(
            ev_expr(
                ExprV::Arith(t, Box::new(expr_v(*left)), Box::new(expr_v(*right))),
                old(global_scope)@,
            ),
            r,
            final(global_scope)@,
        ),
    decreases parent@, 0int,
{
    let ln = match left.as_num(global_scope) {
        Ok(n) => n,
        Err(e) => return Err(e),
    };
    let rn = match right.as_num(global_scope) {
        Ok(n) => n,
        Err(e) => return Err(e),
    };
    match arith_nums(t, ln, rn) {
        Ok(n) => Ok(Atomic::Number(n)),
        Err(e) => Err(e),
    }
}

} // verus!
