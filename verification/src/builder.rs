//! The tree builder: from the generic parse tree to the typed syntax tree.
//!
//! Each builder function mirrors a spec-level `build_*_s` function over the
//! parse-tree model and is proved to return exactly its value.  A malformed
//! node shape has no build value (`None`); the builders require a shape
//! that builds, and an executable check (`body_builds`) lets callers test
//! that first.
//!
//! Arithmetic precedence: a flat operand/operator sequence is folded by
//! splitting at the last operator of the weakest tier — `+`/`-` below
//! `*`/`/`/`%` below `^` — which makes the two lower tiers group to the
//! left; a sequence of `^` alone splits at the first, grouping to the
//! right.

use vstd::prelude::*;

use crate::ast::{
    ArithTag, Atomic, AtomicV, BinaryOp, Cast, CmpTag, Comparison, Conditional,
    ConditionalExpression, Expression, ExprV, LogicOp, Loop, Statement, StmtV, Token, TokenV,
    VariableAssignment, atomic_v, expr_v, lemma_tokens_v_push, lemma_wf_tokens_v_push, stmt_v,
    token_v, tokens_v, wf_expr_v, wf_token_v, wf_tokens_v,
};
use crate::num::{parse_int, parse_int_v};
use crate::ptree::{NodeV, ParseNode, Rule, lemma_nodes_v_index, node_v, nodes_v};
use crate::text::{trim_str, trim_v};

verus! {

pub open spec fn is_arith_rule(r: Rule) -> bool {
    r == Rule::Plus || r == Rule::Minus || r == Rule::Mul || r == Rule::Div || r == Rule::ModOp
        || r == Rule::Pow
}

/// Operator tiers: additive lowest, multiplicative middle, power highest.
pub open spec fn prec_of(r: Rule) -> nat {
    if r == Rule::Plus || r == Rule::Minus {
        1
    } else if r == Rule::Mul || r == Rule::Div || r == Rule::ModOp {
        2
    } else if r == Rule::Pow {
        3
    } else {
        0
    }
}

pub open spec fn tag_of_rule(r: Rule) -> ArithTag {
    if r == Rule::Plus {
        ArithTag::Plus
    } else if r == Rule::Minus {
        ArithTag::Minus
    } else if r == Rule::Mul {
        ArithTag::Mul
    } else if r == Rule::Div {
        ArithTag::Div
    } else if r == Rule::ModOp {
        ArithTag::Mod
    } else {
        ArithTag::Pow
    }
}

/// The weakest tier among the operators.
pub open spec fn min_prec(ops: Seq<Rule>) -> nat
    decreases ops.len(),
{
    if ops.len() <= 1 {
        prec_of(ops[0])
    } else if prec_of(ops.last()) <= min_prec(ops.drop_last()) {
        prec_of(ops.last())
    } else {
        min_prec(ops.drop_last())
    }
}

/// The last index whose operator sits in the weakest tier.
pub open spec fn last_min_index(ops: Seq<Rule>) -> int
    decreases ops.len(),
{
    if ops.len() <= 1 {
        0
    } else if prec_of(ops.last()) <= min_prec(ops.drop_last()) {
        ops.len() - 1
    } else {
        last_min_index(ops.drop_last())
    }
}

/// Where the sequence splits: the last weakest operator, except that a
/// power-only sequence splits at its first operator (right association).
pub open spec fn pick_split(ops: Seq<Rule>) -> int {
    if min_prec(ops) == 3 {
        0
    } else {
        last_min_index(ops)
    }
}

/// The meaning of a flat operand/operator sequence as one expression.
pub open spec fn resolve_s(operands: Seq<ExprV>, ops: Seq<Rule>) -> ExprV
    decreases ops.len(),
{
    if ops.len() == 0 {
        operands[0]
    } else {
        let k0 = pick_split(ops);
        let k = if 0 <= k0 < ops.len() {
            k0
        } else {
            0
        };
        ExprV::Arith(
            tag_of_rule(ops[k]),
            Box::new(resolve_s(operands.take(k + 1), ops.take(k))),
            Box::new(resolve_s(operands.skip(k + 1), ops.skip(k + 1))),
        )
    }
}

pub open spec fn all_wf_exprs(es: Seq<ExprV>) -> bool {
    forall|i: int| 0 <= i < es.len() ==> wf_expr_v(#[trigger] es[i])
}

pub open spec fn exprs_v(es: Seq<Expression>) -> Seq<ExprV>
    decreases es,
{
    if es.len() == 0 {
        Seq::empty()
    } else {
        seq![expr_v(es[0])] + exprs_v(es.drop_first())
    }
}

pub broadcast proof fn lemma_exprs_v_index(es: Seq<Expression>, i: int)
    requires
        0 <= i < es.len(),
    ensures
        exprs_v(es).len() == es.len(),
        #[trigger] exprs_v(es)[i] == expr_v(es[i]),
    decreases es,
{
    lemma_exprs_v_len(es);
    if i > 0 {
        lemma_exprs_v_index(es.drop_first(), i - 1);
    }
}

pub broadcast proof fn lemma_exprs_v_len(es: Seq<Expression>)
    ensures
        #[trigger] exprs_v(es).len() == es.len(),
    decreases es,
{
    if es.len() > 0 {
        lemma_exprs_v_len(es.drop_first());
    }
}

proof fn lemma_exprs_v_push(es: Seq<Expression>, e: Expression)
    ensures
        exprs_v(es.push(e)) == exprs_v(es).push(expr_v(e)),
    decreases es,
{
    if es.len() == 0 {
        assert(es.push(e).drop_first() =~= Seq::<Expression>::empty());
        assert(exprs_v(es.push(e).drop_first()) == Seq::<ExprV>::empty());
        assert(es.push(e)[0] == e);
        assert(exprs_v(es.push(e)) == seq![expr_v(e)] + Seq::<ExprV>::empty());
        assert(exprs_v(es) == Seq::<ExprV>::empty());
        assert(seq![expr_v(e)] + Seq::<ExprV>::empty() =~= Seq::<ExprV>::empty().push(expr_v(e)));
    } else {
        lemma_exprs_v_push(es.drop_first(), e);
        assert(es.push(e).drop_first() =~= es.drop_first().push(e));
        assert(es.push(e)[0] == es[0]);
        assert(exprs_v(es.push(e)) == seq![expr_v(es[0])] + exprs_v(es.drop_first()).push(
            expr_v(e),
        ));
        assert(seq![expr_v(es[0])] + exprs_v(es.drop_first()).push(expr_v(e)) =~= (
        seq![expr_v(es[0])] + exprs_v(es.drop_first())).push(expr_v(e)));
    }
}

/// The literal forms an arithmetic operand may take.
pub open spec fn build_getlit_s(n: NodeV) -> Option<ExprV> {
    if n.children.len() == 0 {
        Option::None
    } else {
        let c = n.children[0];
        if c.rule == Rule::NumericLiteral {
            match parse_int_v(trim_v(c.text)) {
                Option::Some(v) => Option::Some(ExprV::Atomic(AtomicV::Num(v))),
                Option::None => Option::None,
            }
        } else if c.rule == Rule::VariableName {
            Option::Some(ExprV::Ident(c.text))
        } else if c.rule == Rule::StringLiteral {
            if c.children.len() >= 2 {
                Option::Some(ExprV::Atomic(AtomicV::Str(c.children[1].text)))
            } else {
                Option::None
            }
        } else {
            Option::None
        }
    }
}

/// Collect the alternating operand/operator children of an arithmetic
/// node: the built operand expressions and the operator rules.
pub open spec fn collect_s(cs: Seq<NodeV>) -> Option<(Seq<ExprV>, Seq<Rule>)>
    decreases cs, 1int,
{
    if cs.len() == 0 {
        Option::None
    } else if cs.len() == 1 {
        match build_arith_s(cs[0]) {
            Option::Some(e) => Option::Some((seq![e], Seq::empty())),
            Option::None => Option::None,
        }
    } else if !is_arith_rule(cs[1].rule) {
        Option::None
    } else {
        match build_arith_s(cs[0]) {
            Option::Some(e) => match collect_s(cs.skip(2)) {
                Option::Some(rest) => Option::Some(
                    (seq![e] + rest.0, seq![cs[1].rule] + rest.1),
                ),
                Option::None => Option::None,
            },
            Option::None => Option::None,
        }
    }
}

/// An arithmetic operand or sub-sequence: a nested sequence, a
/// parenthesised expression, or a literal.
pub open spec fn build_arith_s(n: NodeV) -> Option<ExprV>
    decreases n, 3int,
{
    if n.rule == Rule::BinaryNumExpression {
        match collect_s(n.children) {
            Option::Some(parts) => Option::Some(resolve_s(parts.0, parts.1)),
            Option::None => Option::None,
        }
    } else if n.rule == Rule::ParentExpression {
        if n.children.len() >= 1 {
            build_arith_s(n.children[0])
        } else {
            Option::None
        }
    } else if n.rule == Rule::Rvalue {
        build_getlit_s(n)
    } else {
        Option::None
    }
}

/// A literal node: boolean, string or numeric literal, identifier, or a
/// nested expression.
pub open spec fn build_literal_s(n: NodeV) -> Option<ExprV>
    decreases n, 2int,
{
    if n.children.len() == 0 {
        Option::None
    } else {
        let c = n.children[0];
        if c.rule == Rule::BooleanLiteral {
            if c.children.len() >= 1 && c.children[0].rule == Rule::TrueLiteral {
                Option::Some(ExprV::Atomic(AtomicV::Bool(true)))
            } else if c.children.len() >= 1 && c.children[0].rule == Rule::FalseLiteral {
                Option::Some(ExprV::Atomic(AtomicV::Bool(false)))
            } else {
                Option::None
            }
        } else if c.rule == Rule::StringLiteral {
            if c.children.len() >= 2 {
                Option::Some(ExprV::Atomic(AtomicV::Str(c.children[1].text)))
            } else {
                Option::None
            }
        } else if c.rule == Rule::VariableName {
            Option::Some(ExprV::Ident(c.text))
        } else if c.rule == Rule::NumericLiteral {
            match parse_int_v(trim_v(c.text)) {
                Option::Some(v) => Option::Some(ExprV::Atomic(AtomicV::Num(v))),
                Option::None => Option::None,
            }
        } else if c.rule == Rule::Expression {
            build_expr_s(c)
        } else {
            Option::None
        }
    }
}

pub open spec fn is_cmp_rule(r: Rule) -> bool {
    r == Rule::SmallerThan || r == Rule::SmallerEquals || r == Rule::Equals || r
        == Rule::GreaterEquals || r == Rule::GreaterThan
}

pub open spec fn cmp_tag_of_rule(r: Rule) -> CmpTag {
    if r == Rule::SmallerThan {
        CmpTag::Smaller
    } else if r == Rule::SmallerEquals {
        CmpTag::SmallerEquals
    } else if r == Rule::Equals {
        CmpTag::Equals
    } else if r == Rule::GreaterEquals {
        CmpTag::GreaterEquals
    } else {
        CmpTag::Greater
    }
}

/// A comparison node: literal, comparison operator, literal.
pub open spec fn build_boolexpr_s(n: NodeV) -> Option<ExprV>
    decreases n, 2int,
{
    if n.children.len() < 3 {
        Option::None
    } else {
        let cmp = n.children[1];
        if cmp.children.len() < 1 || !is_cmp_rule(cmp.children[0].rule) {
            Option::None
        } else {
            match (build_literal_s(n.children[0]), build_literal_s(n.children[2])) {
                (Option::Some(l), Option::Some(r)) => Option::Some(
                    ExprV::Cmp(cmp_tag_of_rule(cmp.children[0].rule), Box::new(l), Box::new(r)),
                ),
                _ => Option::None,
            }
        }
    }
}

/// One side of a logical operation: a literal or a comparison.
pub open spec fn build_boolop_side_s(n: NodeV) -> Option<ExprV>
    decreases n, 3int,
{
    if n.rule == Rule::Rvalue {
        build_literal_s(n)
    } else if n.rule == Rule::BooleanExpression {
        build_boolexpr_s(n)
    } else {
        Option::None
    }
}

/// A logical operation node: side, `and`/`or`, side.
pub open spec fn build_boolop_s(n: NodeV) -> Option<ExprV>
    decreases n, 2int,
{
    if n.children.len() < 3 {
        Option::None
    } else {
        let op = n.children[1].rule;
        if op != Rule::And && op != Rule::Or {
            Option::None
        } else {
            match (build_boolop_side_s(n.children[0]), build_boolop_side_s(n.children[2])) {
                (Option::Some(l), Option::Some(r)) => Option::Some(
                    if op == Rule::And {
                        ExprV::And(Box::new(l), Box::new(r))
                    } else {
                        ExprV::Or(Box::new(l), Box::new(r))
                    },
                ),
                _ => Option::None,
            }
        }
    }
}

/// An expression node, by its rule tag.
pub open spec fn build_expr_s(n: NodeV) -> Option<ExprV>
    decreases n, 4int,
{
    if n.rule == Rule::IfExpression {
        build_ifexpr_s(n)
    } else if n.rule == Rule::BinaryNumExpression {
        build_arith_s(n)
    } else if n.rule == Rule::BooleanOperation {
        build_boolop_s(n)
    } else if n.rule == Rule::BooleanExpression {
        build_boolexpr_s(n)
    } else if n.rule == Rule::Rvalue {
        build_literal_s(n)
    } else if n.rule == Rule::Expression {
        if n.children.len() == 0 {
            Option::None
        } else if n.children.len() == 1 {
            build_expr_s(n.children[0])
        } else {
            match build_expr_s(n.children[0]) {
                Option::Some(e) => build_cast_s(n.children[1], e),
                Option::None => Option::None,
            }
        }
    } else if n.rule == Rule::InputExpression {
        if n.children.len() >= 2 {
            match build_expr_s(n.children[1]) {
                Option::Some(e) => Option::Some(ExprV::Input(Box::new(e))),
                Option::None => Option::None,
            }
        } else {
            Option::None
        }
    } else {
        Option::None
    }
}

/// The cast node wrapped around an already-built expression: its second
/// child names the target type.
pub open spec fn build_cast_s(cast: NodeV, e: ExprV) -> Option<ExprV> {
    if cast.children.len() < 2 || cast.children[1].children.len() < 1 {
        Option::None
    } else {
        let t = cast.children[1].children[0].rule;
        if t == Rule::StringType {
            Option::Some(ExprV::CastString(Box::new(e)))
        } else if t == Rule::NumberType {
            Option::Some(ExprV::CastNum(Box::new(e)))
        } else if t == Rule::BoolType {
            Option::Some(ExprV::CastBool(Box::new(e)))
        } else {
            Option::None
        }
    }
}

/// An if/else used as a value: keyword, condition, body, result, else
/// keyword, else body, else result.
pub open spec fn build_ifexpr_s(n: NodeV) -> Option<ExprV>
    decreases n, 2int,
{
    if n.children.len() < 7 || n.children[1].children.len() < 1 || n.children[3].children.len() < 1
        || n.children[6].children.len() < 1 {
        Option::None
    } else {
        let cond = build_expr_s(n.children[1].children[0]);
        let body = build_body_s(n.children[2]);
        let bexpr = build_expr_s(n.children[3].children[0]);
        let ebody = build_body_s(n.children[5]);
        let eexpr = build_expr_s(n.children[6].children[0]);
        match (cond, body, bexpr, ebody, eexpr) {
            (
                Option::Some(c),
                Option::Some(b),
                Option::Some(be),
                Option::Some(eb),
                Option::Some(ee),
            ) => Option::Some(
                ExprV::Conditional {
                    condition: Box::new(c),
                    body: b,
                    body_expression: Box::new(be),
                    else_body: eb,
                    else_body_expression: Box::new(ee),
                },
            ),
            _ => Option::None,
        }
    }
}

/// A variable assignment: an optional `let` marker, the identifier, and
/// the value expression.
pub open spec fn build_varassign_s(n: NodeV) -> Option<StmtV>
    decreases n, 2int,
{
    if n.children.len() < 2 {
        Option::None
    } else {
        let is_new = n.children[0].rule == Rule::LetName;
        if is_new && n.children.len() < 3 {
            Option::None
        } else {
            let ident = if is_new {
                n.children[1].text
            } else {
                n.children[0].text
            };
            let value = if is_new {
                build_expr_s(n.children[2])
            } else {
                build_expr_s(n.children[1])
            };
            match value {
                Option::Some(v) => Option::Some(
                    StmtV::Assign { new_definition: is_new, ident, value: Box::new(v) },
                ),
                Option::None => Option::None,
            }
        }
    }
}

/// An if statement: keyword, condition, body, optionally an else marker
/// and else body.
pub open spec fn build_ifstmt_s(n: NodeV) -> Option<StmtV>
    decreases n, 2int,
{
    if n.children.len() < 3 || n.children[1].children.len() < 1 || (n.children.len() == 4) {
        Option::None
    } else {
        let cond = build_expr_s(n.children[1].children[0]);
        let body = build_body_s(n.children[2]);
        if n.children.len() == 3 {
            match (cond, body) {
                (Option::Some(c), Option::Some(b)) => Option::Some(
                    StmtV::Conditional {
                        condition: Box::new(c),
                        body: b,
                        else_body: Option::None,
                    },
                ),
                _ => Option::None,
            }
        } else {
            match (cond, body, build_body_s(n.children[4])) {
                (Option::Some(c), Option::Some(b), Option::Some(eb)) => Option::Some(
                    StmtV::Conditional {
                        condition: Box::new(c),
                        body: b,
                        else_body: Option::Some(eb),
                    },
                ),
                _ => Option::None,
            }
        }
    }
}

/// A while statement: keyword, condition, body.
pub open spec fn build_whilestmt_s(n: NodeV) -> Option<StmtV>
    decreases n, 2int,
{
    if n.children.len() < 3 || n.children[1].children.len() < 1 {
        Option::None
    } else {
        match (build_expr_s(n.children[1].children[0]), build_body_s(n.children[2])) {
            (Option::Some(c), Option::Some(b)) => Option::Some(
                StmtV::Loop { condition: Box::new(c), body: b },
            ),
            _ => Option::None,
        }
    }
}

/// A print statement: keyword, expression.
pub open spec fn build_printstmt_s(n: NodeV) -> Option<StmtV>
    decreases n, 2int,
{
    if n.children.len() < 2 {
        Option::None
    } else {
        match build_expr_s(n.children[1]) {
            Option::Some(e) => Option::Some(StmtV::Print(Box::new(e))),
            Option::None => Option::None,
        }
    }
}

/// A statement node: dispatch on the inner rule.  An inner rule that is
/// none of the five statement kinds is silently skipped (the outer
/// `Option` is the build result; the inner one is the token, absent for a
/// skipped node).
pub open spec fn build_stmt_token_s(n: NodeV) -> Option<Option<TokenV>>
    decreases n, 3int,
{
    if n.children.len() < 1 {
        Option::None
    } else {
        let inner = n.children[0];
        if inner.rule == Rule::VariableStatement {
            match build_varassign_s(inner) {
                Option::Some(s) => Option::Some(Option::Some(TokenV::Stmt(s))),
                Option::None => Option::None,
            }
        } else if inner.rule == Rule::IfStatement {
            match build_ifstmt_s(inner) {
                Option::Some(s) => Option::Some(Option::Some(TokenV::Stmt(s))),
                Option::None => Option::None,
            }
        } else if inner.rule == Rule::PrintStatement {
            match build_printstmt_s(inner) {
                Option::Some(s) => Option::Some(Option::Some(TokenV::Stmt(s))),
                Option::None => Option::None,
            }
        } else if inner.rule == Rule::ExpressionStatement {
            if inner.children.len() < 1 {
                Option::None
            } else {
                match build_expr_s(inner.children[0]) {
                    Option::Some(e) => Option::Some(
                        Option::Some(TokenV::Stmt(StmtV::Expr(Box::new(e)))),
                    ),
                    Option::None => Option::None,
                }
            }
        } else if inner.rule == Rule::WhileStatement {
            match build_whilestmt_s(inner) {
                Option::Some(s) => Option::Some(Option::Some(TokenV::Stmt(s))),
                Option::None => Option::None,
            }
        } else {
            Option::Some(Option::None)
        }
    }
}

/// A sequence of block children, in source order.
pub open spec fn build_tokens_s(cs: Seq<NodeV>) -> Option<Seq<TokenV>>
    decreases cs, 0int,
{
    if cs.len() == 0 {
        Option::Some(Seq::empty())
    } else {
        let head = cs[0];
        let rest = build_tokens_s(cs.drop_first());
        if head.rule == Rule::BreakKeyword {
            match rest {
                Option::Some(ts) => Option::Some(seq![TokenV::Break] + ts),
                Option::None => Option::None,
            }
        } else if head.rule == Rule::Statement {
            match (build_stmt_token_s(head), rest) {
                (Option::Some(Option::Some(t)), Option::Some(ts)) => Option::Some(seq![t] + ts),
                (Option::Some(Option::None), Option::Some(ts)) => Option::Some(ts),
                _ => Option::None,
            }
        } else if head.rule == Rule::Expression {
            match (build_expr_s(head), rest) {
                (Option::Some(e), Option::Some(ts)) => Option::Some(
                    seq![TokenV::Expr(e)] + ts,
                ),
                _ => Option::None,
            }
        } else {
            Option::None
        }
    }
}

/// A block body: its children built in source order.
pub open spec fn build_body_s(n: NodeV) -> Option<Seq<TokenV>>
    decreases n, 1int,
{
    build_tokens_s(n.children)
}

fn prec_exec(r: Rule) -> (p: u64)
    ensures
        p as nat == prec_of(r),
{
    if r == Rule::Plus || r == Rule::Minus {
        1
    } else if r == Rule::Mul || r == Rule::Div || r == Rule::ModOp {
        2
    } else if r == Rule::Pow {
        3
    } else {
        0
    }
}

fn mk_binop(op: Rule, l: Expression, rr: Expression) -> (e: Expression)
    requires
        is_arith_rule(op),
    ensures
        expr_v(e) == ExprV::Arith(tag_of_rule(op), Box::new(expr_v(l)), Box::new(expr_v(rr))),
        wf_expr_v(expr_v(l)) && wf_expr_v(expr_v(rr)) ==> wf_expr_v(expr_v(e)),
{
    if op == Rule::Plus {
        Expression::BinaryOp(Box::new(BinaryOp::Plus { left: l, right: rr }))
    } else if op == Rule::Minus {
        Expression::BinaryOp(Box::new(BinaryOp::Minus { left: l, right: rr }))
    } else if op == Rule::Mul {
        Expression::BinaryOp(Box::new(BinaryOp::Mul { left: l, right: rr }))
    } else if op == Rule::Div {
        Expression::BinaryOp(Box::new(BinaryOp::Div { left: l, right: rr }))
    } else if op == Rule::ModOp {
        Expression::BinaryOp(Box::new(BinaryOp::Mod { left: l, right: rr }))
    } else {
        Expression::BinaryOp(Box::new(BinaryOp::Pow { left: l, right: rr }))
    }
}

/// Fold an operand/operator sequence into one expression, splitting as
/// `resolve_s` prescribes.
fn resolve_ops(operands: Vec<Expression>, ops: Vec<Rule>) -> (e: Expression)
    requires
        operands@.len() == ops@.len() + 1,
        forall|i: int| 0 <= i < ops@.len() ==> is_arith_rule(#[trigger] ops@[i]),
        all_wf_exprs(exprs_v(operands@)),
    ensures
        expr_v(e) == resolve_s(exprs_v(operands@), ops@),
        wf_expr_v(expr_v(e)),
    decreases ops@.len(),
{
    broadcast use lemma_exprs_v_index, lemma_exprs_v_len;

    let mut operands = operands;
    let mut ops = ops;
    if ops.len() == 0 {
        let e = match operands.pop() {
            Some(e) => e,
            None => unreached(),
        };
        e
    } else {
        let len = ops.len();
        let mut cur_min: u64 = prec_exec(ops[0]);
        let mut cur_idx: usize = 0;
        proof {
            assert(ops@.take(1).len() == 1);
            assert(ops@.take(1)[0] == ops@[0]);
        }
        let mut i: usize = 1;
        while i < len
            invariant
                1 <= i <= len,
                len == ops@.len(),
                forall|j: int| 0 <= j < ops@.len() ==> is_arith_rule(#[trigger] ops@[j]),
                cur_min as nat == min_prec(ops@.take(i as int)),
                cur_idx as int == last_min_index(ops@.take(i as int)),
                cur_idx < i,
            decreases len - i,
        {
            let p = prec_exec(ops[i]);
            proof {
                assert(ops@.take(i as int + 1).drop_last() =~= ops@.take(i as int));
                assert(ops@.take(i as int + 1).last() == ops@[i as int]);
            }
            if p <= cur_min {
                cur_min = p;
                cur_idx = i;
            }
            i = i + 1;
        }
        proof {
            assert(ops@.take(len as int) =~= ops@);
        }
        let k: usize = if cur_min == 3 {
            0
        } else {
            cur_idx
        };
        let ghost ops0 = ops@;
        let ghost operands0 = operands@;
        let right_ops = ops.split_off(k + 1);
        let op = match ops.pop() {
            Some(o) => o,
            None => unreached(),
        };
        let right_operands = operands.split_off(k + 1);
        proof {
            assert(ops@ =~= ops0.take(k as int));
            assert(right_ops@ =~= ops0.skip(k as int + 1));
            assert(operands@ =~= operands0.take(k as int + 1));
            assert(right_operands@ =~= operands0.skip(k as int + 1));
            assert(op == ops0[k as int]);
            assert(exprs_v(operands0.take(k as int + 1)) =~= exprs_v(operands0).take(
                k as int + 1,
            ));
            assert(exprs_v(operands0.skip(k as int + 1)) =~= exprs_v(operands0).skip(
                k as int + 1,
            ));
            assert(all_wf_exprs(exprs_v(operands@)));
            assert(all_wf_exprs(exprs_v(right_operands@)));
        }
        let le = resolve_ops(operands, ops);
        let re = resolve_ops(right_operands, right_ops);
        let e = mk_binop(op, le, re);
        e
    }
}

/// Read a literal in arithmetic-operand position.
pub fn get_literal(pair: &ParseNode) -> (e: Expression)
    requires
        build_getlit_s(node_v(*pair)) is Some,
    ensures
        expr_v(e) == build_getlit_s(node_v(*pair)).unwrap(),
        wf_expr_v(expr_v(e)),
{
    proof {
        crate::ptree::lemma_nodes_v_len(pair.children@);
        crate::ptree::lemma_nodes_v_index(pair.children@, 0);
    }
    let c = &pair.children[0];
    if c.rule == Rule::NumericLiteral {
        let t = trim_str(c.text.as_str());
        match parse_int(t) {
            Some(v) => Expression::Atomic(Atomic::Number(v)),
            None => unreached(),
        }
    } else if c.rule == Rule::VariableName {
        Expression::Ident(c.text.clone())
    } else {
        proof {
            crate::ptree::lemma_nodes_v_len(c.children@);
            crate::ptree::lemma_nodes_v_index(c.children@, 1);
        }
        Expression::Atomic(Atomic::String(c.children[1].text.clone()))
    }
}

/// One arithmetic operand or nested sequence.
fn consume_bin_num_op(pair: &ParseNode) -> (e: Expression)
    requires
        build_arith_s(node_v(*pair)) is Some,
    ensures
        expr_v(e) == build_arith_s(node_v(*pair)).unwrap(),
        wf_expr_v(expr_v(e)),
    decreases *pair, 0int,
{
    broadcast use lemma_nodes_v_index;

    if pair.rule == Rule::BinaryNumExpression {
        let ghost cv = node_v(*pair).children;
        let n_children = pair.children.len();
        proof {
            crate::ptree::lemma_nodes_v_len(pair.children@);
            assert(cv.skip(0) =~= cv);
            assert(exprs_v(Seq::<Expression>::empty()) == Seq::<ExprV>::empty());
            assert(Seq::<ExprV>::empty() + collect_s(cv).unwrap().0 =~= collect_s(
                cv,
            ).unwrap().0);
            assert(Seq::<Rule>::empty() + collect_s(cv).unwrap().1 =~= collect_s(cv).unwrap().1);
            assert(all_wf_exprs(Seq::<ExprV>::empty()));
        }
        let mut operands: Vec<Expression> = Vec::new();
        let mut ops: Vec<Rule> = Vec::new();
        let mut j: usize = 0;
        loop
            invariant_except_break
                j % 2 == 0,
                collect_s(cv.skip(j as int)) is Some,
                operands@.len() == ops@.len(),
                j == 2 * ops@.len(),
                collect_s(cv).unwrap().0 == exprs_v(operands@) + collect_s(
                    cv.skip(j as int),
                ).unwrap().0,
                collect_s(cv).unwrap().1 == ops@ + collect_s(cv.skip(j as int)).unwrap().1,
                all_wf_exprs(exprs_v(operands@)),
            invariant
                j <= n_children,
                n_children == pair.children@.len(),
                cv.len() == n_children,
                cv == node_v(*pair).children,
                cv == nodes_v(pair.children@),
                collect_s(cv) is Some,
                forall|t: int| 0 <= t < ops@.len() ==> is_arith_rule(#[trigger] ops@[t]),
                build_arith_s(node_v(*pair)) is Some,
                pair.rule == Rule::BinaryNumExpression,
            ensures
                operands@.len() == ops@.len() + 1,
                forall|t: int| 0 <= t < ops@.len() ==> is_arith_rule(#[trigger] ops@[t]),
                all_wf_exprs(exprs_v(operands@)),
                collect_s(cv).unwrap().0 == exprs_v(operands@),
                collect_s(cv).unwrap().1 == ops@,
                collect_s(cv) is Some,
                build_arith_s(node_v(*pair)) is Some,
                cv == node_v(*pair).children,
            decreases n_children - j,
        {
            let ghost suffix = cv.skip(j as int);
            proof {
                if j < n_children {
                    crate::ptree::lemma_nodes_v_index(pair.children@, j as int);
                    assert(suffix[0] == cv[j as int]);
                    assert(cv[j as int] == node_v(pair.children@[j as int]));
                }
            }
            if j + 1 < n_children {
                proof {
                    crate::ptree::lemma_nodes_v_index(pair.children@, j as int + 1);
                    assert(suffix.len() >= 2);
                    assert(suffix[1] == cv[j as int + 1]);
                    assert(cv[j as int + 1] == node_v(pair.children@[j as int + 1]));
                    assert(suffix.skip(2) =~= cv.skip(j as int + 2));
                }
                let operand = consume_bin_num_op(&pair.children[j]);
                let op_rule = pair.children[j + 1].rule;
                proof {
                    lemma_exprs_v_push(operands@, operand);
                    assert(all_wf_exprs(exprs_v(operands@.push(operand))));
                    assert(exprs_v(operands@.push(operand)) + collect_s(
                        cv.skip(j as int + 2),
                    ).unwrap().0 =~= exprs_v(operands@) + collect_s(cv.skip(j as int)).unwrap().0);
                    assert(ops@.push(op_rule) + collect_s(cv.skip(j as int + 2)).unwrap().1
                        =~= ops@ + collect_s(cv.skip(j as int)).unwrap().1);
                }
                operands.push(operand);
                ops.push(op_rule);
                j = j + 2;
            } else if j < n_children {
                proof {
                    assert(suffix.len() == 1);
                }
                let operand = consume_bin_num_op(&pair.children[j]);
                proof {
                    lemma_exprs_v_push(operands@, operand);
                    assert(all_wf_exprs(exprs_v(operands@.push(operand))));
                    assert(exprs_v(operands@.push(operand)) =~= exprs_v(operands@) + collect_s(
                        cv.skip(j as int),
                    ).unwrap().0);
                    assert(ops@ + collect_s(cv.skip(j as int)).unwrap().1 =~= ops@);
                }
                operands.push(operand);
                break ;
            } else {
                proof {
                    assert(suffix.len() == 0);
                    assert(collect_s(suffix) is None);
                    assert(false);
                }
                break ;
            }
        }
        resolve_ops(operands, ops)
    } else if pair.rule == Rule::ParentExpression {
        proof {
            assert(node_v(*pair).children[0] == node_v(pair.children@[0]));
        }
        consume_bin_num_op(&pair.children[0])
    } else {
        get_literal(pair)
    }
}

/// Build the expression for a flat arithmetic sequence, honouring the
/// operator tiers.
pub fn evaluate_num_operations(pair: &ParseNode) -> (e: Expression)
    requires
        build_arith_s(node_v(*pair)) is Some,
    ensures
        expr_v(e) == build_arith_s(node_v(*pair)).unwrap(),
        wf_expr_v(expr_v(e)),
    decreases *pair, 1int,
{
    consume_bin_num_op(pair)
}

/// Read a literal: boolean, string or numeric literal, identifier, or a
/// nested expression.
fn as_literal(pair: &ParseNode) -> (e: Expression)
    requires
        build_literal_s(node_v(*pair)) is Some,
    ensures
        expr_v(e) == build_literal_s(node_v(*pair)).unwrap(),
        wf_expr_v(expr_v(e)),
    decreases *pair, 2int,
{
    proof {
        crate::ptree::lemma_nodes_v_len(pair.children@);
        crate::ptree::lemma_nodes_v_index(pair.children@, 0);
    }
    let c = &pair.children[0];
    if c.rule == Rule::BooleanLiteral {
        proof {
            crate::ptree::lemma_nodes_v_len(c.children@);
            crate::ptree::lemma_nodes_v_index(c.children@, 0);
        }
        if c.children[0].rule == Rule::TrueLiteral {
            Expression::Atomic(Atomic::Bool(true))
        } else {
            Expression::Atomic(Atomic::Bool(false))
        }
    } else if c.rule == Rule::StringLiteral {
        proof {
            crate::ptree::lemma_nodes_v_len(c.children@);
            crate::ptree::lemma_nodes_v_index(c.children@, 1);
        }
        Expression::Atomic(Atomic::String(c.children[1].text.clone()))
    } else if c.rule == Rule::VariableName {
        Expression::Ident(c.text.clone())
    } else if c.rule == Rule::NumericLiteral {
        let t = trim_str(c.text.as_str());
        match parse_int(t) {
            Some(v) => Expression::Atomic(Atomic::Number(v)),
            None => unreached(),
        }
    } else {
        as_expression(c)
    }
}

/// Turn a comparison-operator node into the comparison over two built
/// sides.
fn as_comparison(lhs: Expression, rhs: Expression, pair: &ParseNode) -> (e: Expression)
    requires
        node_v(*pair).children.len() >= 1,
        is_cmp_rule(node_v(*pair).children[0].rule),
    ensures
        expr_v(e) == ExprV::Cmp(
            cmp_tag_of_rule(node_v(*pair).children[0].rule),
            Box::new(expr_v(lhs)),
            Box::new(expr_v(rhs)),
        ),
        wf_expr_v(expr_v(lhs)) && wf_expr_v(expr_v(rhs)) ==> wf_expr_v(expr_v(e)),
{
    proof {
        crate::ptree::lemma_nodes_v_len(pair.children@);
        crate::ptree::lemma_nodes_v_index(pair.children@, 0);
    }
    let r = pair.children[0].rule;
    if r == Rule::SmallerThan {
        Expression::Comparison(Box::new(Comparison::Smaller(lhs, rhs)))
    } else if r == Rule::SmallerEquals {
        Expression::Comparison(Box::new(Comparison::SmallerEquals(lhs, rhs)))
    } else if r == Rule::Equals {
        Expression::Comparison(Box::new(Comparison::Equals(lhs, rhs)))
    } else if r == Rule::GreaterEquals {
        Expression::Comparison(Box::new(Comparison::GreaterEquals(lhs, rhs)))
    } else {
        Expression::Comparison(Box::new(Comparison::Greater(lhs, rhs)))
    }
}

/// A comparison node: literal, operator, literal.
fn as_boolean_expression(pair: &ParseNode) -> (e: Expression)
    requires
        build_boolexpr_s(node_v(*pair)) is Some,
    ensures
        expr_v(e) == build_boolexpr_s(node_v(*pair)).unwrap(),
        wf_expr_v(expr_v(e)),
    decreases *pair, 2int,
{
    proof {
        crate::ptree::lemma_nodes_v_len(pair.children@);
        crate::ptree::lemma_nodes_v_index(pair.children@, 0);
        crate::ptree::lemma_nodes_v_index(pair.children@, 1);
        crate::ptree::lemma_nodes_v_index(pair.children@, 2);
    }
    let lhs = as_literal(&pair.children[0]);
    let rhs = as_literal(&pair.children[2]);
    as_comparison(lhs, rhs, &pair.children[1])
}

/// A logical operation node: side, `and`/`or`, side.
fn as_boolean_operation(pair: &ParseNode) -> (e: Expression)
    requires
        build_boolop_s(node_v(*pair)) is Some,
    ensures
        expr_v(e) == build_boolop_s(node_v(*pair)).unwrap(),
        wf_expr_v(expr_v(e)),
    decreases *pair, 2int,
{
    proof {
        crate::ptree::lemma_nodes_v_len(pair.children@);
        crate::ptree::lemma_nodes_v_index(pair.children@, 0);
        crate::ptree::lemma_nodes_v_index(pair.children@, 1);
        crate::ptree::lemma_nodes_v_index(pair.children@, 2);
    }
    let lhs = &pair.children[0];
    let rhs = &pair.children[2];
    let lhs = if lhs.rule == Rule::Rvalue {
        as_literal(lhs)
    } else {
        as_boolean_expression(lhs)
    };
    let rhs = if rhs.rule == Rule::Rvalue {
        as_literal(rhs)
    } else {
        as_boolean_expression(rhs)
    };
    if pair.children[1].rule == Rule::And {
        Expression::LogicOp(Box::new(LogicOp::And(lhs, rhs)))
    } else {
        Expression::LogicOp(Box::new(LogicOp::Or(lhs, rhs)))
    }
}

/// Wrap an already-built expression in the cast the node names.
fn as_cast(cast: &ParseNode, expr: Expression) -> (e: Expression)
    requires
        build_cast_s(node_v(*cast), expr_v(expr)) is Some,
    ensures
        expr_v(e) == build_cast_s(node_v(*cast), expr_v(expr)).unwrap(),
        wf_expr_v(expr_v(expr)) ==> wf_expr_v(expr_v(e)),
{
    proof {
        crate::ptree::lemma_nodes_v_len(cast.children@);
        crate::ptree::lemma_nodes_v_index(cast.children@, 1);
        crate::ptree::lemma_nodes_v_len(cast.children@[1].children@);
        crate::ptree::lemma_nodes_v_index(cast.children@[1].children@, 0);
    }
    let inner = &cast.children[1].children[0];
    if inner.rule == Rule::StringType {
        Expression::Cast(Box::new(Cast::String(expr)))
    } else if inner.rule == Rule::NumberType {
        Expression::Cast(Box::new(Cast::Int(expr)))
    } else {
        Expression::Cast(Box::new(Cast::Bool(expr)))
    }
}

/// An input expression: prompts with the sub-expression's text and yields
/// the read line.
fn as_input_expression(expression: &ParseNode) -> (e: Expression)
    requires
        build_expr_s(node_v(*expression)) is Some,
    ensures
        expr_v(e) == ExprV::Input(Box::new(build_expr_s(node_v(*expression)).unwrap())),
        wf_expr_v(expr_v(e)),
    decreases *expression, 5int,
{
    Expression::Input(Box::new(as_expression(expression)))
}

/// An if/else used as a value.
fn as_if_expression(inner: &ParseNode) -> (e: Expression)
    requires
        build_ifexpr_s(node_v(*inner)) is Some,
    ensures
        expr_v(e) == build_ifexpr_s(node_v(*inner)).unwrap(),
        wf_expr_v(expr_v(e)),
    decreases *inner, 2int,
{
    proof {
        crate::ptree::lemma_nodes_v_len(inner.children@);
        crate::ptree::lemma_nodes_v_index(inner.children@, 1);
        crate::ptree::lemma_nodes_v_index(inner.children@, 2);
        crate::ptree::lemma_nodes_v_index(inner.children@, 3);
        crate::ptree::lemma_nodes_v_index(inner.children@, 5);
        crate::ptree::lemma_nodes_v_index(inner.children@, 6);
        crate::ptree::lemma_nodes_v_len(inner.children@[1].children@);
        crate::ptree::lemma_nodes_v_index(inner.children@[1].children@, 0);
        crate::ptree::lemma_nodes_v_len(inner.children@[3].children@);
        crate::ptree::lemma_nodes_v_index(inner.children@[3].children@, 0);
        crate::ptree::lemma_nodes_v_len(inner.children@[6].children@);
        crate::ptree::lemma_nodes_v_index(inner.children@[6].children@, 0);
    }
    let condition = as_expression(&inner.children[1].children[0]);
    let body = parse_body(&inner.children[2]);
    let body_expression = as_expression(&inner.children[3].children[0]);
    let else_body = parse_body(&inner.children[5]);
    let else_expression = as_expression(&inner.children[6].children[0]);
    Expression::Conditional(
        ConditionalExpression {
            condition: Box::new(condition),
            body,
            body_expression: Box::new(body_expression),
            else_body,
            else_body_expression: Box::new(else_expression),
        },
    )
}

fn as_binary_number_expression(pair: &ParseNode) -> (e: Expression)
    requires
        build_arith_s(node_v(*pair)) is Some,
    ensures
        expr_v(e) == build_arith_s(node_v(*pair)).unwrap(),
        wf_expr_v(expr_v(e)),
    decreases *pair, 2int,
{
    evaluate_num_operations(pair)
}

/// Build an expression node, by its rule tag.
fn as_expression(expression: &ParseNode) -> (e: Expression)
    requires
        build_expr_s(node_v(*expression)) is Some,
    ensures
        expr_v(e) == build_expr_s(node_v(*expression)).unwrap(),
        wf_expr_v(expr_v(e)),
    decreases *expression, 4int,
{
    if expression.rule == Rule::IfExpression {
        as_if_expression(expression)
    } else if expression.rule == Rule::BinaryNumExpression {
        as_binary_number_expression(expression)
    } else if expression.rule == Rule::BooleanOperation {
        as_boolean_operation(expression)
    } else if expression.rule == Rule::BooleanExpression {
        as_boolean_expression(expression)
    } else if expression.rule == Rule::Rvalue {
        as_literal(expression)
    } else if expression.rule == Rule::Expression {
        proof {
            crate::ptree::lemma_nodes_v_len(expression.children@);
            crate::ptree::lemma_nodes_v_index(expression.children@, 0);
        }
        let expr = as_expression(&expression.children[0]);
        if expression.children.len() >= 2 {
            proof {
                crate::ptree::lemma_nodes_v_index(expression.children@, 1);
            }
            as_cast(&expression.children[1], expr)
        } else {
            expr
        }
    } else {
        proof {
            crate::ptree::lemma_nodes_v_len(expression.children@);
            crate::ptree::lemma_nodes_v_index(expression.children@, 1);
        }
        as_input_expression(&expression.children[1])
    }
}

/// A variable assignment: `let` for a new binding, a bare name otherwise.
fn as_var_assignment(pair: &ParseNode) -> (t: Token)
    requires
        build_varassign_s(node_v(*pair)) is Some,
    ensures
        token_v(t) == TokenV::Stmt(build_varassign_s(node_v(*pair)).unwrap()),
        wf_token_v(token_v(t)),
    decreases *pair, 2int,
{
    proof {
        crate::ptree::lemma_nodes_v_len(pair.children@);
        crate::ptree::lemma_nodes_v_index(pair.children@, 0);
        crate::ptree::lemma_nodes_v_index(pair.children@, 1);
    }
    let is_new_var = pair.children[0].rule == Rule::LetName;
    let ident_name = if is_new_var {
        pair.children[1].text.clone()
    } else {
        pair.children[0].text.clone()
    };
    let expression = if is_new_var {
        proof {
            crate::ptree::lemma_nodes_v_index(pair.children@, 2);
        }
        as_expression(&pair.children[2])
    } else {
        as_expression(&pair.children[1])
    };
    Token::Statement(
        Statement::VariableAssignment(
            VariableAssignment {
                new_definition: is_new_var,
                ident: ident_name,
                value: expression,
            },
        ),
    )
}

/// An if statement: condition, body, and an optional else block.
fn as_if_statement(inner: &ParseNode) -> (t: Token)
    requires
        build_ifstmt_s(node_v(*inner)) is Some,
    ensures
        token_v(t) == TokenV::Stmt(build_ifstmt_s(node_v(*inner)).unwrap()),
        wf_token_v(token_v(t)),
    decreases *inner, 2int,
{
    proof {
        crate::ptree::lemma_nodes_v_len(inner.children@);
        crate::ptree::lemma_nodes_v_index(inner.children@, 1);
        crate::ptree::lemma_nodes_v_index(inner.children@, 2);
        crate::ptree::lemma_nodes_v_len(inner.children@[1].children@);
        crate::ptree::lemma_nodes_v_index(inner.children@[1].children@, 0);
    }
    let condition = as_expression(&inner.children[1].children[0]);
    let body = parse_body(&inner.children[2]);
    let mut else_body = None;
    if inner.children.len() > 3 {
        proof {
            crate::ptree::lemma_nodes_v_index(inner.children@, 4);
        }
        else_body = Some(parse_body(&inner.children[4]));
    }
    Token::Statement(
        Statement::Conditional(
            Conditional { condition: Box::new(condition), body, else_body },
        ),
    )
}

/// A while statement: condition and body.
fn as_while_statement(inner: &ParseNode) -> (t: Token)
    requires
        build_whilestmt_s(node_v(*inner)) is Some,
    ensures
        token_v(t) == TokenV::Stmt(build_whilestmt_s(node_v(*inner)).unwrap()),
        wf_token_v(token_v(t)),
    decreases *inner, 2int,
{
    proof {
        crate::ptree::lemma_nodes_v_len(inner.children@);
        crate::ptree::lemma_nodes_v_index(inner.children@, 1);
        crate::ptree::lemma_nodes_v_index(inner.children@, 2);
        crate::ptree::lemma_nodes_v_len(inner.children@[1].children@);
        crate::ptree::lemma_nodes_v_index(inner.children@[1].children@, 0);
    }
    let condition = as_expression(&inner.children[1].children[0]);
    let body = parse_body(&inner.children[2]);
    Token::Statement(Statement::Loop(Loop { condition: Box::new(condition), body }))
}

/// A print statement: the expression after the keyword.
fn as_print_statement(inner: &ParseNode) -> (t: Token)
    requires
        build_printstmt_s(node_v(*inner)) is Some,
    ensures
        token_v(t) == TokenV::Stmt(build_printstmt_s(node_v(*inner)).unwrap()),
        wf_token_v(token_v(t)),
    decreases *inner, 2int,
{
    proof {
        crate::ptree::lemma_nodes_v_len(inner.children@);
        crate::ptree::lemma_nodes_v_index(inner.children@, 1);
    }
    let string = as_expression(&inner.children[1]);
    Token::Statement(Statement::Print(string))
}

/// Build a block body: its children in source order.  A statement child
/// whose inner rule is none of the statement kinds is skipped.
pub fn parse_body(body: &ParseNode) -> (r: Vec<Token>)
    requires
        build_body_s(node_v(*body)) is Some,
    ensures
        tokens_v(r@) == build_body_s(node_v(*body)).unwrap(),
        wf_tokens_v(tokens_v(r@)),
    decreases *body, 1int,
{
    let ghost cv = node_v(*body).children;
    let n = body.children.len();
    proof {
        crate::ptree::lemma_nodes_v_len(body.children@);
        assert(cv.skip(0) =~= cv);
        assert(tokens_v(Seq::<Token>::empty()) == Seq::<TokenV>::empty());
        assert(Seq::<TokenV>::empty() + build_tokens_s(cv).unwrap() =~= build_tokens_s(
            cv,
        ).unwrap());
    }
    let mut tokens: Vec<Token> = Vec::new();
    let mut j: usize = 0;
    while j < n
        invariant
            j <= n,
            n == body.children@.len(),
            cv.len() == n,
            cv == node_v(*body).children,
            cv == nodes_v(body.children@),
            build_tokens_s(cv) is Some,
            build_tokens_s(cv.skip(j as int)) is Some,
            build_tokens_s(cv).unwrap() == tokens_v(tokens@) + build_tokens_s(
                cv.skip(j as int),
            ).unwrap(),
            wf_tokens_v(tokens_v(tokens@)),
        decreases n - j,
    {
        let ghost suffix = cv.skip(j as int);
        proof {
            crate::ptree::lemma_nodes_v_index(body.children@, j as int);
            assert(suffix[0] == cv[j as int]);
            assert(suffix.drop_first() =~= cv.skip(j as int + 1));
        }
        let child = &body.children[j];
        if child.rule == Rule::BreakKeyword {
            proof {
                lemma_tokens_v_push(tokens@, Token::Break);
                lemma_wf_tokens_v_push(tokens_v(tokens@), TokenV::Break);
                assert(tokens_v(tokens@).push(TokenV::Break) + build_tokens_s(
                    cv.skip(j as int + 1),
                ).unwrap() =~= tokens_v(tokens@) + build_tokens_s(cv.skip(j as int)).unwrap());
            }
            tokens.push(Token::Break);
        } else if child.rule == Rule::Statement {
            proof {
                assert(cv[j as int].rule == Rule::Statement);
                assert(build_stmt_token_s(cv[j as int]) is Some);
                assert(node_v(*child).children.len() >= 1);
                crate::ptree::lemma_nodes_v_len(child.children@);
                assert(child.children@.len() >= 1);
                crate::ptree::lemma_nodes_v_index(child.children@, 0);
            }
            let inner = &child.children[0];
            let stmt: Option<Token> = if inner.rule == Rule::VariableStatement {
                Some(as_var_assignment(inner))
            } else if inner.rule == Rule::IfStatement {
                Some(as_if_statement(inner))
            } else if inner.rule == Rule::PrintStatement {
                Some(as_print_statement(inner))
            } else if inner.rule == Rule::ExpressionStatement {
                proof {
                    crate::ptree::lemma_nodes_v_len(inner.children@);
                    crate::ptree::lemma_nodes_v_index(inner.children@, 0);
                }
                Some(
                    Token::Statement(
                        Statement::Expression(as_expression(&inner.children[0])),
                    ),
                )
            } else if inner.rule == Rule::WhileStatement {
                Some(as_while_statement(inner))
            } else {
                None
            };
            match stmt {
                Some(t) => {
                    proof {
                        lemma_tokens_v_push(tokens@, t);
                        lemma_wf_tokens_v_push(tokens_v(tokens@), token_v(t));
                        assert(tokens_v(tokens@).push(token_v(t)) + build_tokens_s(
                            cv.skip(j as int + 1),
                        ).unwrap() =~= tokens_v(tokens@) + build_tokens_s(
                            cv.skip(j as int),
                        ).unwrap());
                    }
                    tokens.push(t);
                },
                None => {},
            }
        } else {
            let e = as_expression(child);
            let t = Token::Expression(e);
            proof {
                lemma_tokens_v_push(tokens@, t);
                lemma_wf_tokens_v_push(tokens_v(tokens@), token_v(t));
                assert(tokens_v(tokens@).push(token_v(t)) + build_tokens_s(
                    cv.skip(j as int + 1),
                ).unwrap() =~= tokens_v(tokens@) + build_tokens_s(cv.skip(j as int)).unwrap());
            }
            tokens.push(t);
        }
        j = j + 1;
    }
    proof {
        assert(cv.skip(n as int) =~= Seq::<NodeV>::empty());
        assert(tokens_v(tokens@) + Seq::<TokenV>::empty() =~= tokens_v(tokens@));
    }
    tokens
}

/// Law: precedence and associativity of the fold.  With three operands,
/// an additive operator followed by a multiplicative one groups to the
/// right of the weaker operator, `a + (b * c)`; two power operators group
/// to the right, `a ^ (b ^ c)`; two additive operators group to the left,
/// `(a - b) - c`.
pub proof fn lemma_resolve_precedence(a: ExprV, b: ExprV, c: ExprV)
    ensures
        resolve_s(seq![a, b, c], seq![Rule::Plus, Rule::Mul]) == ExprV::Arith(
            ArithTag::Plus,
            Box::new(a),
            Box::new(ExprV::Arith(ArithTag::Mul, Box::new(b), Box::new(c))),
        ),
        resolve_s(seq![a, b, c], seq![Rule::Pow, Rule::Pow]) == ExprV::Arith(
            ArithTag::Pow,
            Box::new(a),
            Box::new(ExprV::Arith(ArithTag::Pow, Box::new(b), Box::new(c))),
        ),
        resolve_s(seq![a, b, c], seq![Rule::Minus, Rule::Minus]) == ExprV::Arith(
            ArithTag::Minus,
            Box::new(ExprV::Arith(ArithTag::Minus, Box::new(a), Box::new(b))),
            Box::new(c),
        ),
{
    let abc = seq![a, b, c];
    let bc = seq![b, c];
    let ab = seq![a, b];
    let e0: Seq<Rule> = Seq::empty();
    assert(seq![Rule::Plus][0] == Rule::Plus);
    assert(seq![Rule::Mul][0] == Rule::Mul);
    assert(seq![Rule::Minus][0] == Rule::Minus);
    assert(seq![Rule::Pow][0] == Rule::Pow);
    assert(min_prec(seq![Rule::Plus]) == 1);
    assert(min_prec(seq![Rule::Mul]) == 2);
    assert(min_prec(seq![Rule::Minus]) == 1);
    assert(min_prec(seq![Rule::Pow]) == 3);
    assert(last_min_index(seq![Rule::Mul]) == 0);
    assert(last_min_index(seq![Rule::Plus]) == 0);
    assert(last_min_index(seq![Rule::Minus]) == 0);
    assert(resolve_s(seq![a], e0) == a);
    assert(resolve_s(seq![b], e0) == b);
    assert(resolve_s(seq![c], e0) == c);

    assert(seq![Rule::Mul].take(0) =~= e0);
    assert(seq![Rule::Mul].skip(1) =~= e0);
    assert(bc.take(1) =~= seq![b]);
    assert(bc.skip(1) =~= seq![c]);
    assert(resolve_s(bc, seq![Rule::Mul]) == ExprV::Arith(
        ArithTag::Mul,
        Box::new(b),
        Box::new(c),
    ));

    let pm = seq![Rule::Plus, Rule::Mul];
    assert(pm.drop_last() =~= seq![Rule::Plus]);
    assert(pm.last() == Rule::Mul);
    assert(min_prec(pm) == 1);
    assert(last_min_index(pm) == 0);
    assert(pick_split(pm) == 0);
    assert(abc.take(1) =~= seq![a]);
    assert(abc.skip(1) =~= bc);
    assert(pm.take(0) =~= e0);
    assert(pm.skip(1) =~= seq![Rule::Mul]);
    assert(pm[0] == Rule::Plus);
    assert(resolve_s(abc, pm) == ExprV::Arith(
        ArithTag::Plus,
        Box::new(a),
        Box::new(ExprV::Arith(ArithTag::Mul, Box::new(b), Box::new(c))),
    ));

    assert(seq![Rule::Pow].take(0) =~= e0);
    assert(seq![Rule::Pow].skip(1) =~= e0);
    assert(resolve_s(bc, seq![Rule::Pow]) == ExprV::Arith(
        ArithTag::Pow,
        Box::new(b),
        Box::new(c),
    ));
    let pp = seq![Rule::Pow, Rule::Pow];
    assert(pp.drop_last() =~= seq![Rule::Pow]);
    assert(pp.last() == Rule::Pow);
    assert(min_prec(pp) == 3);
    assert(pick_split(pp) == 0);
    assert(pp.take(0) =~= e0);
    assert(pp.skip(1) =~= seq![Rule::Pow]);
    assert(pp[0] == Rule::Pow);
    assert(resolve_s(abc, pp) == ExprV::Arith(
        ArithTag::Pow,
        Box::new(a),
        Box::new(ExprV::Arith(ArithTag::Pow, Box::new(b), Box::new(c))),
    ));

    assert(seq![Rule::Minus].take(0) =~= e0);
    assert(seq![Rule::Minus].skip(1) =~= e0);
    assert(ab.take(1) =~= seq![a]);
    assert(ab.skip(1) =~= seq![b]);
    assert(resolve_s(ab, seq![Rule::Minus]) == ExprV::Arith(
        ArithTag::Minus,
        Box::new(a),
        Box::new(b),
    ));
    let mm = seq![Rule::Minus, Rule::Minus];
    assert(mm.drop_last() =~= seq![Rule::Minus]);
    assert(mm.last() == Rule::Minus);
    assert(min_prec(mm) == 1);
    assert(last_min_index(mm) == 1);
    assert(pick_split(mm) == 1);
    assert(abc.take(2) =~= ab);
    assert(abc.skip(2) =~= seq![c]);
    assert(mm.take(1) =~= seq![Rule::Minus]);
    assert(mm.skip(2) =~= e0);
    assert(mm[1] == Rule::Minus);
    assert(resolve_s(abc, mm) == ExprV::Arith(
        ArithTag::Minus,
        Box::new(ExprV::Arith(ArithTag::Minus, Box::new(a), Box::new(b))),
        Box::new(c),
    ));
}

fn is_arith_rule_exec(r: Rule) -> (b: bool)
    ensures
        b == is_arith_rule(r),
{
    r == Rule::Plus || r == Rule::Minus || r == Rule::Mul || r == Rule::Div || r == Rule::ModOp
        || r == Rule::Pow
}

/// Whether a literal in arithmetic-operand position builds.
fn check_getlit(pair: &ParseNode) -> (b: bool)
    ensures
        b == (build_getlit_s(node_v(*pair)) is Some),
{
    proof {
        crate::ptree::lemma_nodes_v_len(pair.children@);
    }
    if pair.children.len() == 0 {
        return false;
    }
    proof {
        crate::ptree::lemma_nodes_v_index(pair.children@, 0);
    }
    let c = &pair.children[0];
    if c.rule == Rule::NumericLiteral {
        parse_int(trim_str(c.text.as_str())).is_some()
    } else if c.rule == Rule::VariableName {
        true
    } else if c.rule == Rule::StringLiteral {
        proof {
            crate::ptree::lemma_nodes_v_len(c.children@);
        }
        c.children.len() >= 2
    } else {
        false
    }
}

/// Whether an arithmetic operand or sequence builds.
fn check_arith(pair: &ParseNode) -> (b: bool)
    ensures
        b == (build_arith_s(node_v(*pair)) is Some),
    decreases *pair, 0int,
{
    proof {
        crate::ptree::lemma_nodes_v_len(pair.children@);
    }
    if pair.rule == Rule::BinaryNumExpression {
        let ghost cv = node_v(*pair).children;
        let n_children = pair.children.len();
        proof {
            assert(cv.skip(0) =~= cv);
        }
        let mut j: usize = 0;
        loop
            invariant
                j % 2 == 0,
                j <= n_children,
                n_children == pair.children@.len(),
                cv.len() == n_children,
                cv == node_v(*pair).children,
                cv == nodes_v(pair.children@),
                pair.rule == Rule::BinaryNumExpression,
                collect_s(cv) is Some <==> collect_s(cv.skip(j as int)) is Some,
            decreases n_children - j,
        {
            let ghost suffix = cv.skip(j as int);
            proof {
                if j < n_children {
                    crate::ptree::lemma_nodes_v_index(pair.children@, j as int);
                    assert(suffix[0] == cv[j as int]);
                }
            }
            if j + 1 < n_children {
                proof {
                    crate::ptree::lemma_nodes_v_index(pair.children@, j as int + 1);
                    assert(suffix[1] == cv[j as int + 1]);
                    assert(suffix.skip(2) =~= cv.skip(j as int + 2));
                }
                if !check_arith(&pair.children[j]) {
                    return false;
                }
                if !is_arith_rule_exec(pair.children[j + 1].rule) {
                    return false;
                }
                j = j + 2;
            } else if j < n_children {
                proof {
                    assert(suffix.len() == 1);
                }
                return check_arith(&pair.children[j]);
            } else {
                proof {
                    assert(suffix.len() == 0);
                }
                return false;
            }
        }
    } else if pair.rule == Rule::ParentExpression {
        if pair.children.len() >= 1 {
            proof {
                crate::ptree::lemma_nodes_v_index(pair.children@, 0);
            }
            check_arith(&pair.children[0])
        } else {
            false
        }
    } else if pair.rule == Rule::Rvalue {
        check_getlit(pair)
    } else {
        false
    }
}

fn is_cmp_rule_exec(r: Rule) -> (b: bool)
    ensures
        b == is_cmp_rule(r),
{
    r == Rule::SmallerThan || r == Rule::SmallerEquals || r == Rule::Equals || r
        == Rule::GreaterEquals || r == Rule::GreaterThan
}

/// Whether a literal node builds.
fn check_literal(pair: &ParseNode) -> (b: bool)
    ensures
        b == (build_literal_s(node_v(*pair)) is Some),
    decreases *pair, 2int,
{
    proof {
        crate::ptree::lemma_nodes_v_len(pair.children@);
    }
    if pair.children.len() == 0 {
        return false;
    }
    proof {
        crate::ptree::lemma_nodes_v_index(pair.children@, 0);
    }
    let c = &pair.children[0];
    if c.rule == Rule::BooleanLiteral {
        proof {
            crate::ptree::lemma_nodes_v_len(c.children@);
            if c.children@.len() >= 1 {
                crate::ptree::lemma_nodes_v_index(c.children@, 0);
            }
        }
        c.children.len() >= 1 && (c.children[0].rule == Rule::TrueLiteral || c.children[0].rule
            == Rule::FalseLiteral)
    } else if c.rule == Rule::StringLiteral {
        proof {
            crate::ptree::lemma_nodes_v_len(c.children@);
        }
        c.children.len() >= 2
    } else if c.rule == Rule::VariableName {
        true
    } else if c.rule == Rule::NumericLiteral {
        parse_int(trim_str(c.text.as_str())).is_some()
    } else if c.rule == Rule::Expression {
        check_expr(c)
    } else {
        false
    }
}

/// Whether a comparison node builds.
fn check_boolexpr(pair: &ParseNode) -> (b: bool)
    ensures
        b == (build_boolexpr_s(node_v(*pair)) is Some),
    decreases *pair, 2int,
{
    proof {
        crate::ptree::lemma_nodes_v_len(pair.children@);
    }
    if pair.children.len() < 3 {
        return false;
    }
    proof {
        crate::ptree::lemma_nodes_v_index(pair.children@, 0);
        crate::ptree::lemma_nodes_v_index(pair.children@, 1);
        crate::ptree::lemma_nodes_v_index(pair.children@, 2);
        crate::ptree::lemma_nodes_v_len(pair.children@[1].children@);
        if pair.children@[1].children@.len() >= 1 {
            crate::ptree::lemma_nodes_v_index(pair.children@[1].children@, 0);
        }
    }
    let cmp = &pair.children[1];
    if cmp.children.len() < 1 || !is_cmp_rule_exec(cmp.children[0].rule) {
        return false;
    }
    check_literal(&pair.children[0]) && check_literal(&pair.children[2])
}

/// Whether one side of a logical operation builds.
fn check_boolop_side(pair: &ParseNode) -> (b: bool)
    ensures
        b == (build_boolop_side_s(node_v(*pair)) is Some),
    decreases *pair, 3int,
{
    if pair.rule == Rule::Rvalue {
        check_literal(pair)
    } else if pair.rule == Rule::BooleanExpression {
        check_boolexpr(pair)
    } else {
        false
    }
}

/// Whether a logical operation node builds.
fn check_boolop(pair: &ParseNode) -> (b: bool)
    ensures
        b == (build_boolop_s(node_v(*pair)) is Some),
    decreases *pair, 2int,
{
    proof {
        crate::ptree::lemma_nodes_v_len(pair.children@);
    }
    if pair.children.len() < 3 {
        return false;
    }
    proof {
        crate::ptree::lemma_nodes_v_index(pair.children@, 0);
        crate::ptree::lemma_nodes_v_index(pair.children@, 1);
        crate::ptree::lemma_nodes_v_index(pair.children@, 2);
    }
    let op = pair.children[1].rule;
    if op != Rule::And && op != Rule::Or {
        return false;
    }
    check_boolop_side(&pair.children[0]) && check_boolop_side(&pair.children[2])
}

/// Whether an expression node builds.
fn check_expr(pair: &ParseNode) -> (b: bool)
    ensures
        b == (build_expr_s(node_v(*pair)) is Some),
    decreases *pair, 4int,
{
    proof {
        crate::ptree::lemma_nodes_v_len(pair.children@);
    }
    if pair.rule == Rule::IfExpression {
        check_ifexpr(pair)
    } else if pair.rule == Rule::BinaryNumExpression {
        check_arith(pair)
    } else if pair.rule == Rule::BooleanOperation {
        check_boolop(pair)
    } else if pair.rule == Rule::BooleanExpression {
        check_boolexpr(pair)
    } else if pair.rule == Rule::Rvalue {
        check_literal(pair)
    } else if pair.rule == Rule::Expression {
        if pair.children.len() == 0 {
            return false;
        }
        proof {
            crate::ptree::lemma_nodes_v_index(pair.children@, 0);
        }
        if !check_expr(&pair.children[0]) {
            return false;
        }
        if pair.children.len() == 1 {
            return true;
        }
        proof {
            crate::ptree::lemma_nodes_v_index(pair.children@, 1);
            crate::ptree::lemma_nodes_v_len(pair.children@[1].children@);
            if pair.children@[1].children@.len() >= 2 {
                crate::ptree::lemma_nodes_v_index(pair.children@[1].children@, 1);
                crate::ptree::lemma_nodes_v_len(pair.children@[1].children@[1].children@);
                if pair.children@[1].children@[1].children@.len() >= 1 {
                    crate::ptree::lemma_nodes_v_index(
                        pair.children@[1].children@[1].children@,
                        0,
                    );
                }
            }
        }
        let cast = &pair.children[1];
        if cast.children.len() < 2 || cast.children[1].children.len() < 1 {
            return false;
        }
        let t = cast.children[1].children[0].rule;
        t == Rule::StringType || t == Rule::NumberType || t == Rule::BoolType
    } else if pair.rule == Rule::InputExpression {
        if pair.children.len() < 2 {
            return false;
        }
        proof {
            crate::ptree::lemma_nodes_v_index(pair.children@, 1);
        }
        check_expr(&pair.children[1])
    } else {
        false
    }
}

/// Whether an if/else used as a value builds.
fn check_ifexpr(pair: &ParseNode) -> (b: bool)
    ensures
        b == (build_ifexpr_s(node_v(*pair)) is Some),
    decreases *pair, 2int,
{
    proof {
        crate::ptree::lemma_nodes_v_len(pair.children@);
    }
    if pair.children.len() < 7 {
        return false;
    }
    proof {
        crate::ptree::lemma_nodes_v_index(pair.children@, 1);
        crate::ptree::lemma_nodes_v_index(pair.children@, 2);
        crate::ptree::lemma_nodes_v_index(pair.children@, 3);
        crate::ptree::lemma_nodes_v_index(pair.children@, 5);
        crate::ptree::lemma_nodes_v_index(pair.children@, 6);
        crate::ptree::lemma_nodes_v_len(pair.children@[1].children@);
        crate::ptree::lemma_nodes_v_len(pair.children@[3].children@);
        crate::ptree::lemma_nodes_v_len(pair.children@[6].children@);
        if pair.children@[1].children@.len() >= 1 {
            crate::ptree::lemma_nodes_v_index(pair.children@[1].children@, 0);
        }
        if pair.children@[3].children@.len() >= 1 {
            crate::ptree::lemma_nodes_v_index(pair.children@[3].children@, 0);
        }
        if pair.children@[6].children@.len() >= 1 {
            crate::ptree::lemma_nodes_v_index(pair.children@[6].children@, 0);
        }
    }
    if pair.children[1].children.len() < 1 || pair.children[3].children.len() < 1
        || pair.children[6].children.len() < 1 {
        return false;
    }
    check_expr(&pair.children[1].children[0]) && body_builds(&pair.children[2]) && check_expr(
        &pair.children[3].children[0],
    ) && body_builds(&pair.children[5]) && check_expr(&pair.children[6].children[0])
}

/// Whether a variable assignment builds.
fn check_varassign(pair: &ParseNode) -> (b: bool)
    ensures
        b == (build_varassign_s(node_v(*pair)) is Some),
    decreases *pair, 2int,
{
    proof {
        crate::ptree::lemma_nodes_v_len(pair.children@);
    }
    if pair.children.len() < 2 {
        return false;
    }
    proof {
        crate::ptree::lemma_nodes_v_index(pair.children@, 0);
        crate::ptree::lemma_nodes_v_index(pair.children@, 1);
    }
    let is_new = pair.children[0].rule == Rule::LetName;
    if is_new {
        if pair.children.len() < 3 {
            return false;
        }
        proof {
            crate::ptree::lemma_nodes_v_index(pair.children@, 2);
        }
        check_expr(&pair.children[2])
    } else {
        check_expr(&pair.children[1])
    }
}

/// Whether an if statement builds.
fn check_ifstmt(pair: &ParseNode) -> (b: bool)
    ensures
        b == (build_ifstmt_s(node_v(*pair)) is Some),
    decreases *pair, 2int,
{
    proof {
        crate::ptree::lemma_nodes_v_len(pair.children@);
    }
    if pair.children.len() < 3 || pair.children.len() == 4 {
        return false;
    }
    proof {
        crate::ptree::lemma_nodes_v_index(pair.children@, 1);
        crate::ptree::lemma_nodes_v_index(pair.children@, 2);
        crate::ptree::lemma_nodes_v_len(pair.children@[1].children@);
        if pair.children@[1].children@.len() >= 1 {
            crate::ptree::lemma_nodes_v_index(pair.children@[1].children@, 0);
        }
    }
    if pair.children[1].children.len() < 1 {
        return false;
    }
    if !check_expr(&pair.children[1].children[0]) || !body_builds(&pair.children[2]) {
        return false;
    }
    if pair.children.len() == 3 {
        true
    } else {
        proof {
            crate::ptree::lemma_nodes_v_index(pair.children@, 4);
        }
        body_builds(&pair.children[4])
    }
}

/// Whether a while statement builds.
fn check_whilestmt(pair: &ParseNode) -> (b: bool)
    ensures
        b == (build_whilestmt_s(node_v(*pair)) is Some),
    decreases *pair, 2int,
{
    proof {
        crate::ptree::lemma_nodes_v_len(pair.children@);
    }
    if pair.children.len() < 3 {
        return false;
    }
    proof {
        crate::ptree::lemma_nodes_v_index(pair.children@, 1);
        crate::ptree::lemma_nodes_v_index(pair.children@, 2);
        crate::ptree::lemma_nodes_v_len(pair.children@[1].children@);
        if pair.children@[1].children@.len() >= 1 {
            crate::ptree::lemma_nodes_v_index(pair.children@[1].children@, 0);
        }
    }
    if pair.children[1].children.len() < 1 {
        return false;
    }
    check_expr(&pair.children[1].children[0]) && body_builds(&pair.children[2])
}

/// Whether a print statement builds.
fn check_printstmt(pair: &ParseNode) -> (b: bool)
    ensures
        b == (build_printstmt_s(node_v(*pair)) is Some),
    decreases *pair, 2int,
{
    proof {
        crate::ptree::lemma_nodes_v_len(pair.children@);
    }
    if pair.children.len() < 2 {
        return false;
    }
    proof {
        crate::ptree::lemma_nodes_v_index(pair.children@, 1);
    }
    check_expr(&pair.children[1])
}

/// Whether a statement node builds (a skipped unknown kind builds too).
fn check_stmt_token(pair: &ParseNode) -> (b: bool)
    ensures
        b == (build_stmt_token_s(node_v(*pair)) is Some),
    decreases *pair, 3int,
{
    proof {
        crate::ptree::lemma_nodes_v_len(pair.children@);
    }
    if pair.children.len() < 1 {
        return false;
    }
    proof {
        crate::ptree::lemma_nodes_v_index(pair.children@, 0);
    }
    let inner = &pair.children[0];
    if inner.rule == Rule::VariableStatement {
        check_varassign(inner)
    } else if inner.rule == Rule::IfStatement {
        check_ifstmt(inner)
    } else if inner.rule == Rule::PrintStatement {
        check_printstmt(inner)
    } else if inner.rule == Rule::ExpressionStatement {
        proof {
            crate::ptree::lemma_nodes_v_len(inner.children@);
            if inner.children@.len() >= 1 {
                crate::ptree::lemma_nodes_v_index(inner.children@, 0);
            }
        }
        if inner.children.len() < 1 {
            return false;
        }
        check_expr(&inner.children[0])
    } else if inner.rule == Rule::WhileStatement {
        check_whilestmt(inner)
    } else {
        true
    }
}

/// Whether a whole block body builds: exactly when `parse_body` may be
/// called on the node.
pub fn body_builds(body: &ParseNode) -> (b: bool)
    ensures
        b == (build_body_s(node_v(*body)) is Some),
    decreases *body, 1int,
{
    let ghost cv = node_v(*body).children;
    let n = body.children.len();
    proof {
        crate::ptree::lemma_nodes_v_len(body.children@);
        assert(cv.skip(0) =~= cv);
    }
    let mut j: usize = 0;
    while j < n
        invariant
            j <= n,
            n == body.children@.len(),
            cv.len() == n,
            cv == node_v(*body).children,
            cv == nodes_v(body.children@),
            build_tokens_s(cv) is Some <==> build_tokens_s(cv.skip(j as int)) is Some,
        decreases n - j,
    {
        let ghost suffix = cv.skip(j as int);
        proof {
            crate::ptree::lemma_nodes_v_index(body.children@, j as int);
            assert(suffix[0] == cv[j as int]);
            assert(suffix.drop_first() =~= cv.skip(j as int + 1));
        }
        let child = &body.children[j];
        if child.rule == Rule::BreakKeyword {
        } else if child.rule == Rule::Statement {
            if !check_stmt_token(child) {
                return false;
            }
        } else if child.rule == Rule::Expression {
            if !check_expr(child) {
                return false;
            }
        } else {
            return false;
        }
        j = j + 1;
    }
    proof {
        assert(cv.skip(n as int) =~= Seq::<NodeV>::empty());
    }
    true
}

} // verus!
