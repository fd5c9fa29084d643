//! The meaning of evaluation, as one total spec-level interpreter.
//!
//! `ev_expr`, `ev_stmt`, `ev_token`, `ev_tokens` and `ev_loop` map a
//! syntax-tree model and a scope model to an outcome and the scope after.
//! An outcome is a value, an error, or `Lost`: evaluation reached an input
//! expression, whose read line no specification can fix; from that point
//! on nothing is claimed.  Every executable evaluation function ensures
//! that its result and final scope are exactly what these functions say,
//! whenever the outcome is not `Lost`.
//!
//! The functions mirror the evaluator's order of effects faithfully: a
//! comparison evaluates both sides before coercing and re-evaluates both
//! for the text fallback; the other arithmetic coerces the left side
//! before touching the right; a loop re-evaluates its condition before
//! every iteration and spends one unit of the same iteration budget the
//! executable loop carries.

use vstd::prelude::*;

use crate::ast::{Atomic, AtomicV, ExprV, StmtV, TokenV, atomic_v};
use crate::value::{
    ErrV, EvalError, arith_vals, cmp_ints, cmp_strs, coerce_bool, coerce_num, err_v, plus_vals,
    text_of,
};

verus! {

/// An evaluation outcome: a value, an error, or `Lost` — the point where
/// an input line entered and the specification stops following.
pub enum Ev<T> {
    Val(T),
    Fail(ErrV),
    Lost,
}

/// Evaluate an expression.
pub open spec fn ev_expr(e: ExprV, m: Map<Seq<char>, AtomicV>) -> (Ev<AtomicV>, Map<
    Seq<char>,
    AtomicV,
>)
    decreases e, u64::MAX as nat + 1, 0int,
{
    match e {
        ExprV::Atomic(a) => (Ev::Val(a), m),
        ExprV::Ident(name) => if m.contains_key(name) {
            (Ev::Val(m[name]), m)
        } else {
            (Ev::Fail(ErrV::UndefinedVariable(name)), m)
        },
        ExprV::And(l, r) => {
            let (lo, m1) = ev_as_bool(*l, m);
            match lo {
                Ev::Val(lb) => {
                    let (ro, m2) = ev_as_bool(*r, m1);
                    match ro {
                        Ev::Val(rb) => (Ev::Val(AtomicV::Bool(lb && rb)), m2),
                        Ev::Fail(f) => (Ev::Fail(f), m2),
                        Ev::Lost => (Ev::Lost, m2),
                    }
                },
                Ev::Fail(f) => (Ev::Fail(f), m1),
                Ev::Lost => (Ev::Lost, m1),
            }
        },
        ExprV::Or(l, r) => {
            let (lo, m1) = ev_as_bool(*l, m);
            match lo {
                Ev::Val(lb) => {
                    let (ro, m2) = ev_as_bool(*r, m1);
                    match ro {
                        Ev::Val(rb) => (Ev::Val(AtomicV::Bool(lb || rb)), m2),
                        Ev::Fail(f) => (Ev::Fail(f), m2),
                        Ev::Lost => (Ev::Lost, m2),
                    }
                },
                Ev::Fail(f) => (Ev::Fail(f), m1),
                Ev::Lost => (Ev::Lost, m1),
            }
        },
        ExprV::Cmp(t, l, r) => {
            let (lo, m1) = ev_expr(*l, m);
            if lo is Lost {
                (Ev::Lost, m1)
            } else {
                let (ro, m2) = ev_expr(*r, m1);
                if ro is Lost {
                    (Ev::Lost, m2)
                } else {
                    let ln = match lo {
                        Ev::Val(v) => coerce_num(v),
                        _ => Option::None,
                    };
                    let rn = match ro {
                        Ev::Val(v) => coerce_num(v),
                        _ => Option::None,
                    };
                    if ln is Some && rn is Some {
                        (Ev::Val(AtomicV::Bool(cmp_ints(t, ln.unwrap(), rn.unwrap()))), m2)
                    } else {
                        let (lo2, m3) = ev_expr(*l, m2);
                        if lo2 is Lost {
                            (Ev::Lost, m3)
                        } else {
                            let (ro2, m4) = ev_expr(*r, m3);
                            if ro2 is Lost {
                                (Ev::Lost, m4)
                            } else {
                                match (lo2, ro2) {
                                    (Ev::Val(lv), Ev::Val(rv)) => (
                                        Ev::Val(
                                            AtomicV::Bool(cmp_strs(t, text_of(lv), text_of(rv))),
                                        ),
                                        m4,
                                    ),
                                    _ => (Ev::Fail(ErrV::InvalidOperands), m4),
                                }
                            }
                        }
                    }
                }
            }
        },
        ExprV::Arith(t, l, r) => if t is Plus {
            let (lo, m1) = ev_expr(*l, m);
            match lo {
                Ev::Val(lv) => {
                    let (ro, m2) = ev_expr(*r, m1);
                    match ro {
                        Ev::Val(rv) => match plus_vals(lv, rv) {
                            Option::Some(v) => (Ev::Val(v), m2),
                            Option::None => (Ev::Fail(ErrV::InvalidOperands), m2),
                        },
                        Ev::Fail(f) => (Ev::Fail(f), m2),
                        Ev::Lost => (Ev::Lost, m2),
                    }
                },
                Ev::Fail(f) => (Ev::Fail(f), m1),
                Ev::Lost => (Ev::Lost, m1),
            }
        } else {
            let (lo, m1) = ev_as_num(*l, m);
            match lo {
                Ev::Val(ln) => {
                    let (ro, m2) = ev_as_num(*r, m1);
                    match ro {
                        Ev::Val(rn) => match arith_vals(t, ln, rn) {
                            Option::Some(v) => (Ev::Val(AtomicV::Num(v)), m2),
                            Option::None => if (t is Div || t is Mod) && rn == 0 {
                                (Ev::Fail(ErrV::DivisionByZero), m2)
                            } else {
                                (Ev::Fail(ErrV::NegativeExponent), m2)
                            },
                        },
                        Ev::Fail(f) => (Ev::Fail(f), m2),
                        Ev::Lost => (Ev::Lost, m2),
                    }
                },
                Ev::Fail(f) => (Ev::Fail(f), m1),
                Ev::Lost => (Ev::Lost, m1),
            }
        },
        ExprV::ArithNone => (Ev::Fail(ErrV::InvalidOperands), m),
        ExprV::Conditional { condition, body, body_expression, else_body, else_body_expression } => {
            let (co, m1) = ev_as_bool(*condition, m);
            match co {
                Ev::Val(c) => {
                    let chosen_body = if c {
                        body
                    } else {
                        else_body
                    };
                    let chosen_expr = if c {
                        body_expression
                    } else {
                        else_body_expression
                    };
                    let (bo, m2) = ev_tokens(chosen_body, m1);
                    if bo is Lost {
                        (Ev::Lost, m2)
                    } else {
                        ev_expr(*chosen_expr, m2)
                    }
                },
                Ev::Fail(f) => (Ev::Fail(f), m1),
                Ev::Lost => (Ev::Lost, m1),
            }
        },
        ExprV::Input(p) => {
            let (po, m1) = ev_as_text(*p, m);
            match po {
                Ev::Val(_) => (Ev::Lost, m1),
                Ev::Fail(f) => (Ev::Fail(f), m1),
                Ev::Lost => (Ev::Lost, m1),
            }
        },
        ExprV::CastString(i) => {
            let (o, m1) = ev_as_text(*i, m);
            match o {
                Ev::Val(s) => (Ev::Val(AtomicV::Str(s)), m1),
                Ev::Fail(f) => (Ev::Fail(f), m1),
                Ev::Lost => (Ev::Lost, m1),
            }
        },
        ExprV::CastNum(i) => {
            let (o, m1) = ev_as_num(*i, m);
            match o {
                Ev::Val(n) => (Ev::Val(AtomicV::Num(n)), m1),
                Ev::Fail(f) => (Ev::Fail(f), m1),
                Ev::Lost => (Ev::Lost, m1),
            }
        },
        ExprV::CastBool(i) => {
            let (o, m1) = ev_as_bool(*i, m);
            match o {
                Ev::Val(b) => (Ev::Val(AtomicV::Bool(b)), m1),
                Ev::Fail(f) => (Ev::Fail(f), m1),
                Ev::Lost => (Ev::Lost, m1),
            }
        },
    }
}

/// Evaluate, then coerce to a boolean.
pub open spec fn ev_as_bool(e: ExprV, m: Map<Seq<char>, AtomicV>) -> (Ev<bool>, Map<
    Seq<char>,
    AtomicV,
>)
    decreases e, u64::MAX as nat + 1, 1int,
{
    let (o, m1) = ev_expr(e, m);
    match o {
        Ev::Val(v) => match coerce_bool(v) {
            Option::Some(b) => (Ev::Val(b), m1),
            Option::None => (Ev::Fail(ErrV::NotABoolean(text_of(v))), m1),
        },
        Ev::Fail(f) => (Ev::Fail(f), m1),
        Ev::Lost => (Ev::Lost, m1),
    }
}

/// Evaluate, then coerce to a number.
pub open spec fn ev_as_num(e: ExprV, m: Map<Seq<char>, AtomicV>) -> (Ev<int>, Map<
    Seq<char>,
    AtomicV,
>)
    decreases e, u64::MAX as nat + 1, 1int,
{
    let (o, m1) = ev_expr(e, m);
    match o {
        Ev::Val(v) => match coerce_num(v) {
            Option::Some(n) => (Ev::Val(n), m1),
            Option::None => (Ev::Fail(ErrV::NotANumber(text_of(v))), m1),
        },
        Ev::Fail(f) => (Ev::Fail(f), m1),
        Ev::Lost => (Ev::Lost, m1),
    }
}

/// Evaluate, then take the value's text (total on values).
pub open spec fn ev_as_text(e: ExprV, m: Map<Seq<char>, AtomicV>) -> (Ev<Seq<char>>, Map<
    Seq<char>,
    AtomicV,
>)
    decreases e, u64::MAX as nat + 1, 1int,
{
    let (o, m1) = ev_expr(e, m);
    match o {
        Ev::Val(v) => (Ev::Val(text_of(v)), m1),
        Ev::Fail(f) => (Ev::Fail(f), m1),
        Ev::Lost => (Ev::Lost, m1),
    }
}

/// Evaluate a statement.
pub open spec fn ev_stmt(s: StmtV, m: Map<Seq<char>, AtomicV>) -> (Ev<AtomicV>, Map<
    Seq<char>,
    AtomicV,
>)
    decreases s, u64::MAX as nat + 1, 0int,
{
    match s {
        StmtV::Assign { new_definition, ident, value } => {
            if new_definition && m.contains_key(ident) {
                (Ev::Fail(ErrV::AlreadyDefined(ident)), m)
            } else {
                let (o, m1) = ev_expr(*value, m);
                match o {
                    Ev::Val(v) => (Ev::Val(AtomicV::Null), m1.insert(ident, v)),
                    Ev::Fail(f) => (Ev::Fail(f), m1),
                    Ev::Lost => (Ev::Lost, m1),
                }
            }
        },
        StmtV::Conditional { condition, body, else_body } => {
            let (co, m1) = ev_as_bool(*condition, m);
            match co {
                Ev::Val(c) => if c {
                    ev_tokens(body, m1)
                } else {
                    match else_body {
                        Option::Some(eb) => ev_tokens(eb, m1),
                        Option::None => (Ev::Val(AtomicV::Null), m1),
                    }
                },
                Ev::Fail(f) => (Ev::Fail(f), m1),
                Ev::Lost => (Ev::Lost, m1),
            }
        },
        StmtV::Expr(e) => ev_expr(*e, m),
        StmtV::Print(e) => ev_expr(*e, m),
        StmtV::Loop { condition: _, body: _ } => ev_loop(s, u64::MAX as nat, m),
    }
}

/// Run a while loop with the given iteration budget left.
pub open spec fn ev_loop(s: StmtV, budget: nat, m: Map<Seq<char>, AtomicV>) -> (Ev<AtomicV>, Map<
    Seq<char>,
    AtomicV,
>)
    decreases s, budget, 0int,
{
    match s {
        StmtV::Loop { condition, body } => {
            let (co, m1) = ev_as_bool(*condition, m);
            match co {
                Ev::Val(c) => if !c {
                    (Ev::Val(AtomicV::Null), m1)
                } else if budget == 0 {
                    (Ev::Fail(ErrV::LoopLimit), m1)
                } else {
                    let (bo, m2) = ev_tokens(body, m1);
                    match bo {
                        Ev::Val(v) => if v is Interrupt {
                            (Ev::Val(AtomicV::Null), m2)
                        } else {
                            ev_loop(s, (budget - 1) as nat, m2)
                        },
                        Ev::Fail(f) => (Ev::Fail(f), m2),
                        Ev::Lost => (Ev::Lost, m2),
                    }
                },
                Ev::Fail(f) => (Ev::Fail(f), m1),
                Ev::Lost => (Ev::Lost, m1),
            }
        },
        _ => (Ev::Fail(ErrV::InvalidOperands), m),
    }
}

/// Evaluate one block token.
pub open spec fn ev_token(t: TokenV, m: Map<Seq<char>, AtomicV>) -> (Ev<AtomicV>, Map<
    Seq<char>,
    AtomicV,
>)
    decreases t, u64::MAX as nat + 1, 0int,
{
    match t {
        TokenV::Expr(e) => ev_expr(e, m),
        TokenV::Stmt(s) => ev_stmt(s, m),
        TokenV::Break => (Ev::Val(AtomicV::Interrupt), m),
        TokenV::Return => (Ev::Val(AtomicV::Interrupt), m),
    }
}

/// Evaluate a token sequence strictly in order: the last token's value is
/// the block's value, null for an empty block; an interrupt stops the
/// block at once, and the first error aborts it.
pub open spec fn ev_tokens(ts: Seq<TokenV>, m: Map<Seq<char>, AtomicV>) -> (Ev<AtomicV>, Map<
    Seq<char>,
    AtomicV,
>)
    decreases ts, u64::MAX as nat + 1, 0int,
{
    if ts.len() == 0 {
        (Ev::Val(AtomicV::Null), m)
    } else {
        let (o, m1) = ev_token(ts[0], m);
        match o {
            Ev::Val(v) => if v is Interrupt {
                (Ev::Val(AtomicV::Interrupt), m1)
            } else if ts.len() == 1 {
                (Ev::Val(v), m1)
            } else {
                ev_tokens(ts.drop_first(), m1)
            },
            Ev::Fail(f) => (Ev::Fail(f), m1),
            Ev::Lost => (Ev::Lost, m1),
        }
    }
}

/// The executable result and final scope are what the spec evaluation
/// says, unless the spec evaluation is `Lost`.
pub open spec fn out_matches(
    sr: (Ev<AtomicV>, Map<Seq<char>, AtomicV>),
    r: Result<Atomic, EvalError>,
    m_final: Map<Seq<char>, AtomicV>,
) -> bool {
    match sr.0 {
        Ev::Val(v) => r matches Ok(a) && atomic_v(a) == v && m_final == sr.1,
        Ev::Fail(f) => r matches Err(e) && err_v(e) == f && m_final == sr.1,
        Ev::Lost => true,
    }
}

pub open spec fn out_matches_bool(
    sr: (Ev<bool>, Map<Seq<char>, AtomicV>),
    r: Result<bool, EvalError>,
    m_final: Map<Seq<char>, AtomicV>,
) -> bool {
    match sr.0 {
        Ev::Val(v) => r matches Ok(b) && b == v && m_final == sr.1,
        Ev::Fail(f) => r matches Err(e) && err_v(e) == f && m_final == sr.1,
        Ev::Lost => true,
    }
}

pub open spec fn out_matches_num(
    sr: (Ev<int>, Map<Seq<char>, AtomicV>),
    r: Result<i64, EvalError>,
    m_final: Map<Seq<char>, AtomicV>,
) -> bool {
    match sr.0 {
        Ev::Val(v) => r matches Ok(n) && n as int == v && m_final == sr.1,
        Ev::Fail(f) => r matches Err(e) && err_v(e) == f && m_final == sr.1,
        Ev::Lost => true,
    }
}

pub open spec fn out_matches_text(
    sr: (Ev<Seq<char>>, Map<Seq<char>, AtomicV>),
    r: Result<String, EvalError>,
    m_final: Map<Seq<char>, AtomicV>,
) -> bool {
    match sr.0 {
        Ev::Val(v) => r matches Ok(s) && s@ == v && m_final == sr.1,
        Ev::Fail(f) => r matches Err(e) && err_v(e) == f && m_final == sr.1,
        Ev::Lost => true,
    }
}

/// As `out_matches`, for a unit-valued success.
pub open spec fn out_matches_unit(
    sr: (Ev<AtomicV>, Map<Seq<char>, AtomicV>),
    r: Result<(), EvalError>,
    m_final: Map<Seq<char>, AtomicV>,
) -> bool {
    match sr.0 {
        Ev::Val(_) => r is Ok && m_final == sr.1,
        Ev::Fail(f) => r matches Err(e) && err_v(e) == f && m_final == sr.1,
        Ev::Lost => true,
    }
}

} // verus!
