//! Value semantics: coercions, formatting, and the operators' behaviour on
//! runtime values.
//!
//! Coercions follow fixed rules: a string parses as boolean or number text;
//! a number is `true` exactly when it is zero; booleans and null have fixed
//! texts and numeric values.  `Plus` concatenates when a string is
//! involved; the remaining arithmetic coerces both sides to numbers.
//! Comparison first tries numbers on both sides, then falls back to
//! lexicographic text comparison.

use vstd::prelude::*;

use crate::ast::{ArithTag, Atomic, AtomicV, CmpTag, atomic_v, wf_atomic_v};
use crate::num::{
    clamp64, div_trunc, int_text, int_to_text, parse_int, parse_int_v, rem_trunc, sat_add,
    sat_mul, sat_pow, sat_pow_exec, sat_sub, trunc_div_s, trunc_rem_s,
};
use crate::text::{bool_text, lex_lt, parse_bool, parse_bool_v, str_lt, trim_str, trim_v};

verus! {

/// An evaluation error, surfaced to the caller; evaluation aborts at the
/// first one.
#[derive(Debug, Clone, PartialEq)]
pub enum EvalError {
    /// An identifier was read before any assignment bound it.
    UndefinedVariable(String),
    /// A `let` binding for an identifier that is already bound.
    AlreadyDefined(String),
    /// A text that was coerced to boolean but is not boolean text.
    NotABoolean(String),
    /// A text that was coerced to number but is not number text.
    NotANumber(String),
    /// Operand values an operator has no meaning for.
    InvalidOperands,
    /// A division or remainder with zero divisor.
    DivisionByZero,
    /// An exponentiation with negative exponent.
    NegativeExponent,
    /// Reading a line of input failed.
    InputFailed,
    /// A loop ran for an implausible number of iterations; evaluation gives
    /// it up as divergent.
    LoopLimit,
}

/// The model of an evaluation error.
pub enum ErrV {
    UndefinedVariable(Seq<char>),
    AlreadyDefined(Seq<char>),
    NotABoolean(Seq<char>),
    NotANumber(Seq<char>),
    InvalidOperands,
    DivisionByZero,
    NegativeExponent,
    InputFailed,
    LoopLimit,
}

pub open spec fn err_v(e: EvalError) -> ErrV {
    match e {
        EvalError::UndefinedVariable(s) => ErrV::UndefinedVariable(s@),
        EvalError::AlreadyDefined(s) => ErrV::AlreadyDefined(s@),
        EvalError::NotABoolean(s) => ErrV::NotABoolean(s@),
        EvalError::NotANumber(s) => ErrV::NotANumber(s@),
        EvalError::InvalidOperands => ErrV::InvalidOperands,
        EvalError::DivisionByZero => ErrV::DivisionByZero,
        EvalError::NegativeExponent => ErrV::NegativeExponent,
        EvalError::InputFailed => ErrV::InputFailed,
        EvalError::LoopLimit => ErrV::LoopLimit,
    }
}

/// The text of a value: a string is itself, a number its decimal text, a
/// boolean `true`/`false`, null the text `null`.  The interrupt sentinel
/// has a marker text that no correct program can observe.
pub open spec fn text_of(a: AtomicV) -> Seq<char> {
    match a {
        AtomicV::Str(s) => s,
        AtomicV::Num(n) => int_text(n),
        AtomicV::Bool(b) => bool_text(b),
        AtomicV::Null => "null"@,
        AtomicV::Interrupt => "<< interrupt >>"@,
    }
}

/// The boolean a value coerces to: boolean text for strings, `true`
/// exactly for zero numbers, `false` for null.
pub open spec fn coerce_bool(a: AtomicV) -> Option<bool> {
    match a {
        AtomicV::Str(s) => parse_bool_v(s),
        AtomicV::Num(n) => Option::Some(n == 0),
        AtomicV::Bool(b) => Option::Some(b),
        AtomicV::Null => Option::Some(false),
        AtomicV::Interrupt => Option::None,
    }
}

/// The number a value coerces to: trimmed number text for strings, one and
/// zero for the booleans, zero for null.
pub open spec fn coerce_num(a: AtomicV) -> Option<int> {
    match a {
        AtomicV::Str(s) => parse_int_v(trim_v(s)),
        AtomicV::Num(n) => Option::Some(n),
        AtomicV::Bool(b) => Option::Some(
            if b {
                1int
            } else {
                0int
            },
        ),
        AtomicV::Null => Option::Some(0),
        AtomicV::Interrupt => Option::None,
    }
}

pub open spec fn cmp_ints(t: CmpTag, a: int, b: int) -> bool {
    match t {
        CmpTag::Smaller => a < b,
        CmpTag::SmallerEquals => a <= b,
        CmpTag::Equals => a == b,
        CmpTag::Greater => a > b,
        CmpTag::GreaterEquals => a >= b,
    }
}

pub open spec fn cmp_strs(t: CmpTag, a: Seq<char>, b: Seq<char>) -> bool {
    match t {
        CmpTag::Smaller => lex_lt(a, b),
        CmpTag::SmallerEquals => !lex_lt(b, a),
        CmpTag::Equals => a == b,
        CmpTag::Greater => lex_lt(b, a),
        CmpTag::GreaterEquals => !lex_lt(a, b),
    }
}

/// Comparison of two values: numerically when both coerce to numbers,
/// otherwise by their texts.  A successful numeric attempt wins outright;
/// the two sides are never compared mixed.
pub open spec fn compare_vals(t: CmpTag, l: AtomicV, r: AtomicV) -> bool {
    if coerce_num(l) is Some && coerce_num(r) is Some {
        cmp_ints(t, coerce_num(l).unwrap(), coerce_num(r).unwrap())
    } else {
        cmp_strs(t, text_of(l), text_of(r))
    }
}

/// What `Plus` yields: concatenation when a string meets a string or a
/// number, saturating addition of two numbers, and nothing otherwise.
pub open spec fn plus_vals(l: AtomicV, r: AtomicV) -> Option<AtomicV> {
    match (l, r) {
        (AtomicV::Str(a), AtomicV::Str(b)) => Option::Some(AtomicV::Str(a + b)),
        (AtomicV::Num(n), AtomicV::Str(b)) => Option::Some(AtomicV::Str(int_text(n) + b)),
        (AtomicV::Str(a), AtomicV::Num(n)) => Option::Some(AtomicV::Str(a + int_text(n))),
        (AtomicV::Num(a), AtomicV::Num(b)) => Option::Some(AtomicV::Num(clamp64(a + b))),
        _ => Option::None,
    }
}

/// What the numeric operators yield on coerced numbers; division and
/// remainder have no value for a zero divisor, exponentiation none for a
/// negative exponent.
pub open spec fn arith_vals(t: ArithTag, a: int, b: int) -> Option<int> {
    match t {
        ArithTag::Plus => Option::Some(clamp64(a + b)),
        ArithTag::Minus => Option::Some(clamp64(a - b)),
        ArithTag::Mul => Option::Some(clamp64(a * b)),
        ArithTag::Div => if b == 0 {
            Option::None
        } else {
            Option::Some(clamp64(trunc_div_s(a, b)))
        },
        ArithTag::Mod => if b == 0 {
            Option::None
        } else {
            Option::Some(trunc_rem_s(a, b))
        },
        ArithTag::Pow => if b < 0 {
            Option::None
        } else {
            Option::Some(sat_pow(a, b as nat))
        },
    }
}

impl Atomic {
    /// Render the value as user-visible text.
    pub fn to_text(&self) -> (s: String)
        ensures
            s@ == text_of(atomic_v(*self)),
    {
        match self {
            Atomic::String(s) => s.clone(),
            Atomic::Number(n) => int_to_text(*n),
            Atomic::Bool(b) => if *b {
                "true".to_owned()
            } else {
                "false".to_owned()
            },
            Atomic::Null => "null".to_owned(),
            Atomic::Interrupt => "<< interrupt >>".to_owned(),
        }
    }
}

/// Coerce a value to a boolean; an unparseable string is the one error.
pub fn atomic_as_bool(a: &Atomic) -> (r: Result<bool, EvalError>)
    requires
        wf_atomic_v(atomic_v(*a)),
    ensures
        coerce_bool(atomic_v(*a)) is Some ==> (r matches Ok(b) && coerce_bool(atomic_v(*a))
            == Option::Some(b)),
        coerce_bool(atomic_v(*a)) is None ==> (r matches Err(e) && err_v(e) == ErrV::NotABoolean(
            text_of(atomic_v(*a)),
        )),
{
    match a {
        Atomic::String(s) => match parse_bool(s) {
            Option::Some(b) => Ok(b),
            Option::None => Err(EvalError::NotABoolean(s.clone())),
        },
        Atomic::Number(n) => Ok(*n == 0),
        Atomic::Bool(b) => Ok(*b),
        Atomic::Null => Ok(false),
        Atomic::Interrupt => Err(EvalError::InvalidOperands),
    }
}

/// Coerce a value to a number; an unparseable string is the one error.
pub fn atomic_as_num(a: &Atomic) -> (r: Result<i64, EvalError>)
    requires
        wf_atomic_v(atomic_v(*a)),
    ensures
        coerce_num(atomic_v(*a)) matches Some(n) ==> (r matches Ok(m) && m as int == n),
        coerce_num(atomic_v(*a)) is None ==> (r matches Err(e) && err_v(e) == ErrV::NotANumber(
            text_of(atomic_v(*a)),
        )),
{
    match a {
        Atomic::String(s) => match parse_int(trim_str(s.as_str())) {
            Option::Some(n) => Ok(n),
            Option::None => Err(EvalError::NotANumber(s.clone())),
        },
        Atomic::Number(n) => Ok(*n),
        Atomic::Bool(b) => Ok(
            if *b {
                1
            } else {
                0
            },
        ),
        Atomic::Null => Ok(0),
        Atomic::Interrupt => Err(EvalError::InvalidOperands),
    }
}

/// Apply `Plus` to two values.
pub fn plus_atomics(l: &Atomic, r: &Atomic) -> (res: Result<Atomic, EvalError>)
    requires
        wf_atomic_v(atomic_v(*l)),
        wf_atomic_v(atomic_v(*r)),
    ensures
        plus_vals(atomic_v(*l), atomic_v(*r)) matches Some(v) ==> (res matches Ok(a) && atomic_v(
            a,
        ) == v),
        plus_vals(atomic_v(*l), atomic_v(*r)) is None ==> (res matches Err(e) && err_v(e)
            == ErrV::InvalidOperands),
{
    match (l, r) {
        (Atomic::String(a), Atomic::String(b)) => Ok(Atomic::String(a.clone().concat(b.as_str()))),
        (Atomic::Number(n), Atomic::String(b)) => Ok(
            Atomic::String(int_to_text(*n).concat(b.as_str())),
        ),
        (Atomic::String(a), Atomic::Number(n)) => Ok(
            Atomic::String(a.clone().concat(int_to_text(*n).as_str())),
        ),
        (Atomic::Number(a), Atomic::Number(b)) => Ok(Atomic::Number(sat_add(*a, *b))),
        _ => Err(EvalError::InvalidOperands),
    }
}

/// Apply a numeric operator to two already-coerced numbers.
pub fn arith_nums(t: ArithTag, a: i64, b: i64) -> (r: Result<i64, EvalError>)
    ensures
        arith_vals(t, a as int, b as int) matches Some(v) ==> (r matches Ok(n) && n as int == v),
        arith_vals(t, a as int, b as int) is None ==> (r matches Err(e) && (err_v(e)
            == ErrV::DivisionByZero || err_v(e) == ErrV::NegativeExponent)),
        t is Div && b == 0 ==> (r matches Err(e) && err_v(e) == ErrV::DivisionByZero),
        t is Mod && b == 0 ==> (r matches Err(e) && err_v(e) == ErrV::DivisionByZero),
        t is Pow && b < 0 ==> (r matches Err(e) && err_v(e) == ErrV::NegativeExponent),
{
    match t {
        ArithTag::Plus => Ok(sat_add(a, b)),
        ArithTag::Minus => Ok(sat_sub(a, b)),
        ArithTag::Mul => Ok(sat_mul(a, b)),
        ArithTag::Div => if b == 0 {
            Err(EvalError::DivisionByZero)
        } else {
            Ok(div_trunc(a, b))
        },
        ArithTag::Mod => if b == 0 {
            Err(EvalError::DivisionByZero)
        } else {
            Ok(rem_trunc(a, b))
        },
        ArithTag::Pow => if b < 0 {
            Err(EvalError::NegativeExponent)
        } else {
            Ok(sat_pow_exec(a, b as u64))
        },
    }
}

/// Compare two numbers under a comparison operator.
pub fn cmp_ints_exec(t: CmpTag, a: i64, b: i64) -> (r: bool)
    ensures
        r == cmp_ints(t, a as int, b as int),
{
    match t {
        CmpTag::Smaller => a < b,
        CmpTag::SmallerEquals => a <= b,
        CmpTag::Equals => a == b,
        CmpTag::Greater => a > b,
        CmpTag::GreaterEquals => a >= b,
    }
}

/// Compare two texts under a comparison operator.
pub fn cmp_strs_exec(t: CmpTag, a: &String, b: &String) -> (r: bool)
    ensures
        r == cmp_strs(t, a@, b@),
{
    match t {
        CmpTag::Smaller => str_lt(a.as_str(), b.as_str()),
        CmpTag::SmallerEquals => !str_lt(b.as_str(), a.as_str()),
        CmpTag::Equals => *a == *b,
        CmpTag::Greater => str_lt(b.as_str(), a.as_str()),
        CmpTag::GreaterEquals => !str_lt(a.as_str(), b.as_str()),
    }
}

/// Compare two values: numbers first, text as the fallback.
pub fn compare_atomics(t: CmpTag, l: &Atomic, r: &Atomic) -> (res: bool)
    requires
        wf_atomic_v(atomic_v(*l)),
        wf_atomic_v(atomic_v(*r)),
    ensures
        res == compare_vals(t, atomic_v(*l), atomic_v(*r)),
{
    let ln = atomic_as_num(l);
    let rn = atomic_as_num(r);
    match (ln, rn) {
        (Ok(a), Ok(b)) => cmp_ints_exec(t, a, b),
        _ => {
            let ls = l.to_text();
            let rs = r.to_text();
            cmp_strs_exec(t, &ls, &rs)
        },
    }
}

/// Law: the boolean a number coerces to is inverted from conventional
/// truthiness — zero is `true`, every nonzero number is `false`.
pub proof fn lemma_number_truth(n: int)
    ensures
        coerce_bool(AtomicV::Num(n)) == Option::Some(n == 0),
{
}

/// Law: comparison falls back to text only when a side has no numeric
/// coercion; two numerically coercible values are compared as numbers, and
/// two values without numeric coercions are compared by their texts.
pub proof fn lemma_comparison_fallback(t: CmpTag, l: AtomicV, r: AtomicV)
    ensures
        coerce_num(l) is Some && coerce_num(r) is Some ==> compare_vals(t, l, r) == cmp_ints(
            t,
            coerce_num(l).unwrap(),
            coerce_num(r).unwrap(),
        ),
        coerce_num(l) is None || coerce_num(r) is None ==> compare_vals(t, l, r) == cmp_strs(
            t,
            text_of(l),
            text_of(r),
        ),
{
}

} // verus!
