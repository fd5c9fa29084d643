use ubpp::ast::{ArithTag, Atomic, CmpTag};
use ubpp::num::{int_to_text, parse_int};
use ubpp::text::{parse_bool, str_lt, trim_str};
use ubpp::value::{
    arith_nums, atomic_as_bool, atomic_as_num, compare_atomics, plus_atomics, EvalError,
};

#[test]
fn number_to_bool_is_inverted() {
    assert_eq!(atomic_as_bool(&Atomic::Number(0)), Ok(true));
    assert_eq!(atomic_as_bool(&Atomic::Number(1)), Ok(false));
    assert_eq!(atomic_as_bool(&Atomic::Number(-7)), Ok(false));
    assert_eq!(atomic_as_bool(&Atomic::Number(i64::MAX)), Ok(false));
}

#[test]
fn bool_coercions() {
    assert_eq!(atomic_as_bool(&Atomic::Bool(true)), Ok(true));
    assert_eq!(atomic_as_bool(&Atomic::Null), Ok(false));
    assert_eq!(atomic_as_bool(&Atomic::String("true".to_string())), Ok(true));
    assert_eq!(atomic_as_bool(&Atomic::String("false".to_string())), Ok(false));
    assert!(matches!(
        atomic_as_bool(&Atomic::String("yes".to_string())),
        Err(EvalError::NotABoolean(_))
    ));
    // no trimming for boolean text
    assert!(matches!(
        atomic_as_bool(&Atomic::String(" true".to_string())),
        Err(EvalError::NotABoolean(_))
    ));
}

#[test]
fn num_coercions() {
    assert_eq!(atomic_as_num(&Atomic::Number(42)), Ok(42));
    assert_eq!(atomic_as_num(&Atomic::Bool(true)), Ok(1));
    assert_eq!(atomic_as_num(&Atomic::Bool(false)), Ok(0));
    assert_eq!(atomic_as_num(&Atomic::Null), Ok(0));
    assert_eq!(atomic_as_num(&Atomic::String(" 42 ".to_string())), Ok(42));
    assert_eq!(atomic_as_num(&Atomic::String("-5".to_string())), Ok(-5));
    assert_eq!(atomic_as_num(&Atomic::String("+5".to_string())), Ok(5));
    assert!(matches!(
        atomic_as_num(&Atomic::String("abc".to_string())),
        Err(EvalError::NotANumber(_))
    ));
    assert!(matches!(
        atomic_as_num(&Atomic::String("".to_string())),
        Err(EvalError::NotANumber(_))
    ));
}

#[test]
fn parse_int_edges() {
    assert_eq!(parse_int("0"), Some(0));
    assert_eq!(parse_int("9223372036854775807"), Some(i64::MAX));
    assert_eq!(parse_int("-9223372036854775808"), Some(i64::MIN));
    assert_eq!(parse_int("9223372036854775808"), None);
    assert_eq!(parse_int("99999999999999999999999"), None);
    assert_eq!(parse_int("12a"), None);
    assert_eq!(parse_int("+"), None);
    assert_eq!(parse_int(""), None);
}

#[test]
fn int_text_round_trip() {
    assert_eq!(int_to_text(0), "0");
    assert_eq!(int_to_text(907), "907");
    assert_eq!(int_to_text(-33), "-33");
    assert_eq!(int_to_text(i64::MIN), "-9223372036854775808");
    assert_eq!(parse_int(&int_to_text(123456789)), Some(123456789));
}

#[test]
fn trim_and_bool_text() {
    assert_eq!(trim_str("  a b \t\n"), "a b");
    assert_eq!(trim_str(""), "");
    assert_eq!(trim_str(" \t "), "");
    assert_eq!(parse_bool(&"true".to_string()), Some(true));
    assert_eq!(parse_bool(&"False".to_string()), None);
}

#[test]
fn plus_concatenates_with_strings() {
    let a = plus_atomics(&Atomic::String("a".to_string()), &Atomic::Number(1));
    assert_eq!(a, Ok(Atomic::String("a1".to_string())));
    let b = plus_atomics(&Atomic::Number(1), &Atomic::String("b".to_string()));
    assert_eq!(b, Ok(Atomic::String("1b".to_string())));
    let n = plus_atomics(&Atomic::Number(1), &Atomic::Number(2));
    assert_eq!(n, Ok(Atomic::Number(3)));
    let e = plus_atomics(&Atomic::Bool(true), &Atomic::Number(1));
    assert!(matches!(e, Err(EvalError::InvalidOperands)));
    let z = plus_atomics(&Atomic::Null, &Atomic::Number(1));
    assert!(matches!(z, Err(EvalError::InvalidOperands)));
}

#[test]
fn arithmetic_operators() {
    assert_eq!(arith_nums(ArithTag::Minus, 10, 3), Ok(7));
    assert_eq!(arith_nums(ArithTag::Mul, -4, 5), Ok(-20));
    assert_eq!(arith_nums(ArithTag::Div, 7, 2), Ok(3));
    assert_eq!(arith_nums(ArithTag::Div, -7, 2), Ok(-3));
    assert_eq!(arith_nums(ArithTag::Mod, 7, 3), Ok(1));
    assert_eq!(arith_nums(ArithTag::Mod, -7, 3), Ok(-1));
    assert_eq!(arith_nums(ArithTag::Pow, 2, 10), Ok(1024));
    assert_eq!(arith_nums(ArithTag::Pow, 5, 0), Ok(1));
    assert!(matches!(
        arith_nums(ArithTag::Div, 1, 0),
        Err(EvalError::DivisionByZero)
    ));
    assert!(matches!(
        arith_nums(ArithTag::Mod, 1, 0),
        Err(EvalError::DivisionByZero)
    ));
    assert!(matches!(
        arith_nums(ArithTag::Pow, 2, -1),
        Err(EvalError::NegativeExponent)
    ));
}

#[test]
fn arithmetic_saturates() {
    assert_eq!(arith_nums(ArithTag::Plus, i64::MAX, 1), Ok(i64::MAX));
    assert_eq!(arith_nums(ArithTag::Minus, i64::MIN, 1), Ok(i64::MIN));
    assert_eq!(arith_nums(ArithTag::Mul, i64::MAX, 2), Ok(i64::MAX));
    assert_eq!(arith_nums(ArithTag::Mul, i64::MAX, -2), Ok(i64::MIN));
    assert_eq!(arith_nums(ArithTag::Div, i64::MIN, -1), Ok(i64::MAX));
    assert_eq!(arith_nums(ArithTag::Mod, i64::MIN, -1), Ok(0));
    assert_eq!(arith_nums(ArithTag::Pow, 2, 100), Ok(i64::MAX));
    assert_eq!(arith_nums(ArithTag::Pow, -2, 101), Ok(i64::MIN));
}

#[test]
fn comparison_numeric_before_text() {
    // "5" and 3 both coerce to numbers, so 5 > 3 wins numerically
    assert!(compare_atomics(
        CmpTag::Greater,
        &Atomic::String("5".to_string()),
        &Atomic::Number(3)
    ));
    // "10" < "9" as text would be true; numerically it is false
    assert!(!compare_atomics(
        CmpTag::Smaller,
        &Atomic::String("10".to_string()),
        &Atomic::Number(9)
    ));
    // two non-numeric strings fall back to lexicographic order
    assert!(compare_atomics(
        CmpTag::Smaller,
        &Atomic::String("apple".to_string()),
        &Atomic::String("banana".to_string())
    ));
    assert!(compare_atomics(
        CmpTag::Equals,
        &Atomic::String("abc".to_string()),
        &Atomic::String("abc".to_string())
    ));
    assert!(compare_atomics(
        CmpTag::GreaterEquals,
        &Atomic::String("b".to_string()),
        &Atomic::String("ab".to_string())
    ));
}

#[test]
fn lexicographic_order() {
    assert!(str_lt("a", "b"));
    assert!(str_lt("a", "ab"));
    assert!(!str_lt("ab", "a"));
    assert!(!str_lt("", ""));
    assert!(str_lt("", "x"));
}

#[test]
fn value_texts() {
    assert_eq!(Atomic::String("hi".to_string()).to_text(), "hi");
    assert_eq!(Atomic::Number(-12).to_text(), "-12");
    assert_eq!(Atomic::Bool(true).to_text(), "true");
    assert_eq!(Atomic::Bool(false).to_text(), "false");
    assert_eq!(Atomic::Null.to_text(), "null");
    assert_eq!(Atomic::Interrupt.to_text(), "<< interrupt >>");
}
