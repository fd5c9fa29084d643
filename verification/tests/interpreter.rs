use ubpp::ast::{
    Atomic, BinaryOp, Cast, Comparison, Conditional, ConditionalExpression, Expression, LogicOp,
    Loop, Statement, Token, VariableAssignment,
};
use ubpp::eval::eval_tokens;
use ubpp::scope::Scope;
use ubpp::value::EvalError;

fn num(n: i64) -> Expression {
    Expression::Atomic(Atomic::Number(n))
}

fn text(s: &str) -> Expression {
    Expression::Atomic(Atomic::String(s.to_string()))
}

fn boolean(b: bool) -> Expression {
    Expression::Atomic(Atomic::Bool(b))
}

fn assign(new_definition: bool, ident: &str, value: Expression) -> Token {
    Token::Statement(Statement::VariableAssignment(VariableAssignment {
        new_definition,
        ident: ident.to_string(),
        value,
    }))
}

fn run(tokens: Vec<Token>) -> Result<Atomic, EvalError> {
    let mut scope = Scope::new();
    eval_tokens(&tokens, &mut scope)
}

#[test]
fn empty_block_is_null() {
    assert_eq!(run(vec![]), Ok(Atomic::Null));
}

#[test]
fn tail_value_of_block() {
    let tokens = vec![
        Token::Expression(num(1)),
        Token::Expression(num(2)),
    ];
    assert_eq!(run(tokens), Ok(Atomic::Number(2)));
}

#[test]
fn redefinition_with_let_errors() {
    let tokens = vec![
        assign(true, "x", num(1)),
        assign(true, "x", num(1)),
    ];
    match run(tokens) {
        Err(EvalError::AlreadyDefined(name)) => assert_eq!(name, "x"),
        other => panic!("expected AlreadyDefined, got {:?}", other),
    }
}

#[test]
fn reassignment_without_let_updates() {
    let tokens = vec![
        assign(true, "x", num(1)),
        assign(false, "x", num(2)),
        Token::Expression(Expression::Ident("x".to_string())),
    ];
    assert_eq!(run(tokens), Ok(Atomic::Number(2)));
}

#[test]
fn reassignment_of_unbound_creates() {
    let tokens = vec![
        assign(false, "y", num(3)),
        Token::Expression(Expression::Ident("y".to_string())),
    ];
    assert_eq!(run(tokens), Ok(Atomic::Number(3)));
}

#[test]
fn undefined_variable_errors() {
    let tokens = vec![Token::Expression(Expression::Ident("nope".to_string()))];
    match run(tokens) {
        Err(EvalError::UndefinedVariable(name)) => assert_eq!(name, "nope"),
        other => panic!("expected UndefinedVariable, got {:?}", other),
    }
}

#[test]
fn loop_with_break_yields_null() {
    // while (true) { break; } — terminates, and the loop's value is null
    let loop_stmt = Token::Statement(Statement::Loop(Loop {
        condition: Box::new(boolean(true)),
        body: vec![Token::Break],
    }));
    assert_eq!(run(vec![loop_stmt]), Ok(Atomic::Null));
}

#[test]
fn break_unwinds_nested_block_but_not_past_loop() {
    // while (true) { if (true) { break; } } — the break unwinds the if
    // block, the loop absorbs it, and nothing leaks to the top level
    let inner_if = Token::Statement(Statement::Conditional(Conditional {
        condition: Box::new(boolean(true)),
        body: vec![Token::Break],
        else_body: None,
    }));
    let loop_stmt = Token::Statement(Statement::Loop(Loop {
        condition: Box::new(boolean(true)),
        body: vec![inner_if],
    }));
    let tokens = vec![loop_stmt, Token::Expression(num(9))];
    assert_eq!(run(tokens), Ok(Atomic::Number(9)));
}

#[test]
fn loop_counts_down() {
    // let i = 3; while (i > 0) { i = i - 1; } i
    let count = vec![
        assign(true, "i", num(3)),
        Token::Statement(Statement::Loop(Loop {
            condition: Box::new(Expression::Comparison(Box::new(Comparison::Greater(
                Expression::Ident("i".to_string()),
                num(0),
            )))),
            body: vec![assign(
                false,
                "i",
                Expression::BinaryOp(Box::new(BinaryOp::Minus {
                    left: Expression::Ident("i".to_string()),
                    right: num(1),
                })),
            )],
        })),
        Token::Expression(Expression::Ident("i".to_string())),
    ];
    assert_eq!(run(count), Ok(Atomic::Number(0)));
}

#[test]
fn conditional_statement_picks_branch() {
    let cond = Token::Statement(Statement::Conditional(Conditional {
        condition: Box::new(boolean(false)),
        body: vec![Token::Expression(num(1))],
        else_body: Some(vec![Token::Expression(num(2))]),
    }));
    assert_eq!(run(vec![cond]), Ok(Atomic::Number(2)));
    let no_else = Token::Statement(Statement::Conditional(Conditional {
        condition: Box::new(boolean(false)),
        body: vec![Token::Expression(num(1))],
        else_body: None,
    }));
    assert_eq!(run(vec![no_else]), Ok(Atomic::Null));
}

#[test]
fn conditional_expression_evaluates_one_branch() {
    // the chosen branch's body runs for side effects; the other does not run
    let expr = Expression::Conditional(ConditionalExpression {
        condition: Box::new(boolean(true)),
        body: vec![assign(true, "seen", num(1))],
        body_expression: Box::new(text("t")),
        else_body: vec![assign(true, "unseen", num(1))],
        else_body_expression: Box::new(text("f")),
    });
    let tokens = vec![
        Token::Expression(expr),
        Token::Expression(Expression::Ident("seen".to_string())),
    ];
    assert_eq!(run(tokens), Ok(Atomic::Number(1)));

    let expr2 = Expression::Conditional(ConditionalExpression {
        condition: Box::new(boolean(true)),
        body: vec![],
        body_expression: Box::new(text("t")),
        else_body: vec![],
        else_body_expression: Box::new(text("f")),
    });
    let other = vec![
        Token::Expression(expr2),
        Token::Expression(Expression::Ident("unseen".to_string())),
    ];
    assert!(matches!(run(other), Err(EvalError::UndefinedVariable(_))));
}

#[test]
fn conditional_expression_swallows_body_errors() {
    // an error inside the chosen branch's statement block does not abort
    let expr = Expression::Conditional(ConditionalExpression {
        condition: Box::new(boolean(true)),
        body: vec![Token::Expression(Expression::Ident("missing".to_string()))],
        body_expression: Box::new(text("t")),
        else_body: vec![],
        else_body_expression: Box::new(text("f")),
    });
    assert_eq!(
        run(vec![Token::Expression(expr)]),
        Ok(Atomic::String("t".to_string()))
    );
}

#[test]
fn plus_through_evaluation() {
    let concat = Expression::BinaryOp(Box::new(BinaryOp::Plus {
        left: text("a"),
        right: num(1),
    }));
    assert_eq!(
        run(vec![Token::Expression(concat)]),
        Ok(Atomic::String("a1".to_string()))
    );
    let bad = Expression::BinaryOp(Box::new(BinaryOp::Plus {
        left: boolean(true),
        right: num(1),
    }));
    assert!(matches!(
        run(vec![Token::Expression(bad)]),
        Err(EvalError::InvalidOperands)
    ));
}

#[test]
fn arithmetic_coerces_numeric_strings() {
    // "8" - 3 coerces the string through its trimmed number text
    let e = Expression::BinaryOp(Box::new(BinaryOp::Minus {
        left: text(" 8 "),
        right: num(3),
    }));
    assert_eq!(run(vec![Token::Expression(e)]), Ok(Atomic::Number(5)));
}

#[test]
fn comparison_through_evaluation() {
    let e = Expression::Comparison(Box::new(Comparison::Greater(text("5"), num(3))));
    assert_eq!(run(vec![Token::Expression(e)]), Ok(Atomic::Bool(true)));
    let s = Expression::Comparison(Box::new(Comparison::Smaller(text("apple"), text("banana"))));
    assert_eq!(run(vec![Token::Expression(s)]), Ok(Atomic::Bool(true)));
}

#[test]
fn logic_ops_evaluate_both_sides() {
    let and = Expression::LogicOp(Box::new(LogicOp::And(boolean(true), boolean(false))));
    assert_eq!(run(vec![Token::Expression(and)]), Ok(Atomic::Bool(false)));
    let or = Expression::LogicOp(Box::new(LogicOp::Or(boolean(false), boolean(true))));
    assert_eq!(run(vec![Token::Expression(or)]), Ok(Atomic::Bool(true)));
    // no short-circuiting: the right side's error surfaces even when the
    // left side already decides an `or`
    let strict = Expression::LogicOp(Box::new(LogicOp::Or(
        boolean(true),
        Expression::Ident("missing".to_string()),
    )));
    assert!(matches!(
        run(vec![Token::Expression(strict)]),
        Err(EvalError::UndefinedVariable(_))
    ));
}

#[test]
fn casts_wrap_coercions() {
    let to_s = Expression::Cast(Box::new(Cast::String(num(7))));
    assert_eq!(
        run(vec![Token::Expression(to_s)]),
        Ok(Atomic::String("7".to_string()))
    );
    let to_n = Expression::Cast(Box::new(Cast::Int(text(" 12 "))));
    assert_eq!(run(vec![Token::Expression(to_n)]), Ok(Atomic::Number(12)));
    let to_b = Expression::Cast(Box::new(Cast::Bool(num(0))));
    assert_eq!(run(vec![Token::Expression(to_b)]), Ok(Atomic::Bool(true)));
    let bad = Expression::Cast(Box::new(Cast::Bool(text("nope"))));
    assert!(matches!(
        run(vec![Token::Expression(bad)]),
        Err(EvalError::NotABoolean(_))
    ));
}

#[test]
fn print_yields_its_value() {
    let p = Token::Statement(Statement::Print(num(5)));
    assert_eq!(run(vec![p]), Ok(Atomic::Number(5)));
}

#[test]
fn scope_operations() {
    let mut scope = Scope::new();
    let name = "k".to_string();
    assert!(!scope.contains(&name));
    assert_eq!(scope.get_value(&name), None);
    scope.set(name.clone(), Atomic::Number(1));
    assert!(scope.contains(&name));
    assert_eq!(scope.get_value(&name), Some(Atomic::Number(1)));
    scope.set(name.clone(), Atomic::Bool(true));
    assert_eq!(scope.get_value(&name), Some(Atomic::Bool(true)));
}
