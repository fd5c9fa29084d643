use ubpp::ast::{Atomic, BinaryOp, Expression, Statement, Token};
use ubpp::builder::{body_builds, evaluate_num_operations, parse_body};
use ubpp::eval::eval_tokens;
use ubpp::ptree::{ParseNode, Rule};
use ubpp::scope::Scope;

fn leaf(rule: Rule, text: &str) -> ParseNode {
    ParseNode { rule, text: text.to_string(), children: vec![] }
}

fn branch(rule: Rule, children: Vec<ParseNode>) -> ParseNode {
    ParseNode { rule, text: String::new(), children }
}

fn rvalue_num(n: &str) -> ParseNode {
    branch(Rule::Rvalue, vec![leaf(Rule::NumericLiteral, n)])
}

fn arith(children: Vec<ParseNode>) -> ParseNode {
    branch(Rule::BinaryNumExpression, children)
}

fn op(rule: Rule) -> ParseNode {
    leaf(rule, "")
}

fn eval_expr(e: Expression) -> Atomic {
    let mut scope = Scope::new();
    eval_tokens(&vec![Token::Expression(e)], &mut scope).unwrap()
}

#[test]
fn precedence_mul_binds_tighter() {
    // 1 + 2 * 3 == 7
    let tree = arith(vec![
        rvalue_num("1"),
        op(Rule::Plus),
        rvalue_num("2"),
        op(Rule::Mul),
        rvalue_num("3"),
    ]);
    let e = evaluate_num_operations(&tree);
    assert_eq!(eval_expr(e), Atomic::Number(7));
}

#[test]
fn power_is_right_associative() {
    // 2 ^ 3 ^ 2 == 2 ^ (3 ^ 2) == 512
    let tree = arith(vec![
        rvalue_num("2"),
        op(Rule::Pow),
        rvalue_num("3"),
        op(Rule::Pow),
        rvalue_num("2"),
    ]);
    let e = evaluate_num_operations(&tree);
    assert_eq!(eval_expr(e), Atomic::Number(512));
}

#[test]
fn minus_is_left_associative() {
    // 10 - 2 - 3 == (10 - 2) - 3 == 5
    let tree = arith(vec![
        rvalue_num("10"),
        op(Rule::Minus),
        rvalue_num("2"),
        op(Rule::Minus),
        rvalue_num("3"),
    ]);
    let e = evaluate_num_operations(&tree);
    assert_eq!(eval_expr(e), Atomic::Number(5));
}

#[test]
fn parenthesised_operand() {
    // (1 + 2) * 3 == 9
    let inner = arith(vec![rvalue_num("1"), op(Rule::Plus), rvalue_num("2")]);
    let tree = arith(vec![
        branch(Rule::ParentExpression, vec![inner]),
        op(Rule::Mul),
        rvalue_num("3"),
    ]);
    let e = evaluate_num_operations(&tree);
    assert_eq!(eval_expr(e), Atomic::Number(9));
}

#[test]
fn single_operand_is_literal() {
    let tree = arith(vec![rvalue_num("42")]);
    let e = evaluate_num_operations(&tree);
    assert_eq!(eval_expr(e), Atomic::Number(42));
}

#[test]
fn builds_statements_in_order() {
    // let x = 1; print x; x
    let let_stmt = branch(
        Rule::Statement,
        vec![branch(
            Rule::VariableStatement,
            vec![
                leaf(Rule::LetName, "let"),
                leaf(Rule::VariableName, "x"),
                branch(Rule::Expression, vec![rvalue_num("1")]),
            ],
        )],
    );
    let print_stmt = branch(
        Rule::Statement,
        vec![branch(
            Rule::PrintStatement,
            vec![
                leaf(Rule::Aux, "print"),
                branch(
                    Rule::Expression,
                    vec![branch(Rule::Rvalue, vec![leaf(Rule::VariableName, "x")])],
                ),
            ],
        )],
    );
    let tail = branch(
        Rule::Expression,
        vec![branch(Rule::Rvalue, vec![leaf(Rule::VariableName, "x")])],
    );
    let body = branch(Rule::Aux, vec![let_stmt, print_stmt, tail]);
    let tokens = parse_body(&body);
    assert_eq!(tokens.len(), 3);
    let mut scope = Scope::new();
    let result = eval_tokens(&tokens, &mut scope).unwrap();
    assert_eq!(result, Atomic::Number(1));
}

#[test]
fn body_builds_decides_the_builder_precondition() {
    let good = branch(Rule::Aux, vec![branch(Rule::Expression, vec![rvalue_num("1")])]);
    assert!(body_builds(&good));
    // a top-level child of an unexpected rule has no build value
    let bad = branch(Rule::Aux, vec![leaf(Rule::VariableName, "x")]);
    assert!(!body_builds(&bad));
    // a numeric literal outside the 64-bit range has no build value
    let huge = branch(
        Rule::Aux,
        vec![branch(
            Rule::Expression,
            vec![branch(Rule::Rvalue, vec![leaf(Rule::NumericLiteral, "99999999999999999999")])],
        )],
    );
    assert!(!body_builds(&huge));
}

#[test]
fn break_keyword_becomes_break_token() {
    let body = branch(Rule::Aux, vec![leaf(Rule::BreakKeyword, "break")]);
    let tokens = parse_body(&body);
    assert!(matches!(tokens[0], Token::Break));
}

#[test]
fn unknown_statement_kind_is_skipped() {
    let odd = branch(Rule::Statement, vec![leaf(Rule::Aux, "???")]);
    let body = branch(Rule::Aux, vec![odd]);
    let tokens = parse_body(&body);
    assert!(tokens.is_empty());
}

#[test]
fn builds_if_statement_with_else() {
    // if (false) { 1 } else { 2 }
    let cond = branch(
        Rule::Aux,
        vec![branch(
            Rule::Expression,
            vec![branch(
                Rule::Rvalue,
                vec![branch(Rule::BooleanLiteral, vec![leaf(Rule::FalseLiteral, "false")])],
            )],
        )],
    );
    let then_body = branch(
        Rule::Aux,
        vec![branch(Rule::Expression, vec![rvalue_num("1")])],
    );
    let else_body = branch(
        Rule::Aux,
        vec![branch(Rule::Expression, vec![rvalue_num("2")])],
    );
    let if_stmt = branch(
        Rule::Statement,
        vec![branch(
            Rule::IfStatement,
            vec![
                leaf(Rule::Aux, "if"),
                cond,
                then_body,
                leaf(Rule::Aux, "else"),
                else_body,
            ],
        )],
    );
    let body = branch(Rule::Aux, vec![if_stmt]);
    let tokens = parse_body(&body);
    let mut scope = Scope::new();
    assert_eq!(eval_tokens(&tokens, &mut scope).unwrap(), Atomic::Number(2));
}

#[test]
fn builds_cast_expression() {
    // "7" as number
    let string_rvalue = branch(
        Rule::Rvalue,
        vec![branch(
            Rule::StringLiteral,
            vec![leaf(Rule::Aux, "\""), leaf(Rule::Aux, "7"), leaf(Rule::Aux, "\"")],
        )],
    );
    let cast_node = branch(
        Rule::Aux,
        vec![
            leaf(Rule::Aux, "as"),
            branch(Rule::Aux, vec![leaf(Rule::NumberType, "number")]),
        ],
    );
    let expr = branch(Rule::Expression, vec![string_rvalue, cast_node]);
    let body = branch(Rule::Aux, vec![expr]);
    let tokens = parse_body(&body);
    let mut scope = Scope::new();
    assert_eq!(eval_tokens(&tokens, &mut scope).unwrap(), Atomic::Number(7));
}

#[test]
fn builds_comparison_and_logic() {
    // rvalue 1 < rvalue 2 via boolean_expression
    let be = branch(
        Rule::BooleanExpression,
        vec![
            rvalue_num("1"),
            branch(Rule::Aux, vec![leaf(Rule::SmallerThan, "<")]),
            rvalue_num("2"),
        ],
    );
    let both = branch(
        Rule::BooleanOperation,
        vec![
            be,
            leaf(Rule::And, "and"),
            branch(
                Rule::Rvalue,
                vec![branch(Rule::BooleanLiteral, vec![leaf(Rule::TrueLiteral, "true")])],
            ),
        ],
    );
    let body = branch(Rule::Aux, vec![branch(Rule::Expression, vec![both])]);
    let tokens = parse_body(&body);
    let mut scope = Scope::new();
    assert_eq!(eval_tokens(&tokens, &mut scope).unwrap(), Atomic::Bool(true));
}

#[test]
fn builds_while_with_break() {
    // while (true) { break }
    let cond = branch(
        Rule::Aux,
        vec![branch(
            Rule::Expression,
            vec![branch(
                Rule::Rvalue,
                vec![branch(Rule::BooleanLiteral, vec![leaf(Rule::TrueLiteral, "true")])],
            )],
        )],
    );
    let loop_body = branch(Rule::Aux, vec![leaf(Rule::BreakKeyword, "break")]);
    let while_stmt = branch(
        Rule::Statement,
        vec![branch(
            Rule::WhileStatement,
            vec![leaf(Rule::Aux, "while"), cond, loop_body],
        )],
    );
    let body = branch(Rule::Aux, vec![while_stmt]);
    let tokens = parse_body(&body);
    let mut scope = Scope::new();
    assert_eq!(eval_tokens(&tokens, &mut scope).unwrap(), Atomic::Null);
}

#[test]
fn numeric_literal_text_is_trimmed() {
    let tree = arith(vec![branch(
        Rule::Rvalue,
        vec![leaf(Rule::NumericLiteral, " 5 ")],
    )]);
    let e = evaluate_num_operations(&tree);
    match e {
        Expression::Atomic(Atomic::Number(5)) => {}
        other => panic!("unexpected expression {:?}", other),
    }
}

#[test]
fn mixed_tiers_resolve() {
    // 2 * 3 ^ 2 + 1 == 19
    let tree = arith(vec![
        rvalue_num("2"),
        op(Rule::Mul),
        rvalue_num("3"),
        op(Rule::Pow),
        rvalue_num("2"),
        op(Rule::Plus),
        rvalue_num("1"),
    ]);
    let e = evaluate_num_operations(&tree);
    match &e {
        Expression::BinaryOp(b) => match &**b {
            BinaryOp::Plus { .. } => {}
            other => panic!("top operator should be Plus, got {:?}", other),
        },
        other => panic!("unexpected expression {:?}", other),
    }
    assert_eq!(eval_expr(e), Atomic::Number(19));
}

#[test]
fn assignment_statement_evaluates() {
    // let z = 4; z (shapes as the grammar hands them over)
    let stmt = branch(
        Rule::Statement,
        vec![branch(
            Rule::VariableStatement,
            vec![
                leaf(Rule::VariableName, "z"),
                branch(Rule::Expression, vec![rvalue_num("4")]),
            ],
        )],
    );
    let body = branch(Rule::Aux, vec![stmt]);
    let tokens = parse_body(&body);
    match &tokens[0] {
        Token::Statement(Statement::VariableAssignment(va)) => {
            assert!(!va.new_definition);
            assert_eq!(va.ident, "z");
        }
        other => panic!("unexpected token {:?}", other),
    }
}
