use rucomp::ast::{ASTNode, BooleanExpression, Statement};
use rucomp::parser::{Parser, ParseError, ParseErrorKind};
use rucomp::scanner::{scan_source, Token};

fn num(s: &str) -> Box<ASTNode> {
    Box::new(ASTNode::Number(s.to_string()))
}

fn var(s: &str) -> Box<ASTNode> {
    Box::new(ASTNode::Identifier(s.to_string()))
}

#[test]
fn addition_is_left_associative() {
    // 1+2+3 parses as (1+2)+3.
    let mut p = Parser::new(scan_source("1+2+3"));
    let ast = p.parse_expression().unwrap();
    assert_eq!(ast, ASTNode::Add(Box::new(ASTNode::Add(num("1"), num("2"))), num("3")));
}

#[test]
fn subtraction_is_left_associative() {
    // 10-3-2 parses as (10-3)-2, not 10-(3-2).
    let mut p = Parser::new(scan_source("10-3-2"));
    let ast = p.parse_expression().unwrap();
    assert_eq!(ast, ASTNode::Sub(Box::new(ASTNode::Sub(num("10"), num("3"))), num("2")));
}

#[test]
fn multiplication_binds_tighter_than_addition() {
    let mut p = Parser::new(scan_source("a+b*c"));
    let ast = p.parse_expression().unwrap();
    assert_eq!(ast, ASTNode::Add(var("a"), Box::new(ASTNode::Multiply(var("b"), var("c")))));
}

#[test]
fn parentheses_override_precedence() {
    let mut p = Parser::new(scan_source("(a+b)*c"));
    let ast = p.parse_expression().unwrap();
    assert_eq!(ast, ASTNode::Multiply(Box::new(ASTNode::Add(var("a"), var("b"))), var("c")));
}

#[test]
fn parses_whole_program() {
    let mut p = Parser::new(scan_source("args a b; int c, d; c = a + b; return c;"));
    let prog = p.parse_program().unwrap();
    assert_eq!(prog.arg_declarations, vec!["a".to_string(), "b".to_string()]);
    assert_eq!(prog.var_declarations, vec!["c".to_string(), "d".to_string()]);
    assert_eq!(prog.return_ident, "c".to_string());
    assert_eq!(prog.statements.len(), 1);
    match &prog.statements[0] {
        Statement::Assign { name, expression } => {
            assert_eq!(name, "c");
            assert_eq!(**expression, ASTNode::Add(var("a"), var("b")));
        },
        other => panic!("expected an assignment, got {:?}", other),
    }
}

#[test]
fn parses_if_and_while_statements() {
    let src = "args n; int r; r = 1; while n > 0 then { if n == 1 then { r = r; } else { r = r * n; } n = n - 1; } return r;";
    let mut p = Parser::new(scan_source(src));
    let prog = p.parse_program().unwrap();
    assert_eq!(prog.statements.len(), 2);
    match &prog.statements[1] {
        Statement::While { condition, body } => {
            assert_eq!(*condition, BooleanExpression::CompareGreaterThan(var("n"), num("0")));
            assert_eq!(body.len(), 2);
            assert!(matches!(body[0], Statement::If { .. }));
        },
        other => panic!("expected a while statement, got {:?}", other),
    }
}

#[test]
fn parsing_twice_gives_identical_programs() {
    let src = "args x; int y; if x > 10 then { y = 1; } else { y = 0; } return y;";
    let p1 = Parser::new(scan_source(src)).parse_program().unwrap();
    let p2 = Parser::new(scan_source(src)).parse_program().unwrap();
    assert_eq!(p1, p2);
}

fn parse_error(src: &str) -> ParseError {
    Parser::new(scan_source(src)).parse_program().unwrap_err()
}

#[test]
fn missing_args_keyword_is_syntax_error() {
    let e = parse_error("int a; return a;");
    assert_eq!(e.kind, ParseErrorKind::SyntaxError);
    assert_eq!(e.position, 0);
    assert_eq!(e.found, Token::KeywordInt);
}

#[test]
fn invalid_character_surfaces_as_lexical_anomaly() {
    let e = parse_error("args a; int b; b = @; return b;");
    assert_eq!(e.kind, ParseErrorKind::LexicalAnomaly);
    assert_eq!(e.found, Token::Invalid);
}

#[test]
fn missing_close_paren_is_structural() {
    let e = parse_error("args a; int b; b = (a + 1; return b;");
    assert_eq!(e.kind, ParseErrorKind::StructuralViolation);
    assert_eq!(e.found, Token::Semicolon);
}

#[test]
fn missing_close_brace_is_structural() {
    let e = parse_error("args a; int b; if a > 0 then { b = 1; return b;");
    assert_eq!(e.kind, ParseErrorKind::StructuralViolation);
    assert_eq!(e.found, Token::KeywordReturn);
}

#[test]
fn missing_return_is_structural() {
    let e = parse_error("args a; int b; b = a;");
    assert_eq!(e.kind, ParseErrorKind::StructuralViolation);
    assert_eq!(e.found, Token::EndOfFile);
}

#[test]
fn malformed_boolean_operator_is_structural() {
    let e = parse_error("args a; int b; if a + 1 then { b = 1; } else { b = 0; } return b;");
    assert_eq!(e.kind, ParseErrorKind::StructuralViolation);
    assert_eq!(e.found, Token::KeywordThen);
}

#[test]
fn missing_assign_operator_is_syntax_error() {
    let e = parse_error("args a; int b; b a; return b;");
    assert_eq!(e.kind, ParseErrorKind::SyntaxError);
    assert_eq!(e.found, Token::Identifier("a".to_string()));
}

#[test]
fn chained_comparison_is_rejected() {
    // At most one comparison operator per condition.
    let e = parse_error("args a; int b; if a < b < 3 then { b = 1; } else { b = 0; } return b;");
    assert_eq!(e.kind, ParseErrorKind::SyntaxError);
}
