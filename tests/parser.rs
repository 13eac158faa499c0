use lox::environment::Environment;
use lox::generate_ast::{Expr, LiteralsAst, Stmt};
use lox::parser::{ParseErrorKind, Parser};
use lox::scanner::Scanner;

fn parse_source(source: &str) -> (Vec<Stmt>, Vec<lox::parser::ParseError>) {
    let mut scanner = Scanner::new(source.to_string());
    let tokens = scanner.scan_tokens();
    let mut parser = Parser::new(tokens);
    parser.parse()
}

fn rendered(source: &str) -> String {
    let (stmts, errors) = parse_source(source);
    assert!(errors.is_empty());
    assert_eq!(stmts.len(), 1);
    match &stmts[0] {
        Stmt::Expression { expression } => expression.to_string(),
        other => panic!("not an expression statement: {:?}", other),
    }
}

#[test]
fn test_comp() {
    assert_eq!(rendered("1 + 5 == 2 + 2;"), "(== (+ 1 5) (+ 2 2))");
}

#[test]
fn test_comp_paren() {
    assert_eq!(
        rendered("(2 + 4 +6) != (5 +7 * 2);"),
        "(!= (group (+ (+ 2 4) 6)) (group (+ 5 (* 7 2))))"
    );
}

#[test]
fn test_comp_paren_2() {
    assert_eq!(rendered("1 == (2);"), "(== 1 (group 2))");
}

#[test]
fn precedence_and_grouping_shapes() {
    assert_eq!(rendered("2 + 3 * 4;"), "(+ 2 (* 3 4))");
    assert_eq!(rendered("(2 + 3) * 4;"), "(* (group (+ 2 3)) 4)");
    assert_eq!(rendered("10 - 2 - 3;"), "(- (- 10 2) 3)");
    assert_eq!(rendered("-123 * (45.67);"), "(* (- 123) (group 45.67))");
    assert_eq!(rendered("!!true;"), "(! (! true))");
    assert_eq!(rendered("a or b and c;"), "(or a (and b c))");
    assert_eq!(rendered("a = b = 1;"), "(= a (= b 1))");
    assert_eq!(rendered("1 < 2 == 3 >= 4;"), "(== (< 1 2) (>= 3 4))");
}

#[test]
fn invalid_assignment_target_is_a_parse_error() {
    let (stmts, errors) = parse_source("1 + 2 = 3;");
    assert!(stmts.is_empty());
    assert_eq!(errors.len(), 1);
    assert_eq!(errors[0].kind, ParseErrorKind::InvalidAssignmentTarget);
    assert_eq!(errors[0].report(), "[line 1] Error at '=': Invalid assignment target.");
}

#[test]
fn parse_errors_are_reported_and_parsing_resumes() {
    let (stmts, errors) = parse_source("var = 1; print 2; 1 +; print 3;");
    assert_eq!(errors.len(), 2);
    assert_eq!(errors[0].kind, ParseErrorKind::ExpectVariableName);
    assert_eq!(errors[1].kind, ParseErrorKind::ExpectExpression);
    assert_eq!(errors[1].report(), "[line 1] Error at ';': Expect expression.");
    assert_eq!(stmts.len(), 2);
    assert!(matches!(stmts[0], Stmt::Print { .. }));
    assert!(matches!(stmts[1], Stmt::Print { .. }));
}

#[test]
fn missing_semicolon_at_end_reports_end() {
    let (_, errors) = parse_source("print 1");
    assert_eq!(errors.len(), 1);
    assert_eq!(errors[0].kind, ParseErrorKind::ExpectSemicolonAfterValue);
    assert_eq!(errors[0].report(), "[line 1] Error at end: Expect ';' after value.");
}

#[test]
fn unclosed_block_and_if_shapes() {
    let (_, errors) = parse_source("{ print 1;");
    assert_eq!(errors.len(), 1);
    assert_eq!(errors[0].kind, ParseErrorKind::ExpectRightBraceAfterBlock);
    let (_, errors) = parse_source("if 1 print 2;");
    assert_eq!(errors[0].kind, ParseErrorKind::ExpectLeftParenAfterIf);
    let (_, errors) = parse_source("if (1 print 2;");
    assert_eq!(errors[0].kind, ParseErrorKind::ExpectRightParenAfterCondition);
    let (stmts, errors) = parse_source("if (a) { var b = 1; } else print 2;");
    assert!(errors.is_empty());
    match &stmts[0] {
        Stmt::If { then_branch, else_branch, .. } => {
            assert!(matches!(**then_branch, Stmt::Block { .. }));
            assert!(else_branch.is_some());
        }
        other => panic!("not an if statement: {:?}", other),
    }
}

fn source_of(e: &Expr) -> String {
    match e {
        Expr::Literal { value } => match value {
            LiteralsAst::Strings(s) => format!("\"{}\"", s),
            other => other.to_text(),
        },
        Expr::Variable { name } => name.lexeme.clone(),
        Expr::Grouping { expression } => format!("({})", source_of(expression)),
        Expr::Unary { operator, right } => format!("({}{})", operator.lexeme, source_of(right)),
        Expr::Binary { left, operator, right } | Expr::Logical { left, operator, right } => {
            format!("({} {} {})", source_of(left), operator.lexeme, source_of(right))
        }
        Expr::Assign { name, value } => format!("({} = {})", name.lexeme, source_of(value)),
    }
}

#[test]
fn reparsing_the_rendering_gives_the_same_value() {
    for text in [
        "(1 + 2) * -3 == -9 or false;",
        "1.5 - 2 / 4 * 3;",
        "!nil and \"a\" + \"b\";",
        "2 + 3 * 4 - 10 / 5;",
    ] {
        let (stmts, errors) = parse_source(text);
        assert!(errors.is_empty());
        let e = match &stmts[0] {
            Stmt::Expression { expression } => expression,
            other => panic!("not an expression statement: {:?}", other),
        };
        let rendered = format!("{};", source_of(e));
        let (again, errors) = parse_source(&rendered);
        assert!(errors.is_empty(), "{}", rendered);
        let e2 = match &again[0] {
            Stmt::Expression { expression } => expression,
            other => panic!("not an expression statement: {:?}", other),
        };
        let mut env1 = Environment::new();
        let mut env2 = Environment::new();
        assert_eq!(e.evaluate(&mut env1).unwrap(), e2.evaluate(&mut env2).unwrap());
    }
}
