use lox::environment::Environment;
use lox::generate_ast::{Expr, LiteralsAst};
use lox::interpreter::{Interpreter, RuntimeErrorKind};
use lox::number::Num;
use lox::token::{Literals, Token, TokenType};
use lox::{run, RunError};

fn eval(source: &str) -> Result<LiteralsAst, RunError> {
    let mut interpreter = Interpreter::new();
    run(source.to_string(), &mut interpreter)
}

fn value(source: &str) -> LiteralsAst {
    match eval(source) {
        Ok(v) => v,
        Err(e) => panic!("{} failed: {:?}", source, e),
    }
}

fn printed(source: &str) -> Vec<String> {
    let mut interpreter = Interpreter::new();
    match run(source.to_string(), &mut interpreter) {
        Ok(_) => {}
        Err(e) => panic!("{} failed: {:?}", source, e),
    }
    interpreter.take_output()
}

fn runtime_error(source: &str) -> RuntimeErrorKind {
    match eval(source) {
        Err(RunError::Runtime(e)) => e.kind,
        other => panic!("{} gave {:?}", source, other),
    }
}

fn num(n: i32) -> LiteralsAst {
    LiteralsAst::Number(Num::from_i32(n))
}

#[test]
fn test_addition() {
    assert_eq!(value("2 + 2;"), num(4));
}

#[test]
fn test_subtraction() {
    assert_eq!(value("42-10;"), num(32));
}

#[test]
fn test_multiplication() {
    assert_eq!(value("4 * 10;"), num(40));
}

#[test]
fn test_division() {
    assert_eq!(value("4 / 2;"), num(2));
}

#[test]
fn test_concatenation() {
    assert_eq!(value("\"Hello\" + \"World\";"), LiteralsAst::Strings("HelloWorld".to_string()));
}

#[test]
fn test_equal_equal() {
    assert_eq!(value("2 == 2;"), LiteralsAst::True);
}

#[test]
fn test_bang_equal() {
    assert_eq!(value("2 != 3;"), LiteralsAst::True);
}

#[test]
fn test_greater_than() {
    assert_eq!(value("2 > 3;"), LiteralsAst::False);
}

#[test]
fn test_lesser_than() {
    assert_eq!(value("2 < 3;"), LiteralsAst::True);
}

#[test]
fn test_addition_fail() {
    assert_eq!(runtime_error("2 + \"Test\";"), RuntimeErrorKind::OperandsMustBeNumbersOrStrings);
}

#[test]
fn arithmetic_on_literals_is_exact() {
    assert_eq!(value("1.5 + 2.25;"), LiteralsAst::Number(Num::from_ratio(15, 4).unwrap()));
    assert_eq!(value("1.5 - 2.25;"), LiteralsAst::Number(Num::from_ratio(-3, 4).unwrap()));
    assert_eq!(value("1.5 * 2.25;"), LiteralsAst::Number(Num::from_ratio(27, 8).unwrap()));
    assert_eq!(value("1 / 3;"), LiteralsAst::Number(Num::from_ratio(1, 3).unwrap()));
    assert_eq!(value("0.1 + 0.2 == 0.3;"), LiteralsAst::True);
}

#[test]
fn division_by_zero_gives_infinities_and_nan() {
    assert_eq!(value("1 / 0;"), LiteralsAst::Number(Num::infinity()));
    assert_eq!(value("-1 / 0;"), LiteralsAst::Number(Num::neg_infinity()));
    assert_eq!(value("0 / 0;"), LiteralsAst::Number(Num::nan()));
    assert_eq!(value("0 / 0 == 0 / 0;"), LiteralsAst::False);
    assert_eq!(value("1 / 0 > 1000000;"), LiteralsAst::True);
    assert_eq!(printed("print 1 / 0; print 0 / 0;"), vec!["inf", "NaN"]);
}

#[test]
fn string_concatenation() {
    assert_eq!(value("\"foo\" + \"bar\";"), LiteralsAst::Strings("foobar".to_string()));
    assert_eq!(runtime_error("\"foo\" + 1;"), RuntimeErrorKind::OperandsMustBeNumbersOrStrings);
}

#[test]
fn truthiness_and_equality() {
    assert_eq!(value("nil == nil;"), LiteralsAst::True);
    assert_eq!(value("0 == false;"), LiteralsAst::False);
    assert_eq!(value("1 == 1;"), LiteralsAst::True);
    assert_eq!(value("\"1\" == 1;"), LiteralsAst::False);
    assert_eq!(value("!0;"), LiteralsAst::False);
    assert_eq!(value("!\"\";"), LiteralsAst::False);
    assert_eq!(value("!nil;"), LiteralsAst::True);
    assert_eq!(value("!false;"), LiteralsAst::True);
}

#[test]
fn precedence_and_associativity() {
    assert_eq!(value("2 + 3 * 4;"), num(14));
    assert_eq!(value("(2 + 3) * 4;"), num(20));
    assert_eq!(value("10 - 2 - 3;"), num(5));
    assert_eq!(value("-2 * -3;"), num(6));
}

#[test]
fn scoping() {
    assert_eq!(printed("var a = 1; { var a = 2; } print a;"), vec!["1"]);
    assert_eq!(printed("var a = 1; { a = 2; } print a;"), vec!["2"]);
    assert_eq!(printed("var a = 1; { var a = 2; print a; } print a;"), vec!["2", "1"]);
    assert_eq!(printed("var a; print a; var a = 3; print a;"), vec!["nil", "3"]);
}

#[test]
fn block_bindings_do_not_leak() {
    assert_eq!(runtime_error("{ var b = 1; } print b;"), RuntimeErrorKind::UndefinedVariable);
}

#[test]
fn undefined_variable() {
    assert_eq!(runtime_error("print b;"), RuntimeErrorKind::UndefinedVariable);
    assert_eq!(runtime_error("b = 1;"), RuntimeErrorKind::UndefinedVariable);
    match eval("print b;") {
        Err(RunError::Runtime(e)) => {
            assert_eq!(e.message(), "Undefined variable 'b'.");
            assert_eq!(e.report(), "[line 1] Error at 'b': Undefined variable 'b'.");
        }
        other => panic!("unexpected {:?}", other),
    }
}

#[test]
fn conditional() {
    assert_eq!(printed("if (1 == 1) print \"yes\"; else print \"no\";"), vec!["yes"]);
    assert_eq!(printed("if (1 == 2) print \"yes\"; else print \"no\";"), vec!["no"]);
    assert!(printed("if (1 == 2) print \"yes\";").is_empty());
}

#[test]
fn logical_operators_short_circuit() {
    assert_eq!(printed("var a = 1; false and (a = 2); print a;"), vec!["1"]);
    assert_eq!(printed("var a = 1; true or (a = 2); print a;"), vec!["1"]);
    assert_eq!(printed("var a = 1; true and (a = 2); print a;"), vec!["2"]);
    assert_eq!(value("nil or \"x\";"), LiteralsAst::Strings("x".to_string()));
    assert_eq!(value("0 and 7;"), num(7));
}

#[test]
fn operand_type_errors() {
    assert_eq!(runtime_error("-\"a\";"), RuntimeErrorKind::OperandMustBeNumber);
    assert_eq!(runtime_error("1 < \"a\";"), RuntimeErrorKind::OperandsMustBeNumbers);
    assert_eq!(runtime_error("nil * 2;"), RuntimeErrorKind::OperandsMustBeNumbers);
}

#[test]
fn number_out_of_range() {
    assert_eq!(
        runtime_error("9000000000000000000 + 9000000000000000000;"),
        RuntimeErrorKind::NumberOutOfRange
    );
}

#[test]
fn syntax_errors_stop_the_run() {
    let mut interpreter = Interpreter::new();
    match run("print 1; print ;".to_string(), &mut interpreter) {
        Err(RunError::Syntax { scan, parse }) => {
            assert!(scan.is_empty());
            assert_eq!(parse.len(), 1);
        }
        other => panic!("unexpected {:?}", other),
    }
    assert!(interpreter.output().is_empty());
}

#[test]
fn bindings_persist_between_runs() {
    let mut interpreter = Interpreter::new();
    assert!(run("var a = 5;".to_string(), &mut interpreter).is_ok());
    assert!(run("print b;".to_string(), &mut interpreter).is_err());
    assert!(run("print a * 2;".to_string(), &mut interpreter).is_ok());
    assert_eq!(interpreter.take_output(), vec!["10"]);
}

#[test]
fn display_of_values() {
    assert_eq!(printed("print 2.5; print -0.25; print 1/3; print true; print nil; print \"s\";"),
        vec!["2.5", "-0.25", "0.3333333333333333", "true", "nil", "s"]);
    assert_eq!(LiteralsAst::Number(Num::from_ratio(-7, 2).unwrap()).to_text(), "-3.5");
}

#[test]
fn environment_scopes() {
    let mut env = Environment::new();
    env.define("a".to_string(), num(1));
    env.push_scope();
    assert_eq!(env.depth(), 2);
    assert_eq!(env.get(&"a".to_string()), Some(num(1)));
    env.define("a".to_string(), num(2));
    assert_eq!(env.get(&"a".to_string()), Some(num(2)));
    assert!(env.assign(&"a".to_string(), num(3)));
    env.pop_scope();
    assert_eq!(env.get(&"a".to_string()), Some(num(1)));
    assert!(!env.assign(&"zz".to_string(), num(3)));
    assert_eq!(env.get(&"zz".to_string()), None);
}

#[test]
fn evaluate_hand_built_tree() {
    let minus = Token::new(TokenType::Minus, "-".to_string(), Literals::Null, 1);
    let star = Token::new(TokenType::Star, "*".to_string(), Literals::Null, 1);
    let e = Expr::Binary {
        left: Box::new(Expr::Unary {
            operator: minus,
            right: Box::new(Expr::Literal { value: num(123) }),
        }),
        operator: star,
        right: Box::new(Expr::Grouping {
            expression: Box::new(Expr::Literal {
                value: LiteralsAst::Number(Num::from_ratio(4567, 100).unwrap()),
            }),
        }),
    };
    assert_eq!(e.to_string(), "(* (- 123) (group 45.67))");
    let mut env = Environment::new();
    assert_eq!(
        e.evaluate(&mut env).unwrap(),
        LiteralsAst::Number(Num::from_ratio(-561741, 100).unwrap())
    );
}

#[test]
fn number_operations() {
    let a = Num::from_i32(7);
    let b = Num::from_i32(2);
    assert_eq!(a.div(b), Num::from_ratio(7, 2));
    assert_eq!(a.sub(b), Some(Num::from_i32(5)));
    assert_eq!(a.mul(b), Some(Num::from_i32(14)));
    assert!(b.lt(a));
    assert!(!a.lt(b));
    assert!(a.le(a));
    assert!(a.num_eq(Num::from_ratio(14, 2).unwrap()));
    assert_eq!(Num::from_ratio(6, -4), Num::from_ratio(-3, 2));
    assert_eq!(Num::from_ratio(1, 0), None);
    assert_eq!(a.neg().to_text(), "-7");
    assert_eq!(Num::infinity().add(Num::neg_infinity()), Some(Num::nan()));
    assert_eq!(Num::infinity().mul(Num::from_i32(0)), Some(Num::nan()));
    assert_eq!(Num::from_i32(3).div(Num::infinity()), Some(Num::from_i32(0)));
}
