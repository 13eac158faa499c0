use vstd::prelude::*;

use crate::environment::{assigned, defined, lookup, Environment};
use crate::generate_ast::{bool_value, display, truthy, values_equal, Expr, LiteralsAst, Stmt, Val};
use crate::text::{diagnostic, diagnostic_text, location, location_text, push_str};
use crate::token::{Token, TokenType};

verus! {

/// What went wrong while running a program.
#[derive(Clone, Copy, Debug, PartialEq, Eq, Structural)]
pub enum RuntimeErrorKind {
    /// A variable was read or assigned that no scope declares.
    UndefinedVariable,
    /// Unary `-` on something other than a number.
    OperandMustBeNumber,
    /// An arithmetic or comparison operator on something other than two numbers.
    OperandsMustBeNumbers,
    /// `+` on something other than two numbers or two strings.
    OperandsMustBeNumbersOrStrings,
    /// An exact result whose numerator or denominator does not fit in 64 bits.
    NumberOutOfRange,
    /// An operator token that the node kind does not take.
    UnknownOperator,
}

/// A runtime error, with the token (variable name or operator) it is about.
#[derive(Debug, PartialEq)]
pub struct RuntimeError {
    pub kind: RuntimeErrorKind,
    pub token: Token,
}

pub type Frames = Seq<Map<Seq<char>, Val>>;

pub open spec fn error(kind: RuntimeErrorKind, token: Token) -> Result<Val, RuntimeError> {
    Err(RuntimeError { kind, token })
}

/// The model of an evaluation result.
pub open spec fn result_view(r: Result<LiteralsAst, RuntimeError>) -> Result<Val, RuntimeError> {
    match r {
        Ok(v) => Ok(v@),
        Err(e) => Err(e),
    }
}

/// The number that an arithmetic operator gives, or the out-of-range error.
pub open spec fn arith(op: Token, a: crate::number::Num, b: crate::number::Num) -> Result<
    Val,
    RuntimeError,
> {
    let r = match op.tokentype {
        TokenType::Plus => a.spec_add(b),
        TokenType::Minus => a.spec_sub(b),
        TokenType::Star => a.spec_mul(b),
        _ => a.spec_div(b),
    };
    match r {
        Some(c) => Ok(Val::Number(c)),
        None => error(RuntimeErrorKind::NumberOutOfRange, op),
    }
}

/// The value of a binary operator applied to two values.
pub open spec fn binary_value(op: Token, a: Val, b: Val) -> Result<Val, RuntimeError> {
    match op.tokentype {
        TokenType::Plus => match (a, b) {
            (Val::Number(x), Val::Number(y)) => arith(op, x, y),
            (Val::Str(x), Val::Str(y)) => Ok(Val::Str(x + y)),
            _ => error(RuntimeErrorKind::OperandsMustBeNumbersOrStrings, op),
        },
        TokenType::Minus | TokenType::Star | TokenType::Slash | TokenType::Greater
        | TokenType::GreaterEqual | TokenType::Less | TokenType::LessEqual => match (a, b) {
            (Val::Number(x), Val::Number(y)) => match op.tokentype {
                TokenType::Greater => Ok(Val::Bool(y.spec_lt(x))),
                TokenType::GreaterEqual => Ok(Val::Bool(y.spec_le(x))),
                TokenType::Less => Ok(Val::Bool(x.spec_lt(y))),
                TokenType::LessEqual => Ok(Val::Bool(x.spec_le(y))),
                _ => arith(op, x, y),
            },
            _ => error(RuntimeErrorKind::OperandsMustBeNumbers, op),
        },
        TokenType::EqualEqual => Ok(Val::Bool(values_equal(a, b))),
        TokenType::BangEqual => Ok(Val::Bool(!values_equal(a, b))),
        _ => error(RuntimeErrorKind::UnknownOperator, op),
    }
}

/// The value of a unary operator applied to a value.
pub open spec fn unary_value(op: Token, v: Val) -> Result<Val, RuntimeError> {
    match op.tokentype {
        TokenType::Minus => match v {
            Val::Number(n) => Ok(Val::Number(n.spec_neg())),
            _ => error(RuntimeErrorKind::OperandMustBeNumber, op),
        },
        TokenType::Bang => Ok(Val::Bool(!truthy(v))),
        _ => error(RuntimeErrorKind::UnknownOperator, op),
    }
}

/// Evaluation of an expression in the scopes `env`: the scopes afterwards
/// (an assignment changes them) and the value or the error. Operands are
/// evaluated left to right; `and` and `or` evaluate their right operand only
/// where the left one does not decide the result, and give the operand that
/// decided.
pub open spec fn eval(e: Expr, env: Frames) -> (Frames, Result<Val, RuntimeError>)
    decreases e,
{
    match e {
        Expr::Literal { value } => (env, Ok(value@)),
        Expr::Grouping { expression } => eval(*expression, env),
        Expr::Variable { name } => match lookup(env, name.lexeme@) {
            Some(v) => (env, Ok(v)),
            None => (env, error(RuntimeErrorKind::UndefinedVariable, name)),
        },
        Expr::Assign { name, value } => {
            let (env1, r) = eval(*value, env);
            match r {
                Ok(v) => match assigned(env1, name.lexeme@, v) {
                    Some(env2) => (env2, Ok(v)),
                    None => (env1, error(RuntimeErrorKind::UndefinedVariable, name)),
                },
                Err(x) => (env1, Err(x)),
            }
        },
        Expr::Unary { operator, right } => {
            let (env1, r) = eval(*right, env);
            match r {
                Ok(v) => (env1, unary_value(operator, v)),
                Err(x) => (env1, Err(x)),
            }
        },
        Expr::Binary { left, operator, right } => {
            let (env1, r1) = eval(*left, env);
            match r1 {
                Ok(a) => {
                    let (env2, r2) = eval(*right, env1);
                    match r2 {
                        Ok(b) => (env2, binary_value(operator, a, b)),
                        Err(x) => (env2, Err(x)),
                    }
                },
                Err(x) => (env1, Err(x)),
            }
        },
        Expr::Logical { left, operator, right } => {
            let (env1, r1) = eval(*left, env);
            match r1 {
                Ok(a) => match operator.tokentype {
                    TokenType::Or => if truthy(a) {
                        (env1, Ok(a))
                    } else {
                        eval(*right, env1)
                    },
                    TokenType::And => if !truthy(a) {
                        (env1, Ok(a))
                    } else {
                        eval(*right, env1)
                    },
                    _ => (env1, error(RuntimeErrorKind::UnknownOperator, operator)),
                },
                Err(x) => (env1, Err(x)),
            }
        },
    }
}

/// What a run can change: the scopes, and the lines printed so far.
pub struct State {
    pub frames: Frames,
    pub output: Seq<Seq<char>>,
}

/// The scopes after leaving a block: its frame is dropped.
pub open spec fn popped(frames: Frames) -> Frames {
    if frames.len() > 1 {
        frames.drop_last()
    } else {
        frames
    }
}

/// Running one statement: the state afterwards and the statement's value
/// (the value of its expression; for a block, of its last statement; `nil`
/// where nothing was evaluated), or the error that stopped it.
pub open spec fn exec_stmt(s: Stmt, st: State) -> (State, Result<Val, RuntimeError>)
    decreases s, 0int,
{
    match s {
        Stmt::Expression { expression } => {
            let (f, r) = eval(expression, st.frames);
            (State { frames: f, output: st.output }, r)
        },
        Stmt::Print { expression } => {
            let (f, r) = eval(expression, st.frames);
            match r {
                Ok(v) => (State { frames: f, output: st.output.push(display(v)) }, Ok(v)),
                Err(x) => (State { frames: f, output: st.output }, Err(x)),
            }
        },
        Stmt::Var { name, initializer } => match initializer {
            Some(e) => {
                let (f, r) = eval(e, st.frames);
                match r {
                    Ok(v) => (
                        State { frames: defined(f, name.lexeme@, v), output: st.output },
                        Ok(v),
                    ),
                    Err(x) => (State { frames: f, output: st.output }, Err(x)),
                }
            },
            None => (
                State { frames: defined(st.frames, name.lexeme@, Val::Nil), output: st.output },
                Ok(Val::Nil),
            ),
        },
        Stmt::Block { statements } => {
            let inner = State { frames: st.frames.push(Map::empty()), output: st.output };
            let (st1, r) = exec_seq(statements, 0, inner, Val::Nil);
            (State { frames: popped(st1.frames), output: st1.output }, r)
        },
        Stmt::If { condition, then_branch, else_branch } => {
            let (f, r) = eval(condition, st.frames);
            let st1 = State { frames: f, output: st.output };
            match r {
                Ok(c) => if truthy(c) {
                    exec_stmt(*then_branch, st1)
                } else {
                    match else_branch {
                        Some(b) => exec_stmt(*b, st1),
                        None => (st1, Ok(Val::Nil)),
                    }
                },
                Err(x) => (st1, Err(x)),
            }
        },
    }
}

/// Running the statements of `v` from index `i` on, in order, stopping at the
/// first error; `last` is the value of the statement before `i`.
pub open spec fn exec_seq(v: Vec<Stmt>, i: int, st: State, last: Val) -> (
    State,
    Result<Val, RuntimeError>,
)
    decreases v, v.len() - i,
{
    if i < 0 || i >= v.len() {
        (st, Ok(last))
    } else {
        let (st1, r) = exec_stmt(v[i], st);
        match r {
            Ok(x) => exec_seq(v, i + 1, st1, x),
            Err(x) => (st1, Err(x)),
        }
    }
}

} // verus!

verus! {

fn arith_exec(op: &Token, a: crate::number::Num, b: crate::number::Num) -> (r: Result<
    LiteralsAst,
    RuntimeError,
>)
    requires
        op.tokentype is Plus || op.tokentype is Minus || op.tokentype is Star || op.tokentype is Slash,
    ensures
        result_view(r) == arith(*op, a, b),
{
    let c = match op.tokentype {
        TokenType::Plus => a.add(b),
        TokenType::Minus => a.sub(b),
        TokenType::Star => a.mul(b),
        _ => a.div(b),
    };
    match c {
        Some(c) => Ok(LiteralsAst::Number(c)),
        None => Err(RuntimeError { kind: RuntimeErrorKind::NumberOutOfRange, token: op.clone() }),
    }
}

fn binary_exec(op: &Token, a: LiteralsAst, b: LiteralsAst) -> (r: Result<LiteralsAst, RuntimeError>)
    ensures
        result_view(r) == binary_value(*op, a@, b@),
{
    match op.tokentype {
        TokenType::Plus => match (a, b) {
            (LiteralsAst::Number(x), LiteralsAst::Number(y)) => arith_exec(op, x, y),
            (LiteralsAst::Strings(x), LiteralsAst::Strings(y)) => {
                let mut s = x;
                push_str(&mut s, y.as_str());
                Ok(LiteralsAst::Strings(s))
            },
            _ => Err(
                RuntimeError {
                    kind: RuntimeErrorKind::OperandsMustBeNumbersOrStrings,
                    token: op.clone(),
                },
            ),
        },
        TokenType::Minus | TokenType::Star | TokenType::Slash | TokenType::Greater
        | TokenType::GreaterEqual | TokenType::Less | TokenType::LessEqual => match (a, b) {
            (LiteralsAst::Number(x), LiteralsAst::Number(y)) => match op.tokentype {
                TokenType::Greater => Ok(bool_value(y.lt(x))),
                TokenType::GreaterEqual => Ok(bool_value(y.le(x))),
                TokenType::Less => Ok(bool_value(x.lt(y))),
                TokenType::LessEqual => Ok(bool_value(x.le(y))),
                _ => arith_exec(op, x, y),
            },
            _ => Err(
                RuntimeError { kind: RuntimeErrorKind::OperandsMustBeNumbers, token: op.clone() },
            ),
        },
        TokenType::EqualEqual => Ok(bool_value(LiteralsAst::is_equal(&a, &b))),
        TokenType::BangEqual => Ok(bool_value(!LiteralsAst::is_equal(&a, &b))),
        _ => Err(RuntimeError { kind: RuntimeErrorKind::UnknownOperator, token: op.clone() }),
    }
}

impl Expr {
    /// Evaluates the expression in `environment`, which an assignment changes.
    pub fn evaluate(&self, environment: &mut Environment) -> (r: Result<LiteralsAst, RuntimeError>)
        ensures
            (final(environment)@, result_view(r)) == eval(*self, old(environment)@),
        decreases self,
    {
        match self {
            Expr::Literal { value } => Ok(value.clone()),
            Expr::Grouping { expression } => expression.evaluate(environment),
            Expr::Variable { name } => match environment.get(&name.lexeme) {
                Some(v) => Ok(v),
                None => Err(
                    RuntimeError { kind: RuntimeErrorKind::UndefinedVariable, token: name.clone() },
                ),
            },
            Expr::Assign { name, value } => {
                let v = value.evaluate(environment)?;
                let stored = v.clone();
                if environment.assign(&name.lexeme, stored) {
                    Ok(v)
                } else {
                    Err(
                        RuntimeError {
                            kind: RuntimeErrorKind::UndefinedVariable,
                            token: name.clone(),
                        },
                    )
                }
            },
            Expr::Unary { operator, right } => {
                let v = right.evaluate(environment)?;
                match operator.tokentype {
                    TokenType::Minus => match v {
                        LiteralsAst::Number(n) => Ok(LiteralsAst::Number(n.neg())),
                        _ => Err(
                            RuntimeError {
                                kind: RuntimeErrorKind::OperandMustBeNumber,
                                token: operator.clone(),
                            },
                        ),
                    },
                    TokenType::Bang => Ok(bool_value(!v.is_truthy())),
                    _ => Err(
                        RuntimeError {
                            kind: RuntimeErrorKind::UnknownOperator,
                            token: operator.clone(),
                        },
                    ),
                }
            },
            Expr::Binary { left, operator, right } => {
                let a = left.evaluate(environment)?;
                let b = right.evaluate(environment)?;
                binary_exec(operator, a, b)
            },
            Expr::Logical { left, operator, right } => {
                let a = left.evaluate(environment)?;
                match operator.tokentype {
                    TokenType::Or => if a.is_truthy() {
                        Ok(a)
                    } else {
                        right.evaluate(environment)
                    },
                    TokenType::And => if !a.is_truthy() {
                        Ok(a)
                    } else {
                        right.evaluate(environment)
                    },
                    _ => Err(
                        RuntimeError {
                            kind: RuntimeErrorKind::UnknownOperator,
                            token: operator.clone(),
                        },
                    ),
                }
            },
        }
    }
}

} // verus!

verus! {

/// Runs statements against an environment it owns (the global scope lives
/// as long as the interpreter) and collects the lines that `print` writes.
#[derive(Debug)]
pub struct Interpreter {
    environment: Environment,
    output: Vec<String>,
}

impl View for Interpreter {
    type V = State;

    closed spec fn view(&self) -> State {
        State { frames: self.environment@, output: self.output@.map_values(|s: String| s@) }
    }
}

impl Interpreter {
    /// An interpreter with an empty global scope and nothing printed.
    pub fn new() -> (r: Self)
        ensures
            r@.frames == seq![Map::<Seq<char>, Val>::empty()],
            r@.output == Seq::<Seq<char>>::empty(),
    {
        let r = Interpreter { environment: Environment::new(), output: Vec::new() };
        assert(r@.output =~= Seq::<Seq<char>>::empty());
        r
    }

    /// The lines printed so far, oldest first.
    pub fn output(&self) -> (r: &Vec<String>)
        ensures
            r@.map_values(|s: String| s@) == self@.output,
    {
        &self.output
    }

    /// Hands out the lines printed so far and forgets them.
    pub fn take_output(&mut self) -> (r: Vec<String>)
        ensures
            r@.map_values(|s: String| s@) == old(self)@.output,
            final(self)@.frames == old(self)@.frames,
            final(self)@.output == Seq::<Seq<char>>::empty(),
    {
        let mut r = Vec::new();
        std::mem::swap(&mut r, &mut self.output);
        assert(final(self)@.output =~= Seq::<Seq<char>>::empty());
        r
    }

    fn print_line(&mut self, v: &LiteralsAst)
        ensures
            final(self)@ == (State {
                frames: old(self)@.frames,
                output: old(self)@.output.push(display(v@)),
            }),
    {
        let line = v.to_text();
        self.output.push(line);
        assert(final(self)@.output =~= old(self)@.output.push(display(v@)));
    }

    /// Runs one statement.
    pub fn execute(&mut self, stmt: &Stmt) -> (r: Result<LiteralsAst, RuntimeError>)
        ensures
            (final(self)@, result_view(r)) == exec_stmt(*stmt, old(self)@),
        decreases stmt, 0int,
    {
        match stmt {
            Stmt::Expression { expression } => expression.evaluate(&mut self.environment),
            Stmt::Print { expression } => {
                let v = expression.evaluate(&mut self.environment)?;
                self.print_line(&v);
                Ok(v)
            },
            Stmt::Var { name, initializer } => {
                let v = match initializer {
                    Some(e) => e.evaluate(&mut self.environment)?,
                    None => LiteralsAst::Null,
                };
                let stored = v.clone();
                self.environment.define(name.lexeme.clone(), stored);
                Ok(v)
            },
            Stmt::Block { statements } => {
                self.environment.push_scope();
                let r = self.execute_block(statements);
                self.environment.pop_scope();
                r
            },
            Stmt::If { condition, then_branch, else_branch } => {
                let c = condition.evaluate(&mut self.environment)?;
                if c.is_truthy() {
                    self.execute(then_branch)
                } else {
                    match else_branch {
                        Some(b) => self.execute(b),
                        None => Ok(LiteralsAst::Null),
                    }
                }
            },
        }
    }

    /// Runs the statements in order, stopping at the first error.
    fn execute_block(&mut self, statements: &Vec<Stmt>) -> (r: Result<LiteralsAst, RuntimeError>)
        ensures
            (final(self)@, result_view(r)) == exec_seq(*statements, 0, old(self)@, Val::Nil),
        decreases statements, statements.len(),
    {
        let mut last = LiteralsAst::Null;
        let mut i: usize = 0;
        while i < statements.len()
            invariant
                i <= statements.len(),
                exec_seq(*statements, 0, old(self)@, Val::Nil) == exec_seq(
                    *statements,
                    i as int,
                    self@,
                    last@,
                ),
            decreases statements.len() - i,
        {
            let r = self.execute(&statements[i]);
            match r {
                Ok(v) => {
                    last = v;
                },
                Err(e) => {
                    return Err(e);
                },
            }
            i = i + 1;
        }
        Ok(last)
    }

    /// Runs a program: its statements in order, in the global scope and
    /// the bindings left by earlier runs. Stops at the first runtime error
    /// and returns it; otherwise returns the value of the last statement
    /// (`nil` for an empty program).
    pub fn interpret(&mut self, statements: Vec<Stmt>) -> (r: Result<LiteralsAst, RuntimeError>)
        ensures
            (final(self)@, result_view(r)) == exec_seq(statements, 0, old(self)@, Val::Nil),
    {
        self.execute_block(&statements)
    }
}

} // verus!

verus! {

pub open spec fn runtime_message(e: RuntimeError) -> Seq<char> {
    match e.kind {
        RuntimeErrorKind::UndefinedVariable => "Undefined variable '"@ + e.token.lexeme@ + "'."@,
        RuntimeErrorKind::OperandMustBeNumber => "Operand must be a number."@,
        RuntimeErrorKind::OperandsMustBeNumbers => "Operands must be numbers."@,
        RuntimeErrorKind::OperandsMustBeNumbersOrStrings => "Operands must be two numbers or two strings."@,
        RuntimeErrorKind::NumberOutOfRange => "Number out of range."@,
        RuntimeErrorKind::UnknownOperator => "Unknown operator."@,
    }
}

impl RuntimeError {
    pub fn message(&self) -> (r: String)
        ensures
            r@ == runtime_message(*self),
    {
        let mut s = String::new();
        match self.kind {
            RuntimeErrorKind::UndefinedVariable => {
                push_str(&mut s, "Undefined variable '");
                push_str(&mut s, self.token.lexeme.as_str());
                push_str(&mut s, "'.");
            },
            RuntimeErrorKind::OperandMustBeNumber => push_str(&mut s, "Operand must be a number."),
            RuntimeErrorKind::OperandsMustBeNumbers => push_str(&mut s, "Operands must be numbers."),
            RuntimeErrorKind::OperandsMustBeNumbersOrStrings => push_str(
                &mut s,
                "Operands must be two numbers or two strings.",
            ),
            RuntimeErrorKind::NumberOutOfRange => push_str(&mut s, "Number out of range."),
            RuntimeErrorKind::UnknownOperator => push_str(&mut s, "Unknown operator."),
        }
        assert(s@ =~= runtime_message(*self));
        s
    }

    /// `[line N] Error at 'lexeme': message`, for the token the error is about.
    pub fn report(&self) -> (r: String)
        ensures
            r@ == diagnostic(self.token.line as nat, location(false, self.token.lexeme@), runtime_message(*self)),
    {
        let at = location_text(false, self.token.lexeme.as_str());
        let m = self.message();
        diagnostic_text(self.token.line, at.as_str(), m.as_str())
    }
}

} // verus!
