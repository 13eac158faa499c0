use vstd::prelude::*;

use crate::number::Num;
use crate::text::{push_char, push_str};
use crate::token::Token;

verus! {

/// A runtime value of the language.
#[derive(Debug, PartialEq)]
pub enum LiteralsAst {
    Number(Num),
    Strings(String),
    True,
    False,
    Null,
}

/// The mathematical model of a value.
pub enum Val {
    Number(Num),
    Str(Seq<char>),
    Bool(bool),
    Nil,
}

impl View for LiteralsAst {
    type V = Val;

    open spec fn view(&self) -> Val {
        match self {
            LiteralsAst::Number(n) => Val::Number(*n),
            LiteralsAst::Strings(s) => Val::Str(s@),
            LiteralsAst::True => Val::Bool(true),
            LiteralsAst::False => Val::Bool(false),
            LiteralsAst::Null => Val::Nil,
        }
    }
}

impl Clone for LiteralsAst {
    fn clone(&self) -> (r: Self)
        ensures
            r == *self,
    {
        match self {
            LiteralsAst::Number(n) => LiteralsAst::Number(*n),
            LiteralsAst::Strings(s) => LiteralsAst::Strings(s.clone()),
            LiteralsAst::True => LiteralsAst::True,
            LiteralsAst::False => LiteralsAst::False,
            LiteralsAst::Null => LiteralsAst::Null,
        }
    }
}

/// Only `false` and `nil` are falsy.
pub open spec fn truthy(v: Val) -> bool {
    match v {
        Val::Bool(b) => b,
        Val::Nil => false,
        _ => true,
    }
}

/// Equality of the language: values of different kinds are never equal;
/// numbers compare numerically, strings by their characters.
pub open spec fn values_equal(a: Val, b: Val) -> bool {
    match (a, b) {
        (Val::Number(x), Val::Number(y)) => x.spec_eq(y),
        (Val::Str(x), Val::Str(y)) => x == y,
        (Val::Bool(x), Val::Bool(y)) => x == y,
        (Val::Nil, Val::Nil) => true,
        _ => false,
    }
}

/// The text that `print` writes for a value.
pub open spec fn display(v: Val) -> Seq<char> {
    match v {
        Val::Number(n) => n.text(),
        Val::Str(s) => s,
        Val::Bool(b) => if b {
            "true"@
        } else {
            "false"@
        },
        Val::Nil => "nil"@,
    }
}

pub fn bool_value(b: bool) -> (r: LiteralsAst)
    ensures
        r@ == Val::Bool(b),
{
    if b {
        LiteralsAst::True
    } else {
        LiteralsAst::False
    }
}

impl LiteralsAst {
    pub fn is_truthy(&self) -> (r: bool)
        ensures
            r == truthy(self@),
    {
        match self {
            LiteralsAst::False => false,
            LiteralsAst::Null => false,
            _ => true,
        }
    }

    pub fn is_equal(a: &LiteralsAst, b: &LiteralsAst) -> (r: bool)
        ensures
            r == values_equal(a@, b@),
    {
        match (a, b) {
            (LiteralsAst::Number(x), LiteralsAst::Number(y)) => x.num_eq(*y),
            (LiteralsAst::Strings(x), LiteralsAst::Strings(y)) => x.eq(y),
            (LiteralsAst::True, LiteralsAst::True) => true,
            (LiteralsAst::False, LiteralsAst::False) => true,
            (LiteralsAst::Null, LiteralsAst::Null) => true,
            _ => false,
        }
    }

    /// Appends the display text of the value.
    pub fn push_text(&self, s: &mut String)
        ensures
            final(s)@ == old(s)@ + display(self@),
    {
        match self {
            LiteralsAst::Number(n) => n.push_text(s),
            LiteralsAst::Strings(t) => push_str(s, t.as_str()),
            LiteralsAst::True => {
                proof {
                    reveal_strlit("true");
                }
                push_str(s, "true");
            },
            LiteralsAst::False => {
                proof {
                    reveal_strlit("false");
                }
                push_str(s, "false");
            },
            LiteralsAst::Null => {
                proof {
                    reveal_strlit("nil");
                }
                push_str(s, "nil");
            },
        }
    }

    /// The display text of the value.
    pub fn to_text(&self) -> (r: String)
        ensures
            r@ == display(self@),
    {
        let mut s = String::new();
        self.push_text(&mut s);
        assert(s@ =~= display(self@));
        s
    }
}

/// A node of the syntax tree. Each node owns its children.
#[derive(Debug, PartialEq)]
pub enum Expr {
    Assign { name: Token, value: Box<Expr> },
    Binary { left: Box<Expr>, operator: Token, right: Box<Expr> },
    Grouping { expression: Box<Expr> },
    Literal { value: LiteralsAst },
    Logical { left: Box<Expr>, operator: Token, right: Box<Expr> },
    Unary { operator: Token, right: Box<Expr> },
    Variable { name: Token },
}

/// The prefix rendering of an expression: `(op left right)`, `(group e)`,
/// `(op e)`, `(= name value)`, a literal's display text, a variable's name.
pub open spec fn render(e: Expr) -> Seq<char>
    decreases e,
{
    match e {
        Expr::Assign { name, value } => seq!['(', '=', ' '] + name.lexeme@ + seq![' '] + render(
            *value,
        ) + seq![')'],
        Expr::Binary { left, operator, right } => seq!['('] + operator.lexeme@ + seq![' '] + render(
            *left,
        ) + seq![' '] + render(*right) + seq![')'],
        Expr::Grouping { expression } => "(group "@ + render(*expression) + seq![')'],
        Expr::Literal { value } => display(value@),
        Expr::Logical { left, operator, right } => seq!['('] + operator.lexeme@ + seq![' ']
            + render(*left) + seq![' '] + render(*right) + seq![')'],
        Expr::Unary { operator, right } => seq!['('] + operator.lexeme@ + seq![' '] + render(
            *right,
        ) + seq![')'],
        Expr::Variable { name } => name.lexeme@,
    }
}

impl Expr {
    fn push_rendered(&self, s: &mut String)
        ensures
            final(s)@ == old(s)@ + render(*self),
        decreases self,
    {
        match self {
            Expr::Assign { name, value } => {
                push_char(s, '(');
                push_char(s, '=');
                push_char(s, ' ');
                push_str(s, name.lexeme.as_str());
                push_char(s, ' ');
                value.push_rendered(s);
                push_char(s, ')');
            },
            Expr::Binary { left, operator, right } | Expr::Logical { left, operator, right } => {
                push_char(s, '(');
                push_str(s, operator.lexeme.as_str());
                push_char(s, ' ');
                left.push_rendered(s);
                push_char(s, ' ');
                right.push_rendered(s);
                push_char(s, ')');
            },
            Expr::Grouping { expression } => {
                proof {
                    reveal_strlit("(group ");
                }
                push_str(s, "(group ");
                expression.push_rendered(s);
                push_char(s, ')');
            },
            Expr::Literal { value } => value.push_text(s),
            Expr::Unary { operator, right } => {
                push_char(s, '(');
                push_str(s, operator.lexeme.as_str());
                push_char(s, ' ');
                right.push_rendered(s);
                push_char(s, ')');
            },
            Expr::Variable { name } => push_str(s, name.lexeme.as_str()),
        }
        assert(final(s)@ =~= old(s)@ + render(*self));
    }

    /// The prefix rendering of the expression.
    pub fn to_string(&self) -> (r: String)
        ensures
            r@ == render(*self),
    {
        let mut s = String::new();
        self.push_rendered(&mut s);
        assert(s@ =~= render(*self));
        s
    }
}

} // verus!

verus! {

/// A statement. A program is a sequence of statements, run in order.
#[derive(Debug, PartialEq)]
pub enum Stmt {
    Expression { expression: Expr },
    If { condition: Expr, then_branch: Box<Stmt>, else_branch: Option<Box<Stmt>> },
    Print { expression: Expr },
    Var { name: Token, initializer: Option<Expr> },
    Block { statements: Vec<Stmt> },
}

} // verus!
