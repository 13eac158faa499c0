use vstd::prelude::*;

use crate::generate_ast::{Expr, LiteralsAst, Stmt};
use crate::text::{diagnostic, diagnostic_text, location, location_text};
use crate::token::{Literals, Token, TokenType};

verus! {

/// What the parser expected and did not find.
#[derive(Clone, Copy, Debug, PartialEq, Eq, Structural)]
pub enum ParseErrorKind {
    ExpectExpression,
    ExpectRightParenAfterExpression,
    ExpectSemicolonAfterValue,
    ExpectSemicolonAfterExpression,
    ExpectVariableName,
    ExpectSemicolonAfterVariable,
    ExpectRightBraceAfterBlock,
    ExpectLeftParenAfterIf,
    ExpectRightParenAfterCondition,
    InvalidAssignmentTarget,
}

/// A grammar violation, at the token where it was found.
#[derive(Debug, PartialEq)]
pub struct ParseError {
    pub kind: ParseErrorKind,
    pub token: Token,
}

/// A parse from a position: the node and the position after it, or the
/// error and the position where it was found.
pub type Parsed<T> = Result<(T, int), (ParseError, int)>;

/// The mathematical model of a statement: a block holds a sequence.
pub enum StmtModel {
    Expression(Expr),
    If(Expr, Box<StmtModel>, Option<Box<StmtModel>>),
    Print(Expr),
    Var(Token, Option<Expr>),
    Block(Seq<StmtModel>),
}

/// `s` is the statement that the model `m` describes.
pub open spec fn matches(s: Stmt, m: StmtModel) -> bool
    decreases s,
{
    match (s, m) {
        (Stmt::Expression { expression }, StmtModel::Expression(e)) => expression == e,
        (Stmt::Print { expression }, StmtModel::Print(e)) => expression == e,
        (Stmt::Var { name, initializer }, StmtModel::Var(n, i)) => name == n && initializer == i,
        (Stmt::Block { statements }, StmtModel::Block(ms)) => statements.len() == ms.len() && (
        forall|i: int| 0 <= i < statements.len() ==> matches(#[trigger] statements[i], ms[i])),
        (
            Stmt::If { condition, then_branch, else_branch },
            StmtModel::If(c, t, e),
        ) => condition == c && matches(*then_branch, *t) && match (else_branch, e) {
            (None, None) => true,
            (Some(x), Some(y)) => matches(*x, *y),
            _ => false,
        },
        _ => false,
    }
}

/// Each statement of `v` is described by the model at the same position.
pub open spec fn all_match(v: Seq<Stmt>, ms: Seq<StmtModel>) -> bool {
    v.len() == ms.len() && forall|i: int| 0 <= i < v.len() ==> matches(#[trigger] v[i], ms[i])
}

pub open spec fn kind_at(toks: Seq<Token>, p: int) -> TokenType {
    toks[p].tokentype
}

pub open spec fn at_end(toks: Seq<Token>, p: int) -> bool {
    kind_at(toks, p) is Eof
}

/// The token at `p` is of kind `k` (and is not the end).
pub open spec fn check(toks: Seq<Token>, p: int, k: TokenType) -> bool {
    !at_end(toks, p) && kind_at(toks, p) == k
}

pub open spec fn fail<T>(kind: ParseErrorKind, toks: Seq<Token>, p: int) -> Parsed<T> {
    Err((ParseError { kind, token: toks[p] }, p))
}

/// The operators of the binary levels, loosest first: `or`, `and`,
/// equality, comparison, additive, multiplicative.
pub open spec fn is_level_op(lvl: int, k: TokenType) -> bool {
    if lvl == 1 {
        k is Or
    } else if lvl == 2 {
        k is And
    } else if lvl == 3 {
        k is BangEqual || k is EqualEqual
    } else if lvl == 4 {
        k is Greater || k is GreaterEqual || k is Less || k is LessEqual
    } else if lvl == 5 {
        k is Minus || k is Plus
    } else {
        k is Slash || k is Star
    }
}

/// The node for `left op right` at a level: logical for `or` and `and`.
pub open spec fn combine(lvl: int, left: Expr, op: Token, right: Expr) -> Expr {
    if lvl <= 2 {
        Expr::Logical { left: Box::new(left), operator: op, right: Box::new(right) }
    } else {
        Expr::Binary { left: Box::new(left), operator: op, right: Box::new(right) }
    }
}

/// The value a literal token stands for.
pub open spec fn literal_value(t: Token) -> Option<LiteralsAst> {
    match (t.tokentype, t.literal) {
        (TokenType::String, Literals::String(s)) => Some(LiteralsAst::Strings(s)),
        (TokenType::Number, Literals::Number(n)) => Some(LiteralsAst::Number(n)),
        (TokenType::True, _) => Some(LiteralsAst::True),
        (TokenType::False, _) => Some(LiteralsAst::False),
        (TokenType::Nil, _) => Some(LiteralsAst::Null),
        _ => None,
    }
}

/// `expression := assignment`
pub open spec fn parse_expression(toks: Seq<Token>, p: int) -> Parsed<Expr>
    decreases toks.len() - p, 21int,
{
    if p < 0 || p >= toks.len() {
        fail(ParseErrorKind::ExpectExpression, toks, p)
    } else {
        parse_assignment(toks, p)
    }
}

/// `assignment := IDENT "=" assignment | logic_or`; the left side is parsed
/// as an expression and must turn out to be a variable.
pub open spec fn parse_assignment(toks: Seq<Token>, p: int) -> Parsed<Expr>
    decreases toks.len() - p, 20int,
{
    if p < 0 || p >= toks.len() {
        fail(ParseErrorKind::ExpectExpression, toks, p)
    } else {
        match parse_level(toks, p, 1) {
            Ok((e, q)) => if p <= q < toks.len() && check(toks, q, TokenType::Equal) {
                match parse_assignment(toks, q + 1) {
                    Ok((v, r)) => match e {
                        Expr::Variable { name } => Ok(
                            (Expr::Assign { name, value: Box::new(v) }, r),
                        ),
                        _ => fail(ParseErrorKind::InvalidAssignmentTarget, toks, q),
                    },
                    Err(x) => Err(x),
                }
            } else {
                Ok((e, q))
            },
            Err(x) => Err(x),
        }
    }
}

/// A binary level: `operand (op operand)*`, grouped to the left.
pub open spec fn parse_level(toks: Seq<Token>, p: int, lvl: int) -> Parsed<Expr>
    decreases toks.len() - p, 18 - 2 * lvl,
{
    if p < 0 || p >= toks.len() || lvl < 1 || lvl > 6 {
        fail(ParseErrorKind::ExpectExpression, toks, p)
    } else {
        match parse_operand(toks, p, lvl) {
            Ok((e, q)) => if p <= q <= toks.len() {
                parse_level_rest(toks, q, lvl, e)
            } else {
                Ok((e, q))
            },
            Err(x) => Err(x),
        }
    }
}

/// The operand of a level: the next level, or a unary expression.
pub open spec fn parse_operand(toks: Seq<Token>, p: int, lvl: int) -> Parsed<Expr>
    decreases toks.len() - p, 17 - 2 * lvl,
{
    if p < 0 || p >= toks.len() || lvl < 1 || lvl > 6 {
        fail(ParseErrorKind::ExpectExpression, toks, p)
    } else if lvl < 6 {
        parse_level(toks, p, lvl + 1)
    } else {
        parse_unary(toks, p)
    }
}

/// The rest of a level after `left`, which ends before `q`.
pub open spec fn parse_level_rest(toks: Seq<Token>, q: int, lvl: int, left: Expr) -> Parsed<Expr>
    decreases toks.len() - q, 0int,
{
    if 0 <= q < toks.len() && 1 <= lvl <= 6 && !at_end(toks, q) && is_level_op(
        lvl,
        kind_at(toks, q),
    ) {
        match parse_operand(toks, q + 1, lvl) {
            Ok((r, q2)) => if q < q2 <= toks.len() {
                parse_level_rest(toks, q2, lvl, combine(lvl, left, toks[q], r))
            } else {
                Ok((left, q))
            },
            Err(x) => Err(x),
        }
    } else {
        Ok((left, q))
    }
}

/// `unary := ("!" | "-") unary | primary`
pub open spec fn parse_unary(toks: Seq<Token>, p: int) -> Parsed<Expr>
    decreases toks.len() - p, 3int,
{
    if p < 0 || p >= toks.len() {
        fail(ParseErrorKind::ExpectExpression, toks, p)
    } else if check(toks, p, TokenType::Bang) || check(toks, p, TokenType::Minus) {
        match parse_unary(toks, p + 1) {
            Ok((r, q)) => Ok((Expr::Unary { operator: toks[p], right: Box::new(r) }, q)),
            Err(x) => Err(x),
        }
    } else {
        parse_primary(toks, p)
    }
}

/// `primary := NUMBER | STRING | "true" | "false" | "nil" | IDENT | "(" expression ")"`
pub open spec fn parse_primary(toks: Seq<Token>, p: int) -> Parsed<Expr>
    decreases toks.len() - p, 2int,
{
    if p < 0 || p >= toks.len() || at_end(toks, p) {
        fail(ParseErrorKind::ExpectExpression, toks, p)
    } else if literal_value(toks[p]) is Some {
        Ok((Expr::Literal { value: literal_value(toks[p])->0 }, p + 1))
    } else if kind_at(toks, p) is Identifier {
        Ok((Expr::Variable { name: toks[p] }, p + 1))
    } else if kind_at(toks, p) is LeftParen {
        match parse_expression(toks, p + 1) {
            Ok((e, q)) => if 0 <= q < toks.len() && check(toks, q, TokenType::RightParen) {
                Ok((Expr::Grouping { expression: Box::new(e) }, q + 1))
            } else {
                fail(ParseErrorKind::ExpectRightParenAfterExpression, toks, q)
            },
            Err(x) => Err(x),
        }
    } else {
        fail(ParseErrorKind::ExpectExpression, toks, p)
    }
}

} // verus!

verus! {

/// `declaration := varDecl | statement`
pub open spec fn parse_declaration(toks: Seq<Token>, p: int) -> Parsed<StmtModel>
    decreases toks.len() - p, 5int,
{
    if p < 0 || p >= toks.len() {
        fail(ParseErrorKind::ExpectExpression, toks, p)
    } else if check(toks, p, TokenType::Var) {
        parse_var_declaration(toks, p + 1)
    } else {
        parse_statement(toks, p)
    }
}

/// `varDecl := "var" IDENT ("=" expression)? ";"`, after the `var`.
pub open spec fn parse_var_declaration(toks: Seq<Token>, p: int) -> Parsed<StmtModel>
    decreases toks.len() - p, 4int,
{
    if p < 0 || p + 1 >= toks.len() {
        fail(ParseErrorKind::ExpectVariableName, toks, p)
    } else if !check(toks, p, TokenType::Identifier) {
        fail(ParseErrorKind::ExpectVariableName, toks, p)
    } else if check(toks, p + 1, TokenType::Equal) {
        match parse_expression(toks, p + 2) {
            Ok((e, q)) => if 0 <= q < toks.len() && check(toks, q, TokenType::Semicolon) {
                Ok((StmtModel::Var(toks[p], Some(e)), q + 1))
            } else {
                fail(ParseErrorKind::ExpectSemicolonAfterVariable, toks, q)
            },
            Err(x) => Err(x),
        }
    } else if check(toks, p + 1, TokenType::Semicolon) {
        Ok((StmtModel::Var(toks[p], None), p + 2))
    } else {
        fail(ParseErrorKind::ExpectSemicolonAfterVariable, toks, p + 1)
    }
}

/// `statement := ifStmt | printStmt | block | exprStmt`
pub open spec fn parse_statement(toks: Seq<Token>, p: int) -> Parsed<StmtModel>
    decreases toks.len() - p, 4int,
{
    if p < 0 || p >= toks.len() {
        fail(ParseErrorKind::ExpectExpression, toks, p)
    } else if check(toks, p, TokenType::If) {
        parse_if(toks, p + 1)
    } else if check(toks, p, TokenType::Print) || !(check(toks, p, TokenType::LeftBrace)) {
        let body = if check(toks, p, TokenType::Print) {
            p + 1
        } else {
            p
        };
        match parse_expression(toks, body) {
            Ok((e, q)) => if 0 <= q < toks.len() && check(toks, q, TokenType::Semicolon) {
                if body == p {
                    Ok((StmtModel::Expression(e), q + 1))
                } else {
                    Ok((StmtModel::Print(e), q + 1))
                }
            } else if body == p {
                fail(ParseErrorKind::ExpectSemicolonAfterExpression, toks, q)
            } else {
                fail(ParseErrorKind::ExpectSemicolonAfterValue, toks, q)
            },
            Err(x) => Err(x),
        }
    } else {
        match parse_block(toks, p + 1, Seq::empty()) {
            Ok((v, q)) => Ok((StmtModel::Block(v), q)),
            Err(x) => Err(x),
        }
    }
}

/// `ifStmt := "if" "(" expression ")" statement ("else" statement)?`, after
/// the `if`.
pub open spec fn parse_if(toks: Seq<Token>, p: int) -> Parsed<StmtModel>
    decreases toks.len() - p, 3int,
{
    if p < 0 || p >= toks.len() {
        fail(ParseErrorKind::ExpectLeftParenAfterIf, toks, p)
    } else if !check(toks, p, TokenType::LeftParen) {
        fail(ParseErrorKind::ExpectLeftParenAfterIf, toks, p)
    } else {
        match parse_expression(toks, p + 1) {
            Ok((c, q)) => if !(p < q < toks.len() && check(toks, q, TokenType::RightParen)) {
                fail(ParseErrorKind::ExpectRightParenAfterCondition, toks, q)
            } else {
                match parse_statement(toks, q + 1) {
                    Ok((t, r)) => if q < r < toks.len() && check(toks, r, TokenType::Else) {
                        match parse_statement(toks, r + 1) {
                            Ok((e, s)) => Ok(
                                (
                                    StmtModel::If(c, Box::new(t), Some(Box::new(e))),
                                    s,
                                ),
                            ),
                            Err(x) => Err(x),
                        }
                    } else {
                        Ok(
                            (
                                StmtModel::If(c, Box::new(t), None),
                                r,
                            ),
                        )
                    },
                    Err(x) => Err(x),
                }
            },
            Err(x) => Err(x),
        }
    }
}

/// `block := "{" declaration* "}"`, after the `{`; `acc` holds the
/// declarations parsed so far.
pub open spec fn parse_block(toks: Seq<Token>, p: int, acc: Seq<StmtModel>) -> Parsed<
    Seq<StmtModel>,
>
    decreases toks.len() - p, 6int,
{
    if p < 0 || p >= toks.len() || at_end(toks, p) {
        fail(ParseErrorKind::ExpectRightBraceAfterBlock, toks, p)
    } else if check(toks, p, TokenType::RightBrace) {
        Ok((acc, p + 1))
    } else {
        match parse_declaration(toks, p) {
            Ok((s, q)) => if p < q <= toks.len() {
                parse_block(toks, q, acc.push(s))
            } else {
                fail(ParseErrorKind::ExpectRightBraceAfterBlock, toks, q)
            },
            Err(x) => Err(x),
        }
    }
}

} // verus!

verus! {

/// The first position from `i` on where parsing can resume after an error:
/// just after a `;`, at a token that begins a statement, or at the end.
pub open spec fn resume_point(toks: Seq<Token>, i: int) -> int
    decreases toks.len() - i,
{
    if i <= 0 || i >= toks.len() || at_end(toks, i) {
        i
    } else if kind_at(toks, i - 1) is Semicolon {
        i
    } else if starts_statement(kind_at(toks, i)) {
        i
    } else {
        resume_point(toks, i + 1)
    }
}

proof fn lemma_resume_point(toks: Seq<Token>, i: int)
    ensures
        resume_point(toks, i) >= i,
    decreases toks.len() - i,
{
    if !(i <= 0 || i >= toks.len() || at_end(toks, i)) {
        lemma_resume_point(toks, i + 1);
    }
}

pub open spec fn starts_statement(k: TokenType) -> bool {
    k is Class || k is Fun || k is Var || k is For || k is If || k is While || k is Print
        || k is Return
}

/// Where parsing resumes after an error found at `q`: the token there is
/// dropped, then tokens up to a statement boundary.
pub open spec fn synchronized(toks: Seq<Token>, q: int) -> int {
    if 0 <= q < toks.len() && !at_end(toks, q) {
        resume_point(toks, q + 1)
    } else {
        q
    }
}

/// `program := declaration* EOF`, from `p`: the statements parsed and the
/// errors reported, in order. After an error the parser skips to the next
/// statement boundary and goes on.
pub open spec fn parse_program(
    toks: Seq<Token>,
    p: int,
    stmts: Seq<StmtModel>,
    errs: Seq<ParseError>,
) -> (Seq<StmtModel>, Seq<ParseError>)
    decreases toks.len() - p,
{
    if p < 0 || p >= toks.len() || at_end(toks, p) {
        (stmts, errs)
    } else {
        match parse_declaration(toks, p) {
            Ok((s, q)) => if p < q <= toks.len() {
                parse_program(toks, q, stmts.push(s), errs)
            } else {
                (stmts, errs)
            },
            Err((e, q)) => {
                let r = synchronized(toks, q);
                if p < r <= toks.len() {
                    parse_program(toks, r, stmts, errs.push(e))
                } else {
                    (stmts, errs.push(e))
                }
            },
        }
    }
}

pub open spec fn outcome<T>(r: Result<T, ParseError>, pos: int) -> Parsed<T> {
    match r {
        Ok(x) => Ok((x, pos)),
        Err(e) => Err((e, pos)),
    }
}

/// The statement result `r`, with the parser at `pos`, is the one that the
/// model result `m` describes.
pub open spec fn stmt_outcome(r: Result<Stmt, ParseError>, pos: int, m: Parsed<StmtModel>) -> bool {
    match (r, m) {
        (Ok(s), Ok((x, q))) => matches(s, x) && q == pos,
        (Err(e), Err((x, q))) => e == x && q == pos,
        _ => false,
    }
}

/// A recursive-descent parser over a token sequence that ends with `Eof`.
#[derive(Debug)]
pub struct Parser {
    tokens: Vec<Token>,
    current: usize,
}

impl Parser {
    /// The tokens being parsed.
    pub closed spec fn toks(&self) -> Seq<Token> {
        self.tokens@
    }

    /// The position of the next token.
    pub closed spec fn pos(&self) -> int {
        self.current as int
    }

    pub closed spec fn wf(&self) -> bool {
        &&& self.tokens@.len() > 0
        &&& self.tokens@.last().tokentype is Eof
        &&& self.current < self.tokens@.len()
    }

    /// A parser at the first of `tokens`. Where the sequence does not end
    /// with an `Eof` token, one is added, on the line of the last token.
    pub fn new(tokens: Vec<Token>) -> (r: Self)
        ensures
            r.wf(),
            r.pos() == 0,
            tokens@.len() > 0 && tokens@.last().tokentype is Eof ==> r.toks() == tokens@,
            !(tokens@.len() > 0 && tokens@.last().tokentype is Eof) ==> {
                &&& r.toks().drop_last() == tokens@
                &&& r.toks().last().lexeme@ == Seq::<char>::empty()
                &&& r.toks().last().literal == Literals::Null
                &&& r.toks().last().line == if tokens@.len() == 0 {
                    1
                } else {
                    tokens@.last().line
                }
            },
    {
        let mut tokens = tokens;
        let n = tokens.len();
        if n == 0 || !matches!(tokens[n - 1].tokentype, TokenType::Eof) {
            let line = if n == 0 {
                1
            } else {
                tokens[n - 1].line
            };
            tokens.push(
                Token { tokentype: TokenType::Eof, lexeme: String::new(), literal: Literals::Null, line },
            );
        }
        let r = Parser { tokens, current: 0 };
        assert(!(n > 0) ==> r.toks().drop_last() =~= Seq::<Token>::empty());
        r
    }
}

} // verus!

verus! {

fn is_level_op_exec(lvl: u8, k: TokenType) -> (r: bool)
    ensures
        r == is_level_op(lvl as int, k),
{
    if lvl == 1 {
        matches!(k, TokenType::Or)
    } else if lvl == 2 {
        matches!(k, TokenType::And)
    } else if lvl == 3 {
        matches!(k, TokenType::BangEqual | TokenType::EqualEqual)
    } else if lvl == 4 {
        matches!(k, TokenType::Greater | TokenType::GreaterEqual | TokenType::Less | TokenType::LessEqual)
    } else if lvl == 5 {
        matches!(k, TokenType::Minus | TokenType::Plus)
    } else {
        matches!(k, TokenType::Slash | TokenType::Star)
    }
}

fn combine_exec(lvl: u8, left: Expr, op: Token, right: Expr) -> (r: Expr)
    ensures
        r == combine(lvl as int, left, op, right),
{
    if lvl <= 2 {
        Expr::Logical { left: Box::new(left), operator: op, right: Box::new(right) }
    } else {
        Expr::Binary { left: Box::new(left), operator: op, right: Box::new(right) }
    }
}

fn literal_of(t: &Token) -> (r: Option<LiteralsAst>)
    ensures
        r == literal_value(*t),
{
    match (t.tokentype, &t.literal) {
        (TokenType::String, Literals::String(s)) => Some(LiteralsAst::Strings(s.clone())),
        (TokenType::Number, Literals::Number(n)) => Some(LiteralsAst::Number(*n)),
        (TokenType::True, _) => Some(LiteralsAst::True),
        (TokenType::False, _) => Some(LiteralsAst::False),
        (TokenType::Nil, _) => Some(LiteralsAst::Null),
        _ => None,
    }
}

impl Parser {
    fn peek_kind(&self) -> (r: TokenType)
        requires
            self.wf(),
        ensures
            r == kind_at(self.toks(), self.pos()),
    {
        self.tokens[self.current].tokentype
    }

    pub fn is_at_end(&self) -> (r: bool)
        requires
            self.wf(),
        ensures
            r == at_end(self.toks(), self.pos()),
    {
        matches!(self.peek_kind(), TokenType::Eof)
    }

    fn check(&self, k: TokenType) -> (r: bool)
        requires
            self.wf(),
        ensures
            r == check(self.toks(), self.pos(), k),
    {
        !self.is_at_end() && self.peek_kind() == k
    }

    fn peek(&self) -> (r: Token)
        requires
            self.wf(),
        ensures
            r == self.toks()[self.pos()],
    {
        self.tokens[self.current].clone()
    }

    fn error(&self, kind: ParseErrorKind) -> (r: ParseError)
        requires
            self.wf(),
        ensures
            r == (ParseError { kind, token: self.toks()[self.pos()] }),
    {
        ParseError { kind, token: self.peek() }
    }

    /// Takes the next token, which is not the end.
    fn advance(&mut self) -> (r: Token)
        requires
            old(self).wf(),
            !at_end(old(self).toks(), old(self).pos()),
        ensures
            final(self).wf(),
            final(self).toks() == old(self).toks(),
            final(self).pos() == old(self).pos() + 1,
            r == old(self).toks()[old(self).pos()],
    {
        let t = self.peek();
        proof {
            assert(self.tokens@.len() == self.tokens.len());
            if self.current + 1 >= self.tokens@.len() {
                assert(self.tokens@.last() == self.tokens@[self.current as int]);
            }
        }
        self.current = self.current + 1;
        t
    }

    /// `expression := assignment`
    pub fn expression(&mut self) -> (r: Result<Expr, ParseError>)
        requires
            old(self).wf(),
        ensures
            final(self).wf(),
            final(self).toks() == old(self).toks(),
            final(self).pos() >= old(self).pos(),
            r is Ok ==> final(self).pos() > old(self).pos(),
            outcome(r, final(self).pos()) == parse_expression(old(self).toks(), old(self).pos()),
        decreases self.toks().len() - self.pos(), 21int,
    {
        self.assignment()
    }

    /// `assignment := IDENT "=" assignment | logic_or`
    pub fn assignment(&mut self) -> (r: Result<Expr, ParseError>)
        requires
            old(self).wf(),
        ensures
            final(self).wf(),
            final(self).toks() == old(self).toks(),
            final(self).pos() >= old(self).pos(),
            r is Ok ==> final(self).pos() > old(self).pos(),
            outcome(r, final(self).pos()) == parse_assignment(old(self).toks(), old(self).pos()),
        decreases self.toks().len() - self.pos(), 20int,
    {
        let expr = self.level(1)?;
        if self.check(TokenType::Equal) {
            let eq_pos = self.current;
            let equals = self.advance();
            let value = self.assignment()?;
            match expr {
                Expr::Variable { name } => Ok(Expr::Assign { name, value: Box::new(value) }),
                _ => {
                    self.current = eq_pos;
                    Err(ParseError { kind: ParseErrorKind::InvalidAssignmentTarget, token: equals })
                },
            }
        } else {
            Ok(expr)
        }
    }

    /// One binary level: `operand (op operand)*`, grouped to the left.
    fn level(&mut self, lvl: u8) -> (r: Result<Expr, ParseError>)
        requires
            old(self).wf(),
            1 <= lvl <= 6,
        ensures
            final(self).wf(),
            final(self).toks() == old(self).toks(),
            final(self).pos() >= old(self).pos(),
            r is Ok ==> final(self).pos() > old(self).pos(),
            outcome(r, final(self).pos()) == parse_level(old(self).toks(), old(self).pos(), lvl as int),
        decreases self.toks().len() - self.pos(), 18 - 2 * lvl,
    {
        let ghost start = self.pos();
        let mut expr = self.operand(lvl)?;
        loop
            invariant
                self.wf(),
                self.toks() == old(self).toks(),
                self.pos() > start,
                1 <= lvl <= 6,
                start == old(self).pos(),
                parse_level(self.toks(), start, lvl as int) == parse_level_rest(
                    self.toks(),
                    self.pos(),
                    lvl as int,
                    expr,
                ),
            decreases self.toks().len() - self.pos(),
        {
            if self.is_at_end() || !is_level_op_exec(lvl, self.peek_kind()) {
                return Ok(expr);
            }
            let op = self.advance();
            let right = self.operand(lvl)?;
            expr = combine_exec(lvl, expr, op, right);
        }
    }

    fn operand(&mut self, lvl: u8) -> (r: Result<Expr, ParseError>)
        requires
            old(self).wf(),
            1 <= lvl <= 6,
        ensures
            final(self).wf(),
            final(self).toks() == old(self).toks(),
            final(self).pos() >= old(self).pos(),
            r is Ok ==> final(self).pos() > old(self).pos(),
            outcome(r, final(self).pos()) == parse_operand(old(self).toks(), old(self).pos(), lvl as int),
        decreases self.toks().len() - self.pos(), 17 - 2 * lvl,
    {
        if lvl < 6 {
            self.level(lvl + 1)
        } else {
            self.unary()
        }
    }

    /// `unary := ("!" | "-") unary | primary`
    fn unary(&mut self) -> (r: Result<Expr, ParseError>)
        requires
            old(self).wf(),
        ensures
            final(self).wf(),
            final(self).toks() == old(self).toks(),
            final(self).pos() >= old(self).pos(),
            r is Ok ==> final(self).pos() > old(self).pos(),
            outcome(r, final(self).pos()) == parse_unary(old(self).toks(), old(self).pos()),
        decreases self.toks().len() - self.pos(), 3int,
    {
        if self.check(TokenType::Bang) || self.check(TokenType::Minus) {
            let operator = self.advance();
            let right = self.unary()?;
            Ok(Expr::Unary { operator, right: Box::new(right) })
        } else {
            self.primary()
        }
    }

    /// `primary := NUMBER | STRING | "true" | "false" | "nil" | IDENT | "(" expression ")"`
    fn primary(&mut self) -> (r: Result<Expr, ParseError>)
        requires
            old(self).wf(),
        ensures
            final(self).wf(),
            final(self).toks() == old(self).toks(),
            final(self).pos() >= old(self).pos(),
            r is Ok ==> final(self).pos() > old(self).pos(),
            outcome(r, final(self).pos()) == parse_primary(old(self).toks(), old(self).pos()),
        decreases self.toks().len() - self.pos(), 2int,
    {
        if self.is_at_end() {
            return Err(self.error(ParseErrorKind::ExpectExpression));
        }
        let t = self.peek();
        match literal_of(&t) {
            Some(value) => {
                self.advance();
                return Ok(Expr::Literal { value });
            },
            None => {},
        }
        match t.tokentype {
            TokenType::Identifier => {
                self.advance();
                Ok(Expr::Variable { name: t })
            },
            TokenType::LeftParen => {
                self.advance();
                let expression = self.expression()?;
                if self.check(TokenType::RightParen) {
                    self.advance();
                    Ok(Expr::Grouping { expression: Box::new(expression) })
                } else {
                    Err(self.error(ParseErrorKind::ExpectRightParenAfterExpression))
                }
            },
            _ => Err(self.error(ParseErrorKind::ExpectExpression)),
        }
    }
}

} // verus!

verus! {

impl Parser {
    /// `declaration := varDecl | statement`
    fn declaration(&mut self) -> (r: Result<Stmt, ParseError>)
        requires
            old(self).wf(),
        ensures
            final(self).wf(),
            final(self).toks() == old(self).toks(),
            final(self).pos() >= old(self).pos(),
            r is Ok ==> final(self).pos() > old(self).pos(),
            stmt_outcome(r, final(self).pos(), parse_declaration(old(self).toks(), old(self).pos())),
        decreases self.toks().len() - self.pos(), 5int,
    {
        if self.check(TokenType::Var) {
            self.advance();
            self.var_declaration()
        } else {
            self.statement()
        }
    }

    /// `varDecl := "var" IDENT ("=" expression)? ";"`, after the `var`.
    fn var_declaration(&mut self) -> (r: Result<Stmt, ParseError>)
        requires
            old(self).wf(),
        ensures
            final(self).wf(),
            final(self).toks() == old(self).toks(),
            final(self).pos() >= old(self).pos(),
            r is Ok ==> final(self).pos() > old(self).pos(),
            stmt_outcome(
                r,
                final(self).pos(),
                parse_var_declaration(old(self).toks(), old(self).pos()),
            ),
        decreases self.toks().len() - self.pos(), 4int,
    {
        if !self.check(TokenType::Identifier) {
            return Err(self.error(ParseErrorKind::ExpectVariableName));
        }
        let name = self.advance();
        if self.check(TokenType::Equal) {
            self.advance();
            let e = self.expression()?;
            if self.check(TokenType::Semicolon) {
                self.advance();
                Ok(Stmt::Var { name, initializer: Some(e) })
            } else {
                Err(self.error(ParseErrorKind::ExpectSemicolonAfterVariable))
            }
        } else if self.check(TokenType::Semicolon) {
            self.advance();
            Ok(Stmt::Var { name, initializer: None })
        } else {
            Err(self.error(ParseErrorKind::ExpectSemicolonAfterVariable))
        }
    }

    /// `statement := ifStmt | printStmt | block | exprStmt`
    fn statement(&mut self) -> (r: Result<Stmt, ParseError>)
        requires
            old(self).wf(),
        ensures
            final(self).wf(),
            final(self).toks() == old(self).toks(),
            final(self).pos() >= old(self).pos(),
            r is Ok ==> final(self).pos() > old(self).pos(),
            stmt_outcome(r, final(self).pos(), parse_statement(old(self).toks(), old(self).pos())),
        decreases self.toks().len() - self.pos(), 4int,
    {
        if self.check(TokenType::If) {
            self.advance();
            self.if_statement()
        } else if self.check(TokenType::LeftBrace) {
            self.advance();
            let statements = self.block()?;
            Ok(Stmt::Block { statements })
        } else {
            let is_print = self.check(TokenType::Print);
            if is_print {
                self.advance();
            }
            let expression = self.expression()?;
            if self.check(TokenType::Semicolon) {
                self.advance();
                if is_print {
                    Ok(Stmt::Print { expression })
                } else {
                    Ok(Stmt::Expression { expression })
                }
            } else if is_print {
                Err(self.error(ParseErrorKind::ExpectSemicolonAfterValue))
            } else {
                Err(self.error(ParseErrorKind::ExpectSemicolonAfterExpression))
            }
        }
    }

    /// `ifStmt := "if" "(" expression ")" statement ("else" statement)?`,
    /// after the `if`.
    fn if_statement(&mut self) -> (r: Result<Stmt, ParseError>)
        requires
            old(self).wf(),
        ensures
            final(self).wf(),
            final(self).toks() == old(self).toks(),
            final(self).pos() >= old(self).pos(),
            r is Ok ==> final(self).pos() > old(self).pos(),
            stmt_outcome(r, final(self).pos(), parse_if(old(self).toks(), old(self).pos())),
        decreases self.toks().len() - self.pos(), 3int,
    {
        if !self.check(TokenType::LeftParen) {
            return Err(self.error(ParseErrorKind::ExpectLeftParenAfterIf));
        }
        self.advance();
        let condition = self.expression()?;
        if !self.check(TokenType::RightParen) {
            return Err(self.error(ParseErrorKind::ExpectRightParenAfterCondition));
        }
        self.advance();
        let then_branch = self.statement()?;
        if self.check(TokenType::Else) {
            self.advance();
            let else_branch = self.statement()?;
            Ok(
                Stmt::If {
                    condition,
                    then_branch: Box::new(then_branch),
                    else_branch: Some(Box::new(else_branch)),
                },
            )
        } else {
            Ok(Stmt::If { condition, then_branch: Box::new(then_branch), else_branch: None })
        }
    }

    /// `block := "{" declaration* "}"`, after the `{`.
    fn block(&mut self) -> (r: Result<Vec<Stmt>, ParseError>)
        requires
            old(self).wf(),
        ensures
            final(self).wf(),
            final(self).toks() == old(self).toks(),
            final(self).pos() >= old(self).pos(),
            r is Ok ==> final(self).pos() > old(self).pos(),
            match (r, parse_block(old(self).toks(), old(self).pos(), Seq::empty())) {
                (Ok(v), Ok((ms, q))) => all_match(v@, ms) && q == final(self).pos(),
                (Err(e), Err((x, q))) => e == x && q == final(self).pos(),
                _ => false,
            },
        decreases self.toks().len() - self.pos(), 6int,
    {
        let ghost start = self.pos();
        let mut statements: Vec<Stmt> = Vec::new();
        let ghost mut models: Seq<StmtModel> = Seq::empty();
        loop
            invariant
                self.wf(),
                self.toks() == old(self).toks(),
                self.pos() >= start,
                start == old(self).pos(),
                all_match(statements@, models),
                parse_block(self.toks(), start, Seq::empty()) == parse_block(
                    self.toks(),
                    self.pos(),
                    models,
                ),
            decreases self.toks().len() - self.pos(),
        {
            if self.is_at_end() {
                return Err(self.error(ParseErrorKind::ExpectRightBraceAfterBlock));
            }
            if self.check(TokenType::RightBrace) {
                self.advance();
                return Ok(statements);
            }
            let ghost before = self.pos();
            let s = self.declaration()?;
            proof {
                let m = parse_declaration(self.toks(), before)->Ok_0.0;
                assert(all_match(statements@.push(s), models.push(m)));
                models = models.push(m);
            }
            statements.push(s);
        }
    }

    /// Skips tokens after an error until a statement boundary.
    fn synchronize(&mut self)
        requires
            old(self).wf(),
        ensures
            final(self).wf(),
            final(self).toks() == old(self).toks(),
            final(self).pos() == synchronized(old(self).toks(), old(self).pos()),
    {
        if self.is_at_end() {
            return;
        }
        self.advance();
        while !self.is_at_end()
            invariant
                self.wf(),
                self.toks() == old(self).toks(),
                self.pos() > 0,
                synchronized(old(self).toks(), old(self).pos()) == resume_point(
                    self.toks(),
                    self.pos(),
                ),
            decreases self.toks().len() - self.pos(),
        {
            if matches!(self.tokens[self.current - 1].tokentype, TokenType::Semicolon) {
                return;
            }
            match self.peek_kind() {
                TokenType::Class | TokenType::Fun | TokenType::Var | TokenType::For
                | TokenType::If | TokenType::While | TokenType::Print | TokenType::Return => {
                    return;
                },
                _ => {},
            }
            self.advance();
        }
    }

    /// Parses the whole token sequence: the statements that parsed, and the
    /// errors reported, in order. A statement with an error is dropped and
    /// parsing resumes at the next statement boundary; the statements are fit
    /// to run only where there is no error.
    pub fn parse(&mut self) -> (r: (Vec<Stmt>, Vec<ParseError>))
        requires
            old(self).wf(),
        ensures
            final(self).wf(),
            ({
                let (ms, es) = parse_program(old(self).toks(), old(self).pos(), Seq::empty(), Seq::empty());
                all_match(r.0@, ms) && r.1@ == es
            }),
    {
        let ghost start = self.pos();
        let mut statements: Vec<Stmt> = Vec::new();
        let mut errors: Vec<ParseError> = Vec::new();
        let ghost mut models: Seq<StmtModel> = Seq::empty();
        while !self.is_at_end()
            invariant
                self.wf(),
                self.toks() == old(self).toks(),
                all_match(statements@, models),
                parse_program(self.toks(), start, Seq::empty(), Seq::empty()) == parse_program(
                    self.toks(),
                    self.pos(),
                    models,
                    errors@,
                ),
            decreases self.toks().len() - self.pos(),
        {
            let ghost before = self.pos();
            match self.declaration() {
                Ok(s) => {
                    proof {
                        let m = parse_declaration(self.toks(), before)->Ok_0.0;
                        assert(all_match(statements@.push(s), models.push(m)));
                        models = models.push(m);
                    }
                    statements.push(s);
                },
                Err(e) => {
                    errors.push(e);
                    proof {
                        lemma_resume_point(self.toks(), self.pos() + 1);
                    }
                    self.synchronize();
                },
            }
        }
        (statements, errors)
    }
}

} // verus!

verus! {

pub open spec fn parse_message(k: ParseErrorKind) -> Seq<char> {
    match k {
        ParseErrorKind::ExpectExpression => "Expect expression."@,
        ParseErrorKind::ExpectRightParenAfterExpression => "Expect ')' after expression."@,
        ParseErrorKind::ExpectSemicolonAfterValue => "Expect ';' after value."@,
        ParseErrorKind::ExpectSemicolonAfterExpression => "Expect ';' after expression."@,
        ParseErrorKind::ExpectVariableName => "Expect variable name."@,
        ParseErrorKind::ExpectSemicolonAfterVariable => "Expect ';' after variable declaration."@,
        ParseErrorKind::ExpectRightBraceAfterBlock => "Expect '}' after block."@,
        ParseErrorKind::ExpectLeftParenAfterIf => "Expect '(' after 'if'."@,
        ParseErrorKind::ExpectRightParenAfterCondition => "Expect ')' after if condition."@,
        ParseErrorKind::InvalidAssignmentTarget => "Invalid assignment target."@,
    }
}

impl ParseError {
    pub fn message(&self) -> (r: &'static str)
        ensures
            r@ == parse_message(self.kind),
    {
        match self.kind {
            ParseErrorKind::ExpectExpression => "Expect expression.",
            ParseErrorKind::ExpectRightParenAfterExpression => "Expect ')' after expression.",
            ParseErrorKind::ExpectSemicolonAfterValue => "Expect ';' after value.",
            ParseErrorKind::ExpectSemicolonAfterExpression => "Expect ';' after expression.",
            ParseErrorKind::ExpectVariableName => "Expect variable name.",
            ParseErrorKind::ExpectSemicolonAfterVariable => "Expect ';' after variable declaration.",
            ParseErrorKind::ExpectRightBraceAfterBlock => "Expect '}' after block.",
            ParseErrorKind::ExpectLeftParenAfterIf => "Expect '(' after 'if'.",
            ParseErrorKind::ExpectRightParenAfterCondition => "Expect ')' after if condition.",
            ParseErrorKind::InvalidAssignmentTarget => "Invalid assignment target.",
        }
    }

    /// `[line N] Error at 'lexeme': message`, or `at end` for the end of input.
    pub fn report(&self) -> (r: String)
        ensures
            r@ == diagnostic(
                self.token.line as nat,
                location(self.token.tokentype is Eof, self.token.lexeme@),
                parse_message(self.kind),
            ),
    {
        let at = location_text(matches!(self.token.tokentype, TokenType::Eof), self.token.lexeme.as_str());
        diagnostic_text(self.token.line, at.as_str(), self.message())
    }
}

} // verus!
