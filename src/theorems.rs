use vstd::prelude::*;

use crate::generate_ast::{Expr, LiteralsAst, Val};
use crate::environment::{assigned, defined, innermost, lookup};
use crate::generate_ast::{truthy, values_equal};
use crate::interpreter::{
    arith, binary_value, error, eval, popped, Frames, RuntimeError, RuntimeErrorKind,
};
use crate::number::Num;
use crate::parser::{
    is_level_op, kind_at, parse_assignment, parse_expression, parse_level, parse_level_rest,
    parse_operand, parse_primary, parse_program,
    parse_unary, ParseError, StmtModel,
};
use crate::token::{Literals, Token, TokenType};

verus! {

/// No binary level takes the token kind as its operator.
pub open spec fn closes(k: TokenType) -> bool {
    forall|l: int| 1 <= l <= 6 ==> !#[trigger] is_level_op(l, k)
}

/// A unary expression from `i` to `j`, followed by a token that no level
/// from `lvl` down takes as an operator, is what each such level parses there.
proof fn lemma_single_operand(toks: Seq<Token>, i: int, j: int, e: Expr, lvl: int)
    requires
        0 <= i < j < toks.len(),
        1 <= lvl <= 6,
        parse_unary(toks, i) == Ok::<(Expr, int), (ParseError, int)>((e, j)),
        forall|l: int| lvl <= l <= 6 ==> !#[trigger] is_level_op(l, kind_at(toks, j)),
    ensures
        parse_level(toks, i, lvl) == Ok::<(Expr, int), (ParseError, int)>((e, j)),
    decreases 6 - lvl,
{
    if lvl < 6 {
        lemma_single_operand(toks, i, j, e, lvl + 1);
    }
    assert(parse_operand(toks, i, lvl) == Ok::<(Expr, int), (ParseError, int)>((e, j)));
    assert(!is_level_op(lvl, kind_at(toks, j)));
    assert(parse_level_rest(toks, j, lvl, e) == Ok::<(Expr, int), (ParseError, int)>((e, j)));
}

/// What a level parses up to a token that closes it, every looser level
/// parses there too.
proof fn lemma_levels_up(toks: Seq<Token>, i: int, e: Expr, q: int, lvl: int, top: int)
    requires
        0 <= i < q < toks.len(),
        closes(kind_at(toks, q)),
        1 <= lvl <= top <= 6,
        parse_level(toks, i, top) == Ok::<(Expr, int), (ParseError, int)>((e, q)),
    ensures
        parse_level(toks, i, lvl) == Ok::<(Expr, int), (ParseError, int)>((e, q)),
    decreases top - lvl,
{
    if lvl < top {
        lemma_levels_up(toks, i, e, q, lvl + 1, top);
        assert(parse_operand(toks, i, lvl) == Ok::<(Expr, int), (ParseError, int)>((e, q)));
        assert(!is_level_op(lvl, kind_at(toks, q)));
        assert(parse_level_rest(toks, q, lvl, e) == Ok::<(Expr, int), (ParseError, int)>((e, q)));
    }
}

/// The level of an arithmetic operator: additive or multiplicative.
pub open spec fn arith_level(k: TokenType) -> int {
    if k is Star || k is Slash {
        6
    } else {
        5
    }
}

/// For any two number literals `x` and `y` and an arithmetic operator, the
/// program `x op y;` parses, without errors, as the one expression statement
/// `x op y`; evaluating it in any scopes changes none of them and gives the
/// exact sum, difference, product or quotient, or the out-of-range error
/// where that does not fit.
pub proof fn arithmetic_on_literals(
    a: Token,
    op: Token,
    b: Token,
    semi: Token,
    eof: Token,
    x: Num,
    y: Num,
    env: Frames,
)
    requires
        a.tokentype is Number,
        a.literal == Literals::Number(x),
        b.tokentype is Number,
        b.literal == Literals::Number(y),
        op.tokentype is Plus || op.tokentype is Minus || op.tokentype is Star || op.tokentype is Slash,
        semi.tokentype is Semicolon,
        eof.tokentype is Eof,
    ensures
        ({
            let e = Expr::Binary {
                left: Box::new(Expr::Literal { value: LiteralsAst::Number(x) }),
                operator: op,
                right: Box::new(Expr::Literal { value: LiteralsAst::Number(y) }),
            };
            &&& parse_program(seq![a, op, b, semi, eof], 0, Seq::empty(), Seq::empty()) == (
                seq![StmtModel::Expression(e)],
                Seq::<crate::parser::ParseError>::empty(),
            )
            &&& eval(e, env) == (env, arith(op, x, y))
            &&& op.tokentype is Plus ==> arith(op, x, y) == match x.spec_add(y) {
                Some(c) => Ok(Val::Number(c)),
                None => crate::interpreter::error(
                    crate::interpreter::RuntimeErrorKind::NumberOutOfRange,
                    op,
                ),
            }
            &&& op.tokentype is Minus ==> arith(op, x, y) == match x.spec_sub(y) {
                Some(c) => Ok(Val::Number(c)),
                None => crate::interpreter::error(
                    crate::interpreter::RuntimeErrorKind::NumberOutOfRange,
                    op,
                ),
            }
            &&& op.tokentype is Star ==> arith(op, x, y) == match x.spec_mul(y) {
                Some(c) => Ok(Val::Number(c)),
                None => crate::interpreter::error(
                    crate::interpreter::RuntimeErrorKind::NumberOutOfRange,
                    op,
                ),
            }
            &&& op.tokentype is Slash ==> arith(op, x, y) == match x.spec_div(y) {
                Some(c) => Ok(Val::Number(c)),
                None => crate::interpreter::error(
                    crate::interpreter::RuntimeErrorKind::NumberOutOfRange,
                    op,
                ),
            }
        }),
{
    lemma_parse_arithmetic(a, op, b, semi, eof, x, y);
    lemma_eval_arithmetic(op, x, y, env);
}

proof fn lemma_eval_arithmetic(op: Token, x: Num, y: Num, env: Frames)
    requires
        op.tokentype is Plus || op.tokentype is Minus || op.tokentype is Star || op.tokentype is Slash,
    ensures
        eval(
            Expr::Binary {
                left: Box::new(Expr::Literal { value: LiteralsAst::Number(x) }),
                operator: op,
                right: Box::new(Expr::Literal { value: LiteralsAst::Number(y) }),
            },
            env,
        ) == (env, arith(op, x, y)),
{
    let lx = Expr::Literal { value: LiteralsAst::Number(x) };
    let ly = Expr::Literal { value: LiteralsAst::Number(y) };
    assert(eval(lx, env) == (env, Ok::<Val, crate::interpreter::RuntimeError>(Val::Number(x))));
    assert(eval(ly, env) == (env, Ok::<Val, crate::interpreter::RuntimeError>(Val::Number(y))));
    assert(crate::interpreter::binary_value(op, Val::Number(x), Val::Number(y)) == arith(op, x, y));
}

proof fn lemma_parse_arithmetic(a: Token, op: Token, b: Token, semi: Token, eof: Token, x: Num, y: Num)
    requires
        a.tokentype is Number,
        a.literal == Literals::Number(x),
        b.tokentype is Number,
        b.literal == Literals::Number(y),
        op.tokentype is Plus || op.tokentype is Minus || op.tokentype is Star || op.tokentype is Slash,
        semi.tokentype is Semicolon,
        eof.tokentype is Eof,
    ensures
        parse_program(seq![a, op, b, semi, eof], 0, Seq::empty(), Seq::empty()) == (
            seq![
                StmtModel::Expression(
                    Expr::Binary {
                        left: Box::new(Expr::Literal { value: LiteralsAst::Number(x) }),
                        operator: op,
                        right: Box::new(Expr::Literal { value: LiteralsAst::Number(y) }),
                    },
                ),
            ],
            Seq::<crate::parser::ParseError>::empty(),
        ),
{
    let toks = seq![a, op, b, semi, eof];
    let lx = Expr::Literal { value: LiteralsAst::Number(x) };
    let ly = Expr::Literal { value: LiteralsAst::Number(y) };
    let e = Expr::Binary { left: Box::new(lx), operator: op, right: Box::new(ly) };
    let lvl = arith_level(op.tokentype);
    assert(toks[0] == a && toks[1] == op && toks[2] == b && toks[3] == semi && toks[4] == eof);
    assert(parse_unary(toks, 0) == Ok::<(Expr, int), (crate::parser::ParseError, int)>((lx, 1)));
    assert(parse_unary(toks, 2) == Ok::<(Expr, int), (crate::parser::ParseError, int)>((ly, 3)));
    if lvl < 6 {
        lemma_single_operand(toks, 0, 1, lx, lvl + 1);
        lemma_single_operand(toks, 2, 3, ly, lvl + 1);
        assert(parse_operand(toks, 0, lvl) == Ok::<(Expr, int), (crate::parser::ParseError, int)>((lx, 1)));
    } else {
        lemma_single_operand(toks, 2, 3, ly, 6);
    }
    assert(parse_operand(toks, 2, lvl) == Ok::<(Expr, int), (crate::parser::ParseError, int)>((ly, 3)));
    assert(parse_level_rest(toks, 3, lvl, e) == Ok::<(Expr, int), (crate::parser::ParseError, int)>((e, 3)));
    assert(parse_level_rest(toks, 1, lvl, lx) == Ok::<(Expr, int), (crate::parser::ParseError, int)>((e, 3)));
    assert(parse_level(toks, 0, lvl) == Ok::<(Expr, int), (crate::parser::ParseError, int)>((e, 3)));
    assert(closes(kind_at(toks, 3)));
    lemma_levels_up(toks, 0, e, 3, 1, lvl);
    assert(crate::parser::parse_assignment(toks, 0) == Ok::<(Expr, int), (crate::parser::ParseError, int)>((e, 3)));
    assert(crate::parser::parse_statement(toks, 0) == Ok::<(StmtModel, int), (crate::parser::ParseError, int)>((StmtModel::Expression(e), 4)));
    assert(crate::parser::parse_declaration(toks, 0) == Ok::<(StmtModel, int), (crate::parser::ParseError, int)>((StmtModel::Expression(e), 4)));
    assert(parse_program(toks, 4, seq![StmtModel::Expression(e)], Seq::empty()) == (
        seq![StmtModel::Expression(e)],
        Seq::<crate::parser::ParseError>::empty(),
    ));
}

} // verus!

verus! {

/// A token of kind `k` with no literal, made up for a rendering; the parser
/// reads neither its text nor its line.
pub open spec fn punct(k: TokenType) -> Token {
    Token { tokentype: k, lexeme: arbitrary(), literal: Literals::Null, line: 0 }
}

/// The token that stands for a value.
pub open spec fn literal_token(v: LiteralsAst) -> Token {
    match v {
        LiteralsAst::Number(n) => Token {
            tokentype: TokenType::Number,
            lexeme: arbitrary(),
            literal: Literals::Number(n),
            line: 0,
        },
        LiteralsAst::Strings(s) => Token {
            tokentype: TokenType::String,
            lexeme: arbitrary(),
            literal: Literals::String(s),
            line: 0,
        },
        LiteralsAst::True => punct(TokenType::True),
        LiteralsAst::False => punct(TokenType::False),
        LiteralsAst::Null => punct(TokenType::Nil),
    }
}

/// The fully parenthesized token rendering of an expression: every node
/// but a literal or a variable is written inside its own parentheses.
pub open spec fn source_tokens(e: Expr) -> Seq<Token>
    decreases e,
{
    match e {
        Expr::Literal { value } => seq![literal_token(value)],
        Expr::Variable { name } => seq![name],
        Expr::Grouping { expression } => seq![punct(TokenType::LeftParen)] + source_tokens(
            *expression,
        ) + seq![punct(TokenType::RightParen)],
        Expr::Unary { operator, right } => seq![punct(TokenType::LeftParen), operator]
            + source_tokens(*right) + seq![punct(TokenType::RightParen)],
        Expr::Binary { left, operator, right } => seq![punct(TokenType::LeftParen)]
            + source_tokens(*left) + seq![operator] + source_tokens(*right) + seq![
            punct(TokenType::RightParen),
        ],
        Expr::Logical { left, operator, right } => seq![punct(TokenType::LeftParen)]
            + source_tokens(*left) + seq![operator] + source_tokens(*right) + seq![
            punct(TokenType::RightParen),
        ],
        Expr::Assign { name, value } => seq![
            punct(TokenType::LeftParen),
            name,
            punct(TokenType::Equal),
        ] + source_tokens(*value) + seq![punct(TokenType::RightParen)],
    }
}

/// What parsing the rendering gives back: the expression with a grouping
/// around every node that the rendering parenthesized.
pub open spec fn regrouped(e: Expr) -> Expr
    decreases e,
{
    match e {
        Expr::Literal { .. } => e,
        Expr::Variable { .. } => e,
        Expr::Grouping { expression } => Expr::Grouping {
            expression: Box::new(regrouped(*expression)),
        },
        Expr::Unary { operator, right } => Expr::Grouping {
            expression: Box::new(Expr::Unary { operator, right: Box::new(regrouped(*right)) }),
        },
        Expr::Binary { left, operator, right } => Expr::Grouping {
            expression: Box::new(
                Expr::Binary {
                    left: Box::new(regrouped(*left)),
                    operator,
                    right: Box::new(regrouped(*right)),
                },
            ),
        },
        Expr::Logical { left, operator, right } => Expr::Grouping {
            expression: Box::new(
                Expr::Logical {
                    left: Box::new(regrouped(*left)),
                    operator,
                    right: Box::new(regrouped(*right)),
                },
            ),
        },
        Expr::Assign { name, value } => Expr::Grouping {
            expression: Box::new(Expr::Assign { name, value: Box::new(regrouped(*value)) }),
        },
    }
}

/// An expression the parser could have built: names are identifiers and
/// each operator belongs to its kind of node.
pub open spec fn well_formed(e: Expr) -> bool
    decreases e,
{
    match e {
        Expr::Literal { .. } => true,
        Expr::Variable { name } => name.tokentype is Identifier,
        Expr::Grouping { expression } => well_formed(*expression),
        Expr::Unary { operator, right } => (operator.tokentype is Bang
            || operator.tokentype is Minus) && well_formed(*right),
        Expr::Binary { left, operator, right } => (is_level_op(3, operator.tokentype)
            || is_level_op(4, operator.tokentype) || is_level_op(5, operator.tokentype)
            || is_level_op(6, operator.tokentype)) && well_formed(*left) && well_formed(*right),
        Expr::Logical { left, operator, right } => (operator.tokentype is Or
            || operator.tokentype is And) && well_formed(*left) && well_formed(*right),
        Expr::Assign { name, value } => name.tokentype is Identifier && well_formed(*value),
    }
}

/// `s` stands in `toks` from position `p` on.
pub open spec fn stands_at(toks: Seq<Token>, p: int, s: Seq<Token>) -> bool {
    &&& 0 <= p
    &&& p + s.len() <= toks.len()
    &&& forall|i: int| 0 <= i < s.len() ==> toks[p + i] == #[trigger] s[i]
}

proof fn lemma_expression_from_level(toks: Seq<Token>, i: int, c: Expr, k: int, lvl: int)
    requires
        0 <= i < k < toks.len(),
        1 <= lvl <= 6,
        closes(kind_at(toks, k)),
        !(kind_at(toks, k) is Equal),
        parse_level(toks, i, lvl) == Ok::<(Expr, int), (ParseError, int)>((c, k)),
    ensures
        parse_expression(toks, i) == Ok::<(Expr, int), (ParseError, int)>((c, k)),
{
    lemma_levels_up(toks, i, c, k, 1, lvl);
    assert(parse_assignment(toks, i) == Ok::<(Expr, int), (ParseError, int)>((c, k)));
}

proof fn lemma_parenthesized(toks: Seq<Token>, p: int, c: Expr, k: int)
    requires
        0 <= p,
        p + 1 < k < toks.len(),
        kind_at(toks, p) is LeftParen,
        kind_at(toks, k) is RightParen,
        parse_expression(toks, p + 1) == Ok::<(Expr, int), (ParseError, int)>((c, k)),
    ensures
        parse_unary(toks, p) == Ok::<(Expr, int), (ParseError, int)>(
            (Expr::Grouping { expression: Box::new(c) }, k + 1),
        ),
{
    assert(parse_primary(toks, p) == Ok::<(Expr, int), (ParseError, int)>(
        (Expr::Grouping { expression: Box::new(c) }, k + 1),
    ));
}

proof fn lemma_tokens_nonempty(e: Expr)
    ensures
        source_tokens(e).len() >= 1,
    decreases e,
{
}

/// The level whose operator `k` is, or 0.
pub open spec fn op_level(k: TokenType) -> int {
    if is_level_op(1, k) {
        1
    } else if is_level_op(2, k) {
        2
    } else if is_level_op(3, k) {
        3
    } else if is_level_op(4, k) {
        4
    } else if is_level_op(5, k) {
        5
    } else if is_level_op(6, k) {
        6
    } else {
        0
    }
}

proof fn lemma_op_level(k: TokenType)
    ensures
        forall|l: int| 1 <= l <= 6 ==> (#[trigger] is_level_op(l, k) <==> op_level(k) == l),
        closes(k) <==> op_level(k) == 0,
{
}

/// `( left op right )` from `p`, with both operands parsed already.
proof fn lemma_binary_case(toks: Seq<Token>, p: int, rl: Expr, op: Token, rr: Expr, nl: int, nr: int)
    requires
        0 <= p,
        nl >= 1,
        nr >= 1,
        p + 2 + nl + nr < toks.len(),
        kind_at(toks, p) is LeftParen,
        toks[p + 1 + nl] == op,
        kind_at(toks, p + 2 + nl + nr) is RightParen,
        1 <= op_level(op.tokentype),
        parse_unary(toks, p + 1) == Ok::<(Expr, int), (ParseError, int)>((rl, p + 1 + nl)),
        parse_unary(toks, p + 2 + nl) == Ok::<(Expr, int), (ParseError, int)>((rr, p + 2 + nl + nr)),
    ensures
        parse_unary(toks, p) == Ok::<(Expr, int), (ParseError, int)>(
            (
                Expr::Grouping {
                    expression: Box::new(crate::parser::combine(op_level(op.tokentype), rl, op, rr)),
                },
                p + 3 + nl + nr,
            ),
        ),
{
    let lvl = op_level(op.tokentype);
    let k = p + 2 + nl + nr;
    let c = crate::parser::combine(lvl, rl, op, rr);
    lemma_op_level(op.tokentype);
    lemma_op_level(TokenType::RightParen);
    if lvl < 6 {
        lemma_single_operand(toks, p + 1, p + 1 + nl, rl, lvl + 1);
        lemma_single_operand(toks, p + 2 + nl, k, rr, lvl + 1);
    }
    assert(parse_operand(toks, p + 1, lvl) == Ok::<(Expr, int), (ParseError, int)>((rl, p + 1 + nl)));
    assert(parse_operand(toks, p + 2 + nl, lvl) == Ok::<(Expr, int), (ParseError, int)>((rr, k)));
    assert(parse_level_rest(toks, k, lvl, c) == Ok::<(Expr, int), (ParseError, int)>((c, k)));
    assert(parse_level_rest(toks, p + 1 + nl, lvl, rl) == Ok::<(Expr, int), (ParseError, int)>((c, k)));
    assert(parse_level(toks, p + 1, lvl) == Ok::<(Expr, int), (ParseError, int)>((c, k)));
    lemma_expression_from_level(toks, p + 1, c, k, lvl);
    lemma_parenthesized(toks, p, c, k);
}

/// The rendering of a well-formed expression, wherever it stands in a token
/// sequence, parses as a unary expression to exactly its end, giving the
/// regrouped expression.
proof fn lemma_rendering_parses(e: Expr, toks: Seq<Token>, p: int)
    requires
        well_formed(e),
        stands_at(toks, p, source_tokens(e)),
        p + source_tokens(e).len() < toks.len(),
    ensures
        parse_unary(toks, p) == Ok::<(Expr, int), (ParseError, int)>(
            (regrouped(e), p + source_tokens(e).len()),
        ),
    decreases e, 1int,
{
    match e {
        Expr::Literal { .. } => lemma_rendering_literal(e, toks, p),
        Expr::Variable { .. } => lemma_rendering_variable(e, toks, p),
        Expr::Grouping { .. } => lemma_rendering_grouping(e, toks, p),
        Expr::Unary { .. } => lemma_rendering_unary(e, toks, p),
        Expr::Binary { .. } => lemma_rendering_binary(e, toks, p),
        Expr::Logical { .. } => lemma_rendering_logical(e, toks, p),
        Expr::Assign { .. } => lemma_rendering_assign(e, toks, p),
    }
}

proof fn lemma_rendering_literal(e: Expr, toks: Seq<Token>, p: int)
    requires
        e is Literal,
        well_formed(e),
        stands_at(toks, p, source_tokens(e)),
        p + source_tokens(e).len() < toks.len(),
    ensures
        parse_unary(toks, p) == Ok::<(Expr, int), (ParseError, int)>(
            (regrouped(e), p + source_tokens(e).len()),
        ),
    decreases e, 0int,
{
    let src = source_tokens(e);
    if let Expr::Literal { .. } = e {
        assert(toks[p] == src[0]);
        assert(parse_primary(toks, p) == Ok::<(Expr, int), (ParseError, int)>((e, p + 1)));
    }
}

proof fn lemma_rendering_variable(e: Expr, toks: Seq<Token>, p: int)
    requires
        e is Variable,
        well_formed(e),
        stands_at(toks, p, source_tokens(e)),
        p + source_tokens(e).len() < toks.len(),
    ensures
        parse_unary(toks, p) == Ok::<(Expr, int), (ParseError, int)>(
            (regrouped(e), p + source_tokens(e).len()),
        ),
    decreases e, 0int,
{
    let src = source_tokens(e);
    if let Expr::Variable { .. } = e {
        assert(toks[p] == src[0]);
        assert(parse_primary(toks, p) == Ok::<(Expr, int), (ParseError, int)>((e, p + 1)));
    }
}

proof fn lemma_rendering_grouping(e: Expr, toks: Seq<Token>, p: int)
    requires
        e is Grouping,
        well_formed(e),
        stands_at(toks, p, source_tokens(e)),
        p + source_tokens(e).len() < toks.len(),
    ensures
        parse_unary(toks, p) == Ok::<(Expr, int), (ParseError, int)>(
            (regrouped(e), p + source_tokens(e).len()),
        ),
    decreases e, 0int,
{
    let src = source_tokens(e);
    lemma_op_level(TokenType::RightParen);
    if let Expr::Grouping { expression } = e {
        let x = *expression;
        let tx = source_tokens(x);
        let k = p + 1 + tx.len();
        assert(toks[p] == src[0]);
        assert(toks[k] == src[(1 + tx.len()) as int]);
        assert forall|i: int| 0 <= i < tx.len() implies toks[p + 1 + i] == #[trigger] tx[i] by {
            assert(src[1 + i] == tx[i]);
        }
        lemma_rendering_parses(x, toks, p + 1);
        lemma_single_operand(toks, p + 1, k, regrouped(x), 1);
        lemma_expression_from_level(toks, p + 1, regrouped(x), k, 1);
        lemma_parenthesized(toks, p, regrouped(x), k);
    }
}

proof fn lemma_rendering_unary(e: Expr, toks: Seq<Token>, p: int)
    requires
        e is Unary,
        well_formed(e),
        stands_at(toks, p, source_tokens(e)),
        p + source_tokens(e).len() < toks.len(),
    ensures
        parse_unary(toks, p) == Ok::<(Expr, int), (ParseError, int)>(
            (regrouped(e), p + source_tokens(e).len()),
        ),
    decreases e, 0int,
{
    let src = source_tokens(e);
    lemma_op_level(TokenType::RightParen);
    if let Expr::Unary { operator, right } = e {
        let r = *right;
        let tr = source_tokens(r);
        let k = p + 2 + tr.len();
        assert(toks[p] == src[0]);
        assert(toks[p + 1] == src[1]);
        assert(toks[k] == src[(2 + tr.len()) as int]);
        assert forall|i: int| 0 <= i < tr.len() implies toks[p + 2 + i] == #[trigger] tr[i] by {
            assert(src[2 + i] == tr[i]);
        }
        lemma_rendering_parses(r, toks, p + 2);
        let u = Expr::Unary { operator, right: Box::new(regrouped(r)) };
        assert(parse_unary(toks, p + 1) == Ok::<(Expr, int), (ParseError, int)>((u, k)));
        lemma_single_operand(toks, p + 1, k, u, 1);
        lemma_expression_from_level(toks, p + 1, u, k, 1);
        lemma_parenthesized(toks, p, u, k);
    }
}

proof fn lemma_rendering_binary(e: Expr, toks: Seq<Token>, p: int)
    requires
        e is Binary,
        well_formed(e),
        stands_at(toks, p, source_tokens(e)),
        p + source_tokens(e).len() < toks.len(),
    ensures
        parse_unary(toks, p) == Ok::<(Expr, int), (ParseError, int)>(
            (regrouped(e), p + source_tokens(e).len()),
        ),
    decreases e, 0int,
{
    let src = source_tokens(e);
    lemma_op_level(TokenType::RightParen);
    if let Expr::Binary { left, operator, right } = e {
        let l = *left;
        let r = *right;
        let tl = source_tokens(l);
        let tr = source_tokens(r);
        let k = p + 2 + tl.len() + tr.len();
        assert(toks[p] == src[0]);
        assert(toks[p + 1 + tl.len()] == src[(1 + tl.len()) as int]);
        assert(toks[k] == src[(2 + tl.len() + tr.len()) as int]);
        assert forall|i: int| 0 <= i < tl.len() implies toks[p + 1 + i] == #[trigger] tl[i] by {
            assert(src[1 + i] == tl[i]);
        }
        assert forall|i: int| 0 <= i < tr.len() implies toks[p + 2 + tl.len() + i]
            == #[trigger] tr[i] by {
            assert(src[(2 + tl.len() + i) as int] == tr[i]);
        }
        lemma_rendering_parses(l, toks, p + 1);
        lemma_rendering_parses(r, toks, p + 2 + tl.len());
        lemma_tokens_nonempty(l);
        lemma_tokens_nonempty(r);
        lemma_op_level(operator.tokentype);
        lemma_binary_case(toks, p, regrouped(l), operator, regrouped(r), tl.len() as int, tr.len() as int);
    }
}

proof fn lemma_rendering_logical(e: Expr, toks: Seq<Token>, p: int)
    requires
        e is Logical,
        well_formed(e),
        stands_at(toks, p, source_tokens(e)),
        p + source_tokens(e).len() < toks.len(),
    ensures
        parse_unary(toks, p) == Ok::<(Expr, int), (ParseError, int)>(
            (regrouped(e), p + source_tokens(e).len()),
        ),
    decreases e, 0int,
{
    let src = source_tokens(e);
    lemma_op_level(TokenType::RightParen);
    if let Expr::Logical { left, operator, right } = e {
        let l = *left;
        let r = *right;
        let tl = source_tokens(l);
        let tr = source_tokens(r);
        let k = p + 2 + tl.len() + tr.len();
        assert(toks[p] == src[0]);
        assert(toks[p + 1 + tl.len()] == src[(1 + tl.len()) as int]);
        assert(toks[k] == src[(2 + tl.len() + tr.len()) as int]);
        assert forall|i: int| 0 <= i < tl.len() implies toks[p + 1 + i] == #[trigger] tl[i] by {
            assert(src[1 + i] == tl[i]);
        }
        assert forall|i: int| 0 <= i < tr.len() implies toks[p + 2 + tl.len() + i]
            == #[trigger] tr[i] by {
            assert(src[(2 + tl.len() + i) as int] == tr[i]);
        }
        lemma_rendering_parses(l, toks, p + 1);
        lemma_rendering_parses(r, toks, p + 2 + tl.len());
        lemma_tokens_nonempty(l);
        lemma_tokens_nonempty(r);
        lemma_op_level(operator.tokentype);
        lemma_binary_case(toks, p, regrouped(l), operator, regrouped(r), tl.len() as int, tr.len() as int);
    }
}

proof fn lemma_rendering_assign(e: Expr, toks: Seq<Token>, p: int)
    requires
        e is Assign,
        well_formed(e),
        stands_at(toks, p, source_tokens(e)),
        p + source_tokens(e).len() < toks.len(),
    ensures
        parse_unary(toks, p) == Ok::<(Expr, int), (ParseError, int)>(
            (regrouped(e), p + source_tokens(e).len()),
        ),
    decreases e, 0int,
{
    let src = source_tokens(e);
    lemma_op_level(TokenType::RightParen);
    lemma_op_level(TokenType::Equal);
    if let Expr::Assign { name, value } = e {
        let v = *value;
        let tv = source_tokens(v);
        let k = p + 3 + tv.len();
        assert(toks[p] == src[0]);
        assert(toks[p + 1] == src[1]);
        assert(toks[p + 2] == src[2]);
        assert(toks[k] == src[(3 + tv.len()) as int]);
        assert forall|i: int| 0 <= i < tv.len() implies toks[p + 3 + i] == #[trigger] tv[i] by {
            assert(src[3 + i] == tv[i]);
        }
        lemma_rendering_parses(v, toks, p + 3);
        let var = Expr::Variable { name };
        assert(parse_primary(toks, p + 1) == Ok::<(Expr, int), (ParseError, int)>((var, p + 2)));
        assert(parse_unary(toks, p + 1) == Ok::<(Expr, int), (ParseError, int)>((var, p + 2)));
        lemma_single_operand(toks, p + 1, p + 2, var, 1);
        lemma_single_operand(toks, p + 3, k, regrouped(v), 1);
        lemma_expression_from_level(toks, p + 3, regrouped(v), k, 1);
        let a = Expr::Assign { name, value: Box::new(regrouped(v)) };
        assert(parse_assignment(toks, p + 1) == Ok::<(Expr, int), (ParseError, int)>((a, k)));
        assert(parse_expression(toks, p + 1) == Ok::<(Expr, int), (ParseError, int)>((a, k)));
        lemma_parenthesized(toks, p, a, k);
    }
}

/// Evaluating the regrouped expression is evaluating the expression: a
/// grouping adds nothing.
proof fn lemma_regrouped_eval(e: Expr, env: Frames)
    ensures
        eval(regrouped(e), env) == eval(e, env),
    decreases e,
{
    match e {
        Expr::Literal { .. } => {
            assert(regrouped(e) == e);
        },
        Expr::Variable { .. } => {
            assert(regrouped(e) == e);
        },
        Expr::Grouping { expression } => {
            lemma_regrouped_eval(*expression, env);
        },
        Expr::Unary { operator, right } => {
            lemma_regrouped_eval(*right, env);
            let inner = Expr::Unary { operator, right: Box::new(regrouped(*right)) };
            assert(eval(regrouped(e), env) == eval(inner, env));
        },
        Expr::Binary { left, operator, right } => {
            lemma_regrouped_eval(*left, env);
            lemma_regrouped_eval(*right, eval(*left, env).0);
            let inner = Expr::Binary {
                left: Box::new(regrouped(*left)),
                operator,
                right: Box::new(regrouped(*right)),
            };
            assert(eval(regrouped(e), env) == eval(inner, env));
        },
        Expr::Logical { left, operator, right } => {
            lemma_regrouped_eval(*left, env);
            lemma_regrouped_eval(*right, eval(*left, env).0);
            let inner = Expr::Logical {
                left: Box::new(regrouped(*left)),
                operator,
                right: Box::new(regrouped(*right)),
            };
            assert(eval(regrouped(e), env) == eval(inner, env));
        },
        Expr::Assign { name, value } => {
            lemma_regrouped_eval(*value, env);
            let inner = Expr::Assign { name, value: Box::new(regrouped(*value)) };
            assert(eval(regrouped(e), env) == eval(inner, env));
        },
    }
}

/// Rendering an expression to fully parenthesized tokens and parsing them
/// again gives back the expression with groupings added, which has the same
/// value, and the same effect on the scopes, as the expression rendered, in
/// every scope. This holds of every expression the parser can build; the
/// made-up tokens of the rendering (parentheses, `=`, literals) carry no
/// text.
pub proof fn reparse_rendering(e: Expr, eof: Token, env: Frames)
    requires
        well_formed(e),
        eof.tokentype is Eof,
    ensures
        parse_expression(source_tokens(e).push(eof), 0) == Ok::<(Expr, int), (ParseError, int)>(
            (regrouped(e), source_tokens(e).len() as int),
        ),
        eval(regrouped(e), env) == eval(e, env),
{
    let src = source_tokens(e);
    let toks = src.push(eof);
    let n = src.len() as int;
    assert forall|i: int| 0 <= i < src.len() implies toks[0 + i] == #[trigger] src[i] by {}
    lemma_rendering_parses(e, toks, 0);
    lemma_op_level(TokenType::Eof);
    assert(toks[n] == eof);
    lemma_tokens_nonempty(e);
    lemma_single_operand(toks, 0, n, regrouped(e), 1);
    lemma_expression_from_level(toks, 0, regrouped(e), n, 1);
    lemma_regrouped_eval(e, env);
}

/// `+` on two strings is their concatenation; on a string and a number,
/// either way round, it is the operand type error.
pub proof fn string_concatenation(op: Token, x: Seq<char>, y: Seq<char>, n: Num)
    requires
        op.tokentype is Plus,
    ensures
        binary_value(op, Val::Str(x), Val::Str(y)) == Ok::<Val, RuntimeError>(Val::Str(x + y)),
        binary_value(op, Val::Str(x), Val::Number(n)) == error(
            RuntimeErrorKind::OperandsMustBeNumbersOrStrings,
            op,
        ),
        binary_value(op, Val::Number(n), Val::Str(x)) == error(
            RuntimeErrorKind::OperandsMustBeNumbersOrStrings,
            op,
        ),
{
}

/// The kind of a value: number, string, boolean or nil.
pub open spec fn kind_of(v: Val) -> int {
    match v {
        Val::Number(_) => 0,
        Val::Str(_) => 1,
        Val::Bool(_) => 2,
        Val::Nil => 3,
    }
}

/// Values of different kinds are never equal; `nil` equals `nil`; only
/// `false` and `nil` are falsy.
pub proof fn equality_and_truthiness(a: Val, b: Val)
    ensures
        kind_of(a) != kind_of(b) ==> !values_equal(a, b),
        values_equal(Val::Nil, Val::Nil),
        !truthy(a) <==> (a == Val::Bool(false) || a == Val::Nil),
{
}

/// A declaration inside a block is gone when the block ends, and leaves
/// the enclosing scopes as they were.
pub proof fn block_declaration_does_not_leak(frames: Frames, n: Seq<char>, v: Val)
    requires
        frames.len() > 0,
    ensures
        popped(defined(frames.push(Map::empty()), n, v)) == frames,
{
    assert(popped(defined(frames.push(Map::empty()), n, v)) =~= frames);
}

/// An assignment inside a block whose own scope does not bind the name
/// changes the binding of the enclosing scopes, which stays after the block.
pub proof fn assignment_in_block_reaches_enclosing(frames: Frames, n: Seq<char>, v: Val)
    requires
        frames.len() > 0,
        lookup(frames, n) is Some,
    ensures
        assigned(frames.push(Map::empty()), n, v) is Some,
        popped(assigned(frames.push(Map::empty()), n, v)->0) == assigned(frames, n, v)->0,
{
    let inner = frames.push(Map::empty());
    assert(inner.drop_last() =~= frames);
    assert(!inner[frames.len() as int].contains_key(n));
    lemma_innermost_prefix(inner, n, frames.len() as int);
    let j = innermost(frames, n, frames.len() as int);
    crate::environment::lemma_innermost(frames, n, frames.len() as int);
    assert(innermost(inner, n, inner.len() as int) == j);
    assert(j >= 0);
    let after = inner.update(j, inner[j].insert(n, v));
    assert(assigned(inner, n, v) == Some(after));
    assert(after.len() > 1);
    assert(popped(after) =~= frames.update(j, frames[j].insert(n, v)));
}

proof fn lemma_innermost_prefix(inner: Frames, n: Seq<char>, k: int)
    requires
        0 <= k <= inner.len() - 1,
    ensures
        innermost(inner, n, k) == innermost(inner.drop_last(), n, k),
    decreases k,
{
    if k > 0 {
        lemma_innermost_prefix(inner, n, k - 1);
    }
}

/// Reading a name that no scope binds is the undefined-variable error, and
/// changes nothing.
pub proof fn undefined_variable(name: Token, env: Frames)
    requires
        lookup(env, name.lexeme@) is None,
    ensures
        eval(Expr::Variable { name }, env) == (env, error(RuntimeErrorKind::UndefinedVariable, name)),
{
}

} // verus!
