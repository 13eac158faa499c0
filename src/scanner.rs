use vstd::prelude::*;

use crate::number::{ratio, Num};
use crate::text::{diagnostic, diagnostic_text, push_char};
use crate::token::{Literals, Token, TokenType};

verus! {

/// A lexical error, with the line where it was found.
#[derive(Clone, Copy, Debug, PartialEq, Eq, Structural)]
pub enum ScanErrorKind {
    UnexpectedCharacter,
    UnterminatedString,
    /// A number literal whose exact value does not fit in 64 bits.
    NumberOutOfRange,
}

#[derive(Clone, Copy, Debug, PartialEq, Eq, Structural)]
pub struct ScanError {
    pub kind: ScanErrorKind,
    pub line: usize,
}

/// The literal a token model carries.
pub enum LitModel {
    Str(Seq<char>),
    Number(Num),
    Null,
}

/// The mathematical model of a token.
pub struct TokenModel {
    pub kind: TokenType,
    pub lexeme: Seq<char>,
    pub literal: LitModel,
    pub line: int,
}

pub open spec fn token_matches(t: Token, m: TokenModel) -> bool {
    &&& t.tokentype == m.kind
    &&& t.lexeme@ == m.lexeme
    &&& t.line == m.line
    &&& match (t.literal, m.literal) {
        (Literals::String(s), LitModel::Str(x)) => s@ == x,
        (Literals::Number(n), LitModel::Number(y)) => n == y,
        (Literals::Null, LitModel::Null) => true,
        _ => false,
    }
}

pub open spec fn tokens_match(ts: Seq<Token>, ms: Seq<TokenModel>) -> bool {
    ts.len() == ms.len() && forall|i: int| 0 <= i < ts.len() ==> token_matches(#[trigger] ts[i], ms[i])
}

pub open spec fn is_digit(c: char) -> bool {
    '0' <= c <= '9'
}

pub open spec fn is_alpha(c: char) -> bool {
    ('a' <= c <= 'z') || ('A' <= c <= 'Z') || c == '_'
}

pub open spec fn is_alpha_numeric(c: char) -> bool {
    is_alpha(c) || is_digit(c)
}

/// The character at `i`, or `'\0'` past the end.
pub open spec fn char_at(src: Seq<char>, i: int) -> char {
    if 0 <= i < src.len() {
        src[i]
    } else {
        '\0'
    }
}

/// The end of the run of digits that starts at `i`.
pub open spec fn digits_end(src: Seq<char>, i: int) -> int
    decreases src.len() - i,
{
    if 0 <= i < src.len() && is_digit(src[i]) {
        digits_end(src, i + 1)
    } else {
        i
    }
}

/// The end of the run of letters, digits and underscores that starts at `i`.
pub open spec fn word_end(src: Seq<char>, i: int) -> int
    decreases src.len() - i,
{
    if 0 <= i < src.len() && is_alpha_numeric(src[i]) {
        word_end(src, i + 1)
    } else {
        i
    }
}

/// The first position from `i` on that holds `c`, or the length.
pub open spec fn find_char(src: Seq<char>, i: int, c: char) -> int
    decreases src.len() - i,
{
    if 0 <= i < src.len() && src[i] != c {
        find_char(src, i + 1, c)
    } else if i < 0 {
        0
    } else {
        i
    }
}

pub open spec fn count_newlines(s: Seq<char>) -> nat
    decreases s.len(),
{
    if s.len() == 0 {
        0
    } else {
        count_newlines(s.drop_last()) + if s.last() == '\n' {
            1nat
        } else {
            0nat
        }
    }
}

/// A line number moved on by `n` lines, kept within `usize`.
pub open spec fn add_lines(line: int, n: int) -> int {
    if line + n <= usize::MAX {
        line + n
    } else {
        usize::MAX as int
    }
}

/// The keyword that a word is, if any.
pub open spec fn keyword(s: Seq<char>) -> Option<TokenType> {
    if s == "and"@ {
        Some(TokenType::And)
    } else if s == "class"@ {
        Some(TokenType::Class)
    } else if s == "else"@ {
        Some(TokenType::Else)
    } else if s == "false"@ {
        Some(TokenType::False)
    } else if s == "for"@ {
        Some(TokenType::For)
    } else if s == "fun"@ {
        Some(TokenType::Fun)
    } else if s == "if"@ {
        Some(TokenType::If)
    } else if s == "nil"@ {
        Some(TokenType::Nil)
    } else if s == "or"@ {
        Some(TokenType::Or)
    } else if s == "print"@ {
        Some(TokenType::Print)
    } else if s == "return"@ {
        Some(TokenType::Return)
    } else if s == "super"@ {
        Some(TokenType::Super)
    } else if s == "this"@ {
        Some(TokenType::This)
    } else if s == "true"@ {
        Some(TokenType::True)
    } else if s == "var"@ {
        Some(TokenType::Var)
    } else if s == "while"@ {
        Some(TokenType::While)
    } else {
        None
    }
}

pub open spec fn digit_value(c: char) -> nat {
    (c as u32 - '0' as u32) as nat
}

/// The number that the digits of `s` spell, ignoring other characters.
pub open spec fn mantissa(s: Seq<char>) -> nat
    decreases s.len(),
{
    if s.len() == 0 {
        0
    } else if is_digit(s.last()) {
        mantissa(s.drop_last()) * 10 + digit_value(s.last())
    } else {
        mantissa(s.drop_last())
    }
}

pub open spec fn pow10(n: nat) -> nat
    decreases n,
{
    if n == 0 {
        1
    } else {
        10 * pow10((n - 1) as nat)
    }
}

/// The value of a number literal with `frac` digits after its point.
pub open spec fn number_value(lexeme: Seq<char>, frac: nat) -> Option<Num> {
    if mantissa(lexeme) <= i64::MAX && frac <= 18 {
        ratio(mantissa(lexeme) as int, pow10(frac) as int)
    } else {
        None
    }
}

/// What scanning from one position gives: a token or an error (or neither,
/// for blanks and comments), and where scanning goes on, on which line.
pub struct Step {
    pub token: Option<TokenModel>,
    pub error: Option<ScanError>,
    pub next: int,
    pub line: int,
}

pub open spec fn token_step(kind: TokenType, src: Seq<char>, i: int, len: int, line: int) -> Step {
    Step {
        token: Some(
            TokenModel { kind, lexeme: src.subrange(i, i + len), literal: LitModel::Null, line },
        ),
        error: None,
        next: i + len,
        line,
    }
}

pub open spec fn error_step(kind: ScanErrorKind, next: int, line: int) -> Step {
    Step { token: None, error: Some(ScanError { kind, line: line as usize }), next, line }
}

/// One- or two-character operators: `kind2` where `=` follows.
pub open spec fn with_equal(kind2: TokenType, kind1: TokenType, src: Seq<char>, i: int, line: int) -> Step {
    if char_at(src, i + 1) == '=' {
        token_step(kind2, src, i, 2, line)
    } else {
        token_step(kind1, src, i, 1, line)
    }
}

/// Scanning the lexeme that starts at `i` (within `src`).
pub open spec fn step(src: Seq<char>, i: int, line: int) -> Step {
    let c = src[i];
    if c == '(' {
        token_step(TokenType::LeftParen, src, i, 1, line)
    } else if c == ')' {
        token_step(TokenType::RightParen, src, i, 1, line)
    } else if c == '{' {
        token_step(TokenType::LeftBrace, src, i, 1, line)
    } else if c == '}' {
        token_step(TokenType::RightBrace, src, i, 1, line)
    } else if c == ',' {
        token_step(TokenType::Comma, src, i, 1, line)
    } else if c == '.' {
        token_step(TokenType::Dot, src, i, 1, line)
    } else if c == '-' {
        token_step(TokenType::Minus, src, i, 1, line)
    } else if c == '+' {
        token_step(TokenType::Plus, src, i, 1, line)
    } else if c == ';' {
        token_step(TokenType::Semicolon, src, i, 1, line)
    } else if c == '*' {
        token_step(TokenType::Star, src, i, 1, line)
    } else if c == '!' {
        with_equal(TokenType::BangEqual, TokenType::Bang, src, i, line)
    } else if c == '=' {
        with_equal(TokenType::EqualEqual, TokenType::Equal, src, i, line)
    } else if c == '<' {
        with_equal(TokenType::LessEqual, TokenType::Less, src, i, line)
    } else if c == '>' {
        with_equal(TokenType::GreaterEqual, TokenType::Greater, src, i, line)
    } else if c == '/' {
        if char_at(src, i + 1) == '/' {
            Step { token: None, error: None, next: find_char(src, i + 2, '\n'), line }
        } else {
            token_step(TokenType::Slash, src, i, 1, line)
        }
    } else if c == ' ' || c == '\r' || c == '\t' {
        Step { token: None, error: None, next: i + 1, line }
    } else if c == '\n' {
        Step { token: None, error: None, next: i + 1, line: add_lines(line, 1) }
    } else if c == '"' {
        let j = find_char(src, i + 1, '"');
        let l2 = add_lines(line, count_newlines(src.subrange(i + 1, j)) as int);
        if j >= src.len() {
            error_step(ScanErrorKind::UnterminatedString, j, l2)
        } else {
            Step {
                token: Some(
                    TokenModel {
                        kind: TokenType::String,
                        lexeme: src.subrange(i, j + 1),
                        literal: LitModel::Str(src.subrange(i + 1, j)),
                        line: l2,
                    },
                ),
                error: None,
                next: j + 1,
                line: l2,
            }
        }
    } else if is_digit(c) {
        let j = digits_end(src, i);
        let k = if char_at(src, j) == '.' && is_digit(char_at(src, j + 1)) {
            digits_end(src, j + 1)
        } else {
            j
        };
        let frac = if k > j {
            (k - j - 1) as nat
        } else {
            0
        };
        match number_value(src.subrange(i, k), frac) {
            Some(n) => Step {
                token: Some(
                    TokenModel {
                        kind: TokenType::Number,
                        lexeme: src.subrange(i, k),
                        literal: LitModel::Number(n),
                        line,
                    },
                ),
                error: None,
                next: k,
                line,
            },
            None => error_step(ScanErrorKind::NumberOutOfRange, k, line),
        }
    } else if is_alpha(c) {
        let j = word_end(src, i);
        let kind = match keyword(src.subrange(i, j)) {
            Some(k) => k,
            None => TokenType::Identifier,
        };
        token_step(kind, src, i, j - i, line)
    } else {
        error_step(ScanErrorKind::UnexpectedCharacter, i + 1, line)
    }
}

pub open spec fn eof_model(line: int) -> TokenModel {
    TokenModel { kind: TokenType::Eof, lexeme: Seq::empty(), literal: LitModel::Null, line }
}

/// The tokens and errors of `src` from position `i` on, ending with `Eof`.
pub open spec fn scan_from(src: Seq<char>, i: int, line: int) -> (Seq<TokenModel>, Seq<ScanError>)
    decreases src.len() - i,
{
    if i < 0 || i >= src.len() {
        (seq![eof_model(line)], Seq::empty())
    } else {
        let s = step(src, i, line);
        if i < s.next <= src.len() {
            let (ts, es) = scan_from(src, s.next, s.line);
            (
                match s.token {
                    Some(t) => seq![t] + ts,
                    None => ts,
                },
                match s.error {
                    Some(e) => seq![e] + es,
                    None => es,
                },
            )
        } else {
            (seq![eof_model(line)], Seq::empty())
        }
    }
}

} // verus!

verus! {

/// Scanning always ends with an `Eof` token.
pub proof fn lemma_scan_ends_with_eof(src: Seq<char>, i: int, line: int)
    ensures
        scan_from(src, i, line).0.len() > 0,
        scan_from(src, i, line).0.last().kind is Eof,
    decreases src.len() - i,
{
    if 0 <= i < src.len() {
        let s = step(src, i, line);
        if i < s.next <= src.len() {
            lemma_scan_ends_with_eof(src, s.next, s.line);
        }
    }
}

proof fn lemma_add_lines(line: int, n: int)
    requires
        0 <= line <= usize::MAX,
        n >= 0,
    ensures
        add_lines(add_lines(line, n), 1) == add_lines(line, n + 1),
        0 <= add_lines(line, n) <= usize::MAX,
{
}

/// Turns source text into tokens. Lexical errors are collected and
/// scanning goes on after them.
#[derive(Debug)]
pub struct Scanner {
    chars: Vec<char>,
    current: usize,
    line: usize,
    errors: Vec<ScanError>,
}

impl Scanner {
    /// The source text.
    pub closed spec fn src(&self) -> Seq<char> {
        self.chars@
    }

    /// The position of the next character.
    pub closed spec fn pos(&self) -> int {
        self.current as int
    }

    /// The line of the next character.
    pub closed spec fn line(&self) -> int {
        self.line as int
    }

    /// The errors reported so far.
    pub closed spec fn errs(&self) -> Seq<ScanError> {
        self.errors@
    }

    pub closed spec fn wf(&self) -> bool {
        self.current <= self.chars@.len()
    }

    /// A scanner at the start of `source`, on line 1.
    pub fn new(source: String) -> (r: Self)
        ensures
            r.wf(),
            r.src() == source@,
            r.pos() == 0,
            r.line() == 1,
            r.errs() == Seq::<ScanError>::empty(),
    {
        let s = source.as_str();
        let n = s.unicode_len();
        let mut chars: Vec<char> = Vec::new();
        let mut i: usize = 0;
        while i < n
            invariant
                n == s@.len(),
                i <= n,
                chars@ == s@.subrange(0, i as int),
            decreases n - i,
        {
            chars.push(s.get_char(i));
            i = i + 1;
            assert(chars@ =~= s@.subrange(0, i as int));
        }
        assert(chars@ =~= source@);
        Scanner { chars, current: 0, line: 1, errors: Vec::new() }
    }

    pub fn is_at_end(&self) -> (r: bool)
        ensures
            r == (self.pos() >= self.src().len()),
    {
        self.current >= self.chars.len()
    }

    /// Gives up the scanner for the errors it reported, in order.
    pub fn take_errors(self) -> (r: Vec<ScanError>)
        ensures
            r@ == self.errs(),
    {
        self.errors
    }

    /// The errors reported so far, in order.
    pub fn errors(&self) -> (r: &Vec<ScanError>)
        ensures
            r@ == self.errs(),
    {
        &self.errors
    }

    fn char_at(&self, i: usize) -> (r: char)
        ensures
            r == char_at(self.src(), i as int),
    {
        if i < self.chars.len() {
            self.chars[i]
        } else {
            '\0'
        }
    }

    fn digits_end(&self, i: usize) -> (r: usize)
        requires
            i <= self.src().len(),
        ensures
            r == digits_end(self.src(), i as int),
            i <= r <= self.src().len(),
            i < self.src().len() && is_digit(self.src()[i as int]) ==> r > i,
    {
        let mut k = i;
        while k < self.chars.len() && is_digit_char(self.chars[k])
            invariant
                i <= k <= self.src().len(),
                digits_end(self.src(), i as int) == digits_end(self.src(), k as int),
            decreases self.src().len() - k,
        {
            k = k + 1;
        }
        k
    }

    fn word_end(&self, i: usize) -> (r: usize)
        requires
            i <= self.src().len(),
        ensures
            r == word_end(self.src(), i as int),
            i <= r <= self.src().len(),
            i < self.src().len() && is_alpha_numeric(self.src()[i as int]) ==> r > i,
    {
        let mut k = i;
        while k < self.chars.len() && is_alpha_numeric_char(self.chars[k])
            invariant
                i <= k <= self.src().len(),
                word_end(self.src(), i as int) == word_end(self.src(), k as int),
            decreases self.src().len() - k,
        {
            k = k + 1;
        }
        k
    }

    fn find_char(&self, i: usize, c: char) -> (r: usize)
        requires
            i <= self.src().len(),
        ensures
            r == find_char(self.src(), i as int, c),
            i <= r <= self.src().len(),
    {
        let mut k = i;
        while k < self.chars.len() && self.chars[k] != c
            invariant
                i <= k <= self.src().len(),
                find_char(self.src(), i as int, c) == find_char(self.src(), k as int, c),
            decreases self.src().len() - k,
        {
            k = k + 1;
        }
        k
    }

    /// The source text from `a` to `b`.
    fn text(&self, a: usize, b: usize) -> (r: String)
        requires
            a <= b <= self.src().len(),
        ensures
            r@ == self.src().subrange(a as int, b as int),
    {
        let mut s = String::new();
        let mut k = a;
        while k < b
            invariant
                a <= k <= b <= self.src().len(),
                s@ == self.src().subrange(a as int, k as int),
            decreases b - k,
        {
            push_char(&mut s, self.chars[k]);
            k = k + 1;
            assert(s@ =~= self.src().subrange(a as int, k as int));
        }
        s
    }

    /// Whether the source text from `a` to `b` is `w`.
    fn text_is(&self, a: usize, b: usize, w: &str) -> (r: bool)
        requires
            a <= b <= self.src().len(),
        ensures
            r == (self.src().subrange(a as int, b as int) == w@),
    {
        let n = w.unicode_len();
        if b - a != n {
            return false;
        }
        let mut k: usize = 0;
        while k < n
            invariant
                n == w@.len(),
                a + n == b <= self.src().len(),
                k <= n,
                self.src().subrange(a as int, a + k) == w@.subrange(0, k as int),
            decreases n - k,
        {
            if self.chars[a + k] != w.get_char(k) {
                assert(self.src().subrange(a as int, b as int)[k as int] != w@[k as int]);
                return false;
            }
            k = k + 1;
            assert(self.src().subrange(a as int, a + k) =~= w@.subrange(0, k as int));
        }
        assert(self.src().subrange(a as int, b as int) =~= w@);
        true
    }

    fn keyword(&self, a: usize, b: usize) -> (r: Option<TokenType>)
        requires
            a <= b <= self.src().len(),
        ensures
            r == keyword(self.src().subrange(a as int, b as int)),
    {
        if self.text_is(a, b, "and") {
            Some(TokenType::And)
        } else if self.text_is(a, b, "class") {
            Some(TokenType::Class)
        } else if self.text_is(a, b, "else") {
            Some(TokenType::Else)
        } else if self.text_is(a, b, "false") {
            Some(TokenType::False)
        } else if self.text_is(a, b, "for") {
            Some(TokenType::For)
        } else if self.text_is(a, b, "fun") {
            Some(TokenType::Fun)
        } else if self.text_is(a, b, "if") {
            Some(TokenType::If)
        } else if self.text_is(a, b, "nil") {
            Some(TokenType::Nil)
        } else if self.text_is(a, b, "or") {
            Some(TokenType::Or)
        } else if self.text_is(a, b, "print") {
            Some(TokenType::Print)
        } else if self.text_is(a, b, "return") {
            Some(TokenType::Return)
        } else if self.text_is(a, b, "super") {
            Some(TokenType::Super)
        } else if self.text_is(a, b, "this") {
            Some(TokenType::This)
        } else if self.text_is(a, b, "true") {
            Some(TokenType::True)
        } else if self.text_is(a, b, "var") {
            Some(TokenType::Var)
        } else if self.text_is(a, b, "while") {
            Some(TokenType::While)
        } else {
            None
        }
    }

    /// The value of the number literal from `a` to `b`, with `frac` digits
    /// after its point.
    fn number_value(&self, a: usize, b: usize, frac: usize) -> (r: Option<Num>)
        requires
            a <= b <= self.src().len(),
        ensures
            r == number_value(self.src().subrange(a as int, b as int), frac as nat),
    {
        let ghost lex = self.src().subrange(a as int, b as int);
        let mut m: u64 = 0;
        let mut fits = true;
        let mut k = a;
        while k < b
            invariant
                a <= k <= b <= self.src().len(),
                lex == self.src().subrange(a as int, b as int),
                fits ==> m == mantissa(lex.subrange(0, k - a)),
                fits ==> m <= i64::MAX,
                !fits ==> mantissa(lex.subrange(0, k - a)) > i64::MAX,
            decreases b - k,
        {
            let c = self.chars[k];
            let ghost prefix = lex.subrange(0, k + 1 - a);
            assert(prefix.drop_last() =~= lex.subrange(0, k - a));
            assert(prefix.last() == c);
            if is_digit_char(c) {
                let d = (c as u32 - '0' as u32) as u64;
                if fits && m <= (9223372036854775807u64 - d) / 10 {
                    m = m * 10 + d;
                } else {
                    fits = false;
                }
            }
            k = k + 1;
        }
        assert(lex.subrange(0, b - a) =~= lex);
        if !fits || frac > 18 {
            return None;
        }
        let mut den: i64 = 1;
        let mut f: usize = 0;
        while f < frac
            invariant
                f <= frac <= 18,
                den == pow10(f as nat),
                den >= 1,
            decreases frac - f,
        {
            proof {
                lemma_pow10_mono(f as nat, 17);
                reveal_with_fuel(pow10, 18);
                assert(pow10(17) == 100_000_000_000_000_000);
            }
            den = den * 10;
            f = f + 1;
        }
        Num::from_ratio(m as i64, den)
    }
}

proof fn lemma_pow10_pos(f: nat)
    ensures
        pow10(f) >= 1,
    decreases f,
{
    if f > 0 {
        lemma_pow10_pos((f - 1) as nat);
    }
}

proof fn lemma_pow10_mono(f: nat, g: nat)
    requires
        f <= g,
    ensures
        1 <= pow10(f) <= pow10(g),
    decreases g,
{
    lemma_pow10_pos(f);
    if g > f {
        lemma_pow10_mono(f, (g - 1) as nat);
    }
}

fn is_digit_char(c: char) -> (r: bool)
    ensures
        r == is_digit(c),
{
    '0' <= c && c <= '9'
}

fn is_alpha_char(c: char) -> (r: bool)
    ensures
        r == is_alpha(c),
{
    ('a' <= c && c <= 'z') || ('A' <= c && c <= 'Z') || c == '_'
}

fn is_alpha_numeric_char(c: char) -> (r: bool)
    ensures
        r == is_alpha_numeric(c),
{
    is_alpha_char(c) || is_digit_char(c)
}

} // verus!

verus! {

/// The exec result `(t, e)` of one step is what the model step `s` says.
pub open spec fn step_matches(t: Option<Token>, e: Option<ScanError>, s: Step) -> bool {
    &&& match (t, s.token) {
        (Some(x), Some(m)) => token_matches(x, m),
        (None, None) => true,
        _ => false,
    }
    &&& e == s.error
}

impl Scanner {
    fn simple(&self, kind: TokenType, len: usize) -> (r: Token)
        requires
            self.pos() + len <= self.src().len(),
        ensures
            token_matches(r, token_step(kind, self.src(), self.pos(), len as int, self.line()).token->0),
    {
        proof {
            assert(self.chars@.len() == self.chars.len());
        }
        Token {
            tokentype: kind,
            lexeme: self.text(self.current, self.current + len),
            literal: Literals::Null,
            line: self.line,
        }
    }

    /// Scans the lexeme at the current position.
    fn scan_token(&mut self) -> (r: (Option<Token>, Option<ScanError>))
        requires
            old(self).pos() < old(self).src().len(),
        ensures
            final(self).src() == old(self).src(),
            final(self).errs() == old(self).errs(),
            ({
                let s = step(old(self).src(), old(self).pos(), old(self).line());
                &&& step_matches(r.0, r.1, s)
                &&& final(self).pos() == s.next
                &&& final(self).line() == s.line
                &&& old(self).pos() < s.next <= old(self).src().len()
            }),
    {
        let i = self.current;
        proof {
            assert(self.chars@.len() == self.chars.len());
        }
        let c = self.chars[i];
        let single = match c {
            '(' => Some(TokenType::LeftParen),
            ')' => Some(TokenType::RightParen),
            '{' => Some(TokenType::LeftBrace),
            '}' => Some(TokenType::RightBrace),
            ',' => Some(TokenType::Comma),
            '.' => Some(TokenType::Dot),
            '-' => Some(TokenType::Minus),
            '+' => Some(TokenType::Plus),
            ';' => Some(TokenType::Semicolon),
            '*' => Some(TokenType::Star),
            _ => None,
        };
        if let Some(kind) = single {
            let t = self.simple(kind, 1);
            self.current = i + 1;
            return (Some(t), None);
        }
        let pair = match c {
            '!' => Some((TokenType::BangEqual, TokenType::Bang)),
            '=' => Some((TokenType::EqualEqual, TokenType::Equal)),
            '<' => Some((TokenType::LessEqual, TokenType::Less)),
            '>' => Some((TokenType::GreaterEqual, TokenType::Greater)),
            _ => None,
        };
        if let Some((kind2, kind1)) = pair {
            if self.char_at(i + 1) == '=' {
                let t = self.simple(kind2, 2);
                self.current = i + 2;
                return (Some(t), None);
            }
            let t = self.simple(kind1, 1);
            self.current = i + 1;
            return (Some(t), None);
        }
        if c == '/' {
            if self.char_at(i + 1) == '/' {
                let j = if i + 2 <= self.chars.len() {
                    self.find_char(i + 2, '\n')
                } else {
                    self.chars.len()
                };
                self.current = j;
                return (None, None);
            }
            let t = self.simple(TokenType::Slash, 1);
            self.current = i + 1;
            return (Some(t), None);
        }
        if c == ' ' || c == '\r' || c == '\t' {
            self.current = i + 1;
            return (None, None);
        }
        if c == '\n' {
            self.line = self.line.saturating_add(1);
            self.current = i + 1;
            return (None, None);
        }
        if c == '"' {
            let j = self.find_char(i + 1, '"');
            let mut line = self.line;
            let mut k = i + 1;
            while k < j
                invariant
                    i + 1 <= k <= j <= self.src().len(),
                    line as int == add_lines(
                        self.line as int,
                        count_newlines(self.src().subrange(i + 1, k as int)) as int,
                    ),
                decreases j - k,
            {
                let ghost before = self.src().subrange(i + 1, k as int);
                assert(self.src().subrange(i + 1, k + 1).drop_last() =~= before);
                proof {
                    lemma_add_lines(self.line as int, count_newlines(before) as int);
                }
                if self.chars[k] == '\n' {
                    line = line.saturating_add(1);
                }
                k = k + 1;
            }
            self.line = line;
            if j >= self.chars.len() {
                self.current = j;
                return (None, Some(ScanError { kind: ScanErrorKind::UnterminatedString, line }));
            }
            let t = Token {
                tokentype: TokenType::String,
                lexeme: self.text(i, j + 1),
                literal: Literals::String(self.text(i + 1, j)),
                line,
            };
            self.current = j + 1;
            return (Some(t), None);
        }
        if is_digit_char(c) {
            let j = self.digits_end(i);
            let k = if self.char_at(j) == '.' && is_digit_char(self.char_at(j + 1)) {
                self.digits_end(j + 1)
            } else {
                j
            };
            let frac = if k > j {
                k - j - 1
            } else {
                0
            };
            self.current = k;
            return match self.number_value(i, k, frac) {
                Some(n) => (
                    Some(
                        Token {
                            tokentype: TokenType::Number,
                            lexeme: self.text(i, k),
                            literal: Literals::Number(n),
                            line: self.line,
                        },
                    ),
                    None,
                ),
                None => (None, Some(ScanError { kind: ScanErrorKind::NumberOutOfRange, line: self.line })),
            };
        }
        if is_alpha_char(c) {
            let j = self.word_end(i);
            let kind = match self.keyword(i, j) {
                Some(k) => k,
                None => TokenType::Identifier,
            };
            let t = self.simple(kind, j - i);
            self.current = j;
            return (Some(t), None);
        }
        self.current = i + 1;
        (None, Some(ScanError { kind: ScanErrorKind::UnexpectedCharacter, line: self.line }))
    }
}

} // verus!

verus! {

impl Scanner {
    /// Scans the rest of the source: the tokens, ending with `Eof`. Errors
    /// are added to `errors`.
    pub fn scan_tokens(&mut self) -> (r: Vec<Token>)
        requires
            old(self).wf(),
        ensures
            final(self).wf(),
            final(self).src() == old(self).src(),
            tokens_match(r@, scan_from(old(self).src(), old(self).pos(), old(self).line()).0),
            final(self).errs() == old(self).errs() + scan_from(
                old(self).src(),
                old(self).pos(),
                old(self).line(),
            ).1,
    {
        let ghost all = scan_from(self.src(), self.pos(), self.line());
        let mut tokens: Vec<Token> = Vec::new();
        let ghost mut models: Seq<TokenModel> = Seq::empty();
        while !self.is_at_end()
            invariant
                self.wf(),
                self.src() == old(self).src(),
                tokens_match(tokens@, models),
                all.0 == models + scan_from(self.src(), self.pos(), self.line()).0,
                old(self).errs() + all.1 == self.errs() + scan_from(
                    self.src(),
                    self.pos(),
                    self.line(),
                ).1,
            decreases self.src().len() - self.pos(),
        {
            let ghost st = step(self.src(), self.pos(), self.line());
            let ghost rest = scan_from(self.src(), st.next, st.line);
            let (t, e) = self.scan_token();
            match t {
                Some(t) => {
                    proof {
                        let m = st.token->0;
                        assert(tokens_match(tokens@.push(t), models.push(m)));
                        assert(models + (seq![m] + rest.0) =~= models.push(m) + rest.0);
                        models = models.push(m);
                    }
                    tokens.push(t);
                },
                None => {},
            }
            match e {
                Some(e) => {
                    proof {
                        assert(self.errs() + (seq![e] + rest.1) =~= self.errs().push(e) + rest.1);
                    }
                    self.errors.push(e);
                },
                None => {},
            }
        }
        let eof = Token {
            tokentype: TokenType::Eof,
            lexeme: String::new(),
            literal: Literals::Null,
            line: self.line,
        };
        proof {
            assert(tokens_match(tokens@.push(eof), models.push(eof_model(self.line() as int))));
            assert(models + seq![eof_model(self.line() as int)] =~= models.push(eof_model(self.line() as int)));
            assert(self.errs() + Seq::<ScanError>::empty() =~= self.errs());
        }
        tokens.push(eof);
        tokens
    }
}

} // verus!

verus! {

pub open spec fn scan_message(k: ScanErrorKind) -> Seq<char> {
    match k {
        ScanErrorKind::UnexpectedCharacter => "Unexpected character."@,
        ScanErrorKind::UnterminatedString => "Unterminated string."@,
        ScanErrorKind::NumberOutOfRange => "Number literal out of range."@,
    }
}

impl ScanError {
    pub fn message(&self) -> (r: &'static str)
        ensures
            r@ == scan_message(self.kind),
    {
        match self.kind {
            ScanErrorKind::UnexpectedCharacter => "Unexpected character.",
            ScanErrorKind::UnterminatedString => "Unterminated string.",
            ScanErrorKind::NumberOutOfRange => "Number literal out of range.",
        }
    }

    /// `[line N] Error: message`
    pub fn report(&self) -> (r: String)
        ensures
            r@ == diagnostic(self.line as nat, Seq::empty(), scan_message(self.kind)),
    {
        proof {
            reveal_strlit("");
        }
        let r = diagnostic_text(self.line, "", self.message());
        assert(""@ =~= Seq::<char>::empty());
        r
    }
}

} // verus!
