use vstd::prelude::*;

use crate::number::Num;
use crate::text::{push_char, push_str};

verus! {

/// The kinds of token that the scanner produces.
#[derive(Clone, Copy, Debug, PartialEq, Eq, Structural)]
pub enum TokenType {
    // Single-character tokens.
    LeftParen,
    RightParen,
    LeftBrace,
    RightBrace,
    Comma,
    Dot,
    Minus,
    Plus,
    Semicolon,
    Slash,
    Star,
    // One or two character tokens.
    Bang,
    BangEqual,
    Equal,
    EqualEqual,
    Greater,
    GreaterEqual,
    Less,
    LessEqual,
    // Literals.
    Identifier,
    String,
    Number,
    // Keywords.
    And,
    Class,
    Else,
    False,
    Fun,
    For,
    If,
    Nil,
    Or,
    Print,
    Return,
    Super,
    This,
    True,
    Var,
    While,
    Eof,
}

/// The value that a literal token carries.
#[derive(Debug, PartialEq)]
pub enum Literals {
    String(String),
    Number(Num),
    Null,
}

impl Clone for Literals {
    fn clone(&self) -> (r: Self)
        ensures
            r == *self,
    {
        match self {
            Literals::String(s) => Literals::String(s.clone()),
            Literals::Number(n) => Literals::Number(*n),
            Literals::Null => Literals::Null,
        }
    }
}

/// One token: its kind, the source text it was scanned from, the literal
/// value it carries (for strings and numbers) and its line.
#[derive(Debug, PartialEq)]
pub struct Token {
    pub tokentype: TokenType,
    pub lexeme: String,
    pub literal: Literals,
    pub line: usize,
}

impl Clone for Token {
    fn clone(&self) -> (r: Self)
        ensures
            r == *self,
    {
        Token {
            tokentype: self.tokentype,
            lexeme: self.lexeme.clone(),
            literal: self.literal.clone(),
            line: self.line,
        }
    }
}

/// The name of a token kind, as written in the source of this library.
pub open spec fn kind_name(t: TokenType) -> Seq<char> {
    match t {
            TokenType::LeftParen => "LeftParen"@,
            TokenType::RightParen => "RightParen"@,
            TokenType::LeftBrace => "LeftBrace"@,
            TokenType::RightBrace => "RightBrace"@,
            TokenType::Comma => "Comma"@,
            TokenType::Dot => "Dot"@,
            TokenType::Minus => "Minus"@,
            TokenType::Plus => "Plus"@,
            TokenType::Semicolon => "Semicolon"@,
            TokenType::Slash => "Slash"@,
            TokenType::Star => "Star"@,
            TokenType::Bang => "Bang"@,
            TokenType::BangEqual => "BangEqual"@,
            TokenType::Equal => "Equal"@,
            TokenType::EqualEqual => "EqualEqual"@,
            TokenType::Greater => "Greater"@,
            TokenType::GreaterEqual => "GreaterEqual"@,
            TokenType::Less => "Less"@,
            TokenType::LessEqual => "LessEqual"@,
            TokenType::Identifier => "Identifier"@,
            TokenType::String => "String"@,
            TokenType::Number => "Number"@,
            TokenType::And => "And"@,
            TokenType::Class => "Class"@,
            TokenType::Else => "Else"@,
            TokenType::False => "False"@,
            TokenType::Fun => "Fun"@,
            TokenType::For => "For"@,
            TokenType::If => "If"@,
            TokenType::Nil => "Nil"@,
            TokenType::Or => "Or"@,
            TokenType::Print => "Print"@,
            TokenType::Return => "Return"@,
            TokenType::Super => "Super"@,
            TokenType::This => "This"@,
            TokenType::True => "True"@,
            TokenType::Var => "Var"@,
            TokenType::While => "While"@,
            TokenType::Eof => "Eof"@,
    }
}

pub fn kind_name_str(t: TokenType) -> (r: &'static str)
    ensures
        r@ == kind_name(t),
{
    match t {
            TokenType::LeftParen => {
                proof {
                    reveal_strlit("LeftParen");
                }
                "LeftParen"
            },
            TokenType::RightParen => {
                proof {
                    reveal_strlit("RightParen");
                }
                "RightParen"
            },
            TokenType::LeftBrace => {
                proof {
                    reveal_strlit("LeftBrace");
                }
                "LeftBrace"
            },
            TokenType::RightBrace => {
                proof {
                    reveal_strlit("RightBrace");
                }
                "RightBrace"
            },
            TokenType::Comma => {
                proof {
                    reveal_strlit("Comma");
                }
                "Comma"
            },
            TokenType::Dot => {
                proof {
                    reveal_strlit("Dot");
                }
                "Dot"
            },
            TokenType::Minus => {
                proof {
                    reveal_strlit("Minus");
                }
                "Minus"
            },
            TokenType::Plus => {
                proof {
                    reveal_strlit("Plus");
                }
                "Plus"
            },
            TokenType::Semicolon => {
                proof {
                    reveal_strlit("Semicolon");
                }
                "Semicolon"
            },
            TokenType::Slash => {
                proof {
                    reveal_strlit("Slash");
                }
                "Slash"
            },
            TokenType::Star => {
                proof {
                    reveal_strlit("Star");
                }
                "Star"
            },
            TokenType::Bang => {
                proof {
                    reveal_strlit("Bang");
                }
                "Bang"
            },
            TokenType::BangEqual => {
                proof {
                    reveal_strlit("BangEqual");
                }
                "BangEqual"
            },
            TokenType::Equal => {
                proof {
                    reveal_strlit("Equal");
                }
                "Equal"
            },
            TokenType::EqualEqual => {
                proof {
                    reveal_strlit("EqualEqual");
                }
                "EqualEqual"
            },
            TokenType::Greater => {
                proof {
                    reveal_strlit("Greater");
                }
                "Greater"
            },
            TokenType::GreaterEqual => {
                proof {
                    reveal_strlit("GreaterEqual");
                }
                "GreaterEqual"
            },
            TokenType::Less => {
                proof {
                    reveal_strlit("Less");
                }
                "Less"
            },
            TokenType::LessEqual => {
                proof {
                    reveal_strlit("LessEqual");
                }
                "LessEqual"
            },
            TokenType::Identifier => {
                proof {
                    reveal_strlit("Identifier");
                }
                "Identifier"
            },
            TokenType::String => {
                proof {
                    reveal_strlit("String");
                }
                "String"
            },
            TokenType::Number => {
                proof {
                    reveal_strlit("Number");
                }
                "Number"
            },
            TokenType::And => {
                proof {
                    reveal_strlit("And");
                }
                "And"
            },
            TokenType::Class => {
                proof {
                    reveal_strlit("Class");
                }
                "Class"
            },
            TokenType::Else => {
                proof {
                    reveal_strlit("Else");
                }
                "Else"
            },
            TokenType::False => {
                proof {
                    reveal_strlit("False");
                }
                "False"
            },
            TokenType::Fun => {
                proof {
                    reveal_strlit("Fun");
                }
                "Fun"
            },
            TokenType::For => {
                proof {
                    reveal_strlit("For");
                }
                "For"
            },
            TokenType::If => {
                proof {
                    reveal_strlit("If");
                }
                "If"
            },
            TokenType::Nil => {
                proof {
                    reveal_strlit("Nil");
                }
                "Nil"
            },
            TokenType::Or => {
                proof {
                    reveal_strlit("Or");
                }
                "Or"
            },
            TokenType::Print => {
                proof {
                    reveal_strlit("Print");
                }
                "Print"
            },
            TokenType::Return => {
                proof {
                    reveal_strlit("Return");
                }
                "Return"
            },
            TokenType::Super => {
                proof {
                    reveal_strlit("Super");
                }
                "Super"
            },
            TokenType::This => {
                proof {
                    reveal_strlit("This");
                }
                "This"
            },
            TokenType::True => {
                proof {
                    reveal_strlit("True");
                }
                "True"
            },
            TokenType::Var => {
                proof {
                    reveal_strlit("Var");
                }
                "Var"
            },
            TokenType::While => {
                proof {
                    reveal_strlit("While");
                }
                "While"
            },
            TokenType::Eof => {
                proof {
                    reveal_strlit("Eof");
                }
                "Eof"
            },
    }
}

/// The text of a literal: the string itself, the number's display text, or
/// `nil`.
pub open spec fn literal_text(l: Literals) -> Seq<char> {
    match l {
        Literals::String(s) => s@,
        Literals::Number(n) => n.text(),
        Literals::Null => "nil"@,
    }
}

impl Token {
    pub fn new(tokentype: TokenType, lexeme: String, literal: Literals, line: usize) -> (r: Self)
        ensures
            r == (Token { tokentype, lexeme, literal, line }),
    {
        Token { tokentype, lexeme, literal, line }
    }

    /// `<kind> <lexeme> <literal>`, with a space between the parts.
    #[allow(non_snake_case)]
    pub fn toString(&self) -> (r: String)
        ensures
            r@ == kind_name(self.tokentype) + seq![' '] + self.lexeme@ + seq![' '] + literal_text(
                self.literal,
            ),
    {
        let mut s = String::new();
        push_str(&mut s, kind_name_str(self.tokentype));
        push_char(&mut s, ' ');
        push_str(&mut s, self.lexeme.as_str());
        push_char(&mut s, ' ');
        match &self.literal {
            Literals::String(t) => push_str(&mut s, t.as_str()),
            Literals::Number(n) => n.push_text(&mut s),
            Literals::Null => {
                proof {
                    reveal_strlit("nil");
                }
                push_str(&mut s, "nil");
            },
        }
        assert(s@ =~= kind_name(self.tokentype) + seq![' '] + self.lexeme@ + seq![' ']
            + literal_text(self.literal));
        s
    }
}

} // verus!
