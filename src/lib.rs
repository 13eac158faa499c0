//! A tree-walking evaluator for a small dynamically typed language of
//! expressions, variables, blocks, conditionals and `print`.
//!
//! Source text goes through the [`scanner::Scanner`] into tokens, through the
//! [`parser::Parser`] into statements, and through the
//! [`interpreter::Interpreter`], which runs them against a chain of scopes
//! ([`environment::Environment`]). Each stage is specified by spec functions
//! (`scan_from`, `parse_program`, `exec_seq`) and verified against them.
use vstd::prelude::*;

pub mod environment;
pub mod generate_ast;
pub mod interpreter;
pub mod number;
pub mod parser;
pub mod scanner;
pub mod text;
pub mod theorems;
pub mod token;

use crate::generate_ast::{LiteralsAst, Stmt, Val};
use crate::interpreter::{exec_seq, result_view, Interpreter, RuntimeError};
use crate::parser::{all_match, parse_program, ParseError, Parser};
use crate::scanner::{scan_from, tokens_match, ScanError, Scanner};
use crate::token::Token;

verus! {

/// Why a run gave no value.
#[derive(Debug)]
pub enum RunError {
    /// The source has lexical or grammar errors; nothing was run.
    Syntax { scan: Vec<ScanError>, parse: Vec<ParseError> },
    /// Running stopped at this error.
    Runtime(RuntimeError),
}

/// The model of a run's result.
pub open spec fn run_view(r: Result<LiteralsAst, RunError>) -> Result<Val, RuntimeError> {
    match r {
        Ok(v) => Ok(v@),
        Err(RunError::Runtime(e)) => Err(e),
        Err(RunError::Syntax { .. }) => Ok(Val::Nil),
    }
}

/// Scans, parses and runs `source` in `interpreter`, whose scopes carry
/// over from earlier runs. A source with any lexical or grammar error is not
/// run: all its errors are returned.
pub fn run(source: String, interpreter: &mut Interpreter) -> (r: Result<LiteralsAst, RunError>)
    ensures
        ({
            let (tms, ses) = scan_from(source@, 0, 1);
            match r {
                Err(RunError::Syntax { scan, parse }) => {
                    &&& scan@ == ses
                    &&& final(interpreter)@ == old(interpreter)@
                    &&& exists|toks: Seq<Token>|
                        #![trigger parse_program(toks, 0, Seq::empty(), Seq::empty())]
                        {
                            &&& tokens_match(toks, tms)
                            &&& parse@ == parse_program(toks, 0, Seq::empty(), Seq::empty()).1
                            &&& (ses.len() > 0 || parse@.len() > 0)
                        }
                },
                _ => {
                    &&& ses.len() == 0
                    &&& exists|toks: Seq<Token>, v: Vec<Stmt>|
                        #![trigger parse_program(toks, 0, Seq::empty(), Seq::empty()), exec_seq(v, 0, old(interpreter)@, Val::Nil)]
                        {
                            &&& tokens_match(toks, tms)
                            &&& parse_program(toks, 0, Seq::empty(), Seq::empty()).1.len() == 0
                            &&& all_match(v@, parse_program(toks, 0, Seq::empty(), Seq::empty()).0)
                            &&& (final(interpreter)@, run_view(r)) == exec_seq(
                                v,
                                0,
                                old(interpreter)@,
                                Val::Nil,
                            )
                        }
                },
            }
        }),
{
    let mut scanner = Scanner::new(source);
    let tokens = scanner.scan_tokens();
    proof {
        scanner::lemma_scan_ends_with_eof(source@, 0, 1);
        assert(tokens@.last() == tokens@[tokens@.len() - 1]);
    }
    let ghost toks = tokens@;
    let mut parser = Parser::new(tokens);
    let (statements, parse_errors) = parser.parse();
    let scan_errors = scanner.take_errors();
    if scan_errors.len() > 0 || parse_errors.len() > 0 {
        return Err(RunError::Syntax { scan: scan_errors, parse: parse_errors });
    }
    match interpreter.interpret(statements) {
        Ok(v) => Ok(v),
        Err(e) => Err(RunError::Runtime(e)),
    }
}

} // verus!
