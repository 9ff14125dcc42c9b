use vstd::prelude::*;
use crate::evaluate::{Evaluator, run_program};
use crate::grammar::{ParseError, parse};
use crate::lexer::{get_keywords, lex};
use crate::object::{EvalError, ObjView, Objects};
use crate::parser::Parser;
use crate::semantics::EvalState;

verus! {

/// Why a source text could not be run.
#[derive(Debug, Clone, Copy, PartialEq, Eq, Structural)]
pub enum InterpretError {
    Parse(ParseError),
    Eval(EvalError),
}

/// Lexing, parsing and running a whole source text.
pub open spec fn interpret_source(st: EvalState, src: Seq<char>) -> (
    EvalState,
    Result<ObjView, InterpretError>,
) {
    match parse(lex(src)) {
        Err(e) => (st, Err(InterpretError::Parse(e))),
        Ok(stmts) => {
            let (s1, r) = run_program(st, stmts);
            (
                s1,
                match r {
                    Ok(v) => Ok(v),
                    Err(x) => Err(InterpretError::Eval(x)),
                },
            )
        },
    }
}

/// Lexes, parses and runs `source` with `evaluator`, whose bindings persist
/// across calls. The result is the value of the last statement run.
pub fn interpret(evaluator: &mut Evaluator, source: &String) -> (r: Result<Objects, InterpretError>)
    requires
        old(evaluator).wf(),
    ensures
        final(evaluator).wf(),
        (final(evaluator)@, match r {
            Ok(v) => Ok(v@),
            Err(x) => Err(x),
        }) == interpret_source(old(evaluator)@, source@),
{
    let tokens = get_keywords(source);
    let mut parser = Parser::new(tokens);
    match parser.parse_token_line() {
        Err(e) => Err(InterpretError::Parse(e)),
        Ok(stmts) => match evaluator.eval_program(&stmts) {
            Ok(v) => Ok(v),
            Err(x) => Err(InterpretError::Eval(x)),
        },
    }
}

} // verus!
