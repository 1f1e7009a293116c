//! The repetition engine: `N in A..B { body }` expands its body once for
//! every index of the range, or, where the body marks a part with `#( .. )*`,
//! repeats only that part.

use vstd::prelude::*;

use crate::diag::{reported, Diagnostic};
use crate::token::{Tok, TokenTree};
use self::seq_parser::{
    expand_repeat_from, has_marker_from, parse_outcome, repeat_range, ParseOutcome, SeqParser,
};

pub mod seq_parser;

verus! {

/// What the engine puts in the place of a well-formed invocation: the marked
/// parts repeated once per index where the body holds a marker, the whole
/// body repeated once per index where it holds none.
pub open spec fn expansion(var: Seq<char>, from: u32, to: u32, body: Seq<Tok>) -> Seq<Tok> {
    if has_marker_from(body, 0) {
        expand_repeat_from(body, 0, var, from, to)
    } else {
        repeat_range(body, var, from as int, to as int)
    }
}

/// Expands one invocation of the repetition engine. Fails, with the
/// diagnostic that `parse_outcome` names, where the input is not of the form
/// `N in A..B { body }`.
pub fn seq(input: &Vec<TokenTree>) -> (r: Result<Vec<TokenTree>, Diagnostic>)
    ensures
        match parse_outcome(input.deep_view()) {
            ParseOutcome::Done { var, from, to, body } => r is Ok && r.unwrap().deep_view()
                == expansion(var, from, to, body),
            ParseOutcome::Fail(report) => reported(r.err(), Some(report)),
        },
{
    let ast = match SeqParser::parse(input) {
        Ok(ast) => ast,
        Err(e) => {
            return Err(e);
        },
    };
    match ast.expand_repeat(&ast.body, ast.from, ast.to) {
        Some(expand) => Ok(expand),
        None => {
            let ghost all = repeat_range(
                ast.body.deep_view(),
                ast.n_ident@,
                ast.from as int,
                ast.to as int,
            );
            let mut result: Vec<TokenTree> = Vec::new();
            assert(result.deep_view() =~= Seq::<Tok>::empty());
            ast.expand_range(&ast.body, ast.from, ast.to, &mut result);
            assert(Seq::<Tok>::empty() + all =~= all);
            Ok(result)
        },
    }
}

} // verus!
