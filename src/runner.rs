use vstd::prelude::*;
use crate::token::Token;
use crate::lexical::{scan_spec, scan_errors, tokens_match, token_matches, lemma_scan_ends_with_eof};
use crate::scanner::{Scanner, errors_match};
use crate::parser::{Parser, tokens_wf, failure_text};
use crate::grammar::{Parsed, parse_expression};
use crate::visitors::{AstVisitor, sexpr_text};
use crate::expr::Visitor;
use crate::diagnostics::{error, error_token, report_text, position_text};

verus! {

/// The tokens that scanning gives are always fit for parsing.
pub proof fn lemma_scanned_tokens_wf(s: Seq<char>, ts: Seq<Token>)
    requires
        tokens_match(s, scan_spec(s), ts),
    ensures
        tokens_wf(ts),
{
    lemma_scan_ends_with_eof(s);
    assert(token_matches(s, scan_spec(s)[ts.len() - 1], ts[ts.len() - 1]));
    assert forall|i: int| 0 <= i < ts.len() && crate::token::is_literal_kind(
        #[trigger] ts[i].token_type,
    ) implies ts[i].literal is Some by {
        assert(token_matches(s, scan_spec(s)[i], ts[i]));
    }
}

/// What running one source text produces: the diagnostics, in the order they
/// arose, and the S-expression of its tree when there was no error at all.
pub struct RunOutput {
    pub diagnostics: Vec<String>,
    pub rendered: Option<String>,
}

/// Scans and parses `source`, renders lexical and parse errors, and renders
/// the tree as an S-expression when nothing went wrong.
pub fn run(source: String) -> (r: RunOutput)
    requires
        source@.len() < u32::MAX,
    ensures
        ({
            let s = source@;
            let lex = scan_errors(s);
            &&& forall|i: int|
                0 <= i < lex.len() ==> (#[trigger] r.diagnostics@[i])@ == report_text(
                    lex[i].line as nat,
                    ""@,
                    crate::lexical::lex_error_text(lex[i].kind),
                )
            &&& exists|ts: Seq<Token>|
                {
                    &&& tokens_match(s, scan_spec(s), ts)
                    &&& match parse_expression(ts, 0) {
                        Parsed::Done(e, _) => {
                            &&& r.diagnostics@.len() == lex.len()
                            &&& (lex.len() == 0 ==> (r.rendered matches Some(t) && t@ == sexpr_text(e)))
                            &&& (lex.len() > 0 ==> r.rendered is None)
                        },
                        Parsed::Fail(at, why) => {
                            &&& r.diagnostics@.len() == lex.len() + 1
                            &&& r.diagnostics@[lex.len() as int]@ == report_text(
                                ts[at].line as nat,
                                position_text(ts[at]),
                                failure_text(why),
                            )
                            &&& r.rendered is None
                        },
                    }
                }
        }),
{
    let scanner = Scanner::new(source);
    let (tokens, errors) = scanner.scan_with_errors();
    let ghost s = source@;
    let ghost ts = tokens@;
    let mut diagnostics: Vec<String> = Vec::new();
    let mut i: usize = 0;
    while i < errors.len()
        invariant
            i <= errors@.len(),
            errors_match(scan_errors(s), errors@),
            diagnostics@.len() == i,
            forall|j: int|
                0 <= j < i ==> (#[trigger] diagnostics@[j])@ == report_text(
                    scan_errors(s)[j].line as nat,
                    ""@,
                    crate::lexical::lex_error_text(scan_errors(s)[j].kind),
                ),
        decreases errors@.len() - i,
    {
        let e = errors[i];
        diagnostics.push(error(e.line, e.kind.message()));
        i = i + 1;
    }
    proof {
        lemma_scanned_tokens_wf(s, ts);
    }
    let mut parser = Parser::new(tokens);
    let rendered = match parser.expression() {
        Ok(expr) => {
            if errors.len() == 0 {
                Some(AstVisitor.visit(&expr))
            } else {
                None
            }
        },
        Err(crate::parser::ParseErr::TokenErr { token, message }) => {
            diagnostics.push(error_token(&token, message));
            None
        },
        Err(crate::parser::ParseErr::FooErr) => None,
    };
    RunOutput { diagnostics, rendered }
}

} // verus!
