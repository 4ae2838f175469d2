use vstd::prelude::*;
use vstd::string::*;

use crate::ast::{Ast, Stmt};
use crate::diagnostics::{DiagnosticModel, DiagnosticsBag};
use crate::evaluator::{eval_program, ASTEvaluator, EvalError};
use crate::lexer::{eof_token, lemma_scan_advances, lex, lex_from, scan, token_at, Lexer, Token, TokenModel};
use crate::parser::{spec_parse_program, tokens_wf, without_whitespace, Parser};
use crate::resolver::{resolve_program, SymbolChecker};
use crate::text::SourceText;

verus! {

/// The tokens the parser sees for a source.
pub open spec fn program_tokens(src: Seq<char>) -> Seq<TokenModel> {
    without_whitespace(lex(src))
}

/// The tree of a source and what parsing reported about it.
pub open spec fn parse_source(src: Seq<char>) -> (Seq<Stmt>, Seq<DiagnosticModel>) {
    spec_parse_program(program_tokens(src), 0, Seq::empty())
}

/// The diagnostics of a source: those of parsing or, where parsing found
/// nothing wrong, those of symbol resolution.
pub open spec fn compile_diagnostics(src: Seq<char>) -> Seq<DiagnosticModel> {
    let (stmts, parse_diagnostics) = parse_source(src);
    if parse_diagnostics.len() == 0 {
        resolve_program(stmts)
    } else {
        parse_diagnostics
    }
}

pub proof fn lemma_lex_from_ends_with_eof(src: Seq<char>, pos: int)
    ensures
        lex_from(src, pos).len() > 0,
        lex_from(src, pos).last() == eof_token(),
    decreases src.len() - pos,
{
    if 0 <= pos < src.len() {
        lemma_scan_advances(src, pos);
        lemma_lex_from_ends_with_eof(src, scan(src, pos).1);
    }
}

pub proof fn lemma_without_whitespace_keeps_eof(ts: Seq<TokenModel>)
    requires
        ts.len() > 0,
        ts.last() == eof_token(),
    ensures
        tokens_wf(without_whitespace(ts)),
{
}

/// A source with its tree and the diagnostics found on the way.
pub struct CompilationUnit {
    pub text: SourceText,
    pub ast: Ast,
    pub diagnostics_bag: DiagnosticsBag,
}

fn lex_all(input: &str) -> (r: Vec<Token>)
    requires
        input@.len() < usize::MAX,
    ensures
        r@.map_values(|t: Token| t@) == lex(input@),
{
    let ghost src = input@;
    let mut lexer = Lexer::new(input);
    let mut tokens: Vec<Token> = Vec::new();
    assert(tokens@.map_values(|t: Token| t@) + lex_from(src, 0) =~= lex(src));
    loop
        invariant
            lexer.wf(),
            lexer.source() == src,
            0 <= lexer.position() <= src.len() + 1,
            lexer.position() <= src.len() ==> tokens@.map_values(|t: Token| t@) + lex_from(
                src,
                lexer.position(),
            ) == lex(src),
            lexer.position() == src.len() + 1 ==> tokens@.map_values(|t: Token| t@) == lex(src),
        ensures
            tokens@.map_values(|t: Token| t@) == lex(src),
        decreases src.len() + 1 - lexer.position(),
    {
        let ghost pos = lexer.position();
        let ghost before = tokens@.map_values(|t: Token| t@);
        proof {
            if pos < src.len() {
                lemma_scan_advances(src, pos);
            }
        }
        match lexer.next_token() {
            Some(token) => {
                tokens.push(token);
                proof {
                    let after = tokens@.map_values(|t: Token| t@);
                    assert(after =~= before.push(tokens@.last()@));
                    if pos < src.len() {
                        assert(lex_from(src, pos) == seq![token_at(src, pos)] + lex_from(
                            src,
                            scan(src, pos).1,
                        ));
                        assert(before + lex_from(src, pos) =~= after + lex_from(
                            src,
                            scan(src, pos).1,
                        ));
                    } else {
                        assert(lex_from(src, pos) == seq![eof_token()]);
                        assert(after =~= before + lex_from(src, pos));
                    }
                }
            },
            None => break,
        }
    }
    tokens
}

impl CompilationUnit {
    /// Lexes and parses `input`, then resolves its names unless parsing
    /// reported anything.
    pub fn compile(input: &str) -> (r: CompilationUnit)
        requires
            input@.len() < usize::MAX,
        ensures
            r.text.wf(),
            r.text.chars() == input@,
            r.ast@ == parse_source(input@).0,
            r.diagnostics_bag@ == compile_diagnostics(input@),
    {
        let text = SourceText::new(input.to_owned());
        let tokens = lex_all(input);
        proof {
            lemma_lex_from_ends_with_eof(input@, 0);
            lemma_without_whitespace_keeps_eof(lex(input@));
        }
        let mut bag = DiagnosticsBag::new();
        let mut ast = Ast::new();
        let mut parser = Parser::new(tokens);
        let ghost ts = parser.tokens();
        let ghost target = spec_parse_program(ts, 0, Seq::empty());
        loop
            invariant
                parser.wf(),
                parser.tokens() == ts,
                ts == program_tokens(input@),
                target == parse_source(input@),
                ast@ + spec_parse_program(ts, parser.position(), bag@).0 == target.0,
                spec_parse_program(ts, parser.position(), bag@).1 == target.1,
            ensures
                ast@ == target.0,
                bag@ == target.1,
            decreases ts.len() - parser.position(),
        {
            let ghost pos = parser.position();
            let ghost before = ast@;
            let ghost bag_before = bag@;
            match parser.next_statement(&mut bag) {
                Some(statement) => {
                    ast.add_statement(statement);
                    assert(before + spec_parse_program(ts, pos, bag_before).0 == target.0);
                    proof {
                        let rest = spec_parse_program(ts, parser.position(), bag@).0;
                        assert(before + (seq![ast@.last()] + rest) =~= ast@ + rest);
                    }
                },
                None => {
                    assert(ast@ + Seq::<Stmt>::empty() =~= ast@);
                    break;
                },
            }
        }
        if bag.is_empty() {
            let mut checker = SymbolChecker::new();
            checker.check(&ast, &mut bag);
            assert(bag@ =~= compile_diagnostics(input@));
        }
        CompilationUnit { text, ast, diagnostics_bag: bag }
    }

    /// Evaluates the tree, provided that compiling reported nothing; the value
    /// of the last statement, or why evaluation stopped.
    pub fn maybe_run(&self) -> (r: Option<Result<Option<i64>, EvalError>>)
        ensures
            self.diagnostics_bag@.len() > 0 ==> r is None,
            self.diagnostics_bag@.len() == 0 ==> r == Some(eval_program(self.ast@)),
    {
        if !self.diagnostics_bag.is_empty() {
            return None;
        }
        let mut evaluator = ASTEvaluator::new();
        Some(evaluator.run(&self.ast))
    }
}

} // verus!
