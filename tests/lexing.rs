use crust::ast::{ASTBinaryOperator, ASTBinaryOperatorKind};
use crust::lexer::{Lexer, Token, TokenKind};
use crust::text::TextSpan;
use crust::parser::Parser;

fn kinds(input: &str) -> Vec<TokenKind> {
    let mut lexer = Lexer::new(input);
    let mut out = Vec::new();
    while let Some(token) = lexer.next_token() {
        out.push(token.kind);
    }
    out
}

#[test]
fn tokens_of_a_let_statement() {
    assert_eq!(
        kinds("let x = 2**3"),
        vec![
            TokenKind::Let,
            TokenKind::Whitespace,
            TokenKind::Identifier,
            TokenKind::Whitespace,
            TokenKind::Equals,
            TokenKind::Whitespace,
            TokenKind::Number(2),
            TokenKind::DoubleAsterisk,
            TokenKind::Number(3),
            TokenKind::Eof
        ]
    );
}

#[test]
fn spans_cover_the_consumed_text() {
    let mut lexer = Lexer::new("ab 42");
    let first = lexer.next_token().unwrap();
    assert_eq!((first.span.start, first.span.end, first.span.literal.as_str()), (0, 2, "ab"));
    lexer.next_token().unwrap();
    let number = lexer.next_token().unwrap();
    assert_eq!(number.kind, TokenKind::Number(42));
    assert_eq!((number.span.start, number.span.end, number.span.literal.as_str()), (3, 5, "42"));
    assert_eq!(number.span.length(), 2);
}

#[test]
fn eof_once_then_nothing() {
    let mut lexer = Lexer::new("");
    let eof = lexer.next_token().unwrap();
    assert_eq!(eof.kind, TokenKind::Eof);
    assert_eq!((eof.span.start, eof.span.end), (0, 0));
    assert!(lexer.next_token().is_none());
    assert!(lexer.next_token().is_none());
}

#[test]
fn keyword_only_for_exact_let() {
    assert_eq!(kinds("lets"), vec![TokenKind::Identifier, TokenKind::Eof]);
    assert_eq!(kinds("le"), vec![TokenKind::Identifier, TokenKind::Eof]);
    assert_eq!(kinds("let"), vec![TokenKind::Let, TokenKind::Eof]);
}

#[test]
fn single_and_double_asterisk() {
    assert_eq!(
        kinds("* ** ***"),
        vec![
            TokenKind::Asterisk,
            TokenKind::Whitespace,
            TokenKind::DoubleAsterisk,
            TokenKind::Whitespace,
            TokenKind::DoubleAsterisk,
            TokenKind::Asterisk,
            TokenKind::Eof
        ]
    );
}

#[test]
fn punctuation_and_bad_characters() {
    assert_eq!(
        kinds("+-/()=&|^~$"),
        vec![
            TokenKind::Plus,
            TokenKind::Minus,
            TokenKind::Slash,
            TokenKind::LeftParen,
            TokenKind::RightParen,
            TokenKind::Equals,
            TokenKind::Ampersand,
            TokenKind::Pipe,
            TokenKind::Caret,
            TokenKind::Tilde,
            TokenKind::Bad,
            TokenKind::Eof
        ]
    );
}

#[test]
fn unicode_letters_and_spaces() {
    assert_eq!(
        kinds("é\u{3000}b\t1"),
        vec![
            TokenKind::Identifier,
            TokenKind::Whitespace,
            TokenKind::Identifier,
            TokenKind::Whitespace,
            TokenKind::Number(1),
            TokenKind::Eof
        ]
    );
}

#[test]
fn largest_literal_fits_and_next_does_not() {
    assert_eq!(kinds("9223372036854775807"), vec![TokenKind::Number(i64::MAX), TokenKind::Eof]);
    assert_eq!(kinds("9223372036854775808"), vec![TokenKind::Bad, TokenKind::Eof]);
}

#[test]
fn parser_skips_whitespace_and_clamps_peek() {
    let mut lexer = Lexer::new("1 + 2");
    let mut tokens = Vec::new();
    while let Some(token) = lexer.next_token() {
        tokens.push(token);
    }
    let parser = Parser::new(tokens);
    assert_eq!(parser.current().kind, TokenKind::Number(1));
    assert_eq!(parser.peek(1).kind, TokenKind::Plus);
    assert_eq!(parser.peek(2).kind, TokenKind::Number(2));
    assert_eq!(parser.peek(3).kind, TokenKind::Eof);
    assert_eq!(parser.peek(100).kind, TokenKind::Eof);
}

#[test]
fn counter_moves_forward() {
    let mut counter = crust::parser::Counter::new();
    assert_eq!(counter.get_value(), 0);
    counter.increment();
    counter.increment();
    assert_eq!(counter.get_value(), 2);
}

#[test]
fn precedence_table() {
    let op = |kind| {
        ASTBinaryOperator::new(kind, Token::new(TokenKind::Plus, TextSpan::new(0, 1, "+".to_string())))
            .precedence()
    };
    assert_eq!(op(ASTBinaryOperatorKind::BitwiseAnd), 0);
    assert_eq!(op(ASTBinaryOperatorKind::BitwiseOr), 0);
    assert_eq!(op(ASTBinaryOperatorKind::BitwiseXor), 0);
    assert_eq!(op(ASTBinaryOperatorKind::Plus), 1);
    assert_eq!(op(ASTBinaryOperatorKind::Minus), 1);
    assert_eq!(op(ASTBinaryOperatorKind::Multiply), 2);
    assert_eq!(op(ASTBinaryOperatorKind::Divide), 2);
    assert_eq!(op(ASTBinaryOperatorKind::Power), 3);
}

#[test]
fn kind_text_names_each_kind() {
    assert_eq!(TokenKind::Number(3).text(), "Number");
    assert_eq!(TokenKind::DoubleAsterisk.text(), "**");
    assert_eq!(TokenKind::Identifier.text(), "Identifier");
    assert_eq!(TokenKind::Eof.text(), "Eof");
}
