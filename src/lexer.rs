use vstd::prelude::*;
use vstd::string::*;

use crate::text::{chars_of, span_of, SpanModel, TextSpan};

verus! {

/// What a token is. Numbers carry their value; every other kind is told
/// apart by its tag alone.
#[derive(Debug, Clone, Copy, PartialEq, Eq, Structural)]
pub enum TokenKind {
    Number(i64),
    Plus,
    Minus,
    Asterisk,
    Slash,
    Equals,
    Ampersand,
    Pipe,
    Caret,
    DoubleAsterisk,
    Tilde,
    Let,
    LeftParen,
    RightParen,
    Bad,
    Whitespace,
    Identifier,
    Eof,
}

/// The text under which a kind appears in messages.
pub open spec fn kind_text(kind: TokenKind) -> Seq<char> {
    match kind {
        TokenKind::Number(_) => "Number"@,
        TokenKind::Plus => "+"@,
        TokenKind::Minus => "-"@,
        TokenKind::Asterisk => "*"@,
        TokenKind::Slash => "/"@,
        TokenKind::Equals => "="@,
        TokenKind::Ampersand => "&"@,
        TokenKind::Pipe => "|"@,
        TokenKind::Caret => "^"@,
        TokenKind::DoubleAsterisk => "**"@,
        TokenKind::Tilde => "~"@,
        TokenKind::Let => "Let"@,
        TokenKind::LeftParen => "("@,
        TokenKind::RightParen => ")"@,
        TokenKind::Bad => "Bad"@,
        TokenKind::Whitespace => "Whitespace"@,
        TokenKind::Identifier => "Identifier"@,
        TokenKind::Eof => "Eof"@,
    }
}

impl TokenKind {
    /// The text under which this kind appears in messages.
    pub fn text(&self) -> (r: &'static str)
        ensures
            r@ == kind_text(*self),
    {
        match self {
            TokenKind::Number(_) => "Number",
            TokenKind::Plus => "+",
            TokenKind::Minus => "-",
            TokenKind::Asterisk => "*",
            TokenKind::Slash => "/",
            TokenKind::Equals => "=",
            TokenKind::Ampersand => "&",
            TokenKind::Pipe => "|",
            TokenKind::Caret => "^",
            TokenKind::DoubleAsterisk => "**",
            TokenKind::Tilde => "~",
            TokenKind::Let => "Let",
            TokenKind::LeftParen => "(",
            TokenKind::RightParen => ")",
            TokenKind::Bad => "Bad",
            TokenKind::Whitespace => "Whitespace",
            TokenKind::Identifier => "Identifier",
            TokenKind::Eof => "Eof",
        }
    }
}

pub ghost struct TokenModel {
    pub kind: TokenKind,
    pub span: SpanModel,
}

#[derive(Debug)]
pub struct Token {
    pub kind: TokenKind,
    pub span: TextSpan,
}

impl View for Token {
    type V = TokenModel;

    open spec fn view(&self) -> TokenModel {
        TokenModel { kind: self.kind, span: self.span@ }
    }
}

impl Clone for Token {
    fn clone(&self) -> (r: Token)
        ensures
            r@ == self@,
    {
        Token { kind: self.kind, span: self.span.clone() }
    }
}

impl Token {
    pub fn new(kind: TokenKind, span: TextSpan) -> (r: Token)
        ensures
            r@ == (TokenModel { kind, span: span@ }),
    {
        Token { kind, span }
    }
}

/// The end-of-input marker: its span is empty and sits at offset zero.
pub open spec fn eof_token() -> TokenModel {
    TokenModel { kind: TokenKind::Eof, span: SpanModel { start: 0, end: 0, literal: Seq::empty() } }
}

pub open spec fn is_digit(c: char) -> bool {
    '0' <= c <= '9'
}

/// The characters with the Unicode White_Space property.
pub open spec fn is_white_space(c: char) -> bool {
    let u = c as u32;
    ||| 0x09 <= u <= 0x0d
    ||| u == 0x20
    ||| u == 0x85
    ||| u == 0xa0
    ||| u == 0x1680
    ||| 0x2000 <= u <= 0x200a
    ||| u == 0x2028
    ||| u == 0x2029
    ||| u == 0x202f
    ||| u == 0x205f
    ||| u == 0x3000
}

/// Whether a character has the Unicode Alphabetic property.
pub uninterp spec fn is_alphabetic(c: char) -> bool;

/// Relies on `char::is_alphabetic`, which tells whether `c` has the Unicode
/// Alphabetic property.
#[verifier::external_body]
fn alphabetic(c: char) -> (r: bool)
    ensures
        r == is_alphabetic(c),
{
    c.is_alphabetic()
}

/// The end of the run of decimal digits that starts at `i`.
pub open spec fn digit_run_end(s: Seq<char>, i: int) -> int
    decreases s.len() - i,
{
    if 0 <= i < s.len() && is_digit(s[i]) {
        digit_run_end(s, i + 1)
    } else {
        i
    }
}

/// The end of the run of alphabetic characters that starts at `i`.
pub open spec fn alpha_run_end(s: Seq<char>, i: int) -> int
    decreases s.len() - i,
{
    if 0 <= i < s.len() && is_alphabetic(s[i]) {
        alpha_run_end(s, i + 1)
    } else {
        i
    }
}

pub open spec fn digit_value(c: char) -> int {
    c as int - '0' as int
}

/// The value of a string of decimal digits.
pub open spec fn decimal_value(s: Seq<char>) -> int
    decreases s.len(),
{
    if s.len() == 0 {
        0
    } else {
        decimal_value(s.drop_last()) * 10 + digit_value(s.last())
    }
}

/// The kind of a one-character operator or punctuation token.
pub open spec fn punctuation_kind(c: char) -> TokenKind {
    if c == '+' {
        TokenKind::Plus
    } else if c == '-' {
        TokenKind::Minus
    } else if c == '*' {
        TokenKind::Asterisk
    } else if c == '/' {
        TokenKind::Slash
    } else if c == '(' {
        TokenKind::LeftParen
    } else if c == ')' {
        TokenKind::RightParen
    } else if c == '=' {
        TokenKind::Equals
    } else if c == '&' {
        TokenKind::Ampersand
    } else if c == '|' {
        TokenKind::Pipe
    } else if c == '^' {
        TokenKind::Caret
    } else if c == '~' {
        TokenKind::Tilde
    } else {
        TokenKind::Bad
    }
}

/// The kind and the end of the token that starts at `pos` (which is inside
/// `src`). A run of digits whose value does not fit in an `i64` is `Bad`.
pub open spec fn scan(src: Seq<char>, pos: int) -> (TokenKind, int) {
    let c = src[pos];
    if is_digit(c) {
        let end = digit_run_end(src, pos);
        let value = decimal_value(src.subrange(pos, end));
        (if value <= i64::MAX { TokenKind::Number(value as i64) } else { TokenKind::Bad }, end)
    } else if is_white_space(c) {
        (TokenKind::Whitespace, pos + 1)
    } else if is_alphabetic(c) {
        let end = alpha_run_end(src, pos);
        (if src.subrange(pos, end) == seq!['l', 'e', 't'] {
            TokenKind::Let
        } else {
            TokenKind::Identifier
        }, end)
    } else if c == '*' && pos + 1 < src.len() && src[pos + 1] == '*' {
        (TokenKind::DoubleAsterisk, pos + 2)
    } else {
        (punctuation_kind(c), pos + 1)
    }
}

/// The token that starts at `pos`, inside `src`.
pub open spec fn token_at(src: Seq<char>, pos: int) -> TokenModel {
    let (kind, end) = scan(src, pos);
    TokenModel { kind, span: span_of(src, pos, end) }
}

/// The tokens of `src` from `pos` on, ending with one `Eof` token.
pub open spec fn lex_from(src: Seq<char>, pos: int) -> Seq<TokenModel>
    decreases src.len() - pos,
{
    if pos < 0 || pos >= src.len() {
        seq![eof_token()]
    } else {
        let end = scan(src, pos).1;
        if pos < end <= src.len() {
            seq![token_at(src, pos)] + lex_from(src, end)
        } else {
            seq![token_at(src, pos)]
        }
    }
}

/// The token stream of a whole source.
pub open spec fn lex(src: Seq<char>) -> Seq<TokenModel> {
    lex_from(src, 0)
}

pub proof fn lemma_digit_run(s: Seq<char>, i: int)
    requires
        0 <= i <= s.len(),
    ensures
        i <= digit_run_end(s, i) <= s.len(),
        forall|k: int| i <= k < digit_run_end(s, i) ==> is_digit(#[trigger] s[k]),
        digit_run_end(s, i) < s.len() ==> !is_digit(s[digit_run_end(s, i)]),
    decreases s.len() - i,
{
    if i < s.len() && is_digit(s[i]) {
        lemma_digit_run(s, i + 1);
    }
}

pub proof fn lemma_alpha_run(s: Seq<char>, i: int)
    requires
        0 <= i <= s.len(),
    ensures
        i <= alpha_run_end(s, i) <= s.len(),
        alpha_run_end(s, i) < s.len() ==> !is_alphabetic(s[alpha_run_end(s, i)]),
    decreases s.len() - i,
{
    if i < s.len() && is_alphabetic(s[i]) {
        lemma_alpha_run(s, i + 1);
    }
}

/// A token starts and ends inside the source and is never empty.
pub proof fn lemma_scan_advances(src: Seq<char>, pos: int)
    requires
        0 <= pos < src.len(),
    ensures
        pos < scan(src, pos).1 <= src.len(),
{
    lemma_digit_run(src, pos);
    lemma_alpha_run(src, pos);
    if is_digit(src[pos]) {
        lemma_digit_run(src, pos + 1);
    }
    if is_alphabetic(src[pos]) {
        lemma_alpha_run(src, pos + 1);
    }
}

/// Scans a source into tokens, one call of `next_token` at a time.
pub struct Lexer<'a> {
    input: &'a str,
    chars: Vec<char>,
    current_pos: usize,
}

impl<'a> Lexer<'a> {
    /// The characters being scanned.
    pub closed spec fn source(&self) -> Seq<char> {
        self.chars@
    }

    /// The offset of the next token; one past the end once `Eof` was handed out.
    pub closed spec fn position(&self) -> int {
        self.current_pos as int
    }

    pub closed spec fn wf(&self) -> bool {
        &&& self.chars@ == self.input@
        &&& self.current_pos <= self.chars.len() + 1
        &&& self.chars.len() < usize::MAX
    }

    pub fn new(input: &'a str) -> (r: Lexer<'a>)
        requires
            input@.len() < usize::MAX,
        ensures
            r.wf(),
            r.source() == input@,
            r.position() == 0,
    {
        let chars = chars_of(input);
        Lexer { input, chars, current_pos: 0 }
    }

    /// The next token, then `Eof` once, then nothing.
    pub fn next_token(&mut self) -> (r: Option<Token>)
        requires
            old(self).wf(),
        ensures
            final(self).wf(),
            final(self).source() == old(self).source(),
            old(self).position() < old(self).source().len() ==> {
                &&& r is Some
                &&& r->0@ == token_at(old(self).source(), old(self).position())
                &&& final(self).position() == scan(old(self).source(), old(self).position()).1
            },
            old(self).position() == old(self).source().len() ==> {
                &&& r is Some
                &&& r->0@ == eof_token()
                &&& final(self).position() == old(self).position() + 1
            },
            old(self).position() > old(self).source().len() ==> {
                &&& r is None
                &&& final(self).position() == old(self).position()
            },
    {
        let len = self.chars.len();
        if self.current_pos > len {
            return None;
        }
        if self.current_pos == len {
            self.current_pos = self.current_pos + 1;
            let empty = String::new();
            return Some(Token::new(TokenKind::Eof, TextSpan::new(0, 0, empty)));
        }
        let start = self.current_pos;
        proof {
            lemma_scan_advances(self.chars@, start as int);
        }
        let c = self.chars[start];
        let kind = if c >= '0' && c <= '9' {
            match self.consume_number() {
                Some(n) => TokenKind::Number(n),
                None => TokenKind::Bad,
            }
        } else if is_whitespace(c) {
            self.current_pos = self.current_pos + 1;
            TokenKind::Whitespace
        } else if alphabetic(c) {
            self.consume_identifier()
        } else {
            self.consume_punctuation()
        };
        let end = self.current_pos;
        let literal = self.input.substring_char(start, end).to_owned();
        let span = TextSpan::new(start, end, literal);
        Some(Token::new(kind, span))
    }

    fn consume_punctuation(&mut self) -> (kind: TokenKind)
        requires
            old(self).wf(),
            old(self).current_pos < old(self).chars.len(),
            !is_digit(old(self).chars@[old(self).current_pos as int]),
            !is_white_space(old(self).chars@[old(self).current_pos as int]),
            !is_alphabetic(old(self).chars@[old(self).current_pos as int]),
        ensures
            final(self).wf(),
            final(self).chars == old(self).chars,
            final(self).input == old(self).input,
            (kind, final(self).current_pos as int) == scan(
                old(self).chars@,
                old(self).current_pos as int,
            ),
    {
        let c = self.chars[self.current_pos];
        self.current_pos = self.current_pos + 1;
        if c == '*' {
            if self.current_pos < self.chars.len() && self.chars[self.current_pos] == '*' {
                self.current_pos = self.current_pos + 1;
                TokenKind::DoubleAsterisk
            } else {
                TokenKind::Asterisk
            }
        } else if c == '+' {
            TokenKind::Plus
        } else if c == '-' {
            TokenKind::Minus
        } else if c == '/' {
            TokenKind::Slash
        } else if c == '(' {
            TokenKind::LeftParen
        } else if c == ')' {
            TokenKind::RightParen
        } else if c == '=' {
            TokenKind::Equals
        } else if c == '&' {
            TokenKind::Ampersand
        } else if c == '|' {
            TokenKind::Pipe
        } else if c == '^' {
            TokenKind::Caret
        } else if c == '~' {
            TokenKind::Tilde
        } else {
            TokenKind::Bad
        }
    }

    /// Scans a maximal run of alphabetic characters: the keyword `let` or an
    /// identifier.
    fn consume_identifier(&mut self) -> (kind: TokenKind)
        requires
            old(self).wf(),
            old(self).current_pos < old(self).chars.len(),
            !is_digit(old(self).chars@[old(self).current_pos as int]),
            !is_white_space(old(self).chars@[old(self).current_pos as int]),
            is_alphabetic(old(self).chars@[old(self).current_pos as int]),
        ensures
            final(self).wf(),
            final(self).chars == old(self).chars,
            final(self).input == old(self).input,
            (kind, final(self).current_pos as int) == scan(
                old(self).chars@,
                old(self).current_pos as int,
            ),
    {
        let start = self.current_pos;
        let ghost s = self.chars@;
        while self.current_pos < self.chars.len() && alphabetic(self.chars[self.current_pos])
            invariant
                self.wf(),
                self.chars@ == s,
                self.chars == old(self).chars,
                self.input == old(self).input,
                start <= self.current_pos <= s.len(),
                alpha_run_end(s, start as int) == alpha_run_end(s, self.current_pos as int),
            decreases s.len() - self.current_pos,
        {
            self.current_pos = self.current_pos + 1;
        }
        let end = self.current_pos;
        let is_let = end - start == 3 && self.chars[start] == 'l' && self.chars[start + 1] == 'e'
            && self.chars[start + 2] == 't';
        proof {
            let sub = s.subrange(start as int, end as int);
            let word = seq!['l', 'e', 't'];
            assert(word.len() == 3 && word[0] == 'l' && word[1] == 'e' && word[2] == 't');
            if is_let {
                assert(sub =~= word);
            } else if sub == word {
                assert(sub[0] == s[start as int] && sub[1] == s[start + 1] && sub[2] == s[start
                    + 2]);
            }
        }
        if is_let {
            TokenKind::Let
        } else {
            TokenKind::Identifier
        }
    }

    /// Scans a maximal run of decimal digits; `None` when its value does not
    /// fit in an `i64`.
    fn consume_number(&mut self) -> (r: Option<i64>)
        requires
            old(self).wf(),
            old(self).current_pos < old(self).chars.len(),
            is_digit(old(self).chars@[old(self).current_pos as int]),
        ensures
            final(self).wf(),
            final(self).chars == old(self).chars,
            final(self).input == old(self).input,
            (match r {
                Some(n) => TokenKind::Number(n),
                None => TokenKind::Bad,
            }, final(self).current_pos as int) == scan(
                old(self).chars@,
                old(self).current_pos as int,
            ),
    {
        let start = self.current_pos;
        let ghost s = self.chars@;
        let mut value: i64 = 0;
        let mut fits = true;
        while self.current_pos < self.chars.len() && self.chars[self.current_pos] >= '0'
            && self.chars[self.current_pos] <= '9'
            invariant
                self.wf(),
                self.chars@ == s,
                self.chars == old(self).chars,
                self.input == old(self).input,
                start <= self.current_pos <= s.len(),
                digit_run_end(s, start as int) == digit_run_end(s, self.current_pos as int),
                decimal_value(s.subrange(start as int, self.current_pos as int)) >= 0,
                fits ==> value == decimal_value(s.subrange(start as int, self.current_pos as int)),
                !fits ==> decimal_value(s.subrange(start as int, self.current_pos as int))
                    > i64::MAX,
            decreases s.len() - self.current_pos,
        {
            let c = self.chars[self.current_pos];
            let d = (c as u32 - '0' as u32) as i64;
            let ghost old_pos = self.current_pos;
            let ghost prev = s.subrange(start as int, old_pos as int);
            let ghost next = s.subrange(start as int, old_pos + 1);
            assert(next.drop_last() =~= prev);
            assert(next.last() == c);
            assert(decimal_value(next) == decimal_value(prev) * 10 + d);
            if fits {
                if value <= (i64::MAX - d) / 10 {
                    value = value * 10 + d;
                } else {
                    fits = false;
                }
            }
            self.current_pos = self.current_pos + 1;
        }
        if fits {
            Some(value)
        } else {
            None
        }
    }
}

/// Whether `c` has the Unicode White_Space property.
fn is_whitespace(c: char) -> (r: bool)
    ensures
        r == is_white_space(c),
{
    let u = c as u32;
    (0x09 <= u && u <= 0x0d) || u == 0x20 || u == 0x85 || u == 0xa0 || u == 0x1680 || (0x2000 <= u
        && u <= 0x200a) || u == 0x2028 || u == 0x2029 || u == 0x202f || u == 0x205f || u == 0x3000
}

} // verus!
