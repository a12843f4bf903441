//! The lexical structure of the language: which tokens a source text
//! consists of, stated over sequences of classified characters.
//!
//! Two questions about a character are left to Unicode: whether it is
//! alphabetic, and whether it is alphanumeric. The answers travel with the
//! character as a [`Symbol`], so that everything here is stated, and the
//! scanner is proved, for every way of answering them.

use crate::error::ErrorView;
use crate::token::{TokenKind, TokenView};
use vstd::prelude::*;

verus! {

/// Whether Unicode counts `c` as alphabetic, as `char::is_alphabetic` decides it.
pub uninterp spec fn char_is_alphabetic(c: char) -> bool;

/// `char::is_alphabetic` looks `c` up in the Unicode tables that std carries.
/// The answer depends on `c` alone; the contract gives it the name
/// [`char_is_alphabetic`] and claims nothing more of it.
pub assume_specification[ char::is_alphabetic ](c: char) -> (yes: bool)
    ensures
        yes == char_is_alphabetic(c),
;

/// Whether Unicode counts `c` as alphabetic or numeric, as
/// `char::is_alphanumeric` decides it.
pub uninterp spec fn char_is_alphanumeric(c: char) -> bool;

/// `char::is_alphanumeric` looks `c` up in the Unicode tables that std
/// carries. The answer depends on `c` alone; the contract gives it the name
/// [`char_is_alphanumeric`] and claims nothing more of it.
pub assume_specification[ char::is_alphanumeric ](c: char) -> (yes: bool)
    ensures
        yes == char_is_alphanumeric(c),
;

/// A character of the source text together with the answers to the two
/// questions that are left to Unicode.
#[derive(Clone, Copy, Debug, PartialEq, Eq, Structural)]
pub struct Symbol {
    pub c: char,
    pub alphabetic: bool,
    pub alphanumeric: bool,
}

/// The character `c` with the answers that Unicode gives.
pub open spec fn classified(c: char) -> Symbol {
    Symbol { c, alphabetic: char_is_alphabetic(c), alphanumeric: char_is_alphanumeric(c) }
}

impl Symbol {
    /// The character `c` with the given answers.
    pub fn new(c: char, alphabetic: bool, alphanumeric: bool) -> (symbol: Self)
        ensures
            symbol == (Symbol { c, alphabetic, alphanumeric }),
    {
        Symbol { c, alphabetic, alphanumeric }
    }

    /// The character `c` with the answers that Unicode gives.
    pub fn classify(c: char) -> (symbol: Self)
        ensures
            symbol == classified(c),
    {
        Symbol { c, alphabetic: c.is_alphabetic(), alphanumeric: c.is_alphanumeric() }
    }
}

/// The characters of `text` with the answers that Unicode gives.
pub open spec fn symbols_of(text: Seq<char>) -> Seq<Symbol> {
    text.map_values(|c: char| classified(c))
}

/// The characters of `s`.
pub open spec fn text_of(s: Seq<Symbol>) -> Seq<char> {
    s.map_values(|x: Symbol| x.c)
}

/// A decimal digit.
pub open spec fn is_digit(c: char) -> bool {
    '0' <= c && c <= '9'
}

/// A character that may follow the first one of a word.
pub open spec fn is_word_part(x: Symbol) -> bool {
    x.alphanumeric || x.c == '_'
}

/// Space, carriage return and tab: blanks within a line.
pub open spec fn is_blank(c: char) -> bool {
    c == ' ' || c == '\r' || c == '\t'
}

/// Where the longest run of characters that satisfy `member` ends, for a run
/// that starts at `from`: the index of the first character at or after
/// `from` that does not satisfy it, or the length of `s`.
pub open spec fn run_end(s: Seq<Symbol>, from: int, member: spec_fn(Symbol) -> bool) -> int
    decreases s.len() - from,
{
    if 0 <= from < s.len() && member(s[from]) {
        run_end(s, from + 1, member)
    } else {
        from
    }
}

/// Where the digits that start at `from` end.
pub open spec fn digits_end(s: Seq<Symbol>, from: int) -> int {
    run_end(s, from, |x: Symbol| is_digit(x.c))
}

/// Where the word characters that start at `from` end.
pub open spec fn word_end(s: Seq<Symbol>, from: int) -> int {
    run_end(s, from, |x: Symbol| is_word_part(x))
}

/// The index of the first line feed at or after `from`, or the length of `s`.
pub open spec fn line_end(s: Seq<Symbol>, from: int) -> int {
    run_end(s, from, |x: Symbol| x.c != '\n')
}

/// The index of the first double quote at or after `from`, or the length of `s`.
pub open spec fn quote_at(s: Seq<Symbol>, from: int) -> int {
    run_end(s, from, |x: Symbol| x.c != '"')
}

/// How many line feeds `s` holds from `from` up to `to`.
pub open spec fn count_newlines(s: Seq<Symbol>, from: int, to: int) -> nat
    decreases to - from,
{
    if from >= to {
        0
    } else if s[to - 1].c == '\n' {
        count_newlines(s, from, to - 1) + 1
    } else {
        count_newlines(s, from, to - 1)
    }
}

/// Whether the character of `s` at `at` exists and is `c`.
pub open spec fn has_char_at(s: Seq<Symbol>, at: int, c: char) -> bool {
    0 <= at < s.len() && s[at].c == c
}

/// The category of a punctuation mark that is a token by itself.
pub open spec fn punctuation(c: char) -> Option<TokenKind> {
    if c == '(' {
        Some(TokenKind::LeftParen)
    } else if c == ')' {
        Some(TokenKind::RightParen)
    } else if c == '{' {
        Some(TokenKind::LeftBrace)
    } else if c == '}' {
        Some(TokenKind::RightBrace)
    } else if c == ',' {
        Some(TokenKind::Comma)
    } else if c == '.' {
        Some(TokenKind::Dot)
    } else if c == '-' {
        Some(TokenKind::Minus)
    } else if c == '+' {
        Some(TokenKind::Plus)
    } else if c == ';' {
        Some(TokenKind::Semicolon)
    } else if c == '*' {
        Some(TokenKind::Star)
    } else {
        None
    }
}

/// The category of an operator that is one character alone and another
/// operator with `=` behind it: of `c` alone, or of `c` and `=` where
/// `with_equal` holds.
pub open spec fn operator(c: char, with_equal: bool) -> Option<TokenKind> {
    if c == '!' {
        Some(if with_equal { TokenKind::BangEqual } else { TokenKind::Bang })
    } else if c == '=' {
        Some(if with_equal { TokenKind::EqualEqual } else { TokenKind::Equal })
    } else if c == '<' {
        Some(if with_equal { TokenKind::LessEqual } else { TokenKind::Less })
    } else if c == '>' {
        Some(if with_equal { TokenKind::GreaterEqual } else { TokenKind::Greater })
    } else {
        None
    }
}

/// The category of a reserved word, and `None` for any other text.
pub open spec fn keyword(word: Seq<char>) -> Option<TokenKind> {
    if word == "and"@ {
        Some(TokenKind::And)
    } else if word == "class"@ {
        Some(TokenKind::Class)
    } else if word == "else"@ {
        Some(TokenKind::Else)
    } else if word == "false"@ {
        Some(TokenKind::False)
    } else if word == "for"@ {
        Some(TokenKind::For)
    } else if word == "fun"@ {
        Some(TokenKind::Fun)
    } else if word == "if"@ {
        Some(TokenKind::If)
    } else if word == "nil"@ {
        Some(TokenKind::Nil)
    } else if word == "or"@ {
        Some(TokenKind::Or)
    } else if word == "print"@ {
        Some(TokenKind::Print)
    } else if word == "return"@ {
        Some(TokenKind::Return)
    } else if word == "super"@ {
        Some(TokenKind::Super)
    } else if word == "this"@ {
        Some(TokenKind::This)
    } else if word == "true"@ {
        Some(TokenKind::True)
    } else if word == "var"@ {
        Some(TokenKind::Var)
    } else if word == "while"@ {
        Some(TokenKind::While)
    } else {
        None
    }
}

/// The category of a word: its keyword, or an identifier of that name.
pub open spec fn word_kind(word: Seq<char>) -> TokenKind {
    match keyword(word) {
        Some(kind) => kind,
        None => TokenKind::Identifier(word),
    }
}

/// Where the number that starts at `from` ends: behind its digits, or, where
/// a dot and at least one digit follow them, behind the digits after the dot.
pub open spec fn number_end(s: Seq<Symbol>, from: int) -> int {
    let whole = digits_end(s, from);
    if has_char_at(s, whole, '.') && whole + 1 < s.len() && is_digit(s[whole + 1].c) {
        digits_end(s, whole + 1)
    } else {
        whole
    }
}

/// The token of category `kind` whose lexeme is `s` from `from` up to `to`.
pub open spec fn token_at(s: Seq<Symbol>, kind: TokenKind, from: int, to: int, line: nat)
    -> TokenView {
    TokenView { kind, lexeme: text_of(s).subrange(from, to), line }
}

/// The token that ends every scan.
pub open spec fn eof_token(line: nat) -> TokenView {
    TokenView { kind: TokenKind::EOF, lexeme: Seq::empty(), line }
}

/// The fault that the scanner reports on `line`.
pub open spec fn fault(line: nat, message: Seq<char>) -> ErrorView {
    ErrorView::Source { line, location: Seq::empty(), message }
}

/// What the scanner makes of the characters at one place.
pub enum Lexed {
    /// A token; the scan goes on at `next`, on line `line`.
    Token { token: TokenView, next: int, line: nat },
    /// Blanks, a line feed or a comment; the scan goes on at `next`, on line
    /// `line`.
    Skipped { next: int, line: nat },
    /// The text is at fault and the scan is over.
    Failed { error: ErrorView },
}

/// What starts at `pos`, a place inside `s` that is on line `line`.
pub open spec fn lex_at(s: Seq<Symbol>, pos: int, line: nat) -> Lexed {
    let c = s[pos].c;
    if punctuation(c) is Some {
        Lexed::Token {
            token: token_at(s, punctuation(c)->0, pos, pos + 1, line),
            next: pos + 1,
            line,
        }
    } else if operator(c, false) is Some {
        let long = has_char_at(s, pos + 1, '=');
        let next = if long { pos + 2 } else { pos + 1 };
        Lexed::Token { token: token_at(s, operator(c, long)->0, pos, next, line), next, line }
    } else if c == '/' {
        if has_char_at(s, pos + 1, '/') {
            Lexed::Skipped { next: line_end(s, pos + 2), line }
        } else {
            Lexed::Token {
                token: token_at(s, TokenKind::Slash, pos, pos + 1, line),
                next: pos + 1,
                line,
            }
        }
    } else if is_blank(c) {
        Lexed::Skipped { next: pos + 1, line }
    } else if c == '\n' {
        Lexed::Skipped { next: pos + 1, line: line + 1 }
    } else if c == '"' {
        let close = quote_at(s, pos + 1);
        let last = line + count_newlines(s, pos + 1, close);
        if close < s.len() {
            Lexed::Token {
                token: token_at(
                    s,
                    TokenKind::String(text_of(s).subrange(pos + 1, close)),
                    pos,
                    close + 1,
                    last,
                ),
                next: close + 1,
                line: last,
            }
        } else {
            Lexed::Failed { error: fault(last, "unterminated string"@) }
        }
    } else if is_digit(c) {
        let end = number_end(s, pos);
        Lexed::Token {
            token: token_at(s, TokenKind::Number(text_of(s).subrange(pos, end)), pos, end, line),
            next: end,
            line,
        }
    } else if s[pos].alphabetic {
        let end = word_end(s, pos + 1);
        Lexed::Token {
            token: token_at(s, word_kind(text_of(s).subrange(pos, end)), pos, end, line),
            next: end,
            line,
        }
    } else {
        Lexed::Failed { error: fault(line, "unknown character: "@.push(c)) }
    }
}

/// A run ends at or after its start, and inside the text where it starts
/// inside.
pub proof fn lemma_run_end_bounds(s: Seq<Symbol>, from: int, member: spec_fn(Symbol) -> bool)
    ensures
        from <= run_end(s, from, member),
        from <= s.len() ==> run_end(s, from, member) <= s.len(),
    decreases s.len() - from,
{
    if 0 <= from < s.len() && member(s[from]) {
        lemma_run_end_bounds(s, from + 1, member);
    }
}

/// A token or a skipped stretch is not empty and ends inside the text.
pub proof fn lemma_lex_advances(s: Seq<Symbol>, pos: int, line: nat)
    requires
        0 <= pos < s.len(),
    ensures
        (match lex_at(s, pos, line) {
            Lexed::Token { next, .. } => pos < next <= s.len(),
            Lexed::Skipped { next, .. } => pos < next <= s.len(),
            Lexed::Failed { .. } => true,
        }),
{
    lemma_run_end_bounds(s, pos + 2, |x: Symbol| x.c != '\n');
    lemma_run_end_bounds(s, pos + 1, |x: Symbol| x.c != '"');
    lemma_run_end_bounds(s, pos + 1, |x: Symbol| is_word_part(x));
    lemma_run_end_bounds(s, pos, |x: Symbol| is_digit(x.c));
    let whole = digits_end(s, pos);
    lemma_run_end_bounds(s, whole + 1, |x: Symbol| is_digit(x.c));
}

/// What the scanner yields next.
pub enum Step {
    /// A token; the scan goes on at `next`, on line `line`.
    Token { token: TokenView, next: int, line: nat },
    /// The text is used up, on line `line`.
    End { line: nat },
    /// The text is at fault and the scan is over.
    Failed { error: ErrorView },
}

/// What the scanner yields from `pos` on: the first token past blanks, line
/// feeds and comments, if there is one.
pub open spec fn next_step(s: Seq<Symbol>, pos: int, line: nat) -> Step
    decreases s.len() - pos,
{
    if 0 <= pos < s.len() {
        match lex_at(s, pos, line) {
            Lexed::Skipped { next, line: line_after } => {
                proof {
                    lemma_lex_advances(s, pos, line);
                }
                next_step(s, next, line_after)
            },
            Lexed::Token { token, next, line: line_after } => Step::Token {
                token,
                next,
                line: line_after,
            },
            Lexed::Failed { error } => Step::Failed { error },
        }
    } else {
        Step::End { line }
    }
}

/// A token that the scanner yields from `pos` on ends behind `pos` and
/// inside the text.
pub proof fn lemma_step_advances(s: Seq<Symbol>, pos: int, line: nat)
    ensures
        next_step(s, pos, line) matches Step::Token { next, .. } ==> pos < next <= s.len(),
    decreases s.len() - pos,
{
    if 0 <= pos < s.len() {
        lemma_lex_advances(s, pos, line);
        if let Lexed::Skipped { next, line: line_after } = lex_at(s, pos, line) {
            lemma_step_advances(s, next, line_after);
        }
    }
}

/// The tokens of `s` from `pos` on, a place on line `line`: each token in
/// turn and the end-of-input token behind the last, or the first fault.
pub open spec fn scan_from(s: Seq<Symbol>, pos: int, line: nat) -> Result<Seq<TokenView>, ErrorView>
    decreases s.len() - pos,
{
    match next_step(s, pos, line) {
        Step::Token { token, next, line: line_after } => {
            proof {
                lemma_step_advances(s, pos, line);
            }
            match scan_from(s, next, line_after) {
                Ok(rest) => Ok(seq![token] + rest),
                Err(error) => Err(error),
            }
        },
        Step::End { line: last } => Ok(seq![eof_token(last)]),
        Step::Failed { error } => Err(error),
    }
}

/// The tokens of the classified text `s`, or the first fault in it.
pub open spec fn scan_symbols(s: Seq<Symbol>) -> Result<Seq<TokenView>, ErrorView> {
    scan_from(s, 0, 1)
}

/// The tokens of the source text `text`, or the first fault in it, with
/// the letters that Unicode knows.
pub open spec fn scan(text: Seq<char>) -> Result<Seq<TokenView>, ErrorView> {
    scan_symbols(symbols_of(text))
}

/// Classifying a text changes none of its characters: what holds of every
/// classified text with given characters holds of the text as Unicode
/// classifies it.
pub proof fn law_classifying_keeps_the_text(text: Seq<char>)
    ensures
        symbols_of(text).len() == text.len(),
        text_of(symbols_of(text)) == text,
{
    assert(text_of(symbols_of(text)) =~= text);
}

} // verus!
