//! The scanner: a cursor over the source text that yields its tokens one by
//! one, or all at once.

use crate::error::{ErrorView, RLoxError, RLoxResult};
use crate::lexical::{
    classified, count_newlines, digits_end, eof_token, fault, is_digit, is_word_part,
    lemma_lex_advances, lemma_step_advances, line_end, next_step, number_end, quote_at, scan_from,
    symbols_of, text_of, token_at, word_end, word_kind, Step, Symbol,
};
use crate::lexical_laws::law_one_eof_ends_the_scan;
use crate::text::chars_of;
use crate::token::{token_views, Token, TokenKind, TokenType, TokenView};
use vstd::prelude::*;

verus! {

/// Whether `c` is a decimal digit.
fn is_decimal_digit(c: char) -> (yes: bool)
    ensures
        yes == is_digit(c),
{
    '0' <= c && c <= '9'
}

/// A cursor over a source text. It knows where the lexeme that it is
/// reading starts, which character comes next, and which line that
/// character is on.
pub struct Scanner {
    src: String,
    chars: Vec<Symbol>,
    lexeme_start: usize,
    lexeme_current: usize,
    line: usize,
    finished: bool,
}

impl Scanner {
    /// The source text.
    pub closed spec fn source(&self) -> Seq<char> {
        text_of(self.chars@)
    }

    /// The characters of the source text, each with what this scanner takes
    /// it for: alphabetic or not, alphanumeric or not.
    pub closed spec fn symbols(&self) -> Seq<Symbol> {
        self.chars@
    }

    /// The index of the next character to read.
    pub closed spec fn position(&self) -> int {
        self.lexeme_current as int
    }

    /// The line that the next character to read is on.
    pub closed spec fn line(&self) -> nat {
        self.line as nat
    }

    /// Whether the scan is over: the end-of-input token or a fault has been
    /// yielded.
    pub closed spec fn finished(&self) -> bool {
        self.finished
    }

    /// The cursor is inside the text, which is short enough for its lines
    /// to be counted.
    pub closed spec fn wf(&self) -> bool {
        &&& self.inside()
        &&& 1 <= self.line <= self.lexeme_current + 1
    }

    spec fn inside(&self) -> bool {
        &&& text_of(self.chars@) == self.src@
        &&& self.lexeme_start <= self.lexeme_current <= self.chars@.len()
        &&& self.chars@.len() < usize::MAX
    }

    /// The tokens that this scanner has still to yield, or the fault that it
    /// will report.
    pub open spec fn remaining(&self) -> Result<Seq<TokenView>, ErrorView> {
        if self.finished() {
            Ok(Seq::empty())
        } else {
            scan_from(self.symbols(), self.position(), self.line())
        }
    }

    /// A scanner at the start of `src`, on line 1, with the letters that
    /// Unicode knows.
    pub fn new(src: String) -> (scanner: Self)
        requires
            src@.len() < usize::MAX,
        ensures
            scanner.wf(),
            scanner.source() == src@,
            scanner.symbols() == symbols_of(src@),
            scanner.position() == 0,
            scanner.line() == 1,
            !scanner.finished(),
    {
        let text = chars_of(src.as_str());
        let mut chars: Vec<Symbol> = Vec::new();
        let mut i: usize = 0;
        while i < text.len()
            invariant
                text@ == src@,
                i <= text@.len(),
                chars@.len() == i,
                forall|k: int| 0 <= k < i ==> #[trigger] chars@[k] == classified(text@[k]),
            decreases text@.len() - i,
        {
            chars.push(Symbol::classify(text[i]));
            i += 1;
        }
        assert(chars@ =~= symbols_of(src@));
        assert(text_of(chars@) =~= src@);
        Self { src, chars, lexeme_start: 0, lexeme_current: 0, line: 1, finished: false }
    }

    /// A scanner at the start of `src`, on line 1, that takes each character
    /// for what the two lists say of it, in place of what Unicode says:
    /// the character at an index is alphabetic where `alphabetic` holds
    /// `true` at that index, and alphanumeric where `alphanumeric` does.
    /// There is no such scanner unless each list has one entry for each
    /// character of `src`, and `src` is short enough for its lines to be
    /// counted.
    pub fn with_classes(
        src: String,
        alphabetic: Vec<bool>,
        alphanumeric: Vec<bool>,
    ) -> (made: Option<Self>)
        ensures
            made is Some <==> alphabetic@.len() == src@.len() && alphanumeric@.len() == src@.len()
                && src@.len() < usize::MAX,
            made matches Some(scanner) ==> ({
                &&& scanner.wf()
                &&& scanner.source() == src@
                &&& scanner.symbols().len() == src@.len()
                &&& forall|i: int|
                    0 <= i < src@.len() ==> #[trigger] scanner.symbols()[i] == (Symbol {
                        c: src@[i],
                        alphabetic: alphabetic@[i],
                        alphanumeric: alphanumeric@[i],
                    })
                &&& scanner.position() == 0
                &&& scanner.line() == 1
                &&& !scanner.finished()
            }),
    {
        let text = chars_of(src.as_str());
        let n = text.len();
        if alphabetic.len() != n || alphanumeric.len() != n || n == usize::MAX {
            return None;
        }
        let mut chars: Vec<Symbol> = Vec::new();
        let mut i: usize = 0;
        while i < n
            invariant
                text@ == src@,
                n == text@.len(),
                alphabetic@.len() == n,
                alphanumeric@.len() == n,
                i <= n,
                chars@.len() == i,
                forall|k: int|
                    0 <= k < i ==> #[trigger] chars@[k] == (Symbol {
                        c: text@[k],
                        alphabetic: alphabetic@[k],
                        alphanumeric: alphanumeric@[k],
                    }),
            decreases n - i,
        {
            chars.push(Symbol::new(text[i], alphabetic[i], alphanumeric[i]));
            i += 1;
        }
        assert(text_of(chars@) =~= src@);
        Some(Self { src, chars, lexeme_start: 0, lexeme_current: 0, line: 1, finished: false })
    }

    fn is_at_end(&self) -> (at_end: bool)
        ensures
            at_end == (self.lexeme_current >= self.chars@.len()),
    {
        self.lexeme_current >= self.chars.len()
    }

    /// Reads the next character.
    fn advance(&mut self) -> (c: char)
        requires
            old(self).inside(),
            old(self).lexeme_current < old(self).chars@.len(),
        ensures
            c == old(self).chars@[old(self).lexeme_current as int].c,
            *final(self) == (Scanner {
                lexeme_current: (old(self).lexeme_current + 1) as usize,
                ..*old(self)
            }),
            final(self).inside(),
    {
        self.lexeme_current = self.lexeme_current + 1;
        self.chars[self.lexeme_current - 1].c
    }

    /// Reads the next character if it is `test`.
    fn advance_if_match(&mut self, test: char) -> (matched: bool)
        requires
            old(self).inside(),
        ensures
            matched == (old(self).lexeme_current < old(self).chars@.len() && old(
                self,
            ).chars@[old(self).lexeme_current as int].c == test),
            *final(self) == (Scanner {
                lexeme_current: if matched {
                    (old(self).lexeme_current + 1) as usize
                } else {
                    old(self).lexeme_current
                },
                ..*old(self)
            }),
            final(self).inside(),
    {
        if self.is_at_end() {
            return false;
        }
        if self.chars[self.lexeme_current].c != test {
            return false;
        }
        self.lexeme_current = self.lexeme_current + 1;
        true
    }

    /// The next character, or NUL at the end of the text.
    fn peek(&self) -> (c: char)
        ensures
            c == (if self.lexeme_current < self.chars@.len() {
                self.chars@[self.lexeme_current as int].c
            } else {
                '\0'
            }),
    {
        if self.is_at_end() {
            '\0'
        } else {
            self.chars[self.lexeme_current].c
        }
    }

    /// The character behind the next one, or NUL where the text has none.
    fn peek_next(&self) -> (c: char)
        requires
            self.inside(),
        ensures
            c == (if self.lexeme_current + 1 < self.chars@.len() {
                self.chars@[self.lexeme_current + 1].c
            } else {
                '\0'
            }),
    {
        if self.lexeme_current + 1 >= self.chars.len() {
            '\0'
        } else {
            self.chars[self.lexeme_current + 1].c
        }
    }

    /// The source text from `from` up to `to`.
    fn slice(&self, from: usize, to: usize) -> (text: String)
        requires
            self.inside(),
            from <= to <= self.chars@.len(),
        ensures
            text@ == text_of(self.chars@).subrange(from as int, to as int),
    {
        String::from_str(self.src.as_str().substring_char(from, to))
    }

    /// Whether the lexeme read since the last call of `collapse_scan` is
    /// `word`.
    fn spells(&self, word: &str) -> (same: bool)
        requires
            self.inside(),
        ensures
            same == (text_of(self.chars@).subrange(
                self.lexeme_start as int,
                self.lexeme_current as int,
            ) == word@),
    {
        let from = self.lexeme_start;
        let n = word.unicode_len();
        if self.lexeme_current - from != n {
            return false;
        }
        let ghost lexeme = text_of(self.chars@).subrange(from as int, self.lexeme_current as int);
        let mut i: usize = 0;
        while i < n
            invariant
                self.inside(),
                from == self.lexeme_start,
                self.lexeme_current - from == n,
                n == word@.len(),
                i <= n,
                lexeme == text_of(self.chars@).subrange(from as int, self.lexeme_current as int),
                forall|k: int| 0 <= k < i ==> lexeme[k] == word@[k],
            decreases n - i,
        {
            if self.chars[from + i].c != word.get_char(i) {
                assert(lexeme[i as int] != word@[i as int]);
                return false;
            }
            assert(lexeme[i as int] == word@[i as int]);
            i += 1;
        }
        assert(lexeme =~= word@);
        true
    }

    /// Whether the next character may go on a word: an alphanumeric
    /// character or an underscore.
    fn peek_is_word_part(&self) -> (yes: bool)
        ensures
            yes == (self.lexeme_current < self.chars@.len() && is_word_part(
                self.chars@[self.lexeme_current as int],
            )),
    {
        !self.is_at_end() && (self.chars[self.lexeme_current].alphanumeric || self.peek() == '_')
    }

    /// A token of category `token_type` for the lexeme read since the last
    /// call of `collapse_scan`.
    fn make_token_result(&self, token_type: TokenType) -> (result: RLoxResult<Token>)
        requires
            self.inside(),
        ensures
            result matches Ok(token) && token@ == token_at(
                self.chars@,
                token_type@,
                self.lexeme_start as int,
                self.lexeme_current as int,
                self.line as nat,
            ),
    {
        Ok(Token::new(token_type, self.slice(self.lexeme_start, self.lexeme_current), self.line))
    }

    /// Yields the next token of the text, past blanks, line feeds and
    /// comments: the end-of-input token where none is left.
    fn scan_token(&mut self) -> (result: RLoxResult<Token>)
        requires
            old(self).wf(),
            !old(self).finished(),
        ensures
            final(self).wf(),
            final(self).source() == old(self).source(),
            final(self).symbols() == old(self).symbols(),
            (match next_step(old(self).symbols(), old(self).position(), old(self).line()) {
                Step::Token { token, next, line } => {
                    &&& result matches Ok(found) && found@ == token
                    &&& final(self).position() == next
                    &&& final(self).line() == line
                    &&& !final(self).finished()
                },
                Step::End { line } => {
                    &&& result matches Ok(found) && found@ == eof_token(line)
                    &&& final(self).finished()
                },
                Step::Failed { error } => {
                    &&& result matches Err(reported) && reported@ == error
                    &&& final(self).finished()
                },
            }),
    {
        let ghost s = self.chars@;
        let ghost goal = next_step(s, self.lexeme_current as int, self.line as nat);
        loop
            invariant
                self.wf(),
                !self.finished,
                self.chars@ == s,
                s == old(self).chars@,
                goal == next_step(s, old(self).lexeme_current as int, old(self).line as nat),
                goal == next_step(s, self.lexeme_current as int, self.line as nat),
            decreases s.len() - self.lexeme_current,
        {
            self.collapse_scan();
            if self.is_at_end() {
                self.finished = true;
                return Ok(Token::new(TokenType::EOF, String::new(), self.line));
            }
            let ghost pos = self.lexeme_current as int;
            let ghost line = self.line;
            proof {
                lemma_lex_advances(s, pos, line as nat);
            }
            let next_char = self.advance();
            match next_char {
                '(' => {
                    return self.make_token_result(TokenType::LeftParen);
                },
                ')' => {
                    return self.make_token_result(TokenType::RightParen);
                },
                '{' => {
                    return self.make_token_result(TokenType::LeftBrace);
                },
                '}' => {
                    return self.make_token_result(TokenType::RightBrace);
                },
                ',' => {
                    return self.make_token_result(TokenType::Comma);
                },
                '.' => {
                    return self.make_token_result(TokenType::Dot);
                },
                '-' => {
                    return self.make_token_result(TokenType::Minus);
                },
                '+' => {
                    return self.make_token_result(TokenType::Plus);
                },
                ';' => {
                    return self.make_token_result(TokenType::Semicolon);
                },
                '*' => {
                    return self.make_token_result(TokenType::Star);
                },
                '!' => {
                    if self.advance_if_match('=') {
                        return self.make_token_result(TokenType::BangEqual);
                    } else {
                        return self.make_token_result(TokenType::Bang);
                    }
                },
                '=' => {
                    if self.advance_if_match('=') {
                        return self.make_token_result(TokenType::EqualEqual);
                    } else {
                        return self.make_token_result(TokenType::Equal);
                    }
                },
                '<' => {
                    if self.advance_if_match('=') {
                        return self.make_token_result(TokenType::LessEqual);
                    } else {
                        return self.make_token_result(TokenType::Less);
                    }
                },
                '>' => {
                    if self.advance_if_match('=') {
                        return self.make_token_result(TokenType::GreaterEqual);
                    } else {
                        return self.make_token_result(TokenType::Greater);
                    }
                },
                '/' => {
                    if self.advance_if_match('/') {
                        // A comment goes on to the end of the line.
                        while self.peek() != '\n' && !self.is_at_end()
                            invariant
                                self.wf(),
                                !self.finished,
                                self.chars@ == s,
                                pos + 2 <= self.lexeme_current <= s.len(),
                                line_end(s, self.lexeme_current as int) == line_end(s, pos + 2),
                                self.line == line,
                            decreases s.len() - self.lexeme_current,
                        {
                            self.advance();
                        }
                    } else {
                        return self.make_token_result(TokenType::Slash);
                    }
                },
                ' ' | '\r' | '\t' => {},
                '\n' => {
                    self.line = self.line + 1;
                },
                '"' => {
                    let result = self.parse_string();
                    if result.is_err() {
                        self.finished = true;
                    }
                    return result;
                },
                _ => {
                    if is_decimal_digit(next_char) {
                        return self.parse_number();
                    } else if self.chars[self.lexeme_start].alphabetic {
                        return self.parse_identifier();
                    } else {
                        self.finished = true;
                        let mut message = String::from_str("unknown character: ");
                        message.append(
                            self.src.as_str().substring_char(
                                self.lexeme_start,
                                self.lexeme_current,
                            ),
                        );
                        proof {
                            assert(text_of(s).subrange(pos, pos + 1) =~= seq![next_char]);
                            assert(message@ =~= "unknown character: "@.push(next_char));
                        }
                        return Err(RLoxError::source(self.line, String::new(), message));
                    }
                },
            }
        }
    }

    /// Yields the next token: each token of the text in turn, then the
    /// end-of-input token, then nothing. A fault in the text is yielded
    /// once, and nothing after it.
    pub fn next(&mut self) -> (item: Option<RLoxResult<Token>>)
        requires
            old(self).wf(),
        ensures
            final(self).wf(),
            final(self).source() == old(self).source(),
            final(self).symbols() == old(self).symbols(),
            old(self).finished() ==> item is None && *final(self) == *old(self),
            !old(self).finished() ==> (match next_step(
                old(self).symbols(),
                old(self).position(),
                old(self).line(),
            ) {
                Step::Token { token, next, line } => {
                    &&& item matches Some(Ok(found)) && found@ == token
                    &&& final(self).position() == next
                    &&& final(self).line() == line
                    &&& !final(self).finished()
                },
                Step::End { line } => {
                    &&& item matches Some(Ok(found)) && found@ == eof_token(line)
                    &&& final(self).finished()
                },
                Step::Failed { error } => {
                    &&& item matches Some(Err(reported)) && reported@ == error
                    &&& final(self).finished()
                },
            }),
    {
        if self.finished {
            None
        } else {
            Some(self.scan_token())
        }
    }

    /// Yields all the tokens that are left, the end-of-input token last, or
    /// the first fault in the text.
    pub fn scan_tokens(&mut self) -> (result: RLoxResult<Vec<Token>>)
        requires
            old(self).wf(),
        ensures
            final(self).wf(),
            final(self).source() == old(self).source(),
            final(self).symbols() == old(self).symbols(),
            final(self).finished(),
            (match old(self).remaining() {
                Ok(tokens) => result matches Ok(found) && token_views(found@) == tokens,
                Err(error) => result matches Err(reported) && reported@ == error,
            }),
            !old(self).finished() ==> (result matches Ok(found) ==> found@.len() >= 1
                && found@.last()@.kind is EOF),
    {
        let mut tokens: Vec<Token> = Vec::new();
        let ghost s = self.chars@;
        proof {
            law_one_eof_ends_the_scan(s, self.lexeme_current as int, self.line as nat);
        }
        loop
            invariant
                self.wf(),
                self.chars@ == s,
                s == old(self).chars@,
                !old(self).finished() ==> (old(self).remaining() matches Ok(all) ==> all.len() >= 1
                    && all.last().kind is EOF),
                match self.remaining() {
                    Ok(rest) => old(self).remaining() == Ok::<Seq<TokenView>, ErrorView>(
                        token_views(tokens@) + rest,
                    ),
                    Err(error) => old(self).remaining() == Err::<Seq<TokenView>, ErrorView>(error),
                },
            decreases
                    if self.finished {
                        0
                    } else {
                        s.len() - self.lexeme_current + 1
                    },
        {
            let ghost before = token_views(tokens@);
            let ghost step = next_step(s, self.lexeme_current as int, self.line as nat);
            proof {
                lemma_step_advances(s, self.lexeme_current as int, self.line as nat);
            }
            match self.next() {
                None => {
                    assert(token_views(tokens@) + Seq::<TokenView>::empty() =~= token_views(
                        tokens@,
                    ));
                    assert(tokens@.len() >= 1 ==> token_views(tokens@).last() == tokens@.last()@);
                    return Ok(tokens);
                },
                Some(Err(error)) => {
                    return Err(error);
                },
                Some(Ok(token)) => {
                    let ghost view = token@;
                    tokens.push(token);
                    proof {
                        assert(token_views(tokens@) =~= before.push(view));
                        match self.remaining() {
                            Ok(rest) => {
                                assert(before + (seq![view] + rest) =~= before.push(view) + rest);
                            },
                            Err(error) => {},
                        }
                    }
                },
            }
        }
    }

    /// Reads the rest of a string literal whose opening quote has just been
    /// read.
    fn parse_string(&mut self) -> (result: RLoxResult<Token>)
        requires
            old(self).wf(),
            old(self).lexeme_current == old(self).lexeme_start + 1,
        ensures
            final(self).wf(),
            ({
                let s = old(self).chars@;
                let open = old(self).lexeme_start as int;
                let close = quote_at(s, open + 1);
                let last = (old(self).line + count_newlines(s, open + 1, close)) as nat;
                &&& final(self).line == last
                &&& if close < s.len() {
                    &&& *final(self) == (Scanner {
                        lexeme_current: (close + 1) as usize,
                        line: last as usize,
                        ..*old(self)
                    })
                    &&& result matches Ok(token) && token@ == token_at(
                        s,
                        TokenKind::String(text_of(s).subrange(open + 1, close)),
                        open,
                        close + 1,
                        last,
                    )
                } else {
                    &&& *final(self) == (Scanner {
                        lexeme_current: final(self).lexeme_current,
                        line: last as usize,
                        ..*old(self)
                    })
                    &&& result matches Err(error) && error@ == fault(
                        last,
                        "unterminated string"@,
                    )
                }
            }),
    {
        let ghost before = *self;
        let ghost s = self.chars@;
        let ghost open = self.lexeme_start as int;
        // Keep advancing until the closing quote or the end of the text.
        while self.peek() != '"' && !self.is_at_end()
            invariant
                self.inside(),
                *self == (Scanner {
                    lexeme_current: self.lexeme_current,
                    line: self.line,
                    ..before
                }),
                s == before.chars@,
                open == before.lexeme_start,
                open + 1 <= self.lexeme_current <= s.len(),
                quote_at(s, self.lexeme_current as int) == quote_at(s, open + 1),
                self.line == before.line + count_newlines(s, open + 1, self.lexeme_current as int),
                1 <= self.line <= self.lexeme_current + 1,
            decreases s.len() - self.lexeme_current,
        {
            if self.peek() == '\n' {
                self.line = self.line + 1;
            }
            self.advance();
        }

        // At the end of the text the string was never closed.
        if self.is_at_end() {
            return Err(
                RLoxError::source(
                    self.line,
                    String::new(),
                    String::from_str("unterminated string"),
                ),
            );
        }

        // The closing quote.
        self.advance();

        // The text between the quotes.
        let collected_string = self.slice(self.lexeme_start + 1, self.lexeme_current - 1);
        self.make_token_result(TokenType::String(collected_string))
    }

    /// Reads the rest of a number whose first digit has just been read.
    fn parse_number(&mut self) -> (result: RLoxResult<Token>)
        requires
            old(self).inside(),
            old(self).lexeme_current == old(self).lexeme_start + 1,
            is_digit(old(self).chars@[old(self).lexeme_start as int].c),
        ensures
            final(self).inside(),
            ({
                let s = old(self).chars@;
                let start = old(self).lexeme_start as int;
                let end = number_end(s, start);
                &&& *final(self) == (Scanner { lexeme_current: end as usize, ..*old(self) })
                &&& result matches Ok(token) && token@ == token_at(
                    s,
                    TokenKind::Number(text_of(s).subrange(start, end)),
                    start,
                    end,
                    old(self).line as nat,
                )
            }),
    {
        let ghost before = *self;
        let ghost s = self.chars@;
        let ghost start = self.lexeme_start as int;
        while is_decimal_digit(self.peek())
            invariant
                self.inside(),
                *self == (Scanner { lexeme_current: self.lexeme_current, ..before }),
                s == before.chars@,
                start == before.lexeme_start,
                start + 1 <= self.lexeme_current <= s.len(),
                digits_end(s, self.lexeme_current as int) == digits_end(s, start),
            decreases s.len() - self.lexeme_current,
        {
            self.advance();
        }

        let ghost whole = self.lexeme_current as int;
        if self.peek() == '.' && is_decimal_digit(self.peek_next()) {
            self.advance();

            while is_decimal_digit(self.peek())
                invariant
                    self.inside(),
                    *self == (Scanner { lexeme_current: self.lexeme_current, ..before }),
                    s == before.chars@,
                    whole + 1 <= self.lexeme_current <= s.len(),
                    digits_end(s, self.lexeme_current as int) == digits_end(s, whole + 1),
                decreases s.len() - self.lexeme_current,
            {
                self.advance();
            }
        }
        let digits = self.slice(self.lexeme_start, self.lexeme_current);
        self.make_token_result(TokenType::Number(digits))
    }

    /// Reads the rest of a word whose first character has just been read,
    /// and tells a keyword from an identifier.
    fn parse_identifier(&mut self) -> (result: RLoxResult<Token>)
        requires
            old(self).inside(),
            old(self).lexeme_current == old(self).lexeme_start + 1,
        ensures
            final(self).inside(),
            ({
                let s = old(self).chars@;
                let start = old(self).lexeme_start as int;
                let end = word_end(s, start + 1);
                &&& *final(self) == (Scanner { lexeme_current: end as usize, ..*old(self) })
                &&& result matches Ok(token) && token@ == token_at(
                    s,
                    word_kind(text_of(s).subrange(start, end)),
                    start,
                    end,
                    old(self).line as nat,
                )
            }),
    {
        let ghost before = *self;
        let ghost s = self.chars@;
        let ghost start = self.lexeme_start as int;
        while self.peek_is_word_part()
            invariant
                self.inside(),
                *self == (Scanner { lexeme_current: self.lexeme_current, ..before }),
                s == before.chars@,
                start == before.lexeme_start,
                start + 1 <= self.lexeme_current <= s.len(),
                word_end(s, self.lexeme_current as int) == word_end(s, start + 1),
            decreases s.len() - self.lexeme_current,
        {
            self.advance();
        }

        let token = if self.spells("and") {
            TokenType::And
        } else if self.spells("class") {
            TokenType::Class
        } else if self.spells("else") {
            TokenType::Else
        } else if self.spells("false") {
            TokenType::False
        } else if self.spells("for") {
            TokenType::For
        } else if self.spells("fun") {
            TokenType::Fun
        } else if self.spells("if") {
            TokenType::If
        } else if self.spells("nil") {
            TokenType::Nil
        } else if self.spells("or") {
            TokenType::Or
        } else if self.spells("print") {
            TokenType::Print
        } else if self.spells("return") {
            TokenType::Return
        } else if self.spells("super") {
            TokenType::Super
        } else if self.spells("this") {
            TokenType::This
        } else if self.spells("true") {
            TokenType::True
        } else if self.spells("var") {
            TokenType::Var
        } else if self.spells("while") {
            TokenType::While
        } else {
            TokenType::Identifier(self.slice(self.lexeme_start, self.lexeme_current))
        };

        self.make_token_result(token)
    }

    /// Starts a new lexeme at the cursor.
    fn collapse_scan(&mut self)
        ensures
            *final(self) == (Scanner { lexeme_start: old(self).lexeme_current, ..*old(self) }),
    {
        self.lexeme_start = self.lexeme_current;
    }
}

} // verus!
