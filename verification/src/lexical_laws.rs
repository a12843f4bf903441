//! What holds of every scan: laws of the lexical structure, proved from its
//! definition. They hold whatever characters are taken for alphabetic and
//! for alphanumeric, unless they say otherwise.

use crate::error::ErrorView;
use crate::lexical::{
    count_newlines, digits_end, eof_token, fault, has_char_at, is_blank, is_digit, is_word_part,
    keyword, lemma_lex_advances, lemma_run_end_bounds, lemma_step_advances, lex_at, line_end,
    next_step, number_end, operator, punctuation, run_end, scan_from, scan_symbols, text_of,
    word_kind, Lexed, Step, Symbol,
};
use crate::token::{TokenKind, TokenView};
use vstd::prelude::*;

verus! {

/// Every character of a run satisfies `member`, and the character behind
/// the run, if there is one, does not.
pub proof fn lemma_run_members(s: Seq<Symbol>, from: int, member: spec_fn(Symbol) -> bool)
    requires
        0 <= from,
    ensures
        forall|k: int| from <= k < run_end(s, from, member) ==> member(#[trigger] s[k]),
        run_end(s, from, member) < s.len() ==> !member(s[run_end(s, from, member)]),
    decreases s.len() - from,
{
    if from < s.len() && member(s[from]) {
        lemma_run_members(s, from + 1, member);
    }
}

/// A stretch of characters that all satisfy `member`, with the end of the
/// text or a character that does not satisfy it behind, is a run.
pub proof fn lemma_run_end_is(
    s: Seq<Symbol>,
    from: int,
    to: int,
    member: spec_fn(Symbol) -> bool,
)
    requires
        0 <= from <= to <= s.len(),
        forall|k: int| from <= k < to ==> member(#[trigger] s[k]),
        to < s.len() ==> !member(s[to]),
    ensures
        run_end(s, from, member) == to,
    decreases to - from,
{
    if from < to {
        lemma_run_end_is(s, from + 1, to, member);
    }
}

/// Line feeds are counted piece by piece.
pub proof fn lemma_count_split(s: Seq<Symbol>, from: int, mid: int, to: int)
    requires
        from <= mid <= to,
    ensures
        count_newlines(s, from, to) == count_newlines(s, from, mid) + count_newlines(s, mid, to),
    decreases to - mid,
{
    if mid < to {
        lemma_count_split(s, from, mid, to - 1);
    }
}

/// A stretch without a line feed counts none.
pub proof fn lemma_count_none(s: Seq<Symbol>, from: int, to: int)
    requires
        forall|k: int| from <= k < to ==> (#[trigger] s[k]).c != '\n',
    ensures
        count_newlines(s, from, to) == 0,
    decreases to - from,
{
    if from < to {
        lemma_count_none(s, from, to - 1);
    }
}

/// Whether `s` holds nothing from `pos` on but blanks, line feeds and
/// comments, a comment being `//` and what follows it on its line.
pub open spec fn only_trivia(s: Seq<Symbol>, pos: int) -> bool
    decreases s.len() - pos,
{
    if !(0 <= pos < s.len()) {
        true
    } else if is_blank(s[pos].c) || s[pos].c == '\n' {
        only_trivia(s, pos + 1)
    } else if s[pos].c == '/' && has_char_at(s, pos + 1, '/') {
        proof {
            lemma_run_end_bounds(s, pos + 2, |x: Symbol| x.c != '\n');
        }
        only_trivia(s, line_end(s, pos + 2))
    } else {
        false
    }
}

/// Past blanks, line feeds and comments alone the scanner finds the end of
/// the text, on the line that the line feeds passed lead to.
pub proof fn lemma_trivia_leads_to_end(s: Seq<Symbol>, pos: int, line: nat)
    requires
        0 <= pos <= s.len(),
        only_trivia(s, pos),
    ensures
        next_step(s, pos, line) == (Step::End {
            line: line + count_newlines(s, pos, s.len() as int),
        }),
    decreases s.len() - pos,
{
    if pos < s.len() {
        lemma_lex_advances(s, pos, line);
        if is_blank(s[pos].c) {
            lemma_trivia_leads_to_end(s, pos + 1, line);
            lemma_count_split(s, pos, pos + 1, s.len() as int);
            assert(count_newlines(s, pos, pos + 1) == 0) by {
                lemma_count_none(s, pos, pos + 1);
            }
        } else if s[pos].c == '\n' {
            lemma_trivia_leads_to_end(s, pos + 1, line + 1);
            lemma_count_split(s, pos, pos + 1, s.len() as int);
            assert(count_newlines(s, pos, pos + 1) == 1) by {
                assert(count_newlines(s, pos, pos) == 0);
            }
        } else {
            let next = line_end(s, pos + 2);
            lemma_trivia_leads_to_end(s, next, line);
            lemma_run_members(s, pos + 2, |x: Symbol| x.c != '\n');
            lemma_count_split(s, pos, next, s.len() as int);
            assert(count_newlines(s, pos, next) == 0) by {
                lemma_count_none(s, pos, next);
            }
        }
    }
}

/// A text of blanks, line feeds and comments alone scans to one token, the
/// end-of-input token, on the line that the line feeds of the text lead to.
pub proof fn law_trivia_scans_to_eof(s: Seq<Symbol>)
    requires
        only_trivia(s, 0),
    ensures
        scan_symbols(s) == Ok::<Seq<TokenView>, ErrorView>(
            seq![eof_token(1 + count_newlines(s, 0, s.len() as int))],
        ),
{
    lemma_trivia_leads_to_end(s, 0, 1);
}

/// The category of a character that is a token by itself where no `=`
/// follows it.
pub open spec fn single_character_kind(c: char) -> Option<TokenKind> {
    if punctuation(c) is Some {
        punctuation(c)
    } else if c == '/' {
        Some(TokenKind::Slash)
    } else {
        operator(c, false)
    }
}

/// The scan of a text that is one token from its first character to its
/// last: the token, and the end-of-input token on the token's line.
pub open spec fn one_token(kind: TokenKind, lexeme: Seq<char>, line: nat) -> Result<
    Seq<TokenView>,
    ErrorView,
> {
    Ok(seq![TokenView { kind, lexeme, line }, eof_token(line)])
}

/// Where the first token of `s` is `token` and ends with the text, on line
/// `line`, the scan of `s` is that token and the end-of-input token.
proof fn lemma_one_token(s: Seq<Symbol>, token: TokenView, line: nat)
    requires
        s.len() >= 1,
        lex_at(s, 0, 1) == (Lexed::Token { token, next: s.len() as int, line }),
        token.line == line,
    ensures
        scan_symbols(s) == one_token(token.kind, token.lexeme, line),
{
    let end = s.len() as int;
    assert(next_step(s, end, line) == Step::End { line });
    assert(scan_from(s, end, line) == Ok::<Seq<TokenView>, ErrorView>(seq![eof_token(line)]));
    assert(seq![token] + seq![eof_token(line)] =~= seq![token, eof_token(line)]);
}

/// A text of one character that is a token by itself scans to that token,
/// with the character as its lexeme, and the end-of-input token.
pub proof fn law_single_character_token(s: Seq<Symbol>, c: char)
    requires
        text_of(s) == seq![c],
        single_character_kind(c) is Some,
    ensures
        scan_symbols(s) == one_token(single_character_kind(c)->0, seq![c], 1),
{
    assert(s.len() == 1 && s[0].c == c) by {
        assert(text_of(s).len() == 1 && text_of(s)[0] == c);
    }
    let token = TokenView { kind: single_character_kind(c)->0, lexeme: seq![c], line: 1 };
    assert(text_of(s).subrange(0, 1) =~= seq![c]);
    lemma_one_token(s, token, 1);
}

/// `!`, `=`, `<` and `>` with `=` behind them are one token: the text of the
/// two characters scans to the two-character operator and the end-of-input
/// token, never to two operators.
pub proof fn law_two_character_operator(s: Seq<Symbol>, c: char)
    requires
        text_of(s) == seq![c, '='],
        operator(c, true) is Some,
    ensures
        scan_symbols(s) == one_token(operator(c, true)->0, seq![c, '='], 1),
{
    assert(s.len() == 2 && s[0].c == c && s[1].c == '=') by {
        assert(text_of(s).len() == 2 && text_of(s)[0] == c && text_of(s)[1] == '=');
    }
    let token = TokenView { kind: operator(c, true)->0, lexeme: seq![c, '='], line: 1 };
    assert(text_of(s).subrange(0, 2) =~= seq![c, '=']);
    assert(has_char_at(s, 1, '='));
    lemma_one_token(s, token, 1);
}

/// Whether `s` is a double quote and, behind it, characters that are no
/// double quotes.
pub open spec fn opens_string(s: Seq<Symbol>) -> bool {
    &&& s.len() >= 1
    &&& s[0].c == '"'
    &&& forall|k: int| 1 <= k < s.len() ==> (#[trigger] s[k]).c != '"'
}

/// A string literal is one token. The text of a double quote, characters
/// that are no double quotes, and a closing double quote scans to one
/// string token that carries the characters between the quotes and has the
/// whole text as its lexeme, and the end-of-input token; both are on the
/// line that the line feeds between the quotes lead to.
pub proof fn law_string_literal(s: Seq<Symbol>)
    requires
        s.len() >= 2,
        opens_string(s.drop_last()),
        s.last().c == '"',
    ensures
        ({
            let close = s.len() - 1;
            scan_symbols(s) == one_token(
                TokenKind::String(text_of(s).subrange(1, close)),
                text_of(s),
                1 + count_newlines(s, 1, close),
            )
        }),
{
    let close = s.len() - 1;
    let line = 1 + count_newlines(s, 1, close);
    let token = TokenView {
        kind: TokenKind::String(text_of(s).subrange(1, close)),
        lexeme: text_of(s),
        line,
    };
    assert forall|k: int| 1 <= k < close implies (|x: Symbol| x.c != '"')(#[trigger] s[k]) by {
        assert(s.drop_last()[k] == s[k]);
    }
    lemma_run_end_is(s, 1, close, |x: Symbol| x.c != '"');
    assert(text_of(s).subrange(0, close + 1) =~= text_of(s));
    assert(s[0] == s.drop_last()[0]);
    lemma_one_token(s, token, line);
}

/// A string literal that is not closed is a fault. The text of a double
/// quote and characters that are no double quotes scans to no token but to
/// the fault `unterminated string`, on the line that the line feeds of the
/// text lead to.
pub proof fn law_unterminated_string(s: Seq<Symbol>)
    requires
        opens_string(s),
    ensures
        scan_symbols(s) == Err::<Seq<TokenView>, ErrorView>(
            fault(1 + count_newlines(s, 1, s.len() as int), "unterminated string"@),
        ),
{
    lemma_run_end_is(s, 1, s.len() as int, |x: Symbol| x.c != '"');
}

/// Whether `digits` is one digit or more, and nothing else.
pub open spec fn is_digits(digits: Seq<char>) -> bool {
    &&& digits.len() >= 1
    &&& forall|k: int| 0 <= k < digits.len() ==> is_digit(#[trigger] digits[k])
}

/// Digits alone are one number token that carries them.
pub proof fn law_whole_number(s: Seq<Symbol>)
    requires
        is_digits(text_of(s)),
    ensures
        scan_symbols(s) == one_token(TokenKind::Number(text_of(s)), text_of(s), 1),
{
    let n = s.len() as int;
    let token = TokenView { kind: TokenKind::Number(text_of(s)), lexeme: text_of(s), line: 1 };
    assert forall|k: int| 0 <= k < n implies (|x: Symbol| is_digit(x.c))(#[trigger] s[k]) by {
        assert(is_digit(text_of(s)[k]));
    }
    lemma_run_end_is(s, 0, n, |x: Symbol| is_digit(x.c));
    assert(text_of(s).subrange(0, n) =~= text_of(s));
    assert(is_digit(text_of(s)[0]));
    lemma_one_token(s, token, 1);
}

/// Digits, a dot and digits are one number token that carries the text as
/// it stands.
pub proof fn law_number_with_fraction(s: Seq<Symbol>, whole: Seq<char>, fraction: Seq<char>)
    requires
        text_of(s) == whole + seq!['.'] + fraction,
        is_digits(whole),
        is_digits(fraction),
    ensures
        scan_symbols(s) == one_token(TokenKind::Number(text_of(s)), text_of(s), 1),
{
    let n = whole.len() as int;
    let all = s.len() as int;
    let text = text_of(s);
    let digit = |x: Symbol| is_digit(x.c);
    let token = TokenView { kind: TokenKind::Number(text), lexeme: text, line: 1 };
    assert(all == n + 1 + fraction.len()) by {
        assert(text.len() == (whole + seq!['.'] + fraction).len());
    }
    assert forall|k: int| 0 <= k < n implies digit(#[trigger] s[k]) by {
        assert(text[k] == whole[k]);
    }
    assert forall|k: int| n + 1 <= k < all implies digit(#[trigger] s[k]) by {
        assert(text[k] == fraction[k - n - 1]);
    }
    assert(s[n].c == '.') by {
        assert(text[n] == '.');
    }
    lemma_run_end_is(s, 0, n, digit);
    lemma_run_end_is(s, n + 1, all, digit);
    assert(text.subrange(0, all) =~= text);
    assert(number_end(s, 0) == all);
    assert(is_digit(s[0].c));
    lemma_one_token(s, token, 1);
}

/// A dot with no digit behind it is no part of a number: digits and a dot
/// at the end of the text are a number token and a dot token.
pub proof fn law_number_before_dot(s: Seq<Symbol>, whole: Seq<char>)
    requires
        text_of(s) == whole + seq!['.'],
        is_digits(whole),
    ensures
        scan_symbols(s) == Ok::<Seq<TokenView>, ErrorView>(
            seq![
                TokenView { kind: TokenKind::Number(whole), lexeme: whole, line: 1 },
                TokenView { kind: TokenKind::Dot, lexeme: seq!['.'], line: 1 },
                eof_token(1),
            ],
        ),
{
    let n = whole.len() as int;
    let text = text_of(s);
    let digit = |x: Symbol| is_digit(x.c);
    let token = TokenView { kind: TokenKind::Number(whole), lexeme: whole, line: 1 };
    let dot = TokenView { kind: TokenKind::Dot, lexeme: seq!['.'], line: 1 };
    let end = seq![eof_token(1)];
    assert(s.len() == n + 1) by {
        assert(text.len() == (whole + seq!['.']).len());
    }
    assert forall|k: int| 0 <= k < n implies digit(#[trigger] s[k]) by {
        assert(text[k] == whole[k]);
    }
    assert(s[n].c == '.') by {
        assert(text[n] == '.');
    }
    lemma_run_end_is(s, 0, n, digit);
    assert(text.subrange(0, n) =~= whole);
    assert(text.subrange(n, n + 1) =~= seq!['.']);
    assert(number_end(s, 0) == n);
    assert(is_digit(s[0].c));
    assert(lex_at(s, 0, 1) == Lexed::Token { token, next: n, line: 1 });
    assert(lex_at(s, n, 1) == Lexed::Token { token: dot, next: n + 1, line: 1 });
    assert(next_step(s, n + 1, 1) == Step::End { line: 1 });
    assert(scan_from(s, n + 1, 1) == Ok::<Seq<TokenView>, ErrorView>(end));
    assert(scan_from(s, n, 1) == Ok::<Seq<TokenView>, ErrorView>(seq![dot] + end));
    assert(seq![token] + (seq![dot] + end) =~= seq![token, dot, eof_token(1)]);
}

/// Whether the scanner takes `x` for the first character of a word: a
/// character that is taken for alphabetic and is none of those to which the
/// scanner gives another meaning.
pub open spec fn starts_word(x: Symbol) -> bool {
    &&& x.alphabetic
    &&& single_character_kind(x.c) is None
    &&& !is_blank(x.c)
    &&& x.c != '\n'
    &&& x.c != '"'
    &&& !is_digit(x.c)
}

/// Whether `word` is one word: a first character that starts a word, and
/// behind it underscores and characters that are taken for alphanumeric.
pub open spec fn is_word(word: Seq<Symbol>) -> bool {
    &&& word.len() >= 1
    &&& starts_word(word[0])
    &&& forall|k: int| 1 <= k < word.len() ==> is_word_part(#[trigger] word[k])
}

/// A word is one token. A text that is one word scans to one token with the
/// word as its lexeme, and the end-of-input token. The token is the
/// keyword's where the word is a keyword, and else an identifier that
/// carries the word.
pub proof fn law_word(word: Seq<Symbol>)
    requires
        is_word(word),
    ensures
        scan_symbols(word) == one_token(word_kind(text_of(word)), text_of(word), 1),
        keyword(text_of(word)) is None ==> word_kind(text_of(word)) == TokenKind::Identifier(
            text_of(word),
        ),
        keyword(text_of(word)) is Some ==> word_kind(text_of(word)) == keyword(text_of(word))->0
            && !(word_kind(text_of(word)) is Identifier),
{
    let end = word.len() as int;
    let token = TokenView { kind: word_kind(text_of(word)), lexeme: text_of(word), line: 1 };
    lemma_run_end_is(word, 1, end, |x: Symbol| is_word_part(x));
    assert(text_of(word).subrange(0, end) =~= text_of(word));
    lemma_one_token(word, token, 1);
}

/// Each of the sixteen reserved words has its own category.
pub proof fn law_keywords()
    ensures
        keyword("and"@) == Some(TokenKind::And),
        keyword("class"@) == Some(TokenKind::Class),
        keyword("else"@) == Some(TokenKind::Else),
        keyword("false"@) == Some(TokenKind::False),
        keyword("for"@) == Some(TokenKind::For),
        keyword("fun"@) == Some(TokenKind::Fun),
        keyword("if"@) == Some(TokenKind::If),
        keyword("nil"@) == Some(TokenKind::Nil),
        keyword("or"@) == Some(TokenKind::Or),
        keyword("print"@) == Some(TokenKind::Print),
        keyword("return"@) == Some(TokenKind::Return),
        keyword("super"@) == Some(TokenKind::Super),
        keyword("this"@) == Some(TokenKind::This),
        keyword("true"@) == Some(TokenKind::True),
        keyword("var"@) == Some(TokenKind::Var),
        keyword("while"@) == Some(TokenKind::While),
{
    reveal_strlit("and");
    reveal_strlit("class");
    reveal_strlit("else");
    reveal_strlit("false");
    reveal_strlit("for");
    reveal_strlit("fun");
    reveal_strlit("if");
    reveal_strlit("nil");
    reveal_strlit("or");
    reveal_strlit("print");
    reveal_strlit("return");
    reveal_strlit("super");
    reveal_strlit("this");
    reveal_strlit("true");
    reveal_strlit("var");
    reveal_strlit("while");
    // No two of the words begin with the same two characters.
    assert("and"@[0] == 'a' && "and"@[1] == 'n');
    assert("class"@[0] == 'c' && "class"@[1] == 'l');
    assert("else"@[0] == 'e' && "else"@[1] == 'l');
    assert("false"@[0] == 'f' && "false"@[1] == 'a');
    assert("for"@[0] == 'f' && "for"@[1] == 'o');
    assert("fun"@[0] == 'f' && "fun"@[1] == 'u');
    assert("if"@[0] == 'i' && "if"@[1] == 'f');
    assert("nil"@[0] == 'n' && "nil"@[1] == 'i');
    assert("or"@[0] == 'o' && "or"@[1] == 'r');
    assert("print"@[0] == 'p' && "print"@[1] == 'r');
    assert("return"@[0] == 'r' && "return"@[1] == 'e');
    assert("super"@[0] == 's' && "super"@[1] == 'u');
    assert("this"@[0] == 't' && "this"@[1] == 'h');
    assert("true"@[0] == 't' && "true"@[1] == 'r');
    assert("var"@[0] == 'v' && "var"@[1] == 'a');
    assert("while"@[0] == 'w' && "while"@[1] == 'h');
}

/// Whether no line feed of `s` is taken for alphanumeric.
pub open spec fn line_feeds_end_words(s: Seq<Symbol>) -> bool {
    forall|k: int| 0 <= k < s.len() && (#[trigger] s[k]).c == '\n' ==> !s[k].alphanumeric
}

/// What the scanner takes for one token or skips holds as many line feeds
/// as the line counter moves on by.
proof fn lemma_lexed_lines(s: Seq<Symbol>, pos: int, line: nat)
    requires
        0 <= pos < s.len(),
        line_feeds_end_words(s),
    ensures
        (match lex_at(s, pos, line) {
            Lexed::Token { token, next, line: after } => after == line + count_newlines(
                s,
                pos,
                next,
            ) && token.line == after,
            Lexed::Skipped { next, line: after } => after == line + count_newlines(s, pos, next),
            Lexed::Failed { .. } => true,
        }),
{
    lemma_lex_advances(s, pos, line);
    let c = s[pos].c;
    assert(count_newlines(s, pos, pos) == 0);
    assert(count_newlines(s, pos, pos + 1) == if c == '\n' {
        1nat
    } else {
        0nat
    });
    match lex_at(s, pos, line) {
        Lexed::Token { token, next, line: after } => {
            if c == '"' {
                lemma_run_end_bounds(s, pos + 1, |x: Symbol| x.c != '"');
                lemma_count_split(s, pos, pos + 1, next);
                lemma_count_split(s, pos + 1, next - 1, next);
                assert(count_newlines(s, next - 1, next) == 0) by {
                    lemma_run_members(s, pos + 1, |x: Symbol| x.c != '"');
                    lemma_count_none(s, next - 1, next);
                }
            } else if is_digit(c) {
                lemma_run_members(s, pos, |x: Symbol| is_digit(x.c));
                let whole = digits_end(s, pos);
                lemma_run_end_bounds(s, pos, |x: Symbol| is_digit(x.c));
                lemma_run_members(s, whole + 1, |x: Symbol| is_digit(x.c));
                lemma_count_none(s, pos, next);
            } else if operator(c, false) is Some || punctuation(c) is Some || c == '/' {
                lemma_count_none(s, pos, next);
            } else {
                lemma_run_members(s, pos + 1, |x: Symbol| is_word_part(x));
                lemma_count_none(s, pos, next);
            }
        },
        Lexed::Skipped { next, line: after } => {
            if c == '/' {
                lemma_run_members(s, pos + 2, |x: Symbol| x.c != '\n');
                lemma_count_none(s, pos, next);
            }
        },
        Lexed::Failed { .. } => {},
    }
}

/// The line counter counts line feeds. Where no line feed is taken for
/// alphanumeric, the line of each token that the scanner yields is the line
/// that its last character is on, and the end-of-input token is on the last
/// line of the text: the line at `pos` and one more for each line feed
/// passed.
pub proof fn law_lines_count_line_feeds(s: Seq<Symbol>, pos: int, line: nat)
    requires
        0 <= pos <= s.len(),
        line_feeds_end_words(s),
    ensures
        (match next_step(s, pos, line) {
            Step::Token { token, next, line: after } => after == line + count_newlines(
                s,
                pos,
                next,
            ) && token.line == after,
            Step::End { line: after } => after == line + count_newlines(s, pos, s.len() as int),
            Step::Failed { .. } => true,
        }),
    decreases s.len() - pos,
{
    if pos < s.len() {
        lemma_lex_advances(s, pos, line);
        lemma_lexed_lines(s, pos, line);
        if let Lexed::Skipped { next, line: after } = lex_at(s, pos, line) {
            law_lines_count_line_feeds(s, next, after);
            match next_step(s, next, after) {
                Step::Token { next: end, .. } => {
                    lemma_step_advances(s, next, after);
                    lemma_count_split(s, pos, next, end);
                },
                Step::End { .. } => {
                    lemma_count_split(s, pos, next, s.len() as int);
                },
                Step::Failed { .. } => {},
            }
        }
    }
}

/// The line counter never goes back: what the scanner yields from a place
/// on line `line` is on that line or on a later one.
pub proof fn lemma_step_keeps_line(s: Seq<Symbol>, pos: int, line: nat)
    ensures
        (match next_step(s, pos, line) {
            Step::Token { token, line: after, .. } => line <= after && token.line == after,
            Step::End { line: after } => line <= after,
            Step::Failed { error } => error matches ErrorView::Source { line: reported, .. }
                && line <= reported,
        }),
    decreases s.len() - pos,
{
    if 0 <= pos < s.len() {
        lemma_lex_advances(s, pos, line);
        if let Lexed::Skipped { next, line: after } = lex_at(s, pos, line) {
            lemma_step_keeps_line(s, next, after);
        }
    }
}

/// The tokens of a scan stand in the order of their lines, from the line
/// where the scan starts on: no token is on an earlier line than the one
/// before it, and the end-of-input token is on the last line that the scan
/// reached. A fault is reported on the line where the scan starts or on a
/// later one.
pub proof fn law_lines_never_decrease(s: Seq<Symbol>, pos: int, line: nat)
    ensures
        (match scan_from(s, pos, line) {
            Ok(tokens) => {
                &&& forall|i: int| 0 <= i < tokens.len() ==> line <= (#[trigger] tokens[i]).line
                &&& forall|i: int, j: int|
                    0 <= i <= j < tokens.len() ==> (#[trigger] tokens[i]).line <= (
                    #[trigger] tokens[j]).line
            },
            Err(error) => error matches ErrorView::Source { line: reported, .. } && line
                <= reported,
        }),
    decreases s.len() - pos,
{
    lemma_step_keeps_line(s, pos, line);
    if let Step::Token { token, next, line: after } = next_step(s, pos, line) {
        lemma_step_advances(s, pos, line);
        law_lines_never_decrease(s, next, after);
        if let Ok(rest) = scan_from(s, next, after) {
            let tokens = seq![token] + rest;
            assert forall|i: int| 0 <= i < tokens.len() implies line <= (
            #[trigger] tokens[i]).line by {
                if i > 0 {
                    assert(tokens[i] == rest[i - 1]);
                }
            }
            assert forall|i: int, j: int| 0 <= i <= j < tokens.len() implies (
            #[trigger] tokens[i]).line <= (#[trigger] tokens[j]).line by {
                if i > 0 {
                    assert(tokens[i] == rest[i - 1]);
                    assert(tokens[j] == rest[j - 1]);
                } else if j > 0 {
                    assert(tokens[j] == rest[j - 1]);
                }
            }
        }
    }
}

/// No token that the scanner finds in the text is the end-of-input token.
pub proof fn lemma_tokens_are_not_eof(s: Seq<Symbol>, pos: int, line: nat)
    ensures
        next_step(s, pos, line) matches Step::Token { token, .. } ==> !(token.kind is EOF),
    decreases s.len() - pos,
{
    if 0 <= pos < s.len() {
        lemma_lex_advances(s, pos, line);
        if let Lexed::Skipped { next, line: line_after } = lex_at(s, pos, line) {
            lemma_tokens_are_not_eof(s, next, line_after);
        }
    }
}

/// Every scan that succeeds ends with the end-of-input token, and holds no
/// other.
pub proof fn law_one_eof_ends_the_scan(s: Seq<Symbol>, pos: int, line: nat)
    ensures
        scan_from(s, pos, line) matches Ok(tokens) ==> ({
            &&& tokens.len() >= 1
            &&& tokens.last().kind is EOF
            &&& tokens.last().lexeme == Seq::<char>::empty()
            &&& forall|i: int| 0 <= i < tokens.len() - 1 ==> !((#[trigger] tokens[i]).kind is EOF)
        }),
    decreases s.len() - pos,
{
    if let Step::Token { token, next, line: line_after } = next_step(s, pos, line) {
        lemma_step_advances(s, pos, line);
        lemma_tokens_are_not_eof(s, pos, line);
        law_one_eof_ends_the_scan(s, next, line_after);
        if let Ok(rest) = scan_from(s, next, line_after) {
            let tokens = seq![token] + rest;
            assert(tokens.last() == rest.last());
            assert forall|i: int| 0 <= i < tokens.len() - 1 implies !((
            #[trigger] tokens[i]).kind is EOF) by {
                if i > 0 {
                    assert(tokens[i] == rest[i - 1]);
                }
            }
        }
    }
}

} // verus!
