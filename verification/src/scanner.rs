//! The scanner: source text to tokens.
//!
//! A number token needs the value of its lexeme as a double, which the
//! embedding program computes. `scan_tokens` therefore stops at each
//! number, `pending_number` hands out its text, `add_number` takes the
//! value and adds the token, and `scan_tokens` goes on from there.

use vstd::prelude::*;
use vstd::std_specs::iter::IteratorSpec;
use crate::error::{LoxError, LoxErrorType, Message};
use crate::number::Number;
use crate::text::collect;
use crate::token::{Literal, LiteralView, Token, TokenType, TokenView};

verus! {

pub open spec fn is_digit(c: char) -> bool {
    '0' <= c <= '9'
}

/// The characters of identifiers and keywords: ASCII letters, digits and
/// the underscore.
pub open spec fn is_identifier_char(c: char) -> bool {
    ('a' <= c <= 'z') || ('A' <= c <= 'Z') || is_digit(c) || c == '_'
}

/// Whether the character at `i` exists and is `c`.
pub open spec fn at(s: Seq<char>, i: nat, c: char) -> bool {
    i < s.len() && s[i as int] == c
}

/// The first place at or after `i` whose character does not satisfy
/// `keep`, or the length of `s`.
pub open spec fn span(s: Seq<char>, i: nat, keep: spec_fn(char) -> bool) -> nat
    decreases s.len() - i,
{
    if i < s.len() && keep(s[i as int]) {
        span(s, i + 1, keep)
    } else {
        i
    }
}

/// The number of line feeds in `s[from..to]`.
pub open spec fn line_feeds(s: Seq<char>, from: nat, to: nat) -> nat
    decreases to - from,
{
    if from < to && to <= s.len() {
        line_feeds(s, from + 1, to) + if s[from as int] == '\n' {
            1nat
        } else {
            0nat
        }
    } else {
        0
    }
}

/// Where a block comment leaves the scanner.
pub ghost struct CommentEnd {
    pub closed: bool,
    pub end: nat,
    pub line: nat,
}

/// Reads on inside a block comment that is `depth` levels deep: `/*` opens
/// a further level, `*/` closes one, and the comment ends where the depth
/// reaches zero. It is not closed if the text ends first.
pub open spec fn block_comment(s: Seq<char>, i: nat, depth: nat, line: nat) -> CommentEnd
    decreases s.len() - i,
{
    if depth == 0 {
        CommentEnd { closed: true, end: i, line }
    } else if i >= s.len() {
        CommentEnd { closed: false, end: i, line }
    } else if s[i as int] == '/' && at(s, i + 1, '*') {
        block_comment(s, i + 2, depth + 1, line)
    } else if s[i as int] == '*' && at(s, i + 1, '/') {
        block_comment(s, i + 2, (depth - 1) as nat, line)
    } else if s[i as int] == '\n' {
        block_comment(s, i + 1, depth, line + 1)
    } else {
        block_comment(s, i + 1, depth, line)
    }
}

/// The end of the number that starts at `start`: digits, and a fraction if
/// a dot is followed by a digit.
pub open spec fn number_end(s: Seq<char>, start: nat) -> nat {
    let whole = span(s, start, |c: char| is_digit(c));
    if at(s, whole, '.') && whole + 1 < s.len() && is_digit(s[whole + 1 as int]) {
        span(s, whole + 1, |c: char| is_digit(c))
    } else {
        whole
    }
}

/// The kind of token that the text of an identifier stands for.
pub open spec fn keyword(text: Seq<char>) -> TokenType {
    if text == "and"@ {
        TokenType::And
    } else if text == "class"@ {
        TokenType::Class
    } else if text == "else"@ {
        TokenType::Else
    } else if text == "false"@ {
        TokenType::False
    } else if text == "for"@ {
        TokenType::For
    } else if text == "fun"@ {
        TokenType::Fun
    } else if text == "if"@ {
        TokenType::If
    } else if text == "nil"@ {
        TokenType::Nil
    } else if text == "or"@ {
        TokenType::Or
    } else if text == "print"@ {
        TokenType::Print
    } else if text == "return"@ {
        TokenType::Return
    } else if text == "super"@ {
        TokenType::Super
    } else if text == "this"@ {
        TokenType::This
    } else if text == "true"@ {
        TokenType::True
    } else if text == "var"@ {
        TokenType::Var
    } else if text == "while"@ {
        TokenType::While
    } else if text == "break"@ {
        TokenType::Break
    } else {
        TokenType::Identifier
    }
}

/// `this` and `super` are keywords: no identifier has their text.
pub proof fn this_and_super_are_no_identifiers(text: Seq<char>)
    requires
        keyword(text) == TokenType::Identifier,
    ensures
        text != "this"@,
        text != "super"@,
{
}

/// What one step of the scanner finds at a place.
pub ghost enum Lexeme {
    /// A token without a value.
    Plain(TokenType),
    /// A string token; its value is the text between the quotes.
    Text,
    /// A number token, whose value is still to come.
    Numeral,
    /// White space or a comment.
    Skipped,
    /// A lexical error.
    Fault(Message),
}

/// A lexeme with the place and the line after it.
pub ghost struct Lexed {
    pub kind: Lexeme,
    /// The place after the lexeme.
    pub end: nat,
    /// The line after the lexeme.
    pub line: nat,
}

/// The lexeme that starts at `start`, on line `line`.
pub open spec fn lex(s: Seq<char>, start: nat, line: nat) -> Lexed
    recommends
        start < s.len(),
{
    let c = s[start as int];
    let next = start + 1;
    let plain = |t: TokenType| Lexed { kind: Lexeme::Plain(t), end: next, line };
    let double = |t: TokenType| Lexed { kind: Lexeme::Plain(t), end: next + 1, line };
    if c == '(' {
        plain(TokenType::LeftBracket)
    } else if c == ')' {
        plain(TokenType::RightBracket)
    } else if c == '{' {
        plain(TokenType::LeftBrace)
    } else if c == '}' {
        plain(TokenType::RightBrace)
    } else if c == ',' {
        plain(TokenType::Comma)
    } else if c == '.' {
        plain(TokenType::Dot)
    } else if c == '+' {
        plain(TokenType::Plus)
    } else if c == '-' {
        plain(TokenType::Minus)
    } else if c == '*' {
        plain(TokenType::Star)
    } else if c == ';' {
        plain(TokenType::Semicolon)
    } else if c == '!' {
        if at(s, next, '=') {
            double(TokenType::BangEqual)
        } else {
            plain(TokenType::Bang)
        }
    } else if c == '=' {
        if at(s, next, '=') {
            double(TokenType::EqualEqual)
        } else {
            plain(TokenType::Assign)
        }
    } else if c == '<' {
        if at(s, next, '=') {
            double(TokenType::LessEqual)
        } else {
            plain(TokenType::Less)
        }
    } else if c == '>' {
        if at(s, next, '=') {
            double(TokenType::GreaterEqual)
        } else {
            plain(TokenType::Greater)
        }
    } else if c == '/' {
        if at(s, next, '/') {
            Lexed { kind: Lexeme::Skipped, end: span(s, next + 1, |c: char| c != '\n'), line }
        } else if at(s, next, '*') {
            let comment = block_comment(s, next + 1, 1, line);
            Lexed {
                kind: if comment.closed {
                    Lexeme::Skipped
                } else {
                    Lexeme::Fault(Message::UnterminatedBlockComment)
                },
                end: comment.end,
                line: comment.line,
            }
        } else {
            plain(TokenType::Slash)
        }
    } else if c == ' ' || c == '\r' || c == '\t' {
        Lexed { kind: Lexeme::Skipped, end: next, line }
    } else if c == '\n' {
        Lexed { kind: Lexeme::Skipped, end: next, line: line + 1 }
    } else if c == '"' {
        let close = span(s, next, |c: char| c != '"');
        let line = line + line_feeds(s, next, close);
        if close < s.len() {
            Lexed { kind: Lexeme::Text, end: close + 1, line }
        } else {
            Lexed { kind: Lexeme::Fault(Message::UnterminatedString), end: close, line }
        }
    } else if is_digit(c) {
        Lexed { kind: Lexeme::Numeral, end: number_end(s, start), line }
    } else if is_identifier_char(c) {
        let end = span(s, next, |c: char| is_identifier_char(c));
        Lexed { kind: Lexeme::Plain(keyword(s.subrange(start as int, end as int))), end, line }
    } else {
        Lexed { kind: Lexeme::Fault(Message::UnexpectedCharacter), end: next, line }
    }
}

/// How a run of the scanner ends.
pub ghost enum ScanEnd {
    /// The text is used up and the end-of-file token is added.
    Finished,
    /// A number was read; its text is `source[start..current]`.
    Number,
    /// A lexical error, reported with the line that the scanner is on.
    Failed(Message),
}

/// The outcome of a run of the scanner: the tokens so far, where the
/// scanner stands, and how the run ended.
pub ghost struct Scan {
    pub tokens: Seq<TokenView>,
    pub start: nat,
    pub current: nat,
    pub line: nat,
    pub end: ScanEnd,
}

/// The token for the lexeme `s[start..end]`.
pub open spec fn token_of(s: Seq<char>, start: nat, lexed: Lexed) -> TokenView {
    TokenView {
        token_type: match lexed.kind {
            Lexeme::Plain(t) => t,
            Lexeme::Text => TokenType::String,
            _ => TokenType::Number,
        },
        lexeme: s.subrange(start as int, lexed.end as int),
        literal: match lexed.kind {
            Lexeme::Text => Some(LiteralView::String(s.subrange(start + 1 as int, lexed.end - 1))),
            _ => None,
        },
        line: lexed.line as usize,
    }
}

/// The end-of-file token on line `line`.
pub open spec fn eof_token(line: nat) -> TokenView {
    TokenView { token_type: TokenType::Eof, lexeme: Seq::empty(), literal: None, line: line as usize }
}

/// A run of the scanner from `current` on line `line`, with `tokens`
/// already made, `start` being where the last lexeme began: it adds the
/// tokens of the lexemes it meets until the text ends, a number is read or
/// a lexeme is faulty.
pub open spec fn scan(s: Seq<char>, tokens: Seq<TokenView>, start: nat, current: nat, line: nat) -> Scan
    decreases s.len() - current,
{
    if current >= s.len() {
        Scan { tokens: tokens.push(eof_token(line)), start, current, line, end: ScanEnd::Finished }
    } else {
        let lexed = lex(s, current, line);
        proof {
            lex_advances(s, current, line);
        }
        match lexed.kind {
            Lexeme::Plain(_) | Lexeme::Text => scan(
                s,
                tokens.push(token_of(s, current, lexed)),
                current,
                lexed.end,
                lexed.line,
            ),
            Lexeme::Skipped => scan(s, tokens, current, lexed.end, lexed.line),
            Lexeme::Numeral => Scan {
                tokens,
                start: current,
                current: lexed.end,
                line: lexed.line,
                end: ScanEnd::Number,
            },
            Lexeme::Fault(m) => Scan {
                tokens,
                start: current,
                current: lexed.end,
                line: lexed.line,
                end: ScanEnd::Failed(m),
            },
        }
    }
}

/// `span` never moves backwards and stays within the text.
pub proof fn span_bounds(s: Seq<char>, i: nat, keep: spec_fn(char) -> bool)
    requires
        i <= s.len(),
    ensures
        i <= span(s, i, keep) <= s.len(),
    decreases s.len() - i,
{
    if i < s.len() && keep(s[i as int]) {
        span_bounds(s, i + 1, keep);
    }
}

/// A block comment ends within the text, and counts a line for at most
/// every character it reads.
pub proof fn block_comment_bounds(s: Seq<char>, i: nat, depth: nat, line: nat)
    requires
        i <= s.len(),
    ensures
        i <= block_comment(s, i, depth, line).end <= s.len(),
        line <= block_comment(s, i, depth, line).line <= line + (block_comment(
            s,
            i,
            depth,
            line,
        ).end - i),
    decreases s.len() - i,
{
    if depth == 0 {
    } else if i >= s.len() {
    } else if s[i as int] == '/' && at(s, i + 1, '*') {
        block_comment_bounds(s, i + 2, depth + 1, line);
    } else if s[i as int] == '*' && at(s, i + 1, '/') {
        block_comment_bounds(s, i + 2, (depth - 1) as nat, line);
    } else if s[i as int] == '\n' {
        block_comment_bounds(s, i + 1, depth, line + 1);
    } else {
        block_comment_bounds(s, i + 1, depth, line);
    }
}

/// There are no more line feeds in a stretch of text than characters.
pub proof fn line_feeds_bound(s: Seq<char>, from: nat, to: nat)
    ensures
        line_feeds(s, from, to) <= to - from || to < from,
    decreases to - from,
{
    if from < to && to <= s.len() {
        line_feeds_bound(s, from + 1, to);
    }
}

/// Every lexeme holds at least one character, ends within the text, and
/// counts a line for at most every character it holds.
pub proof fn lex_advances(s: Seq<char>, start: nat, line: nat)
    requires
        start < s.len(),
    ensures
        start < lex(s, start, line).end <= s.len(),
        line <= lex(s, start, line).line <= line + (lex(s, start, line).end - start),
{
    let next = start + 1;
    span_bounds(s, next, |c: char| c != '"');
    span_bounds(s, next, |c: char| is_identifier_char(c));
    if next < s.len() {
        span_bounds(s, next + 1, |c: char| c != '\n');
        block_comment_bounds(s, next + 1, 1, line);
    }
    line_feeds_bound(s, next, span(s, next, |c: char| c != '"'));
    let whole = span(s, start, |c: char| is_digit(c));
    span_bounds(s, start, |c: char| is_digit(c));
    if whole + 1 <= s.len() {
        span_bounds(s, whole + 1, |c: char| is_digit(c));
    }
}

/// A run that uses the text up ends in the end-of-file token.
pub proof fn finished_scan_ends_in_eof(
    s: Seq<char>,
    tokens: Seq<TokenView>,
    start: nat,
    current: nat,
    line: nat,
)
    ensures
        scan(s, tokens, start, current, line).end is Finished ==> scan(
            s,
            tokens,
            start,
            current,
            line,
        ).tokens.len() > 0 && scan(s, tokens, start, current, line).tokens.last() == eof_token(
            scan(s, tokens, start, current, line).line,
        ),
    decreases s.len() - current,
{
    if current < s.len() {
        let lexed = lex(s, current, line);
        lex_advances(s, current, line);
        match lexed.kind {
            Lexeme::Plain(_) | Lexeme::Text => {
                finished_scan_ends_in_eof(
                    s,
                    tokens.push(token_of(s, current, lexed)),
                    current,
                    lexed.end,
                    lexed.line,
                );
            },
            Lexeme::Skipped => {
                finished_scan_ends_in_eof(s, tokens, current, lexed.end, lexed.line);
            },
            _ => {},
        }
    }
}

/// The views of the tokens, in order.
pub open spec fn views(tokens: Seq<Token>) -> Seq<TokenView> {
    tokens.map_values(|t: Token| t@)
}

/// The token of a number whose text is `source[start..current]`.
pub open spec fn number_token(
    source: Seq<char>,
    start: usize,
    current: usize,
    line: usize,
    value: Number,
) -> TokenView {
    TokenView {
        token_type: TokenType::Number,
        lexeme: source.subrange(start as int, current as int),
        literal: Some(LiteralView::Number(value)),
        line,
    }
}

/// The scanner: the characters of the source, the tokens made so far, the
/// start of the lexeme being read, the place of the next character, and
/// the current line.
#[derive(Debug)]
pub struct Scanner {
    pub source: Vec<char>,
    pub tokens: Vec<Token>,
    pub start: usize,
    pub current: usize,
    pub line: usize,
}

fn is_digit_char(c: char) -> (b: bool)
    ensures
        b == is_digit(c),
{
    '0' <= c && c <= '9'
}

fn is_valid_for_lox_identifier(c: char) -> (b: bool)
    ensures
        b == is_identifier_char(c),
{
    ('a' <= c && c <= 'z') || ('A' <= c && c <= 'Z') || is_digit_char(c) || c == '_'
}

fn match_lox_keyword(text: &String) -> (t: TokenType)
    ensures
        t == keyword(text@),
{
    if *text == String::from_str("and") {
        TokenType::And
    } else if *text == String::from_str("class") {
        TokenType::Class
    } else if *text == String::from_str("else") {
        TokenType::Else
    } else if *text == String::from_str("false") {
        TokenType::False
    } else if *text == String::from_str("for") {
        TokenType::For
    } else if *text == String::from_str("fun") {
        TokenType::Fun
    } else if *text == String::from_str("if") {
        TokenType::If
    } else if *text == String::from_str("nil") {
        TokenType::Nil
    } else if *text == String::from_str("or") {
        TokenType::Or
    } else if *text == String::from_str("print") {
        TokenType::Print
    } else if *text == String::from_str("return") {
        TokenType::Return
    } else if *text == String::from_str("super") {
        TokenType::Super
    } else if *text == String::from_str("this") {
        TokenType::This
    } else if *text == String::from_str("true") {
        TokenType::True
    } else if *text == String::from_str("var") {
        TokenType::Var
    } else if *text == String::from_str("while") {
        TokenType::While
    } else if *text == String::from_str("break") {
        TokenType::Break
    } else {
        TokenType::Identifier
    }
}

/// How a call of `scan_tokens` ended.
#[derive(Clone, Copy, Debug, PartialEq, Eq, Structural)]
pub enum Scanned {
    /// The text is used up and the end-of-file token is added.
    Finished,
    /// A number was read, and its token waits for `add_number`.
    Number,
}

/// What `scan_token` found.
enum Found {
    Token,
    Nothing,
    Number,
}

impl Scanner {
    /// The scanner keeps within the text and has counted no more lines
    /// than it has read characters.
    pub open spec fn wf(&self) -> bool {
        &&& self.start <= self.current <= self.source@.len()
        &&& self.source@.len() < usize::MAX
        &&& 1 <= self.line <= self.current + 1
    }

    /// A scanner at the start of `source`, on line 1, with no tokens.
    pub fn new(source: &str) -> (scanner: Scanner)
        requires
            source@.len() < usize::MAX,
        ensures
            scanner.wf(),
            scanner.source@ == source@,
            scanner.tokens@.len() == 0,
            scanner.start == 0,
            scanner.current == 0,
            scanner.line == 1,
    {
        let mut chars: Vec<char> = Vec::new();
        let mut it = source.chars();
        loop
            invariant
                chars@ + it.remaining() == source@,
                it.obeys_prophetic_iter_laws(),
                it.decrease() is Some,
            ensures
                chars@ == source@,
            decreases it.decrease()->0,
        {
            match it.next() {
                Some(c) => {
                    chars.push(c);
                },
                None => {
                    assert(it.remaining().len() == 0);
                    break ;
                },
            }
        }
        Scanner { source: chars, tokens: Vec::new(), start: 0, current: 0, line: 1 }
    }

    /// The tokens made so far.
    pub fn tokens(&self) -> (tokens: &Vec<Token>)
        ensures
            *tokens == self.tokens,
    {
        &self.tokens
    }

    /// The text of the lexeme last read; after `scan_tokens` has stopped
    /// at a number, the text of that number.
    pub fn pending_number(&self) -> (text: String)
        requires
            self.wf(),
        ensures
            text@ == self.source@.subrange(self.start as int, self.current as int),
    {
        collect(&self.source, self.start, self.current)
    }

    /// Adds the number token for the lexeme last read, with `value` as its
    /// value.
    pub fn add_number(&mut self, value: Number)
        requires
            old(self).wf(),
        ensures
            final(self).wf(),
            final(self).source == old(self).source,
            final(self).start == old(self).start,
            final(self).current == old(self).current,
            final(self).line == old(self).line,
            views(final(self).tokens@) == views(old(self).tokens@).push(
                number_token(
                    old(self).source@,
                    old(self).start,
                    old(self).current,
                    old(self).line,
                    value,
                ),
            ),
    {
        self.add_token_and_literal(TokenType::Number, Some(Literal::Number(value)));
    }

    /// Scans on from where the scanner stands, until the text is used up,
    /// a number is read, or a lexeme is faulty. The error for a faulty
    /// lexeme carries the line that the scanner is on then.
    pub fn scan_tokens(&mut self) -> (res: Result<Scanned, LoxError>)
        requires
            old(self).wf(),
        ensures
            final(self).wf(),
            final(self).source == old(self).source,
            ({
                let run = scan(
                    old(self).source@,
                    views(old(self).tokens@),
                    old(self).start as nat,
                    old(self).current as nat,
                    old(self).line as nat,
                );
                &&& views(final(self).tokens@) == run.tokens
                &&& final(self).start == run.start
                &&& final(self).current == run.current
                &&& final(self).line == run.line
                &&& match res {
                    Ok(Scanned::Number) => run.end is Number,
                    Ok(Scanned::Finished) => run.end is Finished,
                    Err(e) => match run.end {
                        ScanEnd::Failed(m) => e == LoxError(
                            LoxErrorType::GeneralErr { line: final(self).line, message: m },
                        ),
                        _ => false,
                    },
                }
            }),
    {
        let ghost goal = scan(
            self.source@,
            views(self.tokens@),
            self.start as nat,
            self.current as nat,
            self.line as nat,
        );
        while !self.is_at_end()
            invariant
                self.wf(),
                self.source == old(self).source,
                scan(
                    self.source@,
                    views(self.tokens@),
                    self.start as nat,
                    self.current as nat,
                    self.line as nat,
                ) == goal,
                goal == scan(
                    old(self).source@,
                    views(old(self).tokens@),
                    old(self).start as nat,
                    old(self).current as nat,
                    old(self).line as nat,
                ),
            decreases self.source@.len() - self.current,
        {
            proof {
                lex_advances(self.source@, self.current as nat, self.line as nat);
            }
            self.start = self.current;
            match self.scan_token() {
                Ok(Found::Number) => {
                    return Ok(Scanned::Number);
                },
                Ok(_) => {},
                Err(e) => {
                    return Err(e);
                },
            }
        }
        let eof = Token::new_eof(self.line);
        proof {
            assert(views(self.tokens@.push(eof)) =~= views(self.tokens@).push(eof@));
        }
        self.tokens.push(eof);
        Ok(Scanned::Finished)
    }

    fn is_at_end(&self) -> (b: bool)
        ensures
            b == (self.current >= self.source@.len()),
    {
        self.current >= self.source.len()
    }

    /// Reads the lexeme that starts at `current`.
    fn scan_token(&mut self) -> (res: Result<Found, LoxError>)
        requires
            old(self).wf(),
            old(self).start == old(self).current,
            old(self).current < old(self).source@.len(),
        ensures
            final(self).wf(),
            final(self).source == old(self).source,
            final(self).start == old(self).start,
            ({
                let lexed = lex(
                    old(self).source@,
                    old(self).current as nat,
                    old(self).line as nat,
                );
                &&& final(self).current == lexed.end
                &&& final(self).line == lexed.line
                &&& match lexed.kind {
                    Lexeme::Plain(_) | Lexeme::Text => res matches Ok(Found::Token) && views(
                        final(self).tokens@,
                    ) == views(old(self).tokens@).push(
                        token_of(old(self).source@, old(self).start as nat, lexed),
                    ),
                    Lexeme::Skipped => res matches Ok(Found::Nothing) && final(self).tokens
                        == old(self).tokens,
                    Lexeme::Numeral => res matches Ok(Found::Number) && final(self).tokens == old(
                        self,
                    ).tokens,
                    Lexeme::Fault(m) => res matches Err(e) && e == LoxError(
                        LoxErrorType::GeneralErr { line: final(self).line, message: m },
                    ) && final(self).tokens == old(self).tokens,
                }
            }),
    {
        proof {
            lex_advances(self.source@, self.current as nat, self.line as nat);
        }
        let c = self.advance();
        if c == '(' {
            self.add_token(TokenType::LeftBracket);
        } else if c == ')' {
            self.add_token(TokenType::RightBracket);
        } else if c == '{' {
            self.add_token(TokenType::LeftBrace);
        } else if c == '}' {
            self.add_token(TokenType::RightBrace);
        } else if c == ',' {
            self.add_token(TokenType::Comma);
        } else if c == '.' {
            self.add_token(TokenType::Dot);
        } else if c == '+' {
            self.add_token(TokenType::Plus);
        } else if c == '-' {
            self.add_token(TokenType::Minus);
        } else if c == '*' {
            self.add_token(TokenType::Star);
        } else if c == ';' {
            self.add_token(TokenType::Semicolon);
        } else if c == '!' {
            let token = if self.is_match('=') {
                TokenType::BangEqual
            } else {
                TokenType::Bang
            };
            self.add_token(token);
        } else if c == '=' {
            let token = if self.is_match('=') {
                TokenType::EqualEqual
            } else {
                TokenType::Assign
            };
            self.add_token(token);
        } else if c == '<' {
            let token = if self.is_match('=') {
                TokenType::LessEqual
            } else {
                TokenType::Less
            };
            self.add_token(token);
        } else if c == '>' {
            let token = if self.is_match('=') {
                TokenType::GreaterEqual
            } else {
                TokenType::Greater
            };
            self.add_token(token);
        } else if c == '/' {
            if self.is_match('/') {
                self.line_comment();
                return Ok(Found::Nothing);
            } else if self.is_match('*') {
                return self.comment();
            } else {
                self.add_token(TokenType::Slash);
            }
        } else if c == ' ' || c == '\r' || c == '\t' {
            return Ok(Found::Nothing);
        } else if c == '\n' {
            self.line += 1;
            return Ok(Found::Nothing);
        } else if c == '"' {
            return self.string();
        } else if is_digit_char(c) {
            self.number();
            return Ok(Found::Number);
        } else if is_valid_for_lox_identifier(c) {
            self.identifier();
        } else {
            return Err(LoxError::general_error(self.line, Message::UnexpectedCharacter));
        }
        Ok(Found::Token)
    }

    /// Reads to the end of the line.
    fn line_comment(&mut self)
        requires
            old(self).wf(),
        ensures
            final(self).wf(),
            final(self).source == old(self).source,
            final(self).tokens == old(self).tokens,
            final(self).start == old(self).start,
            final(self).line == old(self).line,
            final(self).current == span(
                old(self).source@,
                old(self).current as nat,
                |c: char| c != '\n',
            ),
    {
        while self.current < self.source.len() && self.source[self.current] != '\n'
            invariant
                self.wf(),
                self.source == old(self).source,
                self.tokens == old(self).tokens,
                self.start == old(self).start,
                self.line == old(self).line,
                span(self.source@, self.current as nat, |c: char| c != '\n') == span(
                    old(self).source@,
                    old(self).current as nat,
                    |c: char| c != '\n',
                ),
            decreases self.source@.len() - self.current,
        {
            self.current += 1;
        }
    }

    /// Reads an identifier or keyword, whose first character is read.
    fn identifier(&mut self)
        requires
            old(self).wf(),
            old(self).start < old(self).current,
        ensures
            final(self).wf(),
            final(self).source == old(self).source,
            final(self).start == old(self).start,
            final(self).line == old(self).line,
            final(self).current == span(
                old(self).source@,
                old(self).current as nat,
                |c: char| is_identifier_char(c),
            ),
            views(final(self).tokens@) == views(old(self).tokens@).push(
                TokenView {
                    token_type: keyword(
                        old(self).source@.subrange(
                            old(self).start as int,
                            final(self).current as int,
                        ),
                    ),
                    lexeme: old(self).source@.subrange(
                        old(self).start as int,
                        final(self).current as int,
                    ),
                    literal: None,
                    line: old(self).line,
                },
            ),
    {
        while self.current < self.source.len() && is_valid_for_lox_identifier(
            self.source[self.current],
        )
            invariant
                self.wf(),
                self.source == old(self).source,
                self.tokens == old(self).tokens,
                self.start == old(self).start,
                self.line == old(self).line,
                span(self.source@, self.current as nat, |c: char| is_identifier_char(c)) == span(
                    old(self).source@,
                    old(self).current as nat,
                    |c: char| is_identifier_char(c),
                ),
            decreases self.source@.len() - self.current,
        {
            self.current += 1;
        }
        let text = collect(&self.source, self.start, self.current);
        self.add_token(match_lox_keyword(&text));
    }

    /// Reads a number, whose first digit is read.
    fn number(&mut self)
        requires
            old(self).wf(),
            old(self).start + 1 == old(self).current,
            is_digit(old(self).source@[old(self).start as int]),
        ensures
            final(self).wf(),
            final(self).source == old(self).source,
            final(self).tokens == old(self).tokens,
            final(self).start == old(self).start,
            final(self).line == old(self).line,
            final(self).current == number_end(old(self).source@, old(self).start as nat),
    {
        self.digits();
        if self.current < self.source.len() && self.source[self.current] == '.' && self.current + 1
            < self.source.len() && is_digit_char(self.source[self.current + 1]) {
            self.current += 1;
            self.digits();
        }
    }

    fn digits(&mut self)
        requires
            old(self).wf(),
        ensures
            final(self).wf(),
            final(self).source == old(self).source,
            final(self).tokens == old(self).tokens,
            final(self).start == old(self).start,
            final(self).line == old(self).line,
            final(self).current == span(
                old(self).source@,
                old(self).current as nat,
                |c: char| is_digit(c),
            ),
    {
        while self.current < self.source.len() && is_digit_char(self.source[self.current])
            invariant
                self.wf(),
                self.source == old(self).source,
                self.tokens == old(self).tokens,
                self.start == old(self).start,
                self.line == old(self).line,
                span(self.source@, self.current as nat, |c: char| is_digit(c)) == span(
                    old(self).source@,
                    old(self).current as nat,
                    |c: char| is_digit(c),
                ),
            decreases self.source@.len() - self.current,
        {
            self.current += 1;
        }
    }

    /// Reads a string, whose opening quote is read.
    fn string(&mut self) -> (res: Result<Found, LoxError>)
        requires
            old(self).wf(),
            old(self).start + 1 == old(self).current,
            old(self).source@[old(self).start as int] == '"',
        ensures
            final(self).wf(),
            final(self).source == old(self).source,
            final(self).start == old(self).start,
            ({
                let lexed = lex(old(self).source@, old(self).start as nat, old(self).line as nat);
                &&& final(self).current == lexed.end
                &&& final(self).line == lexed.line
                &&& match res {
                    Ok(found) => lexed.kind is Text && found is Token && views(final(self).tokens@)
                        == views(old(self).tokens@).push(
                        token_of(old(self).source@, old(self).start as nat, lexed),
                    ),
                    Err(e) => lexed.kind == Lexeme::Fault(Message::UnterminatedString) && e
                        == LoxError(
                        LoxErrorType::GeneralErr {
                            line: final(self).line,
                            message: Message::UnterminatedString,
                        },
                    ) && final(self).tokens == old(self).tokens,
                }
            }),
    {
        let ghost first = self.current as nat;
        let ghost close = span(self.source@, first, |c: char| c != '"');
        proof {
            span_bounds(self.source@, first, |c: char| c != '"');
        }
        while self.current < self.source.len() && self.source[self.current] != '"'
            invariant
                self.wf(),
                self.source == old(self).source,
                self.tokens == old(self).tokens,
                self.start == old(self).start,
                first <= self.current <= close <= self.source@.len(),
                span(self.source@, self.current as nat, |c: char| c != '"') == close,
                self.line + line_feeds(self.source@, self.current as nat, close) == old(self).line
                    + line_feeds(self.source@, first, close),
            decreases self.source@.len() - self.current,
        {
            proof {
                assert(span(self.source@, self.current as nat, |c: char| c != '"') == span(
                    self.source@,
                    (self.current + 1) as nat,
                    |c: char| c != '"',
                ));
                span_bounds(self.source@, (self.current + 1) as nat, |c: char| c != '"');
            }
            if self.source[self.current] == '\n' {
                self.line += 1;
            }
            self.current += 1;
        }
        if self.is_at_end() {
            return Err(LoxError::general_error(self.line, Message::UnterminatedString));
        }
        self.current += 1;
        let value = collect(&self.source, self.start + 1, self.current - 1);
        self.add_token_and_literal(TokenType::String, Some(Literal::String(value)));
        Ok(Found::Token)
    }

    /// Reads a block comment, whose opening `/*` is read.
    fn comment(&mut self) -> (res: Result<Found, LoxError>)
        requires
            old(self).wf(),
            old(self).line <= old(self).current - 1,
        ensures
            final(self).wf(),
            final(self).source == old(self).source,
            final(self).tokens == old(self).tokens,
            final(self).start == old(self).start,
            ({
                let end = block_comment(
                    old(self).source@,
                    old(self).current as nat,
                    1,
                    old(self).line as nat,
                );
                &&& final(self).current == end.end
                &&& final(self).line == end.line
                &&& match res {
                    Ok(found) => end.closed && found is Nothing,
                    Err(e) => !end.closed && e == LoxError(
                        LoxErrorType::GeneralErr {
                            line: final(self).line,
                            message: Message::UnterminatedBlockComment,
                        },
                    ),
                }
            }),
    {
        let mut counter: usize = 1;
        let ghost goal = block_comment(self.source@, self.current as nat, 1, self.line as nat);
        loop
            invariant
                self.wf(),
                self.source == old(self).source,
                self.tokens == old(self).tokens,
                self.start == old(self).start,
                counter <= self.current,
                self.line <= self.current,
                block_comment(self.source@, self.current as nat, counter as nat, self.line as nat)
                    == goal,
                goal == block_comment(
                    old(self).source@,
                    old(self).current as nat,
                    1,
                    old(self).line as nat,
                ),
            decreases self.source@.len() - self.current + counter,
        {
            if counter == 0 {
                return Ok(Found::Nothing);
            }
            if self.current >= self.source.len() {
                return Err(LoxError::general_error(self.line, Message::UnterminatedBlockComment));
            }
            let c = self.source[self.current];
            if c == '/' && self.current + 1 < self.source.len() && self.source[self.current + 1]
                == '*' {
                self.current += 2;
                counter += 1;
            } else if c == '*' && self.current + 1 < self.source.len() && self.source[self.current
                + 1] == '/' {
                self.current += 2;
                counter -= 1;
            } else if c == '\n' {
                self.current += 1;
                self.line += 1;
            } else {
                self.current += 1;
            }
        }
    }

    /// Reads the next character if it is `expected`.
    fn is_match(&mut self, expected: char) -> (res: bool)
        requires
            old(self).wf(),
        ensures
            final(self).wf(),
            res == at(old(self).source@, old(self).current as nat, expected),
            final(self).current == if res {
                old(self).current + 1
            } else {
                old(self).current as int
            },
            final(self).source == old(self).source,
            final(self).tokens == old(self).tokens,
            final(self).start == old(self).start,
            final(self).line == old(self).line,
    {
        if self.current < self.source.len() && self.source[self.current] == expected {
            self.current += 1;
            true
        } else {
            false
        }
    }

    /// Reads the next character.
    fn advance(&mut self) -> (c: char)
        requires
            old(self).wf(),
            old(self).current < old(self).source@.len(),
        ensures
            final(self).wf(),
            c == old(self).source@[old(self).current as int],
            final(self).current == old(self).current + 1,
            final(self).source == old(self).source,
            final(self).tokens == old(self).tokens,
            final(self).start == old(self).start,
            final(self).line == old(self).line,
    {
        let c = self.source[self.current];
        self.current += 1;
        c
    }

    fn add_token(&mut self, token_type: TokenType)
        requires
            old(self).wf(),
        ensures
            final(self).wf(),
            final(self).source == old(self).source,
            final(self).start == old(self).start,
            final(self).current == old(self).current,
            final(self).line == old(self).line,
            views(final(self).tokens@) == views(old(self).tokens@).push(
                TokenView {
                    token_type,
                    lexeme: old(self).source@.subrange(
                        old(self).start as int,
                        old(self).current as int,
                    ),
                    literal: None,
                    line: old(self).line,
                },
            ),
    {
        self.add_token_and_literal(token_type, None);
    }

    /// Adds a token for the lexeme `source[start..current]`.
    fn add_token_and_literal(&mut self, token_type: TokenType, literal: Option<Literal>)
        requires
            old(self).wf(),
        ensures
            final(self).wf(),
            final(self).source == old(self).source,
            final(self).start == old(self).start,
            final(self).current == old(self).current,
            final(self).line == old(self).line,
            views(final(self).tokens@) == views(old(self).tokens@).push(
                TokenView {
                    token_type,
                    lexeme: old(self).source@.subrange(
                        old(self).start as int,
                        old(self).current as int,
                    ),
                    literal: match literal {
                        Some(l) => Some(l@),
                        None => None,
                    },
                    line: old(self).line,
                },
            ),
    {
        let text = collect(&self.source, self.start, self.current);
        let token = Token { token_type, lexeme: text, literal, line: self.line };
        proof {
            assert(views(self.tokens@.push(token)) =~= views(self.tokens@).push(token@));
        }
        self.tokens.push(token);
    }
}

} // verus!
