use vstd::prelude::*;
use crate::frontend::errors::span::Span;
use crate::frontend::errors::errors::{Error, ErrorKind, ErrorView, Diagnostic, error_of};
use crate::frontend::lexer::tokens::{Token, TokenKind, SpecToken, SpecTokenKind, punct_text, describe_kind};
use crate::frontend::text::{push_char, push_str, text_is, chars_of, decimal};

verus! {

// ---------------------------------------------------------------------------
// The lexical grammar, stated over the characters of the source.
// ---------------------------------------------------------------------------

pub open spec fn tok(kind: SpecTokenKind, start: int, end: int) -> SpecToken {
    SpecToken { kind, span: Span { start: start as usize, end: end as usize } }
}

pub open spec fn span_of(start: int, end: int) -> Span {
    Span { start: start as usize, end: end as usize }
}

pub open spec fn diag(start: int, end: int, message: Seq<char>, note: Option<Seq<char>>) -> Diagnostic {
    Diagnostic { span: span_of(start, end), message, note }
}

pub open spec fn view_tokens(ts: Seq<Token>) -> Seq<SpecToken> {
    ts.map_values(|t: Token| t@)
}

/// Kinds after which a line break does not end a statement.
pub open spec fn blocks_semicolon(k: SpecTokenKind) -> bool {
    match k {
        SpecTokenKind::Semicolon | SpecTokenKind::Comma | SpecTokenKind::Dot
        | SpecTokenKind::Ellipsis | SpecTokenKind::LParen | SpecTokenKind::LSquare
        | SpecTokenKind::LBrace | SpecTokenKind::Plus | SpecTokenKind::Minus
        | SpecTokenKind::Asterisk | SpecTokenKind::Slash | SpecTokenKind::Assign
        | SpecTokenKind::Eq | SpecTokenKind::NotEq | SpecTokenKind::Greater
        | SpecTokenKind::Lower | SpecTokenKind::GreaterEq | SpecTokenKind::LowerEq
        | SpecTokenKind::And | SpecTokenKind::Or | SpecTokenKind::Exclamation => true,
        _ => false,
    }
}

/// A statement may end here: some token was read, and the last one does not expect more.
pub open spec fn can_insert_semicolon(toks: Seq<SpecToken>) -> bool {
    toks.len() > 0 && !blocks_semicolon(toks.last().kind)
}

/// The Unicode `White_Space` property.
pub open spec fn is_whitespace(c: char) -> bool {
    ('\u{9}' <= c && c <= '\u{d}') || c == ' ' || c == '\u{85}' || c == '\u{a0}'
        || c == '\u{1680}' || ('\u{2000}' <= c && c <= '\u{200a}') || c == '\u{2028}'
        || c == '\u{2029}' || c == '\u{202f}' || c == '\u{205f}' || c == '\u{3000}'
}

pub open spec fn is_digit(c: char) -> bool {
    '0' <= c && c <= '9'
}

pub open spec fn is_word_start(c: char) -> bool {
    ('a' <= c && c <= 'z') || ('A' <= c && c <= 'Z') || c == '_'
}

pub open spec fn is_word_char(c: char) -> bool {
    is_word_start(c) || is_digit(c)
}

pub open spec fn is_number_char(c: char) -> bool {
    is_digit(c) || c == '_' || c == '.'
}

/// Skips whitespace from `pos`; each line break after a token that may end a statement
/// adds a semicolon at the line break.
pub open spec fn skip_ws(chars: Seq<char>, pos: int, toks: Seq<SpecToken>) -> (int, Seq<SpecToken>)
    decreases chars.len() - pos,
{
    if pos < 0 || pos >= chars.len() || !is_whitespace(chars[pos]) {
        (pos, toks)
    } else {
        let toks2 = if chars[pos] == '\n' && can_insert_semicolon(toks) {
            toks.push(tok(SpecTokenKind::Semicolon, pos, pos))
        } else {
            toks
        };
        skip_ws(chars, pos + 1, toks2)
    }
}

/// The position of the first line break at or after `pos`, or the end of the source.
pub open spec fn line_end(chars: Seq<char>, pos: int) -> int
    decreases chars.len() - pos,
{
    if pos < 0 || pos >= chars.len() || chars[pos] == '\n' {
        pos
    } else {
        line_end(chars, pos + 1)
    }
}

/// The position just after the first `*/` at or after `pos`.
pub open spec fn comment_end(chars: Seq<char>, pos: int) -> Option<int>
    decreases chars.len() - pos,
{
    if pos < 0 || pos >= chars.len() {
        None
    } else if chars[pos] == '*' && pos + 1 < chars.len() && chars[pos + 1] == '/' {
        Some(pos + 2)
    } else {
        comment_end(chars, pos + 1)
    }
}

/// Skips a block comment that opens at `start`.
pub open spec fn skip_block_comment(chars: Seq<char>, start: int) -> Result<int, Diagnostic> {
    match comment_end(chars, start + 2) {
        Some(end) => Ok(end),
        None => Err(diag(start, chars.len() as int, "Unterminated comment"@, None)),
    }
}

/// The end of the number literal whose characters start at `pos`.
pub open spec fn number_end(chars: Seq<char>, pos: int) -> int
    decreases chars.len() - pos,
{
    if pos < 0 || pos >= chars.len() || !is_number_char(chars[pos]) {
        pos
    } else {
        number_end(chars, pos + 1)
    }
}

/// The end of the word whose characters start at `pos`.
pub open spec fn word_end(chars: Seq<char>, pos: int) -> int
    decreases chars.len() - pos,
{
    if pos < 0 || pos >= chars.len() || !is_word_char(chars[pos]) {
        pos
    } else {
        word_end(chars, pos + 1)
    }
}

pub open spec fn without_underscores(s: Seq<char>) -> Seq<char>
    decreases s.len(),
{
    if s.len() == 0 {
        s
    } else if s.last() == '_' {
        without_underscores(s.drop_last())
    } else {
        without_underscores(s.drop_last()).push(s.last())
    }
}

pub open spec fn count_points(s: Seq<char>) -> nat
    decreases s.len(),
{
    if s.len() == 0 {
        0
    } else {
        count_points(s.drop_last()) + if s.last() == '.' { 1nat } else { 0nat }
    }
}

/// The value of a string of decimal digits.
pub open spec fn decimal_value(s: Seq<char>) -> int
    decreases s.len(),
{
    if s.len() == 0 {
        0
    } else {
        decimal_value(s.drop_last()) * 10 + (s.last() as int - '0' as int)
    }
}

/// What reading a number literal that starts at `start` gives.
pub enum NumberLexeme {
    Token(SpecToken, int),
    Fail(Diagnostic),
    /// An integer literal too large for `i64`.
    Overflow,
}

pub open spec fn lex_number(chars: Seq<char>, start: int) -> NumberLexeme {
    let end = number_end(chars, start);
    let text = without_underscores(chars.subrange(start, end));
    let points = count_points(chars.subrange(start, end));
    if points == 0 {
        if decimal_value(text) > i64::MAX {
            NumberLexeme::Overflow
        } else {
            NumberLexeme::Token(
                tok(SpecTokenKind::Integer(decimal_value(text) as i64), start, end),
                end,
            )
        }
    } else if points == 1 {
        NumberLexeme::Token(tok(SpecTokenKind::Float(text), start, end), end)
    } else {
        NumberLexeme::Fail(diag(start, end, "Too many points"@, None))
    }
}

/// The token kind of an identifier-shaped word: a keyword, or an identifier.
pub open spec fn word_kind(s: Seq<char>) -> SpecTokenKind {
    if s == "i64"@ {
        SpecTokenKind::I64
    } else if s == "u64"@ {
        SpecTokenKind::U64
    } else if s == "f64"@ {
        SpecTokenKind::F64
    } else if s == "i32"@ {
        SpecTokenKind::I32
    } else if s == "u32"@ {
        SpecTokenKind::U32
    } else if s == "f32"@ {
        SpecTokenKind::F32
    } else if s == "i16"@ {
        SpecTokenKind::I16
    } else if s == "u16"@ {
        SpecTokenKind::U16
    } else if s == "i8"@ {
        SpecTokenKind::I8
    } else if s == "u8"@ {
        SpecTokenKind::U8
    } else if s == "bool"@ {
        SpecTokenKind::Bool
    } else if s == "char"@ {
        SpecTokenKind::Char
    } else if s == "str"@ {
        SpecTokenKind::Str
    } else if s == "void"@ {
        SpecTokenKind::Void
    } else if s == "pub"@ {
        SpecTokenKind::Pub
    } else if s == "fn"@ {
        SpecTokenKind::Fn
    } else if s == "import"@ {
        SpecTokenKind::Import
    } else if s == "extern"@ {
        SpecTokenKind::Extern
    } else if s == "var"@ {
        SpecTokenKind::Var
    } else if s == "const"@ {
        SpecTokenKind::Const
    } else if s == "return"@ {
        SpecTokenKind::Return
    } else if s == "if"@ {
        SpecTokenKind::If
    } else if s == "else"@ {
        SpecTokenKind::Else
    } else if s == "as"@ {
        SpecTokenKind::As
    } else if s == "while"@ {
        SpecTokenKind::While
    } else if s == "for"@ {
        SpecTokenKind::For
    } else if s == "in"@ {
        SpecTokenKind::In
    } else if s == "continue"@ {
        SpecTokenKind::Continue
    } else if s == "break"@ {
        SpecTokenKind::Break
    } else if s == "true"@ {
        SpecTokenKind::True
    } else if s == "false"@ {
        SpecTokenKind::False
    } else {
        SpecTokenKind::Identifier(s)
    }
}

fn word_token_kind(word: String) -> (k: TokenKind)
    ensures
        k@ == word_kind(word@),
{
    if text_is(&word, "i64") {
        TokenKind::I64
    } else if text_is(&word, "u64") {
        TokenKind::U64
    } else if text_is(&word, "f64") {
        TokenKind::F64
    } else if text_is(&word, "i32") {
        TokenKind::I32
    } else if text_is(&word, "u32") {
        TokenKind::U32
    } else if text_is(&word, "f32") {
        TokenKind::F32
    } else if text_is(&word, "i16") {
        TokenKind::I16
    } else if text_is(&word, "u16") {
        TokenKind::U16
    } else if text_is(&word, "i8") {
        TokenKind::I8
    } else if text_is(&word, "u8") {
        TokenKind::U8
    } else if text_is(&word, "bool") {
        TokenKind::Bool
    } else if text_is(&word, "char") {
        TokenKind::Char
    } else if text_is(&word, "str") {
        TokenKind::Str
    } else if text_is(&word, "void") {
        TokenKind::Void
    } else if text_is(&word, "pub") {
        TokenKind::Pub
    } else if text_is(&word, "fn") {
        TokenKind::Fn
    } else if text_is(&word, "import") {
        TokenKind::Import
    } else if text_is(&word, "extern") {
        TokenKind::Extern
    } else if text_is(&word, "var") {
        TokenKind::Var
    } else if text_is(&word, "const") {
        TokenKind::Const
    } else if text_is(&word, "return") {
        TokenKind::Return
    } else if text_is(&word, "if") {
        TokenKind::If
    } else if text_is(&word, "else") {
        TokenKind::Else
    } else if text_is(&word, "as") {
        TokenKind::As
    } else if text_is(&word, "while") {
        TokenKind::While
    } else if text_is(&word, "for") {
        TokenKind::For
    } else if text_is(&word, "in") {
        TokenKind::In
    } else if text_is(&word, "continue") {
        TokenKind::Continue
    } else if text_is(&word, "break") {
        TokenKind::Break
    } else if text_is(&word, "true") {
        TokenKind::True
    } else if text_is(&word, "false") {
        TokenKind::False
    } else {
        TokenKind::Identifier(word)
    }
}

/// The word (keyword or identifier) that starts at `start`, and where it ends.
pub open spec fn lex_word(chars: Seq<char>, start: int) -> (SpecToken, int) {
    let end = word_end(chars, start);
    (tok(word_kind(chars.subrange(start, end)), start, end), end)
}

pub open spec fn escaped(c: char) -> Option<char> {
    if c == 'n' {
        Some('\n')
    } else if c == 'r' {
        Some('\r')
    } else if c == 't' {
        Some('\t')
    } else if c == '\\' {
        Some('\\')
    } else if c == '0' {
        Some('\0')
    } else if c == '\'' {
        Some('\'')
    } else if c == '"' {
        Some('"')
    } else {
        None
    }
}

pub open spec fn escape_note() -> Seq<char> {
    "Available character escapes are n, r, t, \\, 0, ' and \""@
}

/// The character that the escape sequence at `start` (a backslash) stands for; on success
/// the sequence is two characters long.
pub open spec fn lex_escape(chars: Seq<char>, start: int) -> Result<char, Diagnostic> {
    if start + 1 >= chars.len() {
        Err(diag(start, start + 1, "Unterminated character"@, None))
    } else {
        match escaped(chars[start + 1]) {
            Some(e) => Ok(e),
            None => Err(
                diag(
                    start,
                    start + 2,
                    "Unknown character escape '"@.push(chars[start + 1]) + "'"@,
                    Some(escape_note()),
                ),
            ),
        }
    }
}

pub open spec fn close_char(chars: Seq<char>, start: int, c: char, pos: int) -> Result<(SpecToken, int), Diagnostic> {
    if pos < chars.len() && chars[pos] == '\'' {
        Ok((tok(SpecTokenKind::Character(c), start, pos + 1), pos + 1))
    } else {
        Err(diag(start, pos, "Unterminated character"@, None))
    }
}

/// The character literal that opens at `start`.
pub open spec fn lex_char(chars: Seq<char>, start: int) -> Result<(SpecToken, int), Diagnostic> {
    let p = start + 1;
    if p >= chars.len() {
        Err(diag(start, p, "Unterminated character"@, None))
    } else if chars[p] == '\\' {
        match lex_escape(chars, p) {
            Ok(c) => close_char(chars, start, c, p + 2),
            Err(d) => Err(d),
        }
    } else if chars[p] == '\'' {
        Err(diag(start, p, "Empty character"@, None))
    } else {
        close_char(chars, start, chars[p], p + 1)
    }
}

/// The rest of the string literal that opened at `start`, read from `pos` with `text` so far.
pub open spec fn string_rest(chars: Seq<char>, start: int, pos: int, text: Seq<char>) -> Result<(SpecToken, int), Diagnostic>
    decreases chars.len() - pos,
{
    if pos < 0 || pos >= chars.len() {
        Err(diag(start, pos, "Unterminated string"@, None))
    } else if chars[pos] == '\\' {
        match lex_escape(chars, pos) {
            Ok(e) => string_rest(chars, start, pos + 2, text.push(e)),
            Err(d) => Err(d),
        }
    } else if chars[pos] == '"' {
        Ok((tok(SpecTokenKind::String(text), start, pos + 1), pos + 1))
    } else {
        string_rest(chars, start, pos + 1, text.push(chars[pos]))
    }
}

pub open spec fn lex_string(chars: Seq<char>, start: int) -> Result<(SpecToken, int), Diagnostic> {
    string_rest(chars, start, start + 1, Seq::empty())
}

pub open spec fn next_is(chars: Seq<char>, pos: int, c: char) -> bool {
    pos + 1 < chars.len() && chars[pos + 1] == c
}

/// The operator or punctuation at `pos` and how many characters it has beyond the first.
pub open spec fn punctuation(chars: Seq<char>, pos: int) -> Option<(SpecTokenKind, int)> {
    let c = chars[pos];
    if c == '+' {
        Some((SpecTokenKind::Plus, 0))
    } else if c == '-' {
        Some((SpecTokenKind::Minus, 0))
    } else if c == '*' {
        Some((SpecTokenKind::Asterisk, 0))
    } else if c == '/' {
        Some((SpecTokenKind::Slash, 0))
    } else if c == '=' {
        if next_is(chars, pos, '=') { Some((SpecTokenKind::Eq, 1)) } else { Some((SpecTokenKind::Assign, 0)) }
    } else if c == '(' {
        Some((SpecTokenKind::LParen, 0))
    } else if c == ')' {
        Some((SpecTokenKind::RParen, 0))
    } else if c == '[' {
        Some((SpecTokenKind::LSquare, 0))
    } else if c == ']' {
        Some((SpecTokenKind::RSquare, 0))
    } else if c == '{' {
        Some((SpecTokenKind::LBrace, 0))
    } else if c == '}' {
        Some((SpecTokenKind::RBrace, 0))
    } else if c == '!' {
        if next_is(chars, pos, '=') { Some((SpecTokenKind::NotEq, 1)) } else { Some((SpecTokenKind::Exclamation, 0)) }
    } else if c == '|' && next_is(chars, pos, '|') {
        Some((SpecTokenKind::Or, 1))
    } else if c == '&' && next_is(chars, pos, '&') {
        Some((SpecTokenKind::And, 1))
    } else if c == ',' {
        Some((SpecTokenKind::Comma, 0))
    } else if c == '.' {
        if next_is(chars, pos, '.') && next_is(chars, pos + 1, '.') {
            Some((SpecTokenKind::Ellipsis, 2))
        } else {
            Some((SpecTokenKind::Dot, 0))
        }
    } else if c == ';' {
        Some((SpecTokenKind::Semicolon, 0))
    } else if c == '>' {
        if next_is(chars, pos, '=') { Some((SpecTokenKind::GreaterEq, 1)) } else { Some((SpecTokenKind::Greater, 0)) }
    } else if c == '<' {
        if next_is(chars, pos, '=') { Some((SpecTokenKind::LowerEq, 1)) } else { Some((SpecTokenKind::Lower, 0)) }
    } else {
        None
    }
}

/// What reading one lexeme at `pos` (not whitespace) does.
pub enum LexStep {
    /// Reading goes on from this position with these tokens.
    Next(int, Seq<SpecToken>),
    Fail(Diagnostic),
    Overflow,
}

pub open spec fn token_step(r: Result<(SpecToken, int), Diagnostic>, toks: Seq<SpecToken>) -> LexStep {
    match r {
        Ok((t, p)) => LexStep::Next(p, toks.push(t)),
        Err(d) => LexStep::Fail(d),
    }
}

pub open spec fn lex_one(chars: Seq<char>, pos: int, toks: Seq<SpecToken>) -> LexStep {
    let c = chars[pos];
    if c == '/' && next_is(chars, pos, '/') {
        LexStep::Next(line_end(chars, pos), toks)
    } else if c == '/' && next_is(chars, pos, '*') {
        match skip_block_comment(chars, pos) {
            Ok(p) => LexStep::Next(p, toks),
            Err(d) => LexStep::Fail(d),
        }
    } else if is_digit(c) {
        match lex_number(chars, pos) {
            NumberLexeme::Token(t, p) => LexStep::Next(p, toks.push(t)),
            NumberLexeme::Fail(d) => LexStep::Fail(d),
            NumberLexeme::Overflow => LexStep::Overflow,
        }
    } else if is_word_start(c) {
        LexStep::Next(lex_word(chars, pos).1, toks.push(lex_word(chars, pos).0))
    } else if c == '\'' {
        token_step(lex_char(chars, pos), toks)
    } else if c == '"' {
        token_step(lex_string(chars, pos), toks)
    } else {
        match punctuation(chars, pos) {
            Some((k, w)) => LexStep::Next(pos + w + 1, toks.push(tok(k, pos, pos + w))),
            None => LexStep::Fail(
                diag(pos, pos, "Illegal character '"@.push(c) + "'"@, None),
            ),
        }
    }
}

/// The tokens that end every token list: a semicolon where a statement may end, then EOF.
pub open spec fn finish(pos: int, toks: Seq<SpecToken>) -> Seq<SpecToken> {
    if can_insert_semicolon(toks) {
        toks.push(tok(SpecTokenKind::Semicolon, pos, pos)).push(tok(SpecTokenKind::EOF, pos + 1, pos + 1))
    } else {
        toks.push(tok(SpecTokenKind::EOF, pos, pos))
    }
}

/// What lexing gives.
pub enum LexOutcome {
    Done(Seq<SpecToken>),
    Failed(Diagnostic),
    /// An integer literal does not fit in `i64`.
    Overflow,
}

/// Lexing the source from `pos`, where the tokens read so far are `toks`.
pub open spec fn lex_from(chars: Seq<char>, pos: int, toks: Seq<SpecToken>) -> LexOutcome
    decreases chars.len() - pos,
{
    if pos < 0 || pos >= chars.len() {
        LexOutcome::Done(finish(pos, toks))
    } else {
        let (p1, t1) = skip_ws(chars, pos, toks);
        if p1 >= chars.len() {
            LexOutcome::Done(finish(p1, t1))
        } else {
            match lex_one(chars, p1, t1) {
                LexStep::Next(p2, t2) => if pos < p2 <= chars.len() {
                    lex_from(chars, p2, t2)
                } else {
                    LexOutcome::Done(t2)
                },
                LexStep::Fail(d) => LexOutcome::Failed(d),
                LexStep::Overflow => LexOutcome::Overflow,
            }
        }
    }
}

/// The tokens held once lexing from `pos`, with `toks` read, stops: all of them where it
/// succeeds; those read before the lexeme that fails, where one fails.
pub open spec fn tokens_read(chars: Seq<char>, pos: int, toks: Seq<SpecToken>) -> Seq<SpecToken>
    decreases chars.len() - pos,
{
    if pos < 0 || pos >= chars.len() {
        finish(pos, toks)
    } else {
        let (p1, t1) = skip_ws(chars, pos, toks);
        if p1 >= chars.len() {
            finish(p1, t1)
        } else {
            match lex_one(chars, p1, t1) {
                LexStep::Next(p2, t2) => if pos < p2 <= chars.len() {
                    tokens_read(chars, p2, t2)
                } else {
                    t2
                },
                _ => t1,
            }
        }
    }
}

/// The tokens of `chars`.
pub open spec fn lex(chars: Seq<char>) -> LexOutcome {
    lex_from(chars, 0, Seq::empty())
}

// ---------------------------------------------------------------------------
// Facts about the grammar.
// ---------------------------------------------------------------------------

pub proof fn lemma_view_push(ts: Seq<Token>, t: Token)
    ensures
        view_tokens(ts.push(t)) == view_tokens(ts).push(t@),
{
    assert(view_tokens(ts.push(t)) =~= view_tokens(ts).push(t@));
}

pub proof fn lemma_skip_ws_bounds(chars: Seq<char>, pos: int, toks: Seq<SpecToken>)
    requires
        0 <= pos <= chars.len(),
    ensures
        pos <= skip_ws(chars, pos, toks).0 <= chars.len(),
    decreases chars.len() - pos,
{
    if pos < chars.len() && is_whitespace(chars[pos]) {
        let toks2 = if chars[pos] == '\n' && can_insert_semicolon(toks) {
            toks.push(tok(SpecTokenKind::Semicolon, pos, pos))
        } else {
            toks
        };
        lemma_skip_ws_bounds(chars, pos + 1, toks2);
    }
}

pub proof fn lemma_line_end_bounds(chars: Seq<char>, pos: int)
    requires
        0 <= pos <= chars.len(),
    ensures
        pos <= line_end(chars, pos) <= chars.len(),
    decreases chars.len() - pos,
{
    if pos < chars.len() && chars[pos] != '\n' {
        lemma_line_end_bounds(chars, pos + 1);
    }
}

pub proof fn lemma_comment_end_bounds(chars: Seq<char>, pos: int)
    requires
        0 <= pos,
    ensures
        comment_end(chars, pos) matches Some(e) ==> pos + 2 <= e <= chars.len(),
    decreases chars.len() - pos,
{
    if pos < chars.len() && !(chars[pos] == '*' && pos + 1 < chars.len() && chars[pos + 1] == '/') {
        lemma_comment_end_bounds(chars, pos + 1);
    }
}

pub proof fn lemma_number_end_bounds(chars: Seq<char>, pos: int)
    requires
        0 <= pos <= chars.len(),
    ensures
        pos <= number_end(chars, pos) <= chars.len(),
    decreases chars.len() - pos,
{
    if pos < chars.len() && is_number_char(chars[pos]) {
        lemma_number_end_bounds(chars, pos + 1);
    }
}

pub proof fn lemma_word_end_bounds(chars: Seq<char>, pos: int)
    requires
        0 <= pos <= chars.len(),
    ensures
        pos <= word_end(chars, pos) <= chars.len(),
    decreases chars.len() - pos,
{
    if pos < chars.len() && is_word_char(chars[pos]) {
        lemma_word_end_bounds(chars, pos + 1);
    }
}

pub proof fn lemma_string_rest_bounds(chars: Seq<char>, start: int, pos: int, text: Seq<char>)
    requires
        0 <= pos,
    ensures
        string_rest(chars, start, pos, text) matches Ok((_, e)) ==> pos < e <= chars.len(),
    decreases chars.len() - pos,
{
    if 0 <= pos < chars.len() {
        if chars[pos] == '\\' {
            if let Ok(e) = lex_escape(chars, pos) {
                lemma_string_rest_bounds(chars, start, pos + 2, text.push(e));
            }
        } else if chars[pos] != '"' {
            lemma_string_rest_bounds(chars, start, pos + 1, text.push(chars[pos]));
        }
    }
}

proof fn lemma_without_underscores_push(s: Seq<char>, c: char)
    ensures
        without_underscores(s.push(c)) == if c == '_' {
            without_underscores(s)
        } else {
            without_underscores(s).push(c)
        },
        count_points(s.push(c)) == count_points(s) + if c == '.' { 1nat } else { 0nat },
{
    assert(s.push(c).drop_last() =~= s);
}

proof fn lemma_decimal_push(s: Seq<char>, c: char)
    ensures
        decimal_value(s.push(c)) == decimal_value(s) * 10 + (c as int - '0' as int),
{
    assert(s.push(c).drop_last() =~= s);
}

proof fn lemma_decimal_grows(s: Seq<char>, c: char)
    requires
        decimal_value(s) > i64::MAX,
        is_digit(c),
    ensures
        decimal_value(s.push(c)) > i64::MAX,
{
    lemma_decimal_push(s, c);
}

// ---------------------------------------------------------------------------
// The lexer.
// ---------------------------------------------------------------------------

pub fn is_space(c: char) -> (r: bool)
    ensures
        r == is_whitespace(c),
{
    ('\u{9}' <= c && c <= '\u{d}') || c == ' ' || c == '\u{85}' || c == '\u{a0}'
        || c == '\u{1680}' || ('\u{2000}' <= c && c <= '\u{200a}') || c == '\u{2028}'
        || c == '\u{2029}' || c == '\u{202f}' || c == '\u{205f}' || c == '\u{3000}'
}

fn digit_char(c: char) -> (r: bool)
    ensures
        r == is_digit(c),
{
    '0' <= c && c <= '9'
}

fn word_start_char(c: char) -> (r: bool)
    ensures
        r == is_word_start(c),
{
    ('a' <= c && c <= 'z') || ('A' <= c && c <= 'Z') || c == '_'
}

fn word_char(c: char) -> (r: bool)
    ensures
        r == is_word_char(c),
{
    word_start_char(c) || digit_char(c)
}

fn number_char(c: char) -> (r: bool)
    ensures
        r == is_number_char(c),
{
    digit_char(c) || c == '_' || c == '.'
}

/// Turns source text into tokens.
#[derive(Debug)]
pub struct Lexer {
    chars: Vec<char>,
    len: usize,
    pos: usize,
    tokens: Vec<Token>,
    file: String,
    source: String,
}

impl Lexer {
    /// The characters being read.
    pub closed spec fn text(&self) -> Seq<char> {
        self.chars@
    }

    /// The position of the next character to read.
    pub closed spec fn position(&self) -> int {
        self.pos as int
    }

    pub closed spec fn file_name(&self) -> Seq<char> {
        self.file@
    }

    pub closed spec fn source_text(&self) -> Seq<char> {
        self.source@
    }

    /// The internal consistency of a lexer.
    pub closed spec fn wf(&self) -> bool {
        self.len == self.chars@.len()
    }

    /// The tokens read so far, as mathematical values.
    pub closed spec fn read(&self) -> Seq<SpecToken> {
        view_tokens(self.tokens@)
    }


    /// What the rest of lexing gives from the current state.
    pub open spec fn outcome(&self) -> LexOutcome {
        lex_from(self.text(), self.position(), self.read())
    }

    /// The error this lexer reports for `d`.
    pub open spec fn error_for(&self, d: Diagnostic) -> ErrorView {
        error_of(ErrorKind::Lexical, self.file_name(), self.source_text(), d)
    }

    pub fn new(source: String, file: String) -> (l: Self)
        ensures
            l.wf(),
            l.text() == source@,
            l.position() == 0,
            l.read().len() == 0,
            l.file_name() == file@,
            l.source_text() == source@,
    {
        let chars = chars_of(&source);
        let len = chars.len();
        Self { chars, len, pos: 0, tokens: Vec::new(), file, source }
    }

    /// The tokens read so far, in place.
    pub fn tokens(&self) -> (ts: &Vec<Token>)
        ensures
            view_tokens(ts@) == self.read(),
    {
        &self.tokens
    }

    /// The tokens read so far.
    pub fn into_tokens(self) -> (ts: Vec<Token>)
        ensures
            view_tokens(ts@) == self.read(),
    {
        self.tokens
    }

    fn error(&self, span: Span, message: &str, note: Option<&str>) -> (e: Error)
        ensures
            e@ == self.error_for(Diagnostic { span, message: message@, note: crate::frontend::errors::errors::opt_str_view(note) }),
    {
        Error::new(ErrorKind::Lexical, self.file.as_str(), self.source.as_str(), span, message, note)
    }

    fn is_eof(&self) -> (r: bool)
        requires
            self.wf(),
        ensures
            r == (self.pos >= self.chars@.len()),
    {
        self.pos >= self.len
    }

    /// Whether the character after the current one is `c`.
    fn next_is(&self, c: char) -> (r: bool)
        requires
            self.wf(),
            self.pos < self.chars@.len(),
        ensures
            r == next_is(self.chars@, self.pos as int, c),
    {
        self.pos + 1 < self.len && self.chars[self.pos + 1] == c
    }

    fn can_insert_semicolon(&self) -> (r: bool)
        ensures
            r == can_insert_semicolon(self.read()),
    {
        if self.tokens.len() == 0 {
            false
        } else {
            let t = &self.tokens[self.tokens.len() - 1];
            !matches!(t.kind,
                TokenKind::Semicolon | TokenKind::Comma | TokenKind::Dot | TokenKind::Ellipsis |
                TokenKind::LParen | TokenKind::LSquare | TokenKind::LBrace |
                TokenKind::Plus | TokenKind::Minus | TokenKind::Asterisk | TokenKind::Slash |
                TokenKind::Assign |
                TokenKind::Eq | TokenKind::NotEq |
                TokenKind::Greater | TokenKind::Lower |
                TokenKind::GreaterEq | TokenKind::LowerEq |
                TokenKind::And | TokenKind::Or |
                TokenKind::Exclamation
            )
        }
    }

    fn push_token(&mut self, t: Token)
        ensures
            final(self).read() == old(self).read().push(t@),
            final(self).chars == old(self).chars,
            final(self).len == old(self).len,
            final(self).pos == old(self).pos,
            final(self).file == old(self).file,
            final(self).source == old(self).source,
    {
        proof {
            lemma_view_push(self.tokens@, t);
        }
        self.tokens.push(t);
    }

    fn skip_whitespaces(&mut self)
        requires
            old(self).wf(),
            old(self).pos <= old(self).chars@.len(),
        ensures
            (final(self).pos as int, final(self).read()) == skip_ws(old(self).chars@, old(self).pos as int, old(self).read()),
            final(self).chars == old(self).chars,
            final(self).len == old(self).len,
            final(self).file == old(self).file,
            final(self).source == old(self).source,
    {
        while self.pos < self.len && is_space(self.chars[self.pos])
            invariant
                self.wf(),
                self.pos <= self.chars@.len(),
                self.chars == old(self).chars,
                self.len == old(self).len,
                self.file == old(self).file,
                self.source == old(self).source,
                skip_ws(self.chars@, self.pos as int, self.read()) == skip_ws(old(self).chars@, old(self).pos as int, old(self).read()),
            decreases self.chars@.len() - self.pos,
        {
            let c = self.chars[self.pos];
            if c == '\n' {
                if self.can_insert_semicolon() {
                    self.push_token(Token::new(TokenKind::Semicolon, Span::short(self.pos)));
                }
            }
            self.pos += 1;
        }
    }

    fn skip_oneline(&mut self)
        requires
            old(self).wf(),
            old(self).pos <= old(self).chars@.len(),
        ensures
            final(self).pos == line_end(old(self).chars@, old(self).pos as int),
            final(self).chars == old(self).chars,
            final(self).len == old(self).len,
            final(self).tokens == old(self).tokens,
            final(self).file == old(self).file,
            final(self).source == old(self).source,
    {
        while self.pos < self.len && self.chars[self.pos] != '\n'
            invariant
                self.wf(),
                self.pos <= self.chars@.len(),
                self.chars == old(self).chars,
                self.len == old(self).len,
                self.tokens == old(self).tokens,
                self.file == old(self).file,
                self.source == old(self).source,
                line_end(self.chars@, self.pos as int) == line_end(old(self).chars@, old(self).pos as int),
            decreases self.chars@.len() - self.pos,
        {
            self.pos += 1;
        }
    }

    fn skip_multiline(&mut self) -> (r: Result<(), Error>)
        requires
            old(self).wf(),
            old(self).pos + 1 < old(self).chars@.len(),
        ensures
            final(self).chars == old(self).chars,
            final(self).len == old(self).len,
            final(self).tokens == old(self).tokens,
            final(self).file == old(self).file,
            final(self).source == old(self).source,
            match skip_block_comment(old(self).chars@, old(self).pos as int) {
                Ok(p) => r is Ok && final(self).pos == p,
                Err(d) => r matches Err(e) && e@ == old(self).error_for(d) && final(self).pos == d.span.end,
            },
    {
        let start = self.pos;
        self.pos += 2;
        while self.pos < self.len
            invariant
                self.wf(),
                start + 2 <= self.pos <= self.chars@.len(),
                self.chars == old(self).chars,
                self.len == old(self).len,
                self.tokens == old(self).tokens,
                self.file == old(self).file,
                self.source == old(self).source,
                comment_end(self.chars@, self.pos as int) == comment_end(self.chars@, start + 2),
                start == old(self).pos,
            decreases self.chars@.len() - self.pos,
        {
            if self.chars[self.pos] == '*' && self.next_is('/') {
                self.pos += 2;
                return Ok(());
            }
            self.pos += 1;
        }
        Err(self.error(Span::new(start, self.pos), "Unterminated comment", None))
    }

    fn lex_number(&mut self) -> (r: Result<Option<Token>, Error>)
        requires
            old(self).wf(),
            old(self).pos < old(self).chars@.len(),
        ensures
            final(self).chars == old(self).chars,
            final(self).len == old(self).len,
            final(self).tokens == old(self).tokens,
            final(self).file == old(self).file,
            final(self).source == old(self).source,
            match lex_number(old(self).chars@, old(self).pos as int) {
                NumberLexeme::Token(t, p) => r matches Ok(Some(tk)) && tk@ == t && final(self).pos == p,
                NumberLexeme::Fail(d) => r matches Err(e) && e@ == old(self).error_for(d) && final(self).pos == d.span.end,
                NumberLexeme::Overflow => r matches Ok(None) && final(self).pos == number_end(old(self).chars@, old(self).pos as int),
            },
    {
        let start = self.pos;
        let mut num = String::new();
        let mut points: usize = 0;
        let mut value: i64 = 0;
        let mut overflow = false;
        proof {
            assert(self.chars@.subrange(start as int, start as int) =~= Seq::<char>::empty());
        }
        while self.pos < self.len && number_char(self.chars[self.pos])
            invariant
                self.wf(),
                start <= self.pos <= self.chars@.len(),
                start == old(self).pos,
                self.chars == old(self).chars,
                self.len == old(self).len,
                self.tokens == old(self).tokens,
                self.file == old(self).file,
                self.source == old(self).source,
                number_end(self.chars@, self.pos as int) == number_end(self.chars@, start as int),
                num@ == without_underscores(self.chars@.subrange(start as int, self.pos as int)),
                points == count_points(self.chars@.subrange(start as int, self.pos as int)),
                points <= self.pos - start,
                points == 0 ==> (overflow == (decimal_value(num@) > i64::MAX)),
                points == 0 && !overflow ==> value == decimal_value(num@),
                0 <= value,
            decreases self.chars@.len() - self.pos,
        {
            let c = self.chars[self.pos];
            proof {
                let s = self.chars@.subrange(start as int, self.pos as int);
                assert(self.chars@.subrange(start as int, self.pos + 1) =~= s.push(c));
                lemma_without_underscores_push(s, c);
            }
            if c == '_' {
                self.pos += 1;
            } else {
                if c == '.' {
                    points += 1;
                } else if points == 0 {
                    let d = (c as u32 - '0' as u32) as i64;
                    proof {
                        lemma_decimal_push(num@, c);
                        assert(c as int - '0' as int == d);
                    }
                    if overflow {
                        proof {
                            lemma_decimal_grows(num@, c);
                        }
                    } else if value <= (i64::MAX - d) / 10 {
                        assert(value * 10 + d <= i64::MAX) by (nonlinear_arith)
                            requires
                                value <= (i64::MAX - d) / 10,
                                0 <= d <= 9,
                        ;
                        value = value * 10 + d;
                    } else {
                        assert(value * 10 + d > i64::MAX) by (nonlinear_arith)
                            requires
                                value > (i64::MAX - d) / 10,
                                0 <= d <= 9,
                        ;
                        overflow = true;
                    }
                }
                push_char(&mut num, c);
                self.pos += 1;
            }
        }
        let span = Span::new(start, self.pos);
        if points == 0 {
            if overflow {
                Ok(None)
            } else {
                Ok(Some(Token::new(TokenKind::Integer(value), span)))
            }
        } else if points == 1 {
            Ok(Some(Token::new(TokenKind::Float(num), span)))
        } else {
            Err(self.error(span, "Too many points", None))
        }
    }

    fn lex_ident(&mut self) -> (r: Result<Token, Error>)
        requires
            old(self).wf(),
            old(self).pos < old(self).chars@.len(),
        ensures
            final(self).chars == old(self).chars,
            final(self).len == old(self).len,
            final(self).tokens == old(self).tokens,
            final(self).file == old(self).file,
            final(self).source == old(self).source,
            r matches Ok(t) && (t@, final(self).pos as int) == lex_word(old(self).chars@, old(self).pos as int),
    {
        let start = self.pos;
        let mut ident = String::new();
        proof {
            assert(self.chars@.subrange(start as int, start as int) =~= Seq::<char>::empty());
        }
        while self.pos < self.len && word_char(self.chars[self.pos])
            invariant
                self.wf(),
                start <= self.pos <= self.chars@.len(),
                start == old(self).pos,
                self.chars == old(self).chars,
                self.len == old(self).len,
                self.tokens == old(self).tokens,
                self.file == old(self).file,
                self.source == old(self).source,
                word_end(self.chars@, self.pos as int) == word_end(self.chars@, start as int),
                ident@ == self.chars@.subrange(start as int, self.pos as int),
            decreases self.chars@.len() - self.pos,
        {
            let c = self.chars[self.pos];
            proof {
                assert(self.chars@.subrange(start as int, self.pos + 1)
                    =~= self.chars@.subrange(start as int, self.pos as int).push(c));
            }
            push_char(&mut ident, c);
            self.pos += 1;
        }
        let kind = word_token_kind(ident);
        Ok(Token::new(kind, Span::new(start, self.pos)))
    }

    fn lex_escape(&mut self) -> (r: Result<char, Error>)
        requires
            old(self).wf(),
            old(self).pos < old(self).chars@.len(),
        ensures
            final(self).chars == old(self).chars,
            final(self).len == old(self).len,
            final(self).tokens == old(self).tokens,
            final(self).file == old(self).file,
            final(self).source == old(self).source,
            match lex_escape(old(self).chars@, old(self).pos as int) {
                Ok(c) => r == Ok::<char, Error>(c) && final(self).pos == old(self).pos + 2,
                Err(d) => r matches Err(e) && e@ == old(self).error_for(d) && final(self).pos == d.span.end,
            },
    {
        let start = self.pos;
        self.pos += 1;
        if self.pos >= self.len {
            return Err(self.error(Span::new(start, self.pos), "Unterminated character", None));
        }
        let c = self.chars[self.pos];
        self.pos += 1;
        let esc = match c {
            'n' => '\n',
            'r' => '\r',
            't' => '\t',
            '\\' => '\\',
            '0' => '\0',
            '\'' => '\'',
            '"' => '"',
            _ => {
                let mut message = "Unknown character escape '".to_owned();
                push_char(&mut message, c);
                push_str(&mut message, "'");
                return Err(self.error(
                    Span::new(start, self.pos),
                    message.as_str(),
                    Some("Available character escapes are n, r, t, \\, 0, ' and \""),
                ));
            },
        };
        Ok(esc)
    }

    fn lex_char(&mut self) -> (r: Result<Token, Error>)
        requires
            old(self).wf(),
            old(self).pos < old(self).chars@.len(),
        ensures
            final(self).chars == old(self).chars,
            final(self).len == old(self).len,
            final(self).tokens == old(self).tokens,
            final(self).file == old(self).file,
            final(self).source == old(self).source,
            match lex_char(old(self).chars@, old(self).pos as int) {
                Ok((t, p)) => r matches Ok(tk) && tk@ == t && final(self).pos == p,
                Err(d) => r matches Err(e) && e@ == old(self).error_for(d) && final(self).pos == d.span.end,
            },
    {
        let start = self.pos;
        self.pos += 1;
        let c = if self.pos >= self.len {
            return Err(self.error(Span::new(start, self.pos), "Unterminated character", None));
        } else if self.chars[self.pos] == '\\' {
            match self.lex_escape() {
                Ok(c) => c,
                Err(e) => return Err(e),
            }
        } else if self.chars[self.pos] == '\'' {
            return Err(self.error(Span::new(start, self.pos), "Empty character", None));
        } else {
            let c = self.chars[self.pos];
            self.pos += 1;
            c
        };
        if !(self.pos < self.len && self.chars[self.pos] == '\'') {
            return Err(self.error(Span::new(start, self.pos), "Unterminated character", None));
        }
        self.pos += 1;
        Ok(Token::new(TokenKind::Character(c), Span::new(start, self.pos)))
    }

    fn lex_string(&mut self) -> (r: Result<Token, Error>)
        requires
            old(self).wf(),
            old(self).pos < old(self).chars@.len(),
        ensures
            final(self).chars == old(self).chars,
            final(self).len == old(self).len,
            final(self).tokens == old(self).tokens,
            final(self).file == old(self).file,
            final(self).source == old(self).source,
            match lex_string(old(self).chars@, old(self).pos as int) {
                Ok((t, p)) => r matches Ok(tk) && tk@ == t && final(self).pos == p,
                Err(d) => r matches Err(e) && e@ == old(self).error_for(d) && final(self).pos == d.span.end,
            },
    {
        let start = self.pos;
        self.pos += 1;
        let mut string = String::new();
        while self.pos < self.len
            invariant
                self.wf(),
                start < self.pos <= self.chars@.len(),
                start == old(self).pos,
                self.chars == old(self).chars,
                self.len == old(self).len,
                self.tokens == old(self).tokens,
                self.file == old(self).file,
                self.source == old(self).source,
                string_rest(self.chars@, start as int, self.pos as int, string@)
                    == lex_string(self.chars@, start as int),
            decreases self.chars@.len() - self.pos,
        {
            let c = self.chars[self.pos];
            let c = if c == '\\' {
                match self.lex_escape() {
                    Ok(e) => e,
                    Err(e) => return Err(e),
                }
            } else if c == '"' {
                self.pos += 1;
                return Ok(Token::new(TokenKind::String(string), Span::new(start, self.pos)));
            } else {
                self.pos += 1;
                c
            };
            push_char(&mut string, c);
        }
        Err(self.error(Span::new(start, self.pos), "Unterminated string", None))
    }

    /// The operator or punctuation at the current position and its extra width.
    fn punctuation(&self) -> (r: Option<(TokenKind, usize)>)
        requires
            self.wf(),
            self.pos < self.chars@.len(),
        ensures
            match punctuation(self.chars@, self.pos as int) {
                Some((k, w)) => r matches Some((kind, width)) && kind@ == k && width == w,
                None => r is None,
            },
    {
        let c = self.chars[self.pos];
        let r = match c {
            '+' => (TokenKind::Plus, 0),
            '-' => (TokenKind::Minus, 0),
            '*' => (TokenKind::Asterisk, 0),
            '/' => (TokenKind::Slash, 0),
            '=' => if self.next_is('=') { (TokenKind::Eq, 1) } else { (TokenKind::Assign, 0) },
            '(' => (TokenKind::LParen, 0),
            ')' => (TokenKind::RParen, 0),
            '[' => (TokenKind::LSquare, 0),
            ']' => (TokenKind::RSquare, 0),
            '{' => (TokenKind::LBrace, 0),
            '}' => (TokenKind::RBrace, 0),
            '!' => if self.next_is('=') { (TokenKind::NotEq, 1) } else { (TokenKind::Exclamation, 0) },
            '|' if self.next_is('|') => (TokenKind::Or, 1),
            '&' if self.next_is('&') => (TokenKind::And, 1),
            ',' => (TokenKind::Comma, 0),
            '.' => if self.next_is('.') && self.pos + 2 < self.len && self.chars[self.pos + 2] == '.' {
                (TokenKind::Ellipsis, 2)
            } else {
                (TokenKind::Dot, 0)
            },
            ';' => (TokenKind::Semicolon, 0),
            '>' => if self.next_is('=') { (TokenKind::GreaterEq, 1) } else { (TokenKind::Greater, 0) },
            '<' => if self.next_is('=') { (TokenKind::LowerEq, 1) } else { (TokenKind::Lower, 0) },
            _ => return None,
        };
        Some(r)
    }

    /// Reads tokens up to the end of the source. `None` means that an integer literal does not
    /// fit in `i64`, on which [`Lexer::tokenize`] stops the program.
    pub fn tokenize_checked(&mut self) -> (r: Option<Result<(), Error>>)
        requires
            old(self).wf(),
            old(self).position() < usize::MAX - 2,
            old(self).text().len() < usize::MAX - 2,
        ensures
            final(self).wf(),
            final(self).text() == old(self).text(),
            final(self).file_name() == old(self).file_name(),
            final(self).source_text() == old(self).source_text(),
            final(self).read() == tokens_read(old(self).text(), old(self).position(), old(self).read()),
            match old(self).outcome() {
                LexOutcome::Done(ts) => r == Some(Ok::<(), Error>(())) && final(self).read() == ts,
                LexOutcome::Failed(d) => r matches Some(Err(e)) && e@ == old(self).error_for(d) && final(self).position() == d.span.end,
                LexOutcome::Overflow => r is None,
            },
    {
        let ghost chars = self.chars@;
        while self.pos < self.len
            invariant
                self.wf(),
                self.chars@ == chars,
                chars == old(self).chars@,
                self.file == old(self).file,
                self.source == old(self).source,
                self.pos < usize::MAX - 2,
                self.len < usize::MAX - 2,
                lex_from(chars, self.pos as int, self.read()) == old(self).outcome(),
                tokens_read(chars, self.pos as int, self.read()) == tokens_read(chars, old(self).position(), old(self).read()),
            ensures
                self.pos >= chars.len(),
            decreases chars.len() - self.pos,
        {
            let pos0 = self.pos;
            let ghost toks0 = self.read();
            self.skip_whitespaces();
            proof {
                lemma_skip_ws_bounds(chars, pos0 as int, toks0);
            }
            if self.pos >= self.len {
                break;
            }
            let c = self.chars[self.pos];
            let start = self.pos;
            let ghost toks1 = self.read();
            if c == '/' && self.next_is('/') {
                proof {
                    lemma_line_end_bounds(chars, start as int + 1);
                }
                self.skip_oneline();
            } else if c == '/' && self.next_is('*') {
                proof {
                    lemma_comment_end_bounds(chars, start as int + 2);
                }
                match self.skip_multiline() {
                    Ok(()) => {},
                    Err(e) => return Some(Err(e)),
                }
            } else if digit_char(c) {
                proof {
                    lemma_number_end_bounds(chars, start as int + 1);
                }
                match self.lex_number() {
                    Ok(Some(t)) => self.push_token(t),
                    Ok(None) => return None,
                    Err(e) => return Some(Err(e)),
                }
            } else if word_start_char(c) {
                proof {
                    lemma_word_end_bounds(chars, start as int + 1);
                }
                match self.lex_ident() {
                    Ok(t) => self.push_token(t),
                    Err(e) => return Some(Err(e)),
                }
            } else if c == '\'' {
                match self.lex_char() {
                    Ok(t) => self.push_token(t),
                    Err(e) => return Some(Err(e)),
                }
            } else if c == '"' {
                proof {
                    lemma_string_rest_bounds(chars, start as int, start as int + 1, Seq::empty());
                }
                match self.lex_string() {
                    Ok(t) => self.push_token(t),
                    Err(e) => return Some(Err(e)),
                }
            } else {
                match self.punctuation() {
                    Some((kind, width)) => {
                        self.pos += width;
                        let end = self.pos;
                        self.pos += 1;
                        self.push_token(Token::new(kind, Span::new(start, end)));
                    },
                    None => {
                        let mut message = "Illegal character '".to_owned();
                        push_char(&mut message, c);
                        push_str(&mut message, "'");
                        return Some(Err(self.error(Span::short(self.pos), message.as_str(), None)));
                    },
                }
            }
            assert(lex_one(chars, start as int, toks1) == LexStep::Next(self.pos as int, self.read()));
        }
        if self.can_insert_semicolon() {
            self.push_token(Token::new(TokenKind::Semicolon, Span::short(self.pos)));
            self.pos += 1;
        }
        self.push_token(Token::new(TokenKind::EOF, Span::short(self.pos)));
        Some(Ok(()))
    }

    /// Reads tokens up to the end of the source.
    pub fn tokenize(&mut self) -> (r: Result<(), Error>)
        requires
            old(self).wf(),
            old(self).position() < usize::MAX - 2,
            old(self).text().len() < usize::MAX - 2,
            !(old(self).outcome() is Overflow),
        ensures
            final(self).wf(),
            final(self).text() == old(self).text(),
            final(self).file_name() == old(self).file_name(),
            final(self).source_text() == old(self).source_text(),
            final(self).read() == tokens_read(old(self).text(), old(self).position(), old(self).read()),
            match old(self).outcome() {
                LexOutcome::Done(ts) => r is Ok && final(self).read() == ts,
                LexOutcome::Failed(d) => r matches Err(e) && e@ == old(self).error_for(d) && final(self).position() == d.span.end,
                LexOutcome::Overflow => false,
            },
    {
        match self.tokenize_checked() {
            Some(r) => r,
            None => Ok(()),
        }
    }
}

// ---------------------------------------------------------------------------
// The law of token lists.
// ---------------------------------------------------------------------------

/// No token of `toks` is the end of input.
pub open spec fn no_eof(toks: Seq<SpecToken>) -> bool {
    forall|i: int| 0 <= i < toks.len() ==> #[trigger] toks[i].kind != SpecTokenKind::EOF
}

proof fn lemma_skip_ws_no_eof(chars: Seq<char>, pos: int, toks: Seq<SpecToken>)
    requires
        no_eof(toks),
    ensures
        no_eof(skip_ws(chars, pos, toks).1),
    decreases chars.len() - pos,
{
    if !(pos < 0 || pos >= chars.len() || !is_whitespace(chars[pos])) {
        let toks2 = if chars[pos] == '\n' && can_insert_semicolon(toks) {
            toks.push(tok(SpecTokenKind::Semicolon, pos, pos))
        } else {
            toks
        };
        assert(no_eof(toks2));
        lemma_skip_ws_no_eof(chars, pos + 1, toks2);
    }
}

proof fn lemma_string_not_eof(chars: Seq<char>, start: int, pos: int, text: Seq<char>)
    ensures
        string_rest(chars, start, pos, text) matches Ok((t, _)) ==> t.kind != SpecTokenKind::EOF,
    decreases chars.len() - pos,
{
    if !(pos < 0 || pos >= chars.len()) {
        if chars[pos] == '\\' {
            match lex_escape(chars, pos) {
                Ok(e) => lemma_string_not_eof(chars, start, pos + 2, text.push(e)),
                Err(_) => {},
            }
        } else if chars[pos] != '"' {
            lemma_string_not_eof(chars, start, pos + 1, text.push(chars[pos]));
        }
    }
}

proof fn lemma_lex_one_no_eof(chars: Seq<char>, pos: int, toks: Seq<SpecToken>)
    requires
        no_eof(toks),
        0 <= pos < chars.len(),
    ensures
        lex_one(chars, pos, toks) matches LexStep::Next(_, t) ==> no_eof(t),
{
    let c = chars[pos];
    if c == '/' && (next_is(chars, pos, '/') || next_is(chars, pos, '*')) {
    } else if is_digit(c) {
    } else if is_word_start(c) {
        let w = chars.subrange(pos, word_end(chars, pos));
        assert(word_kind(w) != SpecTokenKind::EOF);
    } else if c == '\'' {
    } else if c == '"' {
        lemma_string_not_eof(chars, pos, pos + 1, Seq::empty());
    } else {
        match punctuation(chars, pos) {
            Some((k, w)) => {
                assert(k != SpecTokenKind::EOF);
            },
            None => {},
        }
    }
}

proof fn lemma_finish_eof(pos: int, toks: Seq<SpecToken>)
    requires
        no_eof(toks),
    ensures
        finish(pos, toks).len() > 0,
        finish(pos, toks).last().kind == SpecTokenKind::EOF,
        no_eof(finish(pos, toks).drop_last()),
{
    if can_insert_semicolon(toks) {
        let semi = toks.push(tok(SpecTokenKind::Semicolon, pos, pos));
        assert(finish(pos, toks).drop_last() =~= semi);
        assert(no_eof(semi));
    } else {
        assert(finish(pos, toks).drop_last() =~= toks);
    }
}

proof fn lemma_lex_one_advances(chars: Seq<char>, pos: int, toks: Seq<SpecToken>)
    requires
        0 <= pos < chars.len(),
    ensures
        lex_one(chars, pos, toks) matches LexStep::Next(p, _) ==> pos < p <= chars.len(),
{
    let c = chars[pos];
    if c == '/' && next_is(chars, pos, '/') {
        lemma_line_end_bounds(chars, pos + 1);
    } else if c == '/' && next_is(chars, pos, '*') {
        lemma_comment_end_bounds(chars, pos + 2);
    } else if is_digit(c) {
        lemma_number_end_bounds(chars, pos + 1);
    } else if is_word_start(c) {
        lemma_word_end_bounds(chars, pos + 1);
    } else if c == '\'' {
    } else if c == '"' {
        lemma_string_rest_bounds(chars, pos, pos + 1, Seq::empty());
    }
}

proof fn lemma_lex_from_eof(chars: Seq<char>, pos: int, toks: Seq<SpecToken>)
    requires
        no_eof(toks),
    ensures
        lex_from(chars, pos, toks) matches LexOutcome::Done(ts) ==> {
            &&& ts.len() > 0
            &&& ts.last().kind == SpecTokenKind::EOF
            &&& no_eof(ts.drop_last())
        },
    decreases chars.len() - pos,
{
    if pos < 0 || pos >= chars.len() {
        lemma_finish_eof(pos, toks);
    } else {
        lemma_skip_ws_no_eof(chars, pos, toks);
        let (p1, t1) = skip_ws(chars, pos, toks);
        if p1 >= chars.len() {
            lemma_finish_eof(p1, t1);
        } else {
            lemma_skip_ws_bounds(chars, pos, toks);
            lemma_lex_one_no_eof(chars, p1, t1);
            lemma_lex_one_advances(chars, p1, t1);
            match lex_one(chars, p1, t1) {
                LexStep::Next(p2, t2) => if pos < p2 <= chars.len() {
                    lemma_lex_from_eof(chars, p2, t2);
                },
                _ => {},
            }
        }
    }
}

/// Lexing that succeeds gives a list that ends with the end of input, and has it nowhere
/// else.
pub proof fn law_tokens_end_with_eof(chars: Seq<char>)
    ensures
        lex(chars) matches LexOutcome::Done(ts) ==> {
            &&& ts.len() > 0
            &&& ts.last().kind == SpecTokenKind::EOF
            &&& forall|i: int| 0 <= i < ts.len() - 1 ==> #[trigger] ts[i].kind != SpecTokenKind::EOF
        },
{
    lemma_lex_from_eof(chars, 0, Seq::empty());
    match lex(chars) {
        LexOutcome::Done(ts) => {
            assert forall|i: int| 0 <= i < ts.len() - 1 implies #[trigger] ts[i].kind != SpecTokenKind::EOF by {
                assert(ts.drop_last()[i] == ts[i]);
            }
        },
        _ => {},
    }
}

/// Each token starts no later than it ends and ends no later than any later token starts;
/// every token ends by `bound`.
pub open spec fn spans_in_order(ts: Seq<SpecToken>, bound: int) -> bool {
    &&& forall|i: int| 0 <= i < ts.len() ==> #[trigger] ts[i].span.start <= ts[i].span.end <= bound
    &&& forall|i: int, j: int| #![trigger ts[i], ts[j]] 0 <= i < j < ts.len() ==> ts[i].span.end <= ts[j].span.start
}

proof fn lemma_order_push(ts: Seq<SpecToken>, b: int, k: SpecTokenKind, s: int, e: int, b2: int)
    requires
        spans_in_order(ts, b),
        0 <= b <= s <= e <= b2 <= usize::MAX,
    ensures
        spans_in_order(ts.push(tok(k, s, e)), b2),
{
    let t = ts.push(tok(k, s, e));
    assert forall|i: int, j: int| #![trigger t[i], t[j]] 0 <= i < j < t.len() implies t[i].span.end <= t[j].span.start by {
        if j < ts.len() {
            assert(ts[i] == t[i] && ts[j] == t[j]);
        } else {
            assert(ts[i] == t[i]);
            assert(ts[i].span.start <= ts[i].span.end <= b);
            assert(t[j] == tok(k, s, e));
        }
    }
    assert forall|i: int| 0 <= i < t.len() implies #[trigger] t[i].span.start <= t[i].span.end <= b2 by {
        if i < ts.len() {
            assert(ts[i] == t[i]);
        }
    }
}

proof fn lemma_skip_ws_order(chars: Seq<char>, pos: int, toks: Seq<SpecToken>)
    requires
        0 <= pos <= chars.len(),
        chars.len() < usize::MAX,
        spans_in_order(toks, pos),
    ensures
        spans_in_order(skip_ws(chars, pos, toks).1, skip_ws(chars, pos, toks).0),
    decreases chars.len() - pos,
{
    if pos < chars.len() && is_whitespace(chars[pos]) {
        if chars[pos] == '\n' && can_insert_semicolon(toks) {
            lemma_order_push(toks, pos, SpecTokenKind::Semicolon, pos, pos, pos + 1);
            lemma_skip_ws_order(chars, pos + 1, toks.push(tok(SpecTokenKind::Semicolon, pos, pos)));
        } else {
            lemma_skip_ws_order(chars, pos + 1, toks);
        }
    }
}

proof fn lemma_string_rest_token(chars: Seq<char>, start: int, pos: int, text: Seq<char>)
    requires
        0 <= pos,
    ensures
        string_rest(chars, start, pos, text) matches Ok((t, e)) ==> t.span == span_of(start, e),
    decreases chars.len() - pos,
{
    if 0 <= pos < chars.len() {
        if chars[pos] == '\\' {
            if let Ok(c) = lex_escape(chars, pos) {
                lemma_string_rest_token(chars, start, pos + 2, text.push(c));
            }
        } else if chars[pos] != '"' {
            lemma_string_rest_token(chars, start, pos + 1, text.push(chars[pos]));
        }
    }
}

proof fn lemma_lex_one_order(chars: Seq<char>, pos: int, toks: Seq<SpecToken>)
    requires
        0 <= pos < chars.len(),
        chars.len() < usize::MAX,
        spans_in_order(toks, pos),
    ensures
        lex_one(chars, pos, toks) matches LexStep::Next(p, t) ==> spans_in_order(t, p),
{
    let c = chars[pos];
    if c == '/' && next_is(chars, pos, '/') {
        lemma_line_end_bounds(chars, pos);
    } else if c == '/' && next_is(chars, pos, '*') {
        lemma_comment_end_bounds(chars, pos + 2);
    } else if is_digit(c) {
        lemma_number_end_bounds(chars, pos);
        let end = number_end(chars, pos);
        match lex_number(chars, pos) {
            NumberLexeme::Token(t, p) => {
                lemma_order_push(toks, pos, t.kind, pos, end, end);
            },
            _ => {},
        }
    } else if is_word_start(c) {
        lemma_word_end_bounds(chars, pos);
        let (t, p) = lex_word(chars, pos);
        lemma_order_push(toks, pos, t.kind, pos, p, p);
    } else if c == '\'' {
        match lex_char(chars, pos) {
            Ok((t, p)) => {
                lemma_order_push(toks, pos, t.kind, pos, p, p);
            },
            Err(_) => {},
        }
    } else if c == '"' {
        lemma_string_rest_bounds(chars, pos, pos + 1, Seq::empty());
        lemma_string_rest_token(chars, pos, pos + 1, Seq::empty());
        match lex_string(chars, pos) {
            Ok((t, p)) => {
                lemma_order_push(toks, pos, t.kind, pos, p, p);
            },
            Err(_) => {},
        }
    } else {
        match punctuation(chars, pos) {
            Some((k, w)) => {
                lemma_order_push(toks, pos, k, pos, pos + w, pos + w + 1);
            },
            None => {},
        }
    }
}

proof fn lemma_finish_order(pos: int, toks: Seq<SpecToken>)
    requires
        0 <= pos < usize::MAX,
        spans_in_order(toks, pos),
    ensures
        spans_in_order(finish(pos, toks), pos + 1),
{
    if can_insert_semicolon(toks) {
        lemma_order_push(toks, pos, SpecTokenKind::Semicolon, pos, pos, pos);
        let semi = toks.push(tok(SpecTokenKind::Semicolon, pos, pos));
        lemma_order_push(semi, pos, SpecTokenKind::EOF, pos + 1, pos + 1, pos + 1);
    } else {
        lemma_order_push(toks, pos, SpecTokenKind::EOF, pos, pos, pos + 1);
    }
}

proof fn lemma_lex_from_order(chars: Seq<char>, pos: int, toks: Seq<SpecToken>)
    requires
        0 <= pos <= chars.len(),
        chars.len() < usize::MAX,
        spans_in_order(toks, pos),
    ensures
        lex_from(chars, pos, toks) matches LexOutcome::Done(ts) ==> spans_in_order(ts, chars.len() as int + 1),
    decreases chars.len() - pos,
{
    if pos >= chars.len() {
        lemma_finish_order(pos, toks);
    } else {
        lemma_skip_ws_bounds(chars, pos, toks);
        lemma_skip_ws_order(chars, pos, toks);
        let (p1, t1) = skip_ws(chars, pos, toks);
        if p1 >= chars.len() {
            lemma_finish_order(p1, t1);
        } else {
            lemma_lex_one_order(chars, p1, t1);
            lemma_lex_one_advances(chars, p1, t1);
            match lex_one(chars, p1, t1) {
                LexStep::Next(p2, t2) => if pos < p2 <= chars.len() {
                    lemma_lex_from_order(chars, p2, t2);
                },
                _ => {},
            }
        }
    }
}

/// The tokens of a source come in order: each starts no later than it ends and ends no
/// later than the next one starts, and none ends more than one place past the source's end.
pub proof fn law_token_spans_in_order(chars: Seq<char>)
    requires
        chars.len() < usize::MAX,
    ensures
        lex(chars) matches LexOutcome::Done(ts) ==> spans_in_order(ts, chars.len() as int + 1),
{
    lemma_lex_from_order(chars, 0, Seq::empty());
}

/// Whether the text of punctuation kind `k` is written at `pos`.
pub open spec fn written_at(chars: Seq<char>, pos: int, k: SpecTokenKind) -> bool {
    punct_text(k) matches Some(t) && pos + t.len() <= chars.len() && chars.subrange(pos, pos + t.len()) == t
}

/// Operators and punctuation are read by their text: the token read at a position is one
/// whose characters are written there, and no punctuation written there is longer (so
/// `<=` is one `LowerEq`, never `<` and `=`).
pub proof fn law_punctuation_by_text(chars: Seq<char>, pos: int, k2: SpecTokenKind)
    requires
        0 <= pos < chars.len(),
    ensures
        punctuation(chars, pos) matches Some((k, w)) ==> written_at(chars, pos, k) && punct_text(k)->0.len() == w + 1,
        written_at(chars, pos, k2) ==> (punctuation(chars, pos) matches Some((k, w)) && punct_text(k2)->0.len() <= w + 1),
{
    match punctuation(chars, pos) {
        Some((k, w)) => {
            let t = punct_text(k)->0;
            assert(chars.subrange(pos, pos + w + 1) =~= t);
        },
        None => {},
    }
    if written_at(chars, pos, k2) {
        let t = punct_text(k2)->0;
        assert(chars[pos] == t[0]) by {
            assert(chars.subrange(pos, pos + t.len())[0] == t[0]);
        }
        if t.len() >= 2 {
            assert(chars[pos + 1] == t[1]) by {
                assert(chars.subrange(pos, pos + t.len())[1] == t[1]);
            }
        }
        if t.len() >= 3 {
            assert(chars[pos + 2] == t[2]) by {
                assert(chars.subrange(pos, pos + t.len())[2] == t[2]);
            }
        }
    }
}

/// The value an integer literal stands for is the number its digits write: reading back
/// the decimal digits of any `n` gives `n`.
pub proof fn law_decimal_value(n: nat)
    ensures
        decimal_value(decimal(n)) == n,
    decreases n,
{
    let d = (n % 10) as nat;
    assert(crate::frontend::text::digit_char(d) as int - '0' as int == d);
    if n < 10 {
        lemma_decimal_push(Seq::empty(), crate::frontend::text::digit_char(d));
        assert(seq![crate::frontend::text::digit_char(d)] =~= Seq::<char>::empty().push(crate::frontend::text::digit_char(d)));
    } else {
        law_decimal_value(n / 10);
        lemma_decimal_push(decimal(n / 10), crate::frontend::text::digit_char(d));
    }
}

/// Whether `k` is a keyword or the name of a type.
pub open spec fn is_keyword_kind(k: SpecTokenKind) -> bool {
    matches!(k, SpecTokenKind::I64 | SpecTokenKind::U64 | SpecTokenKind::F64 | SpecTokenKind::I32 | SpecTokenKind::U32 | SpecTokenKind::F32 | SpecTokenKind::I16 | SpecTokenKind::U16 | SpecTokenKind::I8 | SpecTokenKind::U8 | SpecTokenKind::Bool | SpecTokenKind::Char | SpecTokenKind::Str | SpecTokenKind::Void | SpecTokenKind::Pub | SpecTokenKind::Fn | SpecTokenKind::Import | SpecTokenKind::Extern | SpecTokenKind::Var | SpecTokenKind::Const | SpecTokenKind::Return | SpecTokenKind::If | SpecTokenKind::Else | SpecTokenKind::As | SpecTokenKind::While | SpecTokenKind::For | SpecTokenKind::In | SpecTokenKind::Continue | SpecTokenKind::Break | SpecTokenKind::True | SpecTokenKind::False)
}

/// Keywords are read by their text: a word is a keyword exactly when it is written as
/// that keyword (as its messages name it), and every other word is an identifier of
/// its own text.
pub proof fn law_keywords_by_text(w: Seq<char>, k: SpecTokenKind)
    ensures
        is_keyword_kind(k) ==> word_kind(describe_kind(k)) == k,
        is_keyword_kind(word_kind(w)) ==> describe_kind(word_kind(w)) == w,
        !is_keyword_kind(word_kind(w)) ==> word_kind(w) == SpecTokenKind::Identifier(w),
{
    reveal_strlit("i64");
    reveal_strlit("u64");
    reveal_strlit("f64");
    reveal_strlit("i32");
    reveal_strlit("u32");
    reveal_strlit("f32");
    reveal_strlit("i16");
    reveal_strlit("u16");
    reveal_strlit("i8");
    reveal_strlit("u8");
    reveal_strlit("bool");
    reveal_strlit("char");
    reveal_strlit("str");
    reveal_strlit("void");
    reveal_strlit("pub");
    reveal_strlit("fn");
    reveal_strlit("import");
    reveal_strlit("extern");
    reveal_strlit("var");
    reveal_strlit("const");
    reveal_strlit("return");
    reveal_strlit("if");
    reveal_strlit("else");
    reveal_strlit("as");
    reveal_strlit("while");
    reveal_strlit("for");
    reveal_strlit("in");
    reveal_strlit("continue");
    reveal_strlit("break");
    reveal_strlit("true");
    reveal_strlit("false");
    match k {
        SpecTokenKind::I64 => {
            assert(word_kind(describe_kind(k)) == k);
        },
        SpecTokenKind::U64 => {
            assert("u64"@[0] != "i64"@[0]);
            assert(word_kind(describe_kind(k)) == k);
        },
        SpecTokenKind::F64 => {
            assert("f64"@[0] != "i64"@[0]);
            assert("f64"@[0] != "u64"@[0]);
            assert(word_kind(describe_kind(k)) == k);
        },
        SpecTokenKind::I32 => {
            assert("i32"@[1] != "i64"@[1]);
            assert("i32"@[0] != "u64"@[0]);
            assert("i32"@[0] != "f64"@[0]);
            assert(word_kind(describe_kind(k)) == k);
        },
        SpecTokenKind::U32 => {
            assert("u32"@[0] != "i64"@[0]);
            assert("u32"@[1] != "u64"@[1]);
            assert("u32"@[0] != "f64"@[0]);
            assert("u32"@[0] != "i32"@[0]);
            assert(word_kind(describe_kind(k)) == k);
        },
        SpecTokenKind::F32 => {
            assert("f32"@[0] != "i64"@[0]);
            assert("f32"@[0] != "u64"@[0]);
            assert("f32"@[1] != "f64"@[1]);
            assert("f32"@[0] != "i32"@[0]);
            assert("f32"@[0] != "u32"@[0]);
            assert(word_kind(describe_kind(k)) == k);
        },
        SpecTokenKind::I16 => {
            assert("i16"@[1] != "i64"@[1]);
            assert("i16"@[0] != "u64"@[0]);
            assert("i16"@[0] != "f64"@[0]);
            assert("i16"@[1] != "i32"@[1]);
            assert("i16"@[0] != "u32"@[0]);
            assert("i16"@[0] != "f32"@[0]);
            assert(word_kind(describe_kind(k)) == k);
        },
        SpecTokenKind::U16 => {
            assert("u16"@[0] != "i64"@[0]);
            assert("u16"@[1] != "u64"@[1]);
            assert("u16"@[0] != "f64"@[0]);
            assert("u16"@[0] != "i32"@[0]);
            assert("u16"@[1] != "u32"@[1]);
            assert("u16"@[0] != "f32"@[0]);
            assert("u16"@[0] != "i16"@[0]);
            assert(word_kind(describe_kind(k)) == k);
        },
        SpecTokenKind::I8 => {
            assert("i8"@.len() != "i64"@.len());
            assert("i8"@.len() != "u64"@.len());
            assert("i8"@.len() != "f64"@.len());
            assert("i8"@.len() != "i32"@.len());
            assert("i8"@.len() != "u32"@.len());
            assert("i8"@.len() != "f32"@.len());
            assert("i8"@.len() != "i16"@.len());
            assert("i8"@.len() != "u16"@.len());
            assert(word_kind(describe_kind(k)) == k);
        },
        SpecTokenKind::U8 => {
            assert("u8"@.len() != "i64"@.len());
            assert("u8"@.len() != "u64"@.len());
            assert("u8"@.len() != "f64"@.len());
            assert("u8"@.len() != "i32"@.len());
            assert("u8"@.len() != "u32"@.len());
            assert("u8"@.len() != "f32"@.len());
            assert("u8"@.len() != "i16"@.len());
            assert("u8"@.len() != "u16"@.len());
            assert("u8"@[0] != "i8"@[0]);
            assert(word_kind(describe_kind(k)) == k);
        },
        SpecTokenKind::Bool => {
            assert("bool"@.len() != "i64"@.len());
            assert("bool"@.len() != "u64"@.len());
            assert("bool"@.len() != "f64"@.len());
            assert("bool"@.len() != "i32"@.len());
            assert("bool"@.len() != "u32"@.len());
            assert("bool"@.len() != "f32"@.len());
            assert("bool"@.len() != "i16"@.len());
            assert("bool"@.len() != "u16"@.len());
            assert("bool"@.len() != "i8"@.len());
            assert("bool"@.len() != "u8"@.len());
            assert(word_kind(describe_kind(k)) == k);
        },
        SpecTokenKind::Char => {
            assert("char"@.len() != "i64"@.len());
            assert("char"@.len() != "u64"@.len());
            assert("char"@.len() != "f64"@.len());
            assert("char"@.len() != "i32"@.len());
            assert("char"@.len() != "u32"@.len());
            assert("char"@.len() != "f32"@.len());
            assert("char"@.len() != "i16"@.len());
            assert("char"@.len() != "u16"@.len());
            assert("char"@.len() != "i8"@.len());
            assert("char"@.len() != "u8"@.len());
            assert("char"@[0] != "bool"@[0]);
            assert(word_kind(describe_kind(k)) == k);
        },
        SpecTokenKind::Str => {
            assert("str"@[0] != "i64"@[0]);
            assert("str"@[0] != "u64"@[0]);
            assert("str"@[0] != "f64"@[0]);
            assert("str"@[0] != "i32"@[0]);
            assert("str"@[0] != "u32"@[0]);
            assert("str"@[0] != "f32"@[0]);
            assert("str"@[0] != "i16"@[0]);
            assert("str"@[0] != "u16"@[0]);
            assert("str"@.len() != "i8"@.len());
            assert("str"@.len() != "u8"@.len());
            assert("str"@.len() != "bool"@.len());
            assert("str"@.len() != "char"@.len());
            assert(word_kind(describe_kind(k)) == k);
        },
        SpecTokenKind::Void => {
            assert("void"@.len() != "i64"@.len());
            assert("void"@.len() != "u64"@.len());
            assert("void"@.len() != "f64"@.len());
            assert("void"@.len() != "i32"@.len());
            assert("void"@.len() != "u32"@.len());
            assert("void"@.len() != "f32"@.len());
            assert("void"@.len() != "i16"@.len());
            assert("void"@.len() != "u16"@.len());
            assert("void"@.len() != "i8"@.len());
            assert("void"@.len() != "u8"@.len());
            assert("void"@[0] != "bool"@[0]);
            assert("void"@[0] != "char"@[0]);
            assert("void"@.len() != "str"@.len());
            assert(word_kind(describe_kind(k)) == k);
        },
        SpecTokenKind::Pub => {
            assert("pub"@[0] != "i64"@[0]);
            assert("pub"@[0] != "u64"@[0]);
            assert("pub"@[0] != "f64"@[0]);
            assert("pub"@[0] != "i32"@[0]);
            assert("pub"@[0] != "u32"@[0]);
            assert("pub"@[0] != "f32"@[0]);
            assert("pub"@[0] != "i16"@[0]);
            assert("pub"@[0] != "u16"@[0]);
            assert("pub"@.len() != "i8"@.len());
            assert("pub"@.len() != "u8"@.len());
            assert("pub"@.len() != "bool"@.len());
            assert("pub"@.len() != "char"@.len());
            assert("pub"@[0] != "str"@[0]);
            assert("pub"@.len() != "void"@.len());
            assert(word_kind(describe_kind(k)) == k);
        },
        SpecTokenKind::Fn => {
            assert("fn"@.len() != "i64"@.len());
            assert("fn"@.len() != "u64"@.len());
            assert("fn"@.len() != "f64"@.len());
            assert("fn"@.len() != "i32"@.len());
            assert("fn"@.len() != "u32"@.len());
            assert("fn"@.len() != "f32"@.len());
            assert("fn"@.len() != "i16"@.len());
            assert("fn"@.len() != "u16"@.len());
            assert("fn"@[0] != "i8"@[0]);
            assert("fn"@[0] != "u8"@[0]);
            assert("fn"@.len() != "bool"@.len());
            assert("fn"@.len() != "char"@.len());
            assert("fn"@.len() != "str"@.len());
            assert("fn"@.len() != "void"@.len());
            assert("fn"@.len() != "pub"@.len());
            assert(word_kind(describe_kind(k)) == k);
        },
        SpecTokenKind::Import => {
            assert("import"@.len() != "i64"@.len());
            assert("import"@.len() != "u64"@.len());
            assert("import"@.len() != "f64"@.len());
            assert("import"@.len() != "i32"@.len());
            assert("import"@.len() != "u32"@.len());
            assert("import"@.len() != "f32"@.len());
            assert("import"@.len() != "i16"@.len());
            assert("import"@.len() != "u16"@.len());
            assert("import"@.len() != "i8"@.len());
            assert("import"@.len() != "u8"@.len());
            assert("import"@.len() != "bool"@.len());
            assert("import"@.len() != "char"@.len());
            assert("import"@.len() != "str"@.len());
            assert("import"@.len() != "void"@.len());
            assert("import"@.len() != "pub"@.len());
            assert("import"@.len() != "fn"@.len());
            assert(word_kind(describe_kind(k)) == k);
        },
        SpecTokenKind::Extern => {
            assert("extern"@.len() != "i64"@.len());
            assert("extern"@.len() != "u64"@.len());
            assert("extern"@.len() != "f64"@.len());
            assert("extern"@.len() != "i32"@.len());
            assert("extern"@.len() != "u32"@.len());
            assert("extern"@.len() != "f32"@.len());
            assert("extern"@.len() != "i16"@.len());
            assert("extern"@.len() != "u16"@.len());
            assert("extern"@.len() != "i8"@.len());
            assert("extern"@.len() != "u8"@.len());
            assert("extern"@.len() != "bool"@.len());
            assert("extern"@.len() != "char"@.len());
            assert("extern"@.len() != "str"@.len());
            assert("extern"@.len() != "void"@.len());
            assert("extern"@.len() != "pub"@.len());
            assert("extern"@.len() != "fn"@.len());
            assert("extern"@[0] != "import"@[0]);
            assert(word_kind(describe_kind(k)) == k);
        },
        SpecTokenKind::Var => {
            assert("var"@[0] != "i64"@[0]);
            assert("var"@[0] != "u64"@[0]);
            assert("var"@[0] != "f64"@[0]);
            assert("var"@[0] != "i32"@[0]);
            assert("var"@[0] != "u32"@[0]);
            assert("var"@[0] != "f32"@[0]);
            assert("var"@[0] != "i16"@[0]);
            assert("var"@[0] != "u16"@[0]);
            assert("var"@.len() != "i8"@.len());
            assert("var"@.len() != "u8"@.len());
            assert("var"@.len() != "bool"@.len());
            assert("var"@.len() != "char"@.len());
            assert("var"@[0] != "str"@[0]);
            assert("var"@.len() != "void"@.len());
            assert("var"@[0] != "pub"@[0]);
            assert("var"@.len() != "fn"@.len());
            assert("var"@.len() != "import"@.len());
            assert("var"@.len() != "extern"@.len());
            assert(word_kind(describe_kind(k)) == k);
        },
        SpecTokenKind::Const => {
            assert("const"@.len() != "i64"@.len());
            assert("const"@.len() != "u64"@.len());
            assert("const"@.len() != "f64"@.len());
            assert("const"@.len() != "i32"@.len());
            assert("const"@.len() != "u32"@.len());
            assert("const"@.len() != "f32"@.len());
            assert("const"@.len() != "i16"@.len());
            assert("const"@.len() != "u16"@.len());
            assert("const"@.len() != "i8"@.len());
            assert("const"@.len() != "u8"@.len());
            assert("const"@.len() != "bool"@.len());
            assert("const"@.len() != "char"@.len());
            assert("const"@.len() != "str"@.len());
            assert("const"@.len() != "void"@.len());
            assert("const"@.len() != "pub"@.len());
            assert("const"@.len() != "fn"@.len());
            assert("const"@.len() != "import"@.len());
            assert("const"@.len() != "extern"@.len());
            assert("const"@.len() != "var"@.len());
            assert(word_kind(describe_kind(k)) == k);
        },
        SpecTokenKind::Return => {
            assert("return"@.len() != "i64"@.len());
            assert("return"@.len() != "u64"@.len());
            assert("return"@.len() != "f64"@.len());
            assert("return"@.len() != "i32"@.len());
            assert("return"@.len() != "u32"@.len());
            assert("return"@.len() != "f32"@.len());
            assert("return"@.len() != "i16"@.len());
            assert("return"@.len() != "u16"@.len());
            assert("return"@.len() != "i8"@.len());
            assert("return"@.len() != "u8"@.len());
            assert("return"@.len() != "bool"@.len());
            assert("return"@.len() != "char"@.len());
            assert("return"@.len() != "str"@.len());
            assert("return"@.len() != "void"@.len());
            assert("return"@.len() != "pub"@.len());
            assert("return"@.len() != "fn"@.len());
            assert("return"@[0] != "import"@[0]);
            assert("return"@[0] != "extern"@[0]);
            assert("return"@.len() != "var"@.len());
            assert("return"@.len() != "const"@.len());
            assert(word_kind(describe_kind(k)) == k);
        },
        SpecTokenKind::If => {
            assert("if"@.len() != "i64"@.len());
            assert("if"@.len() != "u64"@.len());
            assert("if"@.len() != "f64"@.len());
            assert("if"@.len() != "i32"@.len());
            assert("if"@.len() != "u32"@.len());
            assert("if"@.len() != "f32"@.len());
            assert("if"@.len() != "i16"@.len());
            assert("if"@.len() != "u16"@.len());
            assert("if"@[1] != "i8"@[1]);
            assert("if"@[0] != "u8"@[0]);
            assert("if"@.len() != "bool"@.len());
            assert("if"@.len() != "char"@.len());
            assert("if"@.len() != "str"@.len());
            assert("if"@.len() != "void"@.len());
            assert("if"@.len() != "pub"@.len());
            assert("if"@[0] != "fn"@[0]);
            assert("if"@.len() != "import"@.len());
            assert("if"@.len() != "extern"@.len());
            assert("if"@.len() != "var"@.len());
            assert("if"@.len() != "const"@.len());
            assert("if"@.len() != "return"@.len());
            assert(word_kind(describe_kind(k)) == k);
        },
        SpecTokenKind::Else => {
            assert("else"@.len() != "i64"@.len());
            assert("else"@.len() != "u64"@.len());
            assert("else"@.len() != "f64"@.len());
            assert("else"@.len() != "i32"@.len());
            assert("else"@.len() != "u32"@.len());
            assert("else"@.len() != "f32"@.len());
            assert("else"@.len() != "i16"@.len());
            assert("else"@.len() != "u16"@.len());
            assert("else"@.len() != "i8"@.len());
            assert("else"@.len() != "u8"@.len());
            assert("else"@[0] != "bool"@[0]);
            assert("else"@[0] != "char"@[0]);
            assert("else"@.len() != "str"@.len());
            assert("else"@[0] != "void"@[0]);
            assert("else"@.len() != "pub"@.len());
            assert("else"@.len() != "fn"@.len());
            assert("else"@.len() != "import"@.len());
            assert("else"@.len() != "extern"@.len());
            assert("else"@.len() != "var"@.len());
            assert("else"@.len() != "const"@.len());
            assert("else"@.len() != "return"@.len());
            assert("else"@.len() != "if"@.len());
            assert(word_kind(describe_kind(k)) == k);
        },
        SpecTokenKind::As => {
            assert("as"@.len() != "i64"@.len());
            assert("as"@.len() != "u64"@.len());
            assert("as"@.len() != "f64"@.len());
            assert("as"@.len() != "i32"@.len());
            assert("as"@.len() != "u32"@.len());
            assert("as"@.len() != "f32"@.len());
            assert("as"@.len() != "i16"@.len());
            assert("as"@.len() != "u16"@.len());
            assert("as"@[0] != "i8"@[0]);
            assert("as"@[0] != "u8"@[0]);
            assert("as"@.len() != "bool"@.len());
            assert("as"@.len() != "char"@.len());
            assert("as"@.len() != "str"@.len());
            assert("as"@.len() != "void"@.len());
            assert("as"@.len() != "pub"@.len());
            assert("as"@[0] != "fn"@[0]);
            assert("as"@.len() != "import"@.len());
            assert("as"@.len() != "extern"@.len());
            assert("as"@.len() != "var"@.len());
            assert("as"@.len() != "const"@.len());
            assert("as"@.len() != "return"@.len());
            assert("as"@[0] != "if"@[0]);
            assert("as"@.len() != "else"@.len());
            assert(word_kind(describe_kind(k)) == k);
        },
        SpecTokenKind::While => {
            assert("while"@.len() != "i64"@.len());
            assert("while"@.len() != "u64"@.len());
            assert("while"@.len() != "f64"@.len());
            assert("while"@.len() != "i32"@.len());
            assert("while"@.len() != "u32"@.len());
            assert("while"@.len() != "f32"@.len());
            assert("while"@.len() != "i16"@.len());
            assert("while"@.len() != "u16"@.len());
            assert("while"@.len() != "i8"@.len());
            assert("while"@.len() != "u8"@.len());
            assert("while"@.len() != "bool"@.len());
            assert("while"@.len() != "char"@.len());
            assert("while"@.len() != "str"@.len());
            assert("while"@.len() != "void"@.len());
            assert("while"@.len() != "pub"@.len());
            assert("while"@.len() != "fn"@.len());
            assert("while"@.len() != "import"@.len());
            assert("while"@.len() != "extern"@.len());
            assert("while"@.len() != "var"@.len());
            assert("while"@[0] != "const"@[0]);
            assert("while"@.len() != "return"@.len());
            assert("while"@.len() != "if"@.len());
            assert("while"@.len() != "else"@.len());
            assert("while"@.len() != "as"@.len());
            assert(word_kind(describe_kind(k)) == k);
        },
        SpecTokenKind::For => {
            assert("for"@[0] != "i64"@[0]);
            assert("for"@[0] != "u64"@[0]);
            assert("for"@[1] != "f64"@[1]);
            assert("for"@[0] != "i32"@[0]);
            assert("for"@[0] != "u32"@[0]);
            assert("for"@[1] != "f32"@[1]);
            assert("for"@[0] != "i16"@[0]);
            assert("for"@[0] != "u16"@[0]);
            assert("for"@.len() != "i8"@.len());
            assert("for"@.len() != "u8"@.len());
            assert("for"@.len() != "bool"@.len());
            assert("for"@.len() != "char"@.len());
            assert("for"@[0] != "str"@[0]);
            assert("for"@.len() != "void"@.len());
            assert("for"@[0] != "pub"@[0]);
            assert("for"@.len() != "fn"@.len());
            assert("for"@.len() != "import"@.len());
            assert("for"@.len() != "extern"@.len());
            assert("for"@[0] != "var"@[0]);
            assert("for"@.len() != "const"@.len());
            assert("for"@.len() != "return"@.len());
            assert("for"@.len() != "if"@.len());
            assert("for"@.len() != "else"@.len());
            assert("for"@.len() != "as"@.len());
            assert("for"@.len() != "while"@.len());
            assert(word_kind(describe_kind(k)) == k);
        },
        SpecTokenKind::In => {
            assert("in"@.len() != "i64"@.len());
            assert("in"@.len() != "u64"@.len());
            assert("in"@.len() != "f64"@.len());
            assert("in"@.len() != "i32"@.len());
            assert("in"@.len() != "u32"@.len());
            assert("in"@.len() != "f32"@.len());
            assert("in"@.len() != "i16"@.len());
            assert("in"@.len() != "u16"@.len());
            assert("in"@[1] != "i8"@[1]);
            assert("in"@[0] != "u8"@[0]);
            assert("in"@.len() != "bool"@.len());
            assert("in"@.len() != "char"@.len());
            assert("in"@.len() != "str"@.len());
            assert("in"@.len() != "void"@.len());
            assert("in"@.len() != "pub"@.len());
            assert("in"@[0] != "fn"@[0]);
            assert("in"@.len() != "import"@.len());
            assert("in"@.len() != "extern"@.len());
            assert("in"@.len() != "var"@.len());
            assert("in"@.len() != "const"@.len());
            assert("in"@.len() != "return"@.len());
            assert("in"@[1] != "if"@[1]);
            assert("in"@.len() != "else"@.len());
            assert("in"@[0] != "as"@[0]);
            assert("in"@.len() != "while"@.len());
            assert("in"@.len() != "for"@.len());
            assert(word_kind(describe_kind(k)) == k);
        },
        SpecTokenKind::Continue => {
            assert("continue"@.len() != "i64"@.len());
            assert("continue"@.len() != "u64"@.len());
            assert("continue"@.len() != "f64"@.len());
            assert("continue"@.len() != "i32"@.len());
            assert("continue"@.len() != "u32"@.len());
            assert("continue"@.len() != "f32"@.len());
            assert("continue"@.len() != "i16"@.len());
            assert("continue"@.len() != "u16"@.len());
            assert("continue"@.len() != "i8"@.len());
            assert("continue"@.len() != "u8"@.len());
            assert("continue"@.len() != "bool"@.len());
            assert("continue"@.len() != "char"@.len());
            assert("continue"@.len() != "str"@.len());
            assert("continue"@.len() != "void"@.len());
            assert("continue"@.len() != "pub"@.len());
            assert("continue"@.len() != "fn"@.len());
            assert("continue"@.len() != "import"@.len());
            assert("continue"@.len() != "extern"@.len());
            assert("continue"@.len() != "var"@.len());
            assert("continue"@.len() != "const"@.len());
            assert("continue"@.len() != "return"@.len());
            assert("continue"@.len() != "if"@.len());
            assert("continue"@.len() != "else"@.len());
            assert("continue"@.len() != "as"@.len());
            assert("continue"@.len() != "while"@.len());
            assert("continue"@.len() != "for"@.len());
            assert("continue"@.len() != "in"@.len());
            assert(word_kind(describe_kind(k)) == k);
        },
        SpecTokenKind::Break => {
            assert("break"@.len() != "i64"@.len());
            assert("break"@.len() != "u64"@.len());
            assert("break"@.len() != "f64"@.len());
            assert("break"@.len() != "i32"@.len());
            assert("break"@.len() != "u32"@.len());
            assert("break"@.len() != "f32"@.len());
            assert("break"@.len() != "i16"@.len());
            assert("break"@.len() != "u16"@.len());
            assert("break"@.len() != "i8"@.len());
            assert("break"@.len() != "u8"@.len());
            assert("break"@.len() != "bool"@.len());
            assert("break"@.len() != "char"@.len());
            assert("break"@.len() != "str"@.len());
            assert("break"@.len() != "void"@.len());
            assert("break"@.len() != "pub"@.len());
            assert("break"@.len() != "fn"@.len());
            assert("break"@.len() != "import"@.len());
            assert("break"@.len() != "extern"@.len());
            assert("break"@.len() != "var"@.len());
            assert("break"@[0] != "const"@[0]);
            assert("break"@.len() != "return"@.len());
            assert("break"@.len() != "if"@.len());
            assert("break"@.len() != "else"@.len());
            assert("break"@.len() != "as"@.len());
            assert("break"@[0] != "while"@[0]);
            assert("break"@.len() != "for"@.len());
            assert("break"@.len() != "in"@.len());
            assert("break"@.len() != "continue"@.len());
            assert(word_kind(describe_kind(k)) == k);
        },
        SpecTokenKind::True => {
            assert("true"@.len() != "i64"@.len());
            assert("true"@.len() != "u64"@.len());
            assert("true"@.len() != "f64"@.len());
            assert("true"@.len() != "i32"@.len());
            assert("true"@.len() != "u32"@.len());
            assert("true"@.len() != "f32"@.len());
            assert("true"@.len() != "i16"@.len());
            assert("true"@.len() != "u16"@.len());
            assert("true"@.len() != "i8"@.len());
            assert("true"@.len() != "u8"@.len());
            assert("true"@[0] != "bool"@[0]);
            assert("true"@[0] != "char"@[0]);
            assert("true"@.len() != "str"@.len());
            assert("true"@[0] != "void"@[0]);
            assert("true"@.len() != "pub"@.len());
            assert("true"@.len() != "fn"@.len());
            assert("true"@.len() != "import"@.len());
            assert("true"@.len() != "extern"@.len());
            assert("true"@.len() != "var"@.len());
            assert("true"@.len() != "const"@.len());
            assert("true"@.len() != "return"@.len());
            assert("true"@.len() != "if"@.len());
            assert("true"@[0] != "else"@[0]);
            assert("true"@.len() != "as"@.len());
            assert("true"@.len() != "while"@.len());
            assert("true"@.len() != "for"@.len());
            assert("true"@.len() != "in"@.len());
            assert("true"@.len() != "continue"@.len());
            assert("true"@.len() != "break"@.len());
            assert(word_kind(describe_kind(k)) == k);
        },
        SpecTokenKind::False => {
            assert("false"@.len() != "i64"@.len());
            assert("false"@.len() != "u64"@.len());
            assert("false"@.len() != "f64"@.len());
            assert("false"@.len() != "i32"@.len());
            assert("false"@.len() != "u32"@.len());
            assert("false"@.len() != "f32"@.len());
            assert("false"@.len() != "i16"@.len());
            assert("false"@.len() != "u16"@.len());
            assert("false"@.len() != "i8"@.len());
            assert("false"@.len() != "u8"@.len());
            assert("false"@.len() != "bool"@.len());
            assert("false"@.len() != "char"@.len());
            assert("false"@.len() != "str"@.len());
            assert("false"@.len() != "void"@.len());
            assert("false"@.len() != "pub"@.len());
            assert("false"@.len() != "fn"@.len());
            assert("false"@.len() != "import"@.len());
            assert("false"@.len() != "extern"@.len());
            assert("false"@.len() != "var"@.len());
            assert("false"@[0] != "const"@[0]);
            assert("false"@.len() != "return"@.len());
            assert("false"@.len() != "if"@.len());
            assert("false"@.len() != "else"@.len());
            assert("false"@.len() != "as"@.len());
            assert("false"@[0] != "while"@[0]);
            assert("false"@.len() != "for"@.len());
            assert("false"@.len() != "in"@.len());
            assert("false"@.len() != "continue"@.len());
            assert("false"@[0] != "break"@[0]);
            assert("false"@.len() != "true"@.len());
            assert(word_kind(describe_kind(k)) == k);
        },
        _ => {},
    }
}

proof fn lemma_decimal_digits(n: nat)
    ensures
        decimal(n).len() > 0,
        forall|i: int| 0 <= i < decimal(n).len() ==> is_digit(#[trigger] decimal(n)[i]),
        without_underscores(decimal(n)) == decimal(n),
        count_points(decimal(n)) == 0,
    decreases n,
{
    let c = crate::frontend::text::digit_char((n % 10) as nat);
    if n < 10 {
        lemma_without_underscores_push(Seq::empty(), c);
        assert(seq![c] =~= Seq::<char>::empty().push(c));
        assert(without_underscores(Seq::<char>::empty()) =~= Seq::<char>::empty());
    } else {
        lemma_decimal_digits(n / 10);
        lemma_without_underscores_push(decimal(n / 10), c);
    }
}

proof fn lemma_number_end_digits(chars: Seq<char>, pos: int)
    requires
        0 <= pos <= chars.len(),
        forall|i: int| 0 <= i < chars.len() ==> is_digit(#[trigger] chars[i]),
    ensures
        number_end(chars, pos) == chars.len(),
    decreases chars.len() - pos,
{
    if pos < chars.len() {
        lemma_number_end_digits(chars, pos + 1);
    }
}

/// An integer literal stands for the number it writes: the decimal digits of any `n`
/// that fits in `i64` are read as one integer token of value `n` spanning them, after
/// which the end of the line ends the statement.
pub proof fn law_integer_literal(n: nat)
    requires
        n <= i64::MAX,
    ensures
        lex(decimal(n)) == LexOutcome::Done(seq![
            tok(SpecTokenKind::Integer(n as i64), 0, decimal(n).len() as int),
            tok(SpecTokenKind::Semicolon, decimal(n).len() as int, decimal(n).len() as int),
            tok(SpecTokenKind::EOF, decimal(n).len() as int + 1, decimal(n).len() as int + 1),
        ]),
{
    let chars = decimal(n);
    lemma_decimal_digits(n);
    law_decimal_value(n);
    lemma_number_end_digits(chars, 0);
    assert(chars.subrange(0, chars.len() as int) =~= chars);
    assert(is_digit(chars[0]));
    let t = tok(SpecTokenKind::Integer(n as i64), 0, chars.len() as int);
    assert(lex_one(chars, 0, Seq::empty()) == LexStep::Next(chars.len() as int, seq![t]));
    assert(lex_from(chars, chars.len() as int, seq![t]) == LexOutcome::Done(finish(chars.len() as int, seq![t])));
    assert(finish(chars.len() as int, seq![t]) =~= seq![
        t,
        tok(SpecTokenKind::Semicolon, chars.len() as int, chars.len() as int),
        tok(SpecTokenKind::EOF, chars.len() as int + 1, chars.len() as int + 1),
    ]);
}

proof fn lemma_plain_string_rest(chars: Seq<char>, start: int, pos: int, end: int)
    requires
        0 <= start < pos <= end < chars.len(),
        chars[end] == '"',
        forall|i: int| start < i < end ==> #[trigger] chars[i] != '"' && chars[i] != '\\',
    ensures
        string_rest(chars, start, pos, chars.subrange(start + 1, pos))
            == Ok::<(SpecToken, int), Diagnostic>((tok(SpecTokenKind::String(chars.subrange(start + 1, end)), start, end + 1), end + 1)),
    decreases end - pos,
{
    if pos < end {
        assert(chars.subrange(start + 1, pos).push(chars[pos]) =~= chars.subrange(start + 1, pos + 1));
        lemma_plain_string_rest(chars, start, pos + 1, end);
    }
}

/// A string literal without escapes stands for the characters between its quotes, and
/// a character literal for the character between its quotes.
pub proof fn law_plain_literals(chars: Seq<char>, start: int, end: int)
    requires
        0 <= start < end < chars.len(),
    ensures
        chars[start] == '"' && chars[end] == '"' && (forall|i: int| start < i < end ==> #[trigger] chars[i] != '"' && chars[i] != '\\')
            ==> lex_string(chars, start)
                == Ok::<(SpecToken, int), Diagnostic>((tok(SpecTokenKind::String(chars.subrange(start + 1, end)), start, end + 1), end + 1)),
        chars[start] == '\'' && end == start + 2 && chars[start + 1] != '\\' && chars[start + 1] != '\'' && chars[end] == '\''
            ==> lex_char(chars, start) == Ok::<(SpecToken, int), Diagnostic>((tok(SpecTokenKind::Character(chars[start + 1]), start, end + 1), end + 1)),
{
    if chars[start] == '"' && chars[end] == '"' && (forall|i: int| start < i < end ==> #[trigger] chars[i] != '"' && chars[i] != '\\') {
        assert(chars.subrange(start + 1, start + 1) =~= Seq::<char>::empty());
        lemma_plain_string_rest(chars, start, start + 1, end);
    }
}

/// A line break ends a statement after a token that can end an expression, never after
/// one that expects more: not after an operator, an opening bracket, a comma, a dot, `=`
/// or `;`, but after a name, a literal, a closing bracket, `true`, `false`, `return`,
/// `break` or `continue`.
pub proof fn law_line_break_ends_statement(toks: Seq<SpecToken>, t: SpecToken)
    ensures
        matches!(t.kind, SpecTokenKind::Plus | SpecTokenKind::Minus | SpecTokenKind::Asterisk | SpecTokenKind::Slash
            | SpecTokenKind::Eq | SpecTokenKind::NotEq | SpecTokenKind::Greater | SpecTokenKind::Lower
            | SpecTokenKind::GreaterEq | SpecTokenKind::LowerEq | SpecTokenKind::And | SpecTokenKind::Or
            | SpecTokenKind::Exclamation | SpecTokenKind::Assign | SpecTokenKind::LParen | SpecTokenKind::LSquare
            | SpecTokenKind::LBrace | SpecTokenKind::Comma | SpecTokenKind::Dot | SpecTokenKind::Ellipsis
            | SpecTokenKind::Semicolon) ==> !can_insert_semicolon(toks.push(t)),
        matches!(t.kind, SpecTokenKind::Identifier(_) | SpecTokenKind::Integer(_) | SpecTokenKind::Float(_)
            | SpecTokenKind::String(_) | SpecTokenKind::Character(_) | SpecTokenKind::RParen | SpecTokenKind::RSquare
            | SpecTokenKind::RBrace | SpecTokenKind::True | SpecTokenKind::False | SpecTokenKind::Return
            | SpecTokenKind::Break | SpecTokenKind::Continue) ==> can_insert_semicolon(toks.push(t)),
        !can_insert_semicolon(Seq::empty()),
{
    assert(toks.push(t).last() == t);
}

} // verus!
