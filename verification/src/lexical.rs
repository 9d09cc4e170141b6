//! The mathematical model of scanning: what one call of the scanner does to a
//! position and a line in a source text, and the tokens a whole text gives.
//!
//! Positions are indices into the source seen as a sequence of characters;
//! the scanner reads the character `'\0'` past the end.

use vstd::prelude::*;
use crate::text::alphabetic;
use crate::token::{TokenModel, TokenType};

verus! {

/// The classes of characters over which the scanner runs.
#[derive(Clone, Copy, PartialEq, Eq, Structural)]
pub enum CharClass {
    /// Anything but a line break: the body of a `//` comment.
    NotNewline,
    /// Anything but a double quote: the body of a string literal.
    NotQuote,
    /// A decimal digit.
    Digit,
    /// A letter or a decimal digit: the rest of an identifier.
    IdentPart,
}

/// `'0'` to `'9'`.
pub open spec fn is_decimal_digit(c: char) -> bool {
    '0' <= c && c <= '9'
}

/// Whether `c` belongs to class `k`.
pub open spec fn in_class(k: CharClass, c: char) -> bool {
    match k {
        CharClass::NotNewline => c != '\n',
        CharClass::NotQuote => c != '"',
        CharClass::Digit => is_decimal_digit(c),
        CharClass::IdentPart => alphabetic(c) || is_decimal_digit(c),
    }
}

/// The first position at or after `i` that is the end of `src` or holds a
/// character outside class `k`.
pub open spec fn run_end(src: Seq<char>, i: int, k: CharClass) -> int
    decreases src.len() - i,
{
    if 0 <= i < src.len() && in_class(k, src[i]) {
        run_end(src, i + 1, k)
    } else {
        i
    }
}

/// The number of line breaks in `src[i..j]`.
pub open spec fn count_newlines(src: Seq<char>, i: int, j: int) -> int
    decreases j - i,
{
    if j <= i {
        0
    } else {
        count_newlines(src, i, j - 1) + (if src[j - 1] == '\n' { 1int } else { 0int })
    }
}

/// The character the scanner sees at `i`: `'\0'` at the end.
pub open spec fn peek_at(src: Seq<char>, i: int) -> char {
    if 0 <= i < src.len() {
        src[i]
    } else {
        '\0'
    }
}

/// Skipping white space from `cur` reads no character past the end: it does
/// only when a lone `/` is the last character.
pub open spec fn skip_ws_ok(src: Seq<char>, cur: int) -> bool {
    !(peek_at(src, cur) == '/' && cur + 1 == src.len())
}

/// The position and line after the scanner skips white space at `cur`: one
/// blank, one line break, or one `//` comment together with the line break
/// that ends it.
pub open spec fn skip_ws(src: Seq<char>, cur: int, line: int) -> (int, int) {
    let c = peek_at(src, cur);
    if c == ' ' || c == '\r' || c == '\t' {
        (cur + 1, line)
    } else if c == '\n' {
        (cur + 1, line + 1)
    } else if c == '/' && cur + 1 < src.len() && src[cur + 1] == '/' {
        let e = run_end(src, cur, CharClass::NotNewline);
        if e < src.len() {
            (e + 1, line + 1)
        } else {
            (e, line)
        }
    } else {
        (cur, line)
    }
}

/// The kind of a token of one character.
pub open spec fn single_kind(c: char) -> Option<TokenType> {
    if c == '(' {
        Some(TokenType::LEFTPAREN)
    } else if c == ')' {
        Some(TokenType::RIGHTPAREN)
    } else if c == '{' {
        Some(TokenType::LEFTBRACE)
    } else if c == '}' {
        Some(TokenType::RIGHTBRACE)
    } else if c == ',' {
        Some(TokenType::COMMA)
    } else if c == '.' {
        Some(TokenType::DOT)
    } else if c == '-' {
        Some(TokenType::MINUS)
    } else if c == '+' {
        Some(TokenType::PLUS)
    } else if c == ';' {
        Some(TokenType::SEMICOLON)
    } else if c == '*' {
        Some(TokenType::STAR)
    } else if c == '/' {
        Some(TokenType::SLASH)
    } else {
        None
    }
}

/// The kinds of an operator that may be followed by `=`: with the `=`, and
/// alone.
pub open spec fn pair_kind(c: char) -> Option<(TokenType, TokenType)> {
    if c == '!' {
        Some((TokenType::BANGEQUAL, TokenType::BANG))
    } else if c == '=' {
        Some((TokenType::EQUALEQUAL, TokenType::EQUAL))
    } else if c == '>' {
        Some((TokenType::GREATEREQUAL, TokenType::GREATER))
    } else if c == '<' {
        Some((TokenType::LESSEQUAL, TokenType::LESS))
    } else {
        None
    }
}

/// A character that starts a number: `'0'` to `'8'` (the range the scanner
/// matches leaves `'9'` out).
pub open spec fn starts_number(c: char) -> bool {
    '0' <= c && c < '9'
}

/// The characters for which the scanner tries an identifier: those that no
/// earlier case takes and that are alphabetic.
pub open spec fn starts_identifier(c: char) -> bool {
    single_kind(c) is None && pair_kind(c) is None && c != '"' && !starts_number(c)
        && alphabetic(c)
}

/// The end of a number whose digits continue at `q`: digits, then a `.` and
/// more digits when a digit follows the `.`.
pub open spec fn number_end(src: Seq<char>, q: int) -> int {
    let d = run_end(src, q, CharClass::Digit);
    if d < src.len() && src[d] == '.' && d + 1 < src.len() && is_decimal_digit(src[d + 1]) {
        run_end(src, d + 1, CharClass::Digit)
    } else {
        d
    }
}

/// Scanning a number from `q` reads no character past the end: it does when
/// the digits end with a `.` that is the last character.
pub open spec fn number_ok(src: Seq<char>, q: int) -> bool {
    let d = run_end(src, q, CharClass::Digit);
    !(d < src.len() && src[d] == '.' && d + 1 == src.len())
}

/// Scanning an identifier from `q` reads no character past the end: it would
/// only if the identifier ran to the end and `'\0'` were alphabetic.
pub open spec fn identifier_ok(src: Seq<char>, q: int) -> bool {
    run_end(src, q, CharClass::IdentPart) < src.len() || !alphabetic('\0')
}

/// What one scan leaves behind: where the token starts, where the scanner
/// stands, its line, and the token.
pub struct Scanned {
    pub start: int,
    pub current: int,
    pub line: int,
    pub token: TokenModel,
}

/// A token made of `src[start..current]`.
pub open spec fn made(src: Seq<char>, start: int, current: int, line: int, kind: TokenType) -> Scanned {
    Scanned {
        start,
        current,
        line,
        token: TokenModel { kind, lexeme: src.subrange(start, current), line },
    }
}

/// The error token for a character that starts no token.
pub open spec fn unexpected(start: int, line: int) -> Scanned {
    Scanned {
        start,
        current: start + 1,
        line,
        token: TokenModel { kind: TokenType::ERROR, lexeme: "Unexpected character."@, line },
    }
}

/// A string literal whose token starts at `start` and whose body starts at
/// `q`: it runs to the closing quote, counting the line breaks inside; with
/// no closing quote it runs to the end and gives an `EOF` token.
pub open spec fn scan_string(src: Seq<char>, start: int, q: int, line: int) -> Scanned {
    let e = run_end(src, q, CharClass::NotQuote);
    let l = line + count_newlines(src, q, e);
    if e < src.len() {
        made(src, start, e + 1, l, TokenType::STRING)
    } else {
        made(src, start, e, l, TokenType::EOF)
    }
}

/// The token that starts at `p`, with the scanner on line `line`.
pub open spec fn scan_at(src: Seq<char>, p: int, line: int) -> Scanned {
    let c = src[p];
    let q = p + 1;
    match single_kind(c) {
        Some(k) => made(src, p, q, line, k),
        None => match pair_kind(c) {
            Some(kinds) => if q < src.len() && src[q] == '=' {
                made(src, p, q + 1, line, kinds.0)
            } else {
                made(src, p, q, line, kinds.1)
            },
            None => if c == '"' {
                scan_string(src, p, q, line)
            } else if starts_number(c) {
                made(src, p, number_end(src, q), line, TokenType::NUMBER)
            } else if alphabetic(c) {
                made(src, p, run_end(src, q, CharClass::IdentPart), line, TokenType::IDENTIFIER)
            } else {
                unexpected(p, line)
            },
        },
    }
}

/// Scanning the token at `p` reads no character past the end.
pub open spec fn token_ok(src: Seq<char>, p: int) -> bool {
    let c = src[p];
    &&& starts_number(c) ==> number_ok(src, p + 1)
    &&& starts_identifier(c) ==> identifier_ok(src, p + 1)
}

/// One scan from `cur` reads no character past the end: white space can be
/// skipped, a character is left after it, and the token that starts there
/// can be read.
pub open spec fn scan_ok(src: Seq<char>, cur: int) -> bool {
    let p = skip_ws(src, cur, 0).0;
    &&& skip_ws_ok(src, cur)
    &&& p < src.len()
    &&& token_ok(src, p)
}

/// One scan from `cur` on line `line`: skip white space, then read a token.
pub open spec fn scan(src: Seq<char>, cur: int, line: int) -> Scanned {
    let (p, l) = skip_ws(src, cur, line);
    scan_at(src, p, l)
}

pub proof fn lemma_run_end(src: Seq<char>, i: int, k: CharClass)
    requires
        0 <= i <= src.len(),
    ensures
        i <= run_end(src, i, k) <= src.len(),
        run_end(src, i, k) < src.len() ==> !in_class(k, src[run_end(src, i, k)]),
        forall|j: int| i <= j < run_end(src, i, k) ==> in_class(k, #[trigger] src[j]),
    decreases src.len() - i,
{
    if i < src.len() && in_class(k, src[i]) {
        lemma_run_end(src, i + 1, k);
    }
}

pub proof fn lemma_count_newlines(src: Seq<char>, i: int, j: int)
    requires
        i <= j,
    ensures
        0 <= count_newlines(src, i, j) <= j - i,
    decreases j - i,
{
    if j > i {
        lemma_count_newlines(src, i, j - 1);
    }
}

/// The position after skipping white space does not depend on the line.
pub proof fn lemma_skip_ws_position(src: Seq<char>, cur: int, line: int)
    ensures
        skip_ws(src, cur, line).0 == skip_ws(src, cur, 0).0,
        skip_ws(src, cur, line).1 - line == skip_ws(src, cur, 0).1,
{
}

/// Skipping white space moves forward within the text and adds at most one
/// line per character skipped.
pub proof fn lemma_skip_ws_bounds(src: Seq<char>, cur: int, line: int)
    requires
        0 <= cur <= src.len(),
        skip_ws_ok(src, cur),
    ensures
        cur <= skip_ws(src, cur, line).0 <= src.len(),
        line <= skip_ws(src, cur, line).1,
        skip_ws(src, cur, line).1 - line <= skip_ws(src, cur, line).0 - cur,
{
    let c = peek_at(src, cur);
    if c == '/' && cur + 1 < src.len() && src[cur + 1] == '/' {
        lemma_run_end(src, cur, CharClass::NotNewline);
    }
}

/// A scan that can be made consumes at least one character, stays within
/// the text, starts its token where white space ends, and adds at most one
/// line per character consumed.
pub proof fn lemma_scan_bounds(src: Seq<char>, cur: int, line: int)
    requires
        0 <= cur <= src.len(),
        scan_ok(src, cur),
    ensures
        cur <= scan(src, cur, line).start,
        scan(src, cur, line).start < scan(src, cur, line).current <= src.len(),
        line <= scan(src, cur, line).line,
        scan(src, cur, line).line - line <= scan(src, cur, line).current - cur,
        scan(src, cur, line).token.line == scan(src, cur, line).line,
        scan(src, cur, line).start == skip_ws(src, cur, line).0,
{
    lemma_skip_ws_position(src, cur, line);
    lemma_skip_ws_bounds(src, cur, line);
    let (p, l) = skip_ws(src, cur, line);
    let c = src[p];
    let q = p + 1;
    if single_kind(c) is None && pair_kind(c) is None {
        if c == '"' {
            lemma_run_end(src, q, CharClass::NotQuote);
            let e = run_end(src, q, CharClass::NotQuote);
            lemma_count_newlines(src, q, e);
        } else if starts_number(c) {
            lemma_run_end(src, q, CharClass::Digit);
            let d = run_end(src, q, CharClass::Digit);
            if d < src.len() && src[d] == '.' && d + 1 < src.len() && is_decimal_digit(src[d + 1]) {
                lemma_run_end(src, d + 1, CharClass::Digit);
            }
        } else if alphabetic(c) {
            lemma_run_end(src, q, CharClass::IdentPart);
        }
    }
}

/// The tokens that scanning the whole of `src` from `cur` on line `line`
/// gives, one scan after another, and whether the scanning ended on an
/// `EOF` token (`true`) or stopped where a scan would read past the end
/// (`false`).
pub open spec fn lex(src: Seq<char>, cur: int, line: int) -> (Seq<TokenModel>, bool)
    decreases src.len() - cur,
{
    if !(0 <= cur <= src.len()) || !scan_ok(src, cur) {
        (Seq::empty(), false)
    } else {
        let r = scan(src, cur, line);
        proof {
            lemma_scan_bounds(src, cur, line);
        }
        if r.token.kind == TokenType::EOF {
            (seq![r.token], true)
        } else {
            let rest = lex(src, r.current, r.line);
            (seq![r.token] + rest.0, rest.1)
        }
    }
}


/// The text of a token that a scan gives is the source between the token's
/// start and where the scanner stands after it, unless it is an error token,
/// whose text is the message "Unexpected character." and which covers one
/// character.
pub proof fn law_token_text(src: Seq<char>, cur: int, line: int)
    requires
        0 <= cur <= src.len(),
        scan_ok(src, cur),
    ensures
        ({
            let r = scan(src, cur, line);
            if r.token.kind == TokenType::ERROR {
                r.token.lexeme == "Unexpected character."@ && r.current == r.start + 1
            } else {
                r.token.lexeme == src.subrange(r.start, r.current)
            }
        }),
{
}

/// The tokens of a text come with lines that never decrease, none below the
/// line the scanning started on.
pub proof fn law_lex_lines_ordered(src: Seq<char>, cur: int, line: int)
    ensures
        forall|i: int, j: int|
            0 <= i <= j < lex(src, cur, line).0.len() ==> line <= #[trigger] lex(
                src,
                cur,
                line,
            ).0[i].line <= #[trigger] lex(src, cur, line).0[j].line,
    decreases src.len() - cur,
{
    if 0 <= cur <= src.len() && scan_ok(src, cur) {
        lemma_scan_bounds(src, cur, line);
        let r = scan(src, cur, line);
        if r.token.kind != TokenType::EOF {
            law_lex_lines_ordered(src, r.current, r.line);
            let rest = lex(src, r.current, r.line).0;
            let all = lex(src, cur, line).0;
            assert(all == seq![r.token] + rest);
            assert forall|i: int, j: int| 0 <= i <= j < all.len() implies line <= #[trigger] all[i].line
                <= #[trigger] all[j].line by {
                if i > 0 {
                    assert(all[i] == rest[i - 1]);
                    assert(all[j] == rest[j - 1]);
                } else if j > 0 {
                    assert(all[j] == rest[j - 1]);
                }
            }
        }
    }
}

/// Scanning a text stops at its first `EOF` token: only the last token can
/// be an `EOF`, and it is one exactly when the scanning ended on it.
pub proof fn law_lex_stops_at_eof(src: Seq<char>, cur: int, line: int)
    ensures
        forall|i: int|
            0 <= i < lex(src, cur, line).0.len() - 1 ==> #[trigger] lex(src, cur, line).0[i].kind
                != TokenType::EOF,
        lex(src, cur, line).1 <==> (lex(src, cur, line).0.len() > 0 && lex(src, cur, line).0.last().kind
            == TokenType::EOF),
    decreases src.len() - cur,
{
    if 0 <= cur <= src.len() && scan_ok(src, cur) {
        lemma_scan_bounds(src, cur, line);
        let r = scan(src, cur, line);
        if r.token.kind != TokenType::EOF {
            law_lex_stops_at_eof(src, r.current, r.line);
            let rest = lex(src, r.current, r.line).0;
            let all = lex(src, cur, line).0;
            assert(all == seq![r.token] + rest);
            assert forall|i: int| 0 <= i < all.len() - 1 implies #[trigger] all[i].kind != TokenType::EOF by {
                if i > 0 {
                    assert(all[i] == rest[i - 1]);
                }
            }
            if rest.len() > 0 {
                assert(all.last() == rest.last());
            }
        }
    }
}


/// A token that starts with a digit from `'0'` to `'8'` is a number: its
/// text is the source from that digit on, made of digits and of `.`s each
/// followed by a digit within the text, and it takes every digit that
/// follows (the character after it is no digit).
pub proof fn law_digit_starts_number(src: Seq<char>, cur: int, line: int)
    requires
        0 <= cur <= src.len(),
        scan_ok(src, cur),
    ensures
        ({
            let r = scan(src, cur, line);
            let c = src[r.start];
            ('0' <= c && c <= '8') ==> {
                &&& r.token.kind == TokenType::NUMBER
                &&& r.token.lexeme == src.subrange(r.start, r.current)
                &&& forall|j: int|
                    r.start <= j < r.current ==> ('0' <= #[trigger] src[j] && src[j] <= '9')
                        || src[j] == '.'
                &&& forall|j: int|
                    r.start <= j < r.current && #[trigger] src[j] == '.' ==> j + 1 < r.current
                        && '0' <= src[j + 1] && src[j + 1] <= '9'
                &&& r.current < src.len() ==> !('0' <= src[r.current] && src[r.current] <= '9')
            }
        }),
{
    lemma_skip_ws_position(src, cur, line);
    lemma_skip_ws_bounds(src, cur, line);
    lemma_scan_bounds(src, cur, line);
    let (p, l) = skip_ws(src, cur, line);
    let c = src[p];
    let q = p + 1;
    if '0' <= c && c <= '8' {
        lemma_run_end(src, q, CharClass::Digit);
        let d = run_end(src, q, CharClass::Digit);
        if d < src.len() && src[d] == '.' && d + 1 < src.len() && is_decimal_digit(src[d + 1]) {
            lemma_run_end(src, d + 1, CharClass::Digit);
        }
    }
}

} // verus!
