//! The scanner: it turns source text into tokens, one call at a time.

use vstd::prelude::*;
use crate::lexical::{
    count_newlines, identifier_ok, made, number_end, number_ok, peek_at, run_end, scan, scan_ok,
    scan_string, lemma_run_end, lemma_skip_ws_position, lemma_scan_bounds,
    skip_ws, skip_ws_ok, CharClass,
};
use crate::token::{Token, TokenModel, TokenType};

verus! {

/// A scanner over a source text: `start` is where the token being scanned
/// begins, `current` the next character to read, `line` the line it is on.
pub struct Scanner {
    pub source: Vec<char>,
    pub start: usize,
    pub current: usize,
    pub line: usize,
}

impl Scanner {
    /// The scanner's invariant: the token being scanned lies within the
    /// text, the line is at most one more than the characters read, and the
    /// text is shorter than the largest `usize` (a machine limit).
    pub open spec fn wf(&self) -> bool {
        &&& self.start <= self.current <= self.source.len()
        &&& self.line <= self.current + 1
        &&& self.source.len() < usize::MAX
    }

    /// A scanner at the start of `source`, on line 1.
    pub fn new(source: &String) -> (s: Scanner)
        requires
            source@.len() < usize::MAX,
        ensures
            s.source@ == source@,
            s.start == 0,
            s.current == 0,
            s.line == 1,
            s.wf(),
    {
        let mut chars: Vec<char> = Vec::new();
        for ch in it: source.as_str().chars()
            invariant
                chars@ == it.seq().take(it.index() as int),
        {
            chars.push(ch);
        }
        Scanner { source: chars, start: 0, current: 0, line: 1 }
    }

    /// Whether every character has been read.
    pub fn is_at_end(&self) -> (b: bool)
        ensures
            b == (self.current == self.source.len()),
    {
        self.current == self.source.len()
    }

    /// The next character, or `'\0'` at the end.
    pub fn peek(&self) -> (c: char)
        requires
            self.current <= self.source.len(),
        ensures
            c == peek_at(self.source@, self.current as int),
    {
        if self.is_at_end() {
            '\0'
        } else {
            self.source[self.current]
        }
    }

    /// The character after the next one, or `'\0'` at the end. It is read
    /// without a bound check, so the next character must not be the last.
    pub fn peek_next(&self) -> (c: char)
        requires
            self.current <= self.source.len(),
            self.current < self.source.len() ==> self.current + 1 < self.source.len(),
        ensures
            c == (if self.current == self.source.len() {
                '\0'
            } else {
                self.source@[self.current + 1]
            }),
    {
        if self.is_at_end() {
            return '\0';
        } else {
            self.source[self.current + 1]
        }
    }

    /// Reads the next character.
    pub fn advance(&mut self) -> (c: char)
        requires
            old(self).current < old(self).source.len(),
        ensures
            c == old(self).source@[old(self).current as int],
            final(self).current == old(self).current + 1,
            final(self).source@ == old(self).source@,
            final(self).start == old(self).start,
            final(self).line == old(self).line,
    {
        self.current += 1;
        self.source[self.current - 1]
    }

    /// Reads the next character if it is `expected`, and says whether it did.
    pub fn check_expected(&mut self, expected: char) -> (b: bool)
        requires
            old(self).current <= old(self).source.len(),
        ensures
            b == (old(self).current < old(self).source.len()
                && old(self).source@[old(self).current as int] == expected),
            final(self).current == old(self).current + (if b { 1int } else { 0int }),
            final(self).source@ == old(self).source@,
            final(self).start == old(self).start,
            final(self).line == old(self).line,
    {
        if self.is_at_end() {
            return false;
        } else if self.source[self.current] != expected {
            return false;
        }
        self.current += 1;
        return true;
    }

    /// The token of kind `tt` made of the text from `start` to `current`.
    pub fn make_token(&self, tt: TokenType) -> (tok: Token)
        requires
            self.start <= self.current <= self.source.len(),
        ensures
            tok@ == made(
                self.source@,
                self.start as int,
                self.current as int,
                self.line as int,
                tt,
            ).token,
    {
        let mut lexeme = String::new();
        let mut i = self.start;
        while i < self.current
            invariant
                self.start <= i <= self.current <= self.source.len(),
                lexeme@ == self.source@.subrange(self.start as int, i as int),
            decreases self.current - i,
        {
            lexeme.push(self.source[i]);
            i += 1;
            assert(lexeme@ =~= self.source@.subrange(self.start as int, i as int));
        }
        Token { ttype: tt, lexeme, line: self.line }
    }

    /// An error token carrying `message` in place of a lexeme.
    pub fn error_token(&self, message: &str) -> (tok: Token)
        ensures
            tok@ == (TokenModel { kind: TokenType::ERROR, lexeme: message@, line: self.line as int }),
    {
        Token { ttype: TokenType::ERROR, lexeme: message.to_string(), line: self.line }
    }

    /// Reads the body of a string literal and its closing quote, counting
    /// the lines it spans. With no closing quote it reads to the end and
    /// gives an `EOF` token.
    pub fn string(&mut self) -> (tok: Token)
        requires
            old(self).wf(),
        ensures
            ({
                let r = scan_string(
                    old(self).source@,
                    old(self).start as int,
                    old(self).current as int,
                    old(self).line as int,
                );
                &&& tok@ == r.token
                &&& final(self).current == r.current
                &&& final(self).line == r.line
            }),
            final(self).source@ == old(self).source@,
            final(self).start == old(self).start,
            final(self).wf(),
    {
        let ghost src = self.source@;
        let ghost q = self.current as int;
        let ghost line0 = self.line as int;
        while self.peek() != '"' && !self.is_at_end()
            invariant
                self.wf(),
                self.source@ == src,
                self.start == old(self).start,
                q <= self.current,
                run_end(src, self.current as int, CharClass::NotQuote) == run_end(
                    src,
                    q,
                    CharClass::NotQuote,
                ),
                self.line == line0 + count_newlines(src, q, self.current as int),
            decreases self.source.len() - self.current,
        {
            if self.peek() == '\n' {
                self.line += 1;
            }
            self.advance();
        }
        if self.is_at_end() {
            return self.make_token(TokenType::EOF);
        }
        // the closing quote
        self.advance();
        self.make_token(TokenType::STRING)
    }

    /// Reads the rest of a number: digits, then a `.` and more digits when a
    /// digit follows the `.`.
    pub fn number(&mut self) -> (tok: Token)
        requires
            old(self).wf(),
            number_ok(old(self).source@, old(self).current as int),
        ensures
            final(self).current == number_end(old(self).source@, old(self).current as int),
            tok@ == made(
                old(self).source@,
                old(self).start as int,
                final(self).current as int,
                old(self).line as int,
                TokenType::NUMBER,
            ).token,
            final(self).source@ == old(self).source@,
            final(self).start == old(self).start,
            final(self).line == old(self).line,
            final(self).wf(),
    {
        let ghost src = self.source@;
        let ghost q = self.current as int;
        while self.peek().is_digit(10)
            invariant
                self.wf(),
                self.source@ == src,
                self.start == old(self).start,
                self.line == old(self).line,
                q <= self.current,
                run_end(src, self.current as int, CharClass::Digit) == run_end(
                    src,
                    q,
                    CharClass::Digit,
                ),
            decreases self.source.len() - self.current,
        {
            self.advance();
        }
        if self.peek() == '.' && self.peek_next().is_digit(10) {
            self.advance();
            let ghost d1 = self.current as int;
            while self.peek().is_digit(10)
                invariant
                    self.wf(),
                    self.source@ == src,
                    self.start == old(self).start,
                    self.line == old(self).line,
                    d1 <= self.current,
                    run_end(src, self.current as int, CharClass::Digit) == run_end(
                        src,
                        d1,
                        CharClass::Digit,
                    ),
                decreases self.source.len() - self.current,
            {
                self.advance();
            }
        }
        self.make_token(TokenType::NUMBER)
    }

    /// Reads the rest of an identifier: letters and digits.
    pub fn identifier(&mut self) -> (tok: Token)
        requires
            old(self).wf(),
            old(self).start < old(self).source.len(),
            identifier_ok(old(self).source@, old(self).current as int),
        ensures
            final(self).current == run_end(
                old(self).source@,
                old(self).current as int,
                CharClass::IdentPart,
            ),
            tok@ == made(
                old(self).source@,
                old(self).start as int,
                final(self).current as int,
                old(self).line as int,
                TokenType::IDENTIFIER,
            ).token,
            final(self).source@ == old(self).source@,
            final(self).start == old(self).start,
            final(self).line == old(self).line,
            final(self).wf(),
    {
        let ghost src = self.source@;
        let ghost q = self.current as int;
        while self.peek().is_alphabetic() || self.peek().is_digit(10)
            invariant
                self.wf(),
                self.source@ == src,
                self.start == old(self).start,
                self.start < self.source.len(),
                self.line == old(self).line,
                q <= self.current,
                identifier_ok(src, q),
                run_end(src, self.current as int, CharClass::IdentPart) == run_end(
                    src,
                    q,
                    CharClass::IdentPart,
                ),
            decreases self.source.len() - self.current,
        {
            self.advance();
        }
        return self.make_token(self.identifier_type());
    }

    /// The kind of the identifier being scanned. Each keyword is checked by
    /// `check_keyword`, which answers `IDENTIFIER` for all of them, so every
    /// identifier is an `IDENTIFIER`.
    pub fn identifier_type(&self) -> (tt: TokenType)
        requires
            self.start <= self.current <= self.source.len(),
            self.start < self.source.len(),
        ensures
            tt == TokenType::IDENTIFIER,
    {
        match self.source[self.start] {
            'a' => self.check_keyword(1, 2, "nd", TokenType::AND),
            'c' => self.check_keyword(1, 4, "lass", TokenType::CLASS),
            'e' => self.check_keyword(1, 3, "lse", TokenType::ELSE),
            'f' => {
                if self.current - self.start > 1 {
                    match self.source[self.start + 1] {
                        'a' => self.check_keyword(2, 3, "lse", TokenType::FALSE),
                        'o' => self.check_keyword(2, 1, "r", TokenType::FOR),
                        'u' => self.check_keyword(2, 1, "n", TokenType::FUN),
                        _ => TokenType::IDENTIFIER,
                    }
                } else {
                    TokenType::IDENTIFIER
                }
            },
            'i' => self.check_keyword(1, 1, "f", TokenType::IF),
            'n' => self.check_keyword(1, 2, "il", TokenType::NIL),
            'o' => self.check_keyword(1, 1, "or", TokenType::OR),
            'p' => self.check_keyword(1, 4, "rint", TokenType::PRINT),
            'r' => self.check_keyword(1, 5, "eturn", TokenType::RETURN),
            's' => self.check_keyword(1, 4, "uper", TokenType::SUPER),
            't' => {
                if self.current - self.start > 1 {
                    match self.source[self.start + 1] {
                        'h' => self.check_keyword(2, 2, "is", TokenType::THIS),
                        'r' => self.check_keyword(2, 2, "r", TokenType::TRUE),
                        _ => TokenType::IDENTIFIER,
                    }
                } else {
                    TokenType::IDENTIFIER
                }
            },
            'v' => self.check_keyword(1, 2, "ar", TokenType::VAR),
            'w' => self.check_keyword(1, 4, "hile", TokenType::WHILE),
            _ => TokenType::IDENTIFIER,
        }
    }

    /// Whether the identifier being scanned is the keyword whose text after
    /// its first `start` characters is `rest` (`len` characters long): the
    /// comparison is not made, and the answer is always `IDENTIFIER`.
    pub fn check_keyword(&self, start: usize, len: usize, rest: &str, tt: TokenType) -> (r: TokenType)
        ensures
            r == TokenType::IDENTIFIER,
    {
        TokenType::IDENTIFIER
    }

    /// Skips white space: one blank (space, carriage return or tab), one
    /// line break, or one `//` comment together with the line break that
    /// ends it.
    pub fn skip_whitespace(&mut self)
        requires
            old(self).wf(),
            skip_ws_ok(old(self).source@, old(self).current as int),
        ensures
            (final(self).current as int, final(self).line as int) == skip_ws(
                old(self).source@,
                old(self).current as int,
                old(self).line as int,
            ),
            final(self).source@ == old(self).source@,
            final(self).start == old(self).start,
            final(self).wf(),
    {
        let ghost src = self.source@;
        let ghost cur0 = self.current as int;
        let ghost line0 = self.line as int;
        let ghost target = skip_ws(src, cur0, line0);
        let ghost mut in_comment = false;
        loop
            invariant_except_break
                self.wf(),
                self.source@ == src,
                self.start == old(self).start,
                src == old(self).source@,
                cur0 == old(self).current,
                line0 == old(self).line,
                skip_ws_ok(src, cur0),
                target == skip_ws(src, cur0, line0),
                !in_comment ==> self.current == cur0 && self.line == line0,
                in_comment ==> {
                    &&& cur0 + 1 < src.len()
                    &&& src[cur0] == '/'
                    &&& src[cur0 + 1] == '/'
                    &&& self.current == run_end(src, cur0, CharClass::NotNewline)
                    &&& self.current < src.len() ==> src[self.current as int] == '\n'
                    &&& self.line == line0
                },
            ensures
                self.wf(),
                self.source@ == src,
                self.start == old(self).start,
                (self.current as int, self.line as int) == target,
            decreases self.source.len() - self.current,
        {
            match self.peek() {
                ' ' | '\r' | '\t' => {
                    self.advance();
                    break ;
                },
                '\n' => {
                    self.line += 1;
                    self.advance();
                    break ;
                },
                '/' => {
                    if self.peek_next() == '/' {
                        proof {
                            lemma_run_end(src, cur0 + 1, CharClass::NotNewline);
                        }
                        while self.peek() != '\n' && !self.is_at_end()
                            invariant
                                self.wf(),
                                self.source@ == src,
                                self.start == old(self).start,
                                self.line == line0,
                                cur0 <= self.current,
                                cur0 + 1 < src.len(),
                                src[cur0] == '/',
                                src[cur0 + 1] == '/',
                                run_end(src, self.current as int, CharClass::NotNewline)
                                    == run_end(src, cur0, CharClass::NotNewline),
                            decreases self.source.len() - self.current,
                        {
                            self.advance();
                        }
                        proof {
                            in_comment = true;
                        }
                    } else {
                        return ;
                    }
                },
                _ => {
                    return ;
                },
            }
        }
    }

    /// Scans the next token: skips white space, then reads one token.
    pub fn scan_token(&mut self) -> (tok: Token)
        requires
            old(self).wf(),
            scan_ok(old(self).source@, old(self).current as int),
        ensures
            ({
                let r = scan(old(self).source@, old(self).current as int, old(self).line as int);
                &&& tok@ == r.token
                &&& final(self).start == r.start
                &&& final(self).current == r.current
                &&& final(self).line == r.line
            }),
            final(self).source@ == old(self).source@,
            final(self).wf(),
    {
        proof {
            lemma_skip_ws_position(self.source@, self.current as int, self.line as int);
            lemma_scan_bounds(self.source@, self.current as int, self.line as int);
        }
        self.skip_whitespace();
        self.start = self.current;
        if self.is_at_end() {
            self.make_token(TokenType::EOF);
        }
        let c = self.advance();
        match c {
            '(' => self.make_token(TokenType::LEFTPAREN),
            ')' => self.make_token(TokenType::RIGHTPAREN),
            '{' => self.make_token(TokenType::LEFTBRACE),
            '}' => self.make_token(TokenType::RIGHTBRACE),
            ',' => self.make_token(TokenType::COMMA),
            '.' => self.make_token(TokenType::DOT),
            '-' => self.make_token(TokenType::MINUS),
            '+' => self.make_token(TokenType::PLUS),
            ';' => self.make_token(TokenType::SEMICOLON),
            '*' => self.make_token(TokenType::STAR),
            '/' => self.make_token(TokenType::SLASH),
            '!' => {
                if self.check_expected('=') {
                    self.make_token(TokenType::BANGEQUAL)
                } else {
                    self.make_token(TokenType::BANG)
                }
            },
            '=' => {
                if self.check_expected('=') {
                    self.make_token(TokenType::EQUALEQUAL)
                } else {
                    self.make_token(TokenType::EQUAL)
                }
            },
            '>' => {
                if self.check_expected('=') {
                    self.make_token(TokenType::GREATEREQUAL)
                } else {
                    self.make_token(TokenType::GREATER)
                }
            },
            '<' => {
                if self.check_expected('=') {
                    self.make_token(TokenType::LESSEQUAL)
                } else {
                    self.make_token(TokenType::LESS)
                }
            },
            '"' => self.string(),
            '0'..'9' => self.number(),
            _ if c.is_alphabetic() => self.identifier(),
            _ => self.error_token("Unexpected character."),
        }
    }

    /// The first position at or after `i` that is the end of the text or
    /// holds a character outside class `k`.
    fn run_end_from(&self, i: usize, k: CharClass) -> (e: usize)
        requires
            i <= self.source.len(),
        ensures
            e == run_end(self.source@, i as int, k),
    {
        let mut j = i;
        while j < self.source.len()
            invariant
                i <= j <= self.source.len(),
                run_end(self.source@, j as int, k) == run_end(self.source@, i as int, k),
            ensures
                run_end(self.source@, j as int, k) == j,
                run_end(self.source@, j as int, k) == run_end(self.source@, i as int, k),
            decreases self.source.len() - j,
        {
            let c = self.source[j];
            let inside = match k {
                CharClass::NotNewline => c != '\n',
                CharClass::NotQuote => c != '"',
                CharClass::Digit => c.is_digit(10),
                CharClass::IdentPart => c.is_alphabetic() || c.is_digit(10),
            };
            if !inside {
                break ;
            }
            j += 1;
        }
        j
    }

    /// Whether `scan_token` can be called: skipping white space and reading
    /// the next token would read no character past the end of the text.
    pub fn can_scan(&self) -> (b: bool)
        requires
            self.wf(),
        ensures
            b == scan_ok(self.source@, self.current as int),
    {
        let n = self.source.len();
        let cur = self.current;
        let c0 = self.peek();
        if c0 == '/' && cur + 1 == n {
            return false;
        }
        let p = if c0 == ' ' || c0 == '\r' || c0 == '\t' || c0 == '\n' {
            cur + 1
        } else if c0 == '/' && self.source[cur + 1] == '/' {
            let e = self.run_end_from(cur, CharClass::NotNewline);
            if e < n {
                e + 1
            } else {
                e
            }
        } else {
            cur
        };
        if p >= n {
            return false;
        }
        let c = self.source[p];
        if c == '(' || c == ')' || c == '{' || c == '}' || c == ',' || c == '.' || c == '-'
            || c == '+' || c == ';' || c == '*' || c == '/' || c == '!' || c == '=' || c == '>'
            || c == '<' || c == '"' {
            return true;
        }
        let number_start = '0' <= c && c < '9';
        if number_start {
            let d = self.run_end_from(p + 1, CharClass::Digit);
            return !(d < n && self.source[d] == '.' && d + 1 == n);
        }
        if c.is_alphabetic() {
            let e = self.run_end_from(p + 1, CharClass::IdentPart);
            return e < n || !'\0'.is_alphabetic();
        }
        true
    }
}

} // verus!
