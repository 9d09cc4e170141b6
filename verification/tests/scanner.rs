use clox::scanner::Scanner;
use clox::token::{Token, TokenType};

fn scanner(text: &str) -> Scanner {
    Scanner::new(&text.to_string())
}

fn next(s: &mut Scanner) -> Token {
    assert!(s.can_scan());
    s.scan_token()
}

#[test]
fn new_starts_on_line_one() {
    let s = scanner("a(é");
    assert_eq!(s.source, vec!['a', '(', 'é']);
    assert_eq!((s.start, s.current, s.line), (0, 0, 1));
}

#[test]
fn single_character_tokens() {
    let mut s = scanner("(){},.-+;*/x");
    let kinds = [
        TokenType::LEFTPAREN,
        TokenType::RIGHTPAREN,
        TokenType::LEFTBRACE,
        TokenType::RIGHTBRACE,
        TokenType::COMMA,
        TokenType::DOT,
        TokenType::MINUS,
        TokenType::PLUS,
        TokenType::SEMICOLON,
        TokenType::STAR,
        TokenType::SLASH,
    ];
    let text = "(){},.-+;*/";
    for (i, kind) in kinds.iter().enumerate() {
        let t = next(&mut s);
        assert_eq!(t.ttype, *kind);
        assert_eq!(t.lexeme, text[i..i + 1].to_string());
        assert_eq!(t.line, 1);
        assert_eq!((s.start, s.current), (i, i + 1));
    }
}

#[test]
fn operators_with_and_without_equal() {
    let mut s = scanner("!=! ==<=<>=>x");
    let expected = [
        (TokenType::BANGEQUAL, "!="),
        (TokenType::BANG, "!"),
        (TokenType::EQUALEQUAL, "=="),
        (TokenType::LESSEQUAL, "<="),
        (TokenType::LESS, "<"),
        (TokenType::GREATEREQUAL, ">="),
        (TokenType::GREATER, ">"),
    ];
    for (kind, text) in expected.iter() {
        let t = next(&mut s);
        assert_eq!(t.ttype, *kind);
        assert_eq!(t.lexeme, text.to_string());
    }
}

#[test]
fn equal_alone_at_the_end() {
    let mut s = scanner("=");
    let t = next(&mut s);
    assert_eq!(t.ttype, TokenType::EQUAL);
    assert_eq!(t.lexeme, "=");
    assert!(s.is_at_end());
    assert!(!s.can_scan());
}

#[test]
fn numbers_with_and_without_fraction() {
    let mut s = scanner("12.5 7 190;");
    let t = next(&mut s);
    assert_eq!((t.ttype, t.lexeme.as_str()), (TokenType::NUMBER, "12.5"));
    let t = next(&mut s);
    assert_eq!((t.ttype, t.lexeme.as_str()), (TokenType::NUMBER, "7"));
    let t = next(&mut s);
    assert_eq!((t.ttype, t.lexeme.as_str()), (TokenType::NUMBER, "190"));
    let t = next(&mut s);
    assert_eq!(t.ttype, TokenType::SEMICOLON);
}

#[test]
fn dot_without_digit_ends_the_number() {
    let mut s = scanner("3.x");
    let t = next(&mut s);
    assert_eq!((t.ttype, t.lexeme.as_str()), (TokenType::NUMBER, "3"));
    let t = next(&mut s);
    assert_eq!(t.ttype, TokenType::DOT);
}

#[test]
fn nine_does_not_start_a_number() {
    let mut s = scanner("9 ");
    let t = next(&mut s);
    assert_eq!(t.ttype, TokenType::ERROR);
    assert_eq!(t.lexeme, "Unexpected character.");
    assert_eq!(s.current, 1);
}

#[test]
fn number_ending_in_a_dot_cannot_be_scanned() {
    let s = scanner("12.");
    assert!(!s.can_scan());
}

#[test]
fn identifiers_are_never_keywords() {
    let mut s = scanner("and class fun while x1y;");
    for text in ["and", "class", "fun", "while", "x1y"] {
        let t = next(&mut s);
        assert_eq!(t.ttype, TokenType::IDENTIFIER);
        assert_eq!(t.lexeme, text);
    }
}

#[test]
fn unicode_letters_make_identifiers() {
    let mut s = scanner("été;");
    let t = next(&mut s);
    assert_eq!((t.ttype, t.lexeme.as_str()), (TokenType::IDENTIFIER, "été"));
}

#[test]
fn identifier_runs_to_the_end() {
    let mut s = scanner("abc");
    let t = next(&mut s);
    assert_eq!((t.ttype, t.lexeme.as_str()), (TokenType::IDENTIFIER, "abc"));
    assert!(s.is_at_end());
}

#[test]
fn string_literal() {
    let mut s = scanner("\"hi there\";");
    let t = next(&mut s);
    assert_eq!((t.ttype, t.lexeme.as_str()), (TokenType::STRING, "\"hi there\""));
    assert_eq!(t.line, 1);
}

#[test]
fn string_counts_its_lines() {
    let mut s = scanner("\"a\nb\nc\";");
    let t = next(&mut s);
    assert_eq!(t.ttype, TokenType::STRING);
    assert_eq!(t.line, 3);
    assert_eq!(s.line, 3);
}

#[test]
fn unterminated_string_gives_eof() {
    let mut s = scanner("\"open\nmore");
    let t = next(&mut s);
    assert_eq!((t.ttype, t.lexeme.as_str()), (TokenType::EOF, "\"open\nmore"));
    assert_eq!(t.line, 2);
    assert!(s.is_at_end());
}

#[test]
fn one_blank_is_skipped_per_scan() {
    let mut s = scanner("  (");
    let t = next(&mut s);
    assert_eq!(t.ttype, TokenType::ERROR);
    assert_eq!((s.start, s.current), (1, 2));
    let t = next(&mut s);
    assert_eq!(t.ttype, TokenType::LEFTPAREN);
}

#[test]
fn line_break_is_skipped_and_counted() {
    let mut s = scanner("\n(");
    let t = next(&mut s);
    assert_eq!((t.ttype, t.line), (TokenType::LEFTPAREN, 2));
}

#[test]
fn comment_and_its_line_break_are_skipped() {
    let mut s = scanner("// note\n)");
    let t = next(&mut s);
    assert_eq!((t.ttype, t.line), (TokenType::RIGHTPAREN, 2));
    assert_eq!(t.lexeme, ")");
}

#[test]
fn comment_to_the_end_leaves_nothing() {
    let s = scanner("// only");
    assert!(!s.can_scan());
}

#[test]
fn lone_slash_at_the_end_cannot_be_scanned() {
    assert!(!scanner("/").can_scan());
    let mut s = scanner("/ ");
    let t = next(&mut s);
    assert_eq!(t.ttype, TokenType::SLASH);
}

#[test]
fn empty_text_cannot_be_scanned() {
    assert!(!scanner("").can_scan());
    assert!(!scanner(" ").can_scan());
}

#[test]
fn unexpected_character() {
    let mut s = scanner("@");
    let t = next(&mut s);
    assert_eq!((t.ttype, t.lexeme.as_str(), t.line), (TokenType::ERROR, "Unexpected character.", 1));
}

#[test]
fn peek_and_advance() {
    let mut s = scanner("ab");
    assert_eq!(s.peek(), 'a');
    assert_eq!(s.peek_next(), 'b');
    assert_eq!(s.advance(), 'a');
    assert_eq!(s.peek(), 'b');
    assert_eq!(s.advance(), 'b');
    assert_eq!(s.peek(), '\0');
    assert_eq!(s.peek_next(), '\0');
    assert!(s.is_at_end());
}

#[test]
fn check_expected_reads_only_a_match() {
    let mut s = scanner("=x");
    assert!(!s.check_expected('x'));
    assert_eq!(s.current, 0);
    assert!(s.check_expected('='));
    assert_eq!(s.current, 1);
    s.current = 2;
    assert!(!s.check_expected('='));
}

#[test]
fn make_token_takes_the_text_from_start_to_current() {
    let mut s = scanner("hello");
    s.start = 1;
    s.current = 4;
    let t = s.make_token(TokenType::IDENTIFIER);
    assert_eq!((t.ttype, t.lexeme.as_str(), t.line), (TokenType::IDENTIFIER, "ell", 1));
}

#[test]
fn error_token_carries_the_message() {
    let s = scanner("x");
    let t = s.error_token("bad");
    assert_eq!((t.ttype, t.lexeme.as_str(), t.line), (TokenType::ERROR, "bad", 1));
}

#[test]
fn keyword_checks_answer_identifier() {
    let mut s = scanner("for");
    s.current = 3;
    assert_eq!(s.identifier_type(), TokenType::IDENTIFIER);
    assert_eq!(s.check_keyword(1, 2, "or", TokenType::FOR), TokenType::IDENTIFIER);
}

#[test]
fn skip_whitespace_skips_one_blank() {
    let mut s = scanner("\t\tx");
    s.skip_whitespace();
    assert_eq!((s.current, s.line), (1, 1));
}

#[test]
fn number_and_identifier_and_string_from_the_middle() {
    let mut s = scanner("1.25+");
    s.current = 1;
    let t = s.number();
    assert_eq!(t.lexeme, "1.25");
    assert_eq!(s.current, 4);

    let mut s = scanner("ab1 ");
    s.current = 1;
    let t = s.identifier();
    assert_eq!(t.lexeme, "ab1");

    let mut s = scanner("\"q\" ");
    s.current = 1;
    let t = s.string();
    assert_eq!((t.ttype, t.lexeme.as_str()), (TokenType::STRING, "\"q\""));
}

#[test]
fn token_text_is_the_source_slice() {
    let text = "(a >= 12.5)";
    let chars: Vec<char> = text.chars().collect();
    let mut s = scanner(text);
    while s.can_scan() {
        let t = s.scan_token();
        if t.ttype != TokenType::ERROR {
            let slice: String = chars[s.start..s.current].iter().collect();
            assert_eq!(t.lexeme, slice);
        }
        assert!(s.current > s.start);
    }
}
