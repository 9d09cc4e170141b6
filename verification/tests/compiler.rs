use clox::compiler::compiler;
use clox::token::TokenType;

#[test]
fn compile_stops_at_the_end_of_the_text() {
    let listing = compiler::new().compile(&"(\n)".to_string());
    assert!(!listing.reached_eof);
    assert_eq!(listing.entries.len(), 2);
    assert_eq!(listing.entries[0].token.ttype, TokenType::LEFTPAREN);
    assert_eq!(listing.entries[0].token.line, 1);
    assert!(listing.entries[0].starts_line);
    assert_eq!(listing.entries[1].token.ttype, TokenType::RIGHTPAREN);
    assert_eq!(listing.entries[1].token.line, 2);
    assert!(listing.entries[1].starts_line);
}

#[test]
fn compile_ends_on_an_unterminated_string() {
    let listing = compiler::new().compile(&"a+\"rest".to_string());
    assert!(listing.reached_eof);
    let kinds: Vec<TokenType> = listing.entries.iter().map(|e| e.token.ttype).collect();
    assert_eq!(kinds, vec![TokenType::IDENTIFIER, TokenType::PLUS, TokenType::EOF]);
    assert_eq!(listing.entries[2].token.lexeme, "\"rest");
    let marks: Vec<bool> = listing.entries.iter().map(|e| e.starts_line).collect();
    assert_eq!(marks, vec![true, false, false]);
}

#[test]
fn compile_of_empty_text_lists_nothing() {
    let listing = compiler::new().compile(&String::new());
    assert!(!listing.reached_eof);
    assert!(listing.entries.is_empty());
}

#[test]
fn listing_lines_never_decrease() {
    let listing = compiler::new().compile(&"a\nb\"x\ny\"\n\nc".to_string());
    let lines: Vec<usize> = listing.entries.iter().map(|e| e.token.line).collect();
    assert_eq!(lines, vec![1, 2, 3, 4, 4]);
    assert_eq!(listing.entries[3].token.ttype, TokenType::ERROR);
    for w in lines.windows(2) {
        assert!(w[0] <= w[1]);
    }
}

#[test]
fn only_the_last_listed_token_is_eof() {
    let listing = compiler::new().compile(&"x \"y".to_string());
    assert!(listing.reached_eof);
    let n = listing.entries.len();
    assert_eq!(listing.entries[n - 1].token.ttype, TokenType::EOF);
    for e in &listing.entries[..n - 1] {
        assert_ne!(e.token.ttype, TokenType::EOF);
    }
}
