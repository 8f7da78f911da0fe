use rucomp::scanner::{scan_source, Scanner, Token};

#[test]
fn scans_single_char_operators() {
    let toks = scan_source("+ - * ( ) ; , { }");
    assert_eq!(
        toks,
        vec![
            Token::Plus,
            Token::Minus,
            Token::Multiply,
            Token::LeftParen,
            Token::RightParen,
            Token::Semicolon,
            Token::Comma,
            Token::LeftBrace,
            Token::RightBrace,
            Token::EndOfFile,
        ]
    );
}

#[test]
fn scans_comparisons_with_lookahead() {
    let toks = scan_source("< <= > >= = ==");
    assert_eq!(
        toks,
        vec![
            Token::LessThan,
            Token::LessThanEqualTo,
            Token::GreaterThan,
            Token::GreaterThanEqualTo,
            Token::Assign,
            Token::EqualEqualTo,
            Token::EndOfFile,
        ]
    );
}

#[test]
fn lookahead_without_space_pairs_eagerly() {
    // `<==` is `<=` then `=`; `===` is `==` then `=`.
    let toks = scan_source("<==");
    assert_eq!(
        toks,
        vec![Token::LessThanEqualTo, Token::Assign, Token::EndOfFile]
    );
    let toks = scan_source("===");
    assert_eq!(toks, vec![Token::EqualEqualTo, Token::Assign, Token::EndOfFile]);
}

#[test]
fn scans_keywords_and_identifiers() {
    let toks = scan_source("args int if then else while true false return foo args1 _x");
    assert_eq!(
        toks,
        vec![
            Token::KeywordArgs,
            Token::KeywordInt,
            Token::KeywordIf,
            Token::KeywordThen,
            Token::KeywordElse,
            Token::KeywordWhile,
            Token::KeywordTrue,
            Token::KeywordFalse,
            Token::KeywordReturn,
            Token::Identifier("foo".to_string()),
            Token::Identifier("args1".to_string()),
            Token::Identifier("_x".to_string()),
            Token::EndOfFile,
        ]
    );
}

#[test]
fn scans_numbers_as_maximal_digit_runs() {
    let toks = scan_source("12 345x 0");
    assert_eq!(
        toks,
        vec![
            Token::Number("12".to_string()),
            Token::Number("345".to_string()),
            Token::Identifier("x".to_string()),
            Token::Number("0".to_string()),
            Token::EndOfFile,
        ]
    );
}

#[test]
fn unknown_character_becomes_invalid_token() {
    // The scanner does not fail: it tokenizes on past the anomaly.
    let toks = scan_source("a @ b");
    assert_eq!(
        toks,
        vec![
            Token::Identifier("a".to_string()),
            Token::Invalid,
            Token::Identifier("b".to_string()),
            Token::EndOfFile,
        ]
    );
}

#[test]
fn whitespace_only_input_gives_end_of_file() {
    assert_eq!(scan_source("  \t\n\r  "), vec![Token::EndOfFile]);
    assert_eq!(scan_source(""), vec![Token::EndOfFile]);
}

#[test]
fn tokenize_matches_scan_source() {
    let mut sc = Scanner::new("x = 1;".to_string());
    assert_eq!(sc.tokenize(), scan_source("x = 1;"));
}

#[test]
fn non_ascii_whitespace_is_skipped() {
    let toks = scan_source("a\u{a0}b");
    assert_eq!(
        toks,
        vec![
            Token::Identifier("a".to_string()),
            Token::Identifier("b".to_string()),
            Token::EndOfFile,
        ]
    );
}
