use i_v::compiler::token::{lookup, Token};
use i_v::compiler::Scanner;

fn get_test_scanner() -> Scanner {
    let test_scanner = Scanner::new("ab12\na 123");

    return test_scanner;
}

#[test]
fn test_read_char() {
    let mut test_scanner = get_test_scanner();

    assert_eq!(test_scanner.read_char(), Some('a'));
}

#[test]
fn test_peek_char() {
    let test_scanner = get_test_scanner();

    assert_eq!(test_scanner.peek_char(), Some(&'a'));
}

#[test]
fn test_peek_match() {
    let test_scanner = get_test_scanner();

    assert_eq!(test_scanner.peek_match('a'), true);
}

#[test]
fn test_peek_alpha() {
    let test_scanner = get_test_scanner();

    assert_eq!(test_scanner.peek_alpha(), true);
}

#[test]
fn test_peek_number() {
    let mut test_scanner = get_test_scanner();

    test_scanner.read_char();
    test_scanner.read_char();

    assert_eq!(test_scanner.peek_digit(), true);
}

#[test]
fn test_skip_whitespace() {
    let mut test_scanner = get_test_scanner();

    test_scanner.skip(4);

    test_scanner.skip_whitespace();

    assert_eq!(test_scanner.peek_char(), Some(&'a'));
    assert_eq!(test_scanner.line(), 1);
}

#[test]
fn test_lookup() {
    assert_eq!(lookup("fn"), Token::FunctionDecl);
}

fn scan(source: &str) -> Vec<Token> {
    i_v::compiler::tokenize(source).unwrap()
}

fn name(s: &str) -> Token {
    Token::Identifier(s.to_string())
}

#[test]
fn every_keyword_is_looked_up() {
    for (word, expected) in [
        ("fn", Token::FunctionDecl),
        ("const", Token::ConstDecl),
        ("var", Token::VarDecl),
        ("match", Token::Match),
        ("return", Token::Return),
        ("super", Token::Super),
        ("if", Token::If),
        ("else", Token::Else),
        ("null", Token::Null),
        ("for", Token::For),
        ("while", Token::While),
        ("true", Token::BooleanLiteral(true)),
        ("false", Token::BooleanLiteral(false)),
        ("void", Token::VoidDecl),
        ("collection", Token::CollectionDecl),
        ("int", Token::IntegerDecl),
        ("float", Token::FloatDecl),
        ("string", Token::StringDecl),
        ("bool", Token::BooleanDecl),
        ("struct", Token::StructDecl),
        ("print", Token::Print),
    ] {
        assert_eq!(lookup(word), expected);
    }
}

#[test]
fn any_other_word_is_an_identifier() {
    assert_eq!(lookup("Fn"), name("Fn"));
    assert_eq!(lookup("fnn"), name("fnn"));
    assert_eq!(lookup(""), name(""));
    assert_eq!(lookup("prin"), name("prin"));
}

#[test]
fn the_default_token_is_illegal() {
    assert_eq!(Token::default(), Token::Illegal);
}

#[test]
fn a_scanner_starts_on_line_zero() {
    let scanner = Scanner::new("a");
    assert_eq!(scanner.line(), 0);
    assert_eq!(scanner.peek_char(), Some(&'a'));
    assert!(Scanner::new("").peek_char().is_none());
}

#[test]
fn reading_goes_through_the_characters_in_order() {
    let mut scanner = Scanner::new("hé!");
    assert_eq!(scanner.read_char(), Some('h'));
    assert_eq!(scanner.read_char(), Some('é'));
    assert_eq!(scanner.read_char(), Some('!'));
    assert_eq!(scanner.read_char(), None);
    assert_eq!(scanner.read_char(), None);
}

#[test]
fn letters_are_alphabetic_characters_and_the_underscore() {
    assert!(i_v::compiler::is_letter('a'));
    assert!(i_v::compiler::is_letter('Z'));
    assert!(i_v::compiler::is_letter('_'));
    assert!(i_v::compiler::is_letter('é'));
    assert!(!i_v::compiler::is_letter('1'));
    assert!(!i_v::compiler::is_letter(' '));
    assert!(!i_v::compiler::is_letter('+'));
}

#[test]
fn peeking_does_not_read() {
    let mut scanner = Scanner::new("1a");
    assert!(scanner.peek_digit());
    assert!(!scanner.peek_alpha());
    assert!(scanner.peek_match('1'));
    assert!(!scanner.peek_match('a'));
    scanner.read_char();
    assert!(scanner.peek_alpha());
    assert!(!scanner.peek_digit());
    scanner.read_char();
    assert!(!scanner.peek_alpha());
    assert!(!scanner.peek_digit());
    assert!(!scanner.peek_match('a'));
}

#[test]
fn skipping_stops_at_the_end() {
    let mut scanner = Scanner::new("abc");
    scanner.skip(2);
    assert_eq!(scanner.peek_char(), Some(&'c'));
    scanner.skip(5);
    assert_eq!(scanner.peek_char(), None);
    assert_eq!(scanner.line(), 0);
}

#[test]
fn skipping_does_not_count_lines() {
    let mut scanner = Scanner::new("a\n\nb");
    scanner.skip(3);
    assert_eq!(scanner.line(), 0);
    assert_eq!(scanner.peek_char(), Some(&'b'));
}

#[test]
fn white_space_counts_its_line_feeds() {
    let mut scanner = Scanner::new(" \n\t\n  x\n");
    scanner.skip_whitespace();
    assert_eq!(scanner.line(), 2);
    assert_eq!(scanner.peek_char(), Some(&'x'));
    scanner.skip_whitespace();
    assert_eq!(scanner.line(), 2);
    assert_eq!(scanner.peek_char(), Some(&'x'));
}

#[test]
fn a_word_goes_on_with_letters_and_numeric_characters() {
    let mut scanner = Scanner::new("b1_2c+d");
    scanner.read_char();
    assert_eq!(scanner.read_word('b'), "b1_2c");
    assert_eq!(scanner.peek_char(), Some(&'+'));
}

#[test]
fn the_symbols() {
    assert_eq!(
        scan("+ - * / , . ( ) { } ; : ^ % | & = ! < >"),
        vec![
            Token::Add,
            Token::Subtract,
            Token::Multiply,
            Token::Divide,
            Token::Comma,
            Token::Dot,
            Token::LeftParenthesis,
            Token::RightParenthesis,
            Token::LeftBrace,
            Token::RightBrace,
            Token::Semicolon,
            Token::Colon,
            Token::Xor,
            Token::Modulo,
            Token::Or,
            Token::And,
            Token::Assign,
            Token::Bang,
            Token::LessThan,
            Token::GreaterThan,
            Token::EOF,
        ]
    );
}

#[test]
fn the_symbols_of_two_characters() {
    assert_eq!(
        scan(".. || && == != <= << >= >>"),
        vec![
            Token::DotDot,
            Token::LogicalOr,
            Token::LogicalAnd,
            Token::Equality,
            Token::NotEquality,
            Token::LessThanEqual,
            Token::ShiftLeft,
            Token::GreaterThanEqual,
            Token::ShiftRight,
            Token::EOF,
        ]
    );
    assert_eq!(scan("==="), vec![Token::Equality, Token::Assign, Token::EOF]);
    assert_eq!(scan("<<="), vec![Token::ShiftLeft, Token::Assign, Token::EOF]);
    assert_eq!(scan("..."), vec![Token::DotDot, Token::Dot, Token::EOF]);
}

#[test]
fn integers() {
    assert_eq!(scan("0"), vec![Token::IntegerLiteral(0), Token::EOF]);
    assert_eq!(scan("007"), vec![Token::IntegerLiteral(7), Token::EOF]);
    assert_eq!(scan("2147483647"), vec![Token::IntegerLiteral(i32::MAX), Token::EOF]);
    assert_eq!(
        scan("12 345"),
        vec![Token::IntegerLiteral(12), Token::IntegerLiteral(345), Token::EOF]
    );
}

#[test]
fn an_integer_that_does_not_fit_cannot_be_scanned() {
    assert!(i_v::compiler::tokenize("2147483648").is_none());
    assert!(i_v::compiler::tokenize("1 + 99999999999999999999999").is_none());
    let mut scanner = Scanner::new("  2147483648");
    assert!(!scanner.can_scan());
    assert!(scanner.checked_next_token().is_none());
    assert_eq!(scanner.peek_char(), Some(&' '));
    let mut scanner = Scanner::new("2147483647 2147483648");
    assert!(scanner.can_scan());
    assert_eq!(scanner.checked_next_token(), Some(Token::IntegerLiteral(i32::MAX)));
    assert!(!scanner.can_scan());
}

#[test]
fn numeric_characters_that_are_no_digits_cannot_be_scanned() {
    assert!(i_v::compiler::tokenize("١٢").is_none());
    assert!(i_v::compiler::tokenize("1٢").is_none());
    assert!(i_v::compiler::tokenize("1.٢").is_none());
    assert_eq!(scan("x٢"), vec![name("x٢"), Token::EOF]);
}

#[test]
fn floats_keep_their_text() {
    assert_eq!(scan("1.5"), vec![Token::FloatLiteral("1.5".to_string()), Token::EOF]);
    assert_eq!(scan("0.25 "), vec![Token::FloatLiteral("0.25".to_string()), Token::EOF]);
    assert_eq!(
        scan("99999999999.5"),
        vec![Token::FloatLiteral("99999999999.5".to_string()), Token::EOF]
    );
    assert_eq!(
        scan("1.5.2"),
        vec![
            Token::FloatLiteral("1.5".to_string()),
            Token::Dot,
            Token::IntegerLiteral(2),
            Token::EOF
        ]
    );
}

#[test]
fn a_point_without_a_digit_after_it_is_no_fraction() {
    assert_eq!(scan("1."), vec![Token::IntegerLiteral(1), Token::Dot, Token::EOF]);
    assert_eq!(
        scan("1..5"),
        vec![Token::IntegerLiteral(1), Token::DotDot, Token::IntegerLiteral(5), Token::EOF]
    );
    assert_eq!(scan("1.x"), vec![Token::IntegerLiteral(1), Token::Dot, name("x"), Token::EOF]);
}

#[test]
fn strings_run_to_the_next_quote_or_to_the_end() {
    assert_eq!(scan("\"hi\""), vec![Token::StringLiteral("hi".to_string()), Token::EOF]);
    assert_eq!(scan("\"\""), vec![Token::StringLiteral(String::new()), Token::EOF]);
    assert_eq!(
        scan("\"a\\\"b\""),
        vec![Token::StringLiteral("a\\".to_string()), name("b"), Token::StringLiteral(String::new()), Token::EOF]
    );
    assert_eq!(scan("\"open"), vec![Token::StringLiteral("open".to_string()), Token::EOF]);
    assert_eq!(scan("\"a\nb\" c"), vec![Token::StringLiteral("a\nb".to_string()), name("c"), Token::EOF]);
}

#[test]
fn a_comment_runs_to_the_end_of_its_line() {
    assert_eq!(
        scan("1 // one\n2"),
        vec![Token::IntegerLiteral(1), Token::Comment, Token::IntegerLiteral(2), Token::EOF]
    );
    assert_eq!(scan("// only"), vec![Token::Comment, Token::EOF]);
    assert_eq!(scan("/ /"), vec![Token::Divide, Token::Divide, Token::EOF]);
    let mut scanner = Scanner::new("// a\n// b");
    assert_eq!(scanner.next_token(), Token::Comment);
    assert_eq!(scanner.line(), 1);
    assert_eq!(scanner.next_token(), Token::Comment);
    assert_eq!(scanner.line(), 2);
    assert_eq!(scanner.next_token(), Token::EOF);
    assert_eq!(scanner.next_token(), Token::EOF);
}

#[test]
fn a_character_that_begins_no_token_is_illegal() {
    assert_eq!(scan("#"), vec![Token::Illegal, Token::EOF]);
    assert_eq!(scan("a $ b"), vec![name("a"), Token::Illegal, name("b"), Token::EOF]);
}

#[test]
fn words_are_keywords_or_identifiers() {
    assert_eq!(
        scan("fn add: int(int: a, int: b)"),
        vec![
            Token::FunctionDecl,
            name("add"),
            Token::Colon,
            Token::IntegerDecl,
            Token::LeftParenthesis,
            Token::IntegerDecl,
            Token::Colon,
            name("a"),
            Token::Comma,
            Token::IntegerDecl,
            Token::Colon,
            name("b"),
            Token::RightParenthesis,
            Token::EOF,
        ]
    );
    assert_eq!(scan("_x if iff"), vec![name("_x"), Token::If, name("iff"), Token::EOF]);
}

#[test]
fn lines_are_counted_while_scanning() {
    let mut scanner = Scanner::new("a\nb\n\nc");
    assert_eq!(scanner.next_token(), name("a"));
    assert_eq!(scanner.line(), 0);
    assert_eq!(scanner.next_token(), name("b"));
    assert_eq!(scanner.line(), 1);
    assert_eq!(scanner.next_token(), name("c"));
    assert_eq!(scanner.line(), 3);
}

#[test]
fn numbers_and_strings_can_be_read_directly() {
    let mut scanner = Scanner::new("23.5x");
    assert_eq!(scanner.read_number('1'), Token::FloatLiteral("123.5".to_string()));
    assert_eq!(scanner.peek_char(), Some(&'x'));
    let mut scanner = Scanner::new("23 ");
    assert_eq!(scanner.read_number('1'), Token::IntegerLiteral(123));
    let mut scanner = Scanner::new("abc\" d");
    assert_eq!(scanner.read_string(), Token::StringLiteral("abc".to_string()));
    assert_eq!(scanner.peek_char(), Some(&' '));
}
