use p_lang::lexer::{keyword_map, Lexer};
use p_lang::token::Token;

const LEXER_TEST_STRING: &'static str = "abc 123 123.3 \"askdlk\" true false ; : , . ( ) { } [ ] = + - * / % ! && || == != > < >= <= function let if while int float string bool ret err null array";

#[test]
fn test_keywords() {
    let keywords = keyword_map();

    assert_eq!(keywords.len(), 15, "Keywords length do not match with the actual amount of keywords!")
}

#[test]
fn test_lexer_from_string() {
    let lexer = Lexer::from_string(LEXER_TEST_STRING.to_string());

    assert_eq!(lexer.program, LEXER_TEST_STRING.chars().collect::<Vec<char>>(), "Lexer string and predefined string doesnt match!");
}

#[test]
fn test_lexer_lex() {
    let tokens = vec![
        Token::Identifier("abc".to_string()),
        Token::Integer("123".to_string()),
        Token::Float("123.3".to_string()),
        Token::String("askdlk".to_string()),
        Token::Boolean("true".to_string()),
        Token::Boolean("false".to_string()),
        Token::Semicolon,
        Token::Colon,
        Token::Comma,
        Token::Dot,
        Token::LParent,
        Token::RParent,
        Token::LBrace,
        Token::RBrace,
        Token::LBracket,
        Token::RBracket,
        Token::Assign,
        Token::Add,
        Token::Subtract,
        Token::Multiply,
        Token::Divide,
        Token::Modular,
        Token::Invert,
        Token::And,
        Token::Or,
        Token::Equal,
        Token::NotEqual,
        Token::GreaterThan,
        Token::LessThan,
        Token::GreaterThanEqual,
        Token::LessThanEqual,
        Token::Function,
        Token::Let,
        Token::If,
        Token::While,
        Token::IntegerType,
        Token::FloatType,
        Token::StringType,
        Token::BooleanType,
        Token::Return,
        Token::Error,
        Token::NullType,
        Token::ArrayType,
    ];

    let mut lexer = Lexer::from_string(LEXER_TEST_STRING.to_string());

    assert_eq!(lexer.lex(), tokens, "Lexer generated the wrong tokens!")
}

#[test]
fn lexer_reads_else_and_unterminated_string() {
    let mut lexer = Lexer::from_string("else \"open".to_string());
    assert_eq!(lexer.lex(), vec![Token::Else, Token::String("open".to_string())]);
}

#[test]
fn lexer_marks_single_ampersand_illegal() {
    let mut lexer = Lexer::from_string("a & b | c # 1.2.3".to_string());
    assert_eq!(
        lexer.lex(),
        vec![
            Token::Identifier("a".to_string()),
            Token::Illegal,
            Token::Identifier("b".to_string()),
            Token::Illegal,
            Token::Identifier("c".to_string()),
            Token::Illegal,
            Token::Float("1.2.3".to_string()),
        ]
    );
}

#[test]
fn lexer_on_empty_text_gives_no_tokens() {
    let mut lexer = Lexer::from_string(String::new());
    assert_eq!(lexer.lex(), Vec::<Token>::new());
}

#[test]
fn identifier_and_number_read_after_their_first_character() {
    let mut lexer = Lexer::from_string("et x".to_string());
    assert_eq!(lexer.parse_identifier('l'), Token::Let);
    let mut lexer = Lexer::from_string("2.5".to_string());
    assert_eq!(lexer.parse_number('1'), Token::Float("12.5".to_string()));
    let mut lexer = Lexer::from_string("".to_string());
    assert_eq!(lexer.parse_identifier('q'), Token::Identifier("q".to_string()));
}
