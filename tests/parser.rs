use p_lang::ast::{Expression, Statement};
use p_lang::error::ParseError;
use p_lang::parser::Parser;
use p_lang::token::{Precedences, Token};

#[test]
fn test_prefix_expression() {
    let tokens = vec![
        Token::Subtract,
        Token::Integer("123".to_string()),
    ];

    let mut parser = Parser::from_tokens(tokens);
    assert_eq!(
        parser.parse_expression(Precedences::Lowest).unwrap(),
        Expression::Prefix {
            prefix: Token::Subtract,
            value: Box::new(Expression::Integer {
                value: "123".to_string()
            }),
        }
    )
}

#[test]
fn test_infix_expression() {
    let tokens = vec![
        Token::Integer("123".to_string()),
        Token::Add,
        Token::Integer("123".to_string()),
    ];

    let mut parser = Parser::from_tokens(tokens);
    assert_eq!(
        parser.parse_expression(Precedences::Lowest).unwrap(),
        Expression::Infix {
            left: Box::new(Expression::Integer {
                value: "123".to_string(),
            }),
            operation: Token::Add,
            right: Box::new(Expression::Integer {
                value: "123".to_string()
            }),
        }
    )
}

#[test]
fn test_if_expression() {
    let tokens = vec![
        Token::If,
        Token::LParent,
        Token::Boolean("true".to_string()),
        Token::RParent,
        Token::LBrace,
        Token::Integer("1".to_string()),
        Token::Semicolon,
        Token::RBrace,
    ];

    let mut parser = Parser::from_tokens(tokens);
    assert_eq!(
        parser.parse_expression(Precedences::Lowest).unwrap(),
        Expression::If {
            condition: Box::new(Expression::Boolean {
                value: "true".to_string()
            }),
            consequence: Box::new(Expression::Block {
                statements: vec![Box::new(Statement::Expression {
                    value: Box::new(Expression::Integer {
                        value: "1".to_string()
                    })
                })]
            }),
            alternative: None,
        }
    )
}

#[test]
fn test_if_else_expression() {
    let tokens = vec![
        Token::If,
        Token::LParent,
        Token::Boolean("true".to_string()),
        Token::RParent,
        Token::LBrace,
        Token::Integer("1".to_string()),
        Token::Semicolon,
        Token::RBrace,
        Token::Else,
        Token::LBrace,
        Token::Integer("1".to_string()),
        Token::Semicolon,
        Token::RBrace,
    ];

    let mut parser = Parser::from_tokens(tokens);
    assert_eq!(
        parser.parse_expression(Precedences::Lowest).unwrap(),
        Expression::If {
            condition: Box::new(Expression::Boolean {
                value: "true".to_string()
            }),
            consequence: Box::new(Expression::Block {
                statements: vec![Box::new(Statement::Expression {
                    value: Box::new(Expression::Integer {
                        value: "1".to_string()
                    })
                })]
            }),
            alternative: Some(Box::new(Expression::Block {
                statements: vec![Box::new(Statement::Expression {
                    value: Box::new(Expression::Integer {
                        value: "1".to_string()
                    })
                })]
            })),
        }
    )
}

#[test]
fn test_while_expression() {
    let tokens = vec![
        Token::While,
        Token::LParent,
        Token::Boolean("true".to_string()),
        Token::RParent,
        Token::LBrace,
        Token::Integer("1".to_string()),
        Token::Semicolon,
        Token::RBrace,
    ];

    let mut parser = Parser::from_tokens(tokens);
    assert_eq!(
        parser.parse_expression(Precedences::Lowest).unwrap(),
        Expression::While {
            condition: Box::new(Expression::Boolean {
                value: "true".to_string()
            }),
            consequence: Box::new(Expression::Block {
                statements: vec![Box::new(Statement::Expression {
                    value: Box::new(Expression::Integer {
                        value: "1".to_string()
                    })
                })]
            }),
        }
    )
}

#[test]
fn test_call_expression() {
    let tokens = vec![
        Token::Identifier("call".to_string()),
        Token::LParent,
        Token::Integer("1".to_string()),
        Token::RParent,
    ];

    let mut parser = Parser::from_tokens(tokens);
    assert_eq!(
        parser.parse_expression(Precedences::Lowest).unwrap(),
        Expression::Call {
            name: "call".to_string(),
            arguments: vec![Box::new(Expression::Integer {
                value: "1".to_string()
            })],
        }
    )
}

#[test]
fn test_error_expression() {
    let tokens = vec![
        Token::Error,
        Token::LParent,
        Token::Integer("1".to_string()),
        Token::RParent,
    ];

    let mut parser = Parser::from_tokens(tokens);
    assert_eq!(
        parser.parse_expression(Precedences::Lowest).unwrap(),
        Expression::Error {
            value: Box::new(Expression::Integer {
                value: "1".to_string()
            })
        }
    )
}

#[test]
fn test_assign_expression() {
    let tokens = vec![
        Token::Identifier("a".to_string()),
        Token::Assign,
        Token::Integer("1".to_string()),
    ];

    let mut parser = Parser::from_tokens(tokens);
    assert_eq!(
        parser.parse_expression(Precedences::Lowest).unwrap(),
        Expression::Assign {
            assign_to: Box::new(Expression::Identifier {
                name: "a".to_string(),
            }),
            value: Box::new(Expression::Integer {
                value: "1".to_string()
            }),
        }
    )
}

#[test]
fn test_array_expression() {
    let tokens = vec![
        Token::LBracket,
        Token::Integer("1".to_string()),
        Token::Comma,
        Token::Integer("2".to_string()),
        Token::RBracket,
    ];

    let mut parser = Parser::from_tokens(tokens);
    assert_eq!(
        parser.parse_expression(Precedences::Lowest).unwrap(),
        Expression::Array {
            values: vec![
                Box::new(Expression::Integer {
                    value: "1".to_string(),
                }),
                Box::new(Expression::Integer {
                    value: "2".to_string()
                }),
            ]
        }
    )
}

#[test]
fn test_block_expression() {
    let tokens = vec![
        Token::LBrace,
        Token::Integer("1".to_string()),
        Token::Semicolon,
        Token::Integer("2".to_string()),
        Token::Semicolon,
        Token::RBrace,
    ];

    let mut parser = Parser::from_tokens(tokens);
    assert_eq!(
        parser.parse_block_expression().unwrap(),
        Expression::Block {
            statements: vec![
                Box::new(Statement::Expression {
                    value: Box::new(Expression::Integer {
                        value: "1".to_string(),
                    })
                }),
                Box::new(Statement::Expression {
                    value: Box::new(Expression::Integer {
                        value: "2".to_string(),
                    })
                }),
            ]
        }
    )
}

#[test]
fn test_let_statement() {
    let tokens = vec![
        Token::Let,
        Token::Identifier("a".to_string()),
        Token::Assign,
        Token::Integer("10".to_string()),
        Token::Semicolon,
    ];

    let mut parser = Parser::from_tokens(tokens);

    assert_eq!(
        parser.parse_statement().unwrap(),
        Statement::Let {
            name: "a".to_string(),
            typee: None,
            value: Box::new(Expression::Integer {
                value: "10".to_string()
            }),
        }
    )
}

#[test]
fn test_ret_statement() {
    let tokens = vec![
        Token::Return,
        Token::String("abc".to_string()),
        Token::Semicolon,
    ];

    let mut parser = Parser::from_tokens(tokens);

    assert_eq!(
        parser.parse_statement().unwrap(),
        Statement::Return {
            value: Box::new(Expression::String {
                value: "abc".to_string()
            }),
        }
    )
}

#[test]
fn test_expression_statement() {
    let tokens = vec![
        Token::Integer("1".to_string()),
        Token::Multiply,
        Token::Integer("2".to_string()),
        Token::Add,
        Token::Integer("3".to_string()),
        Token::Semicolon,
    ];

    let mut parser = Parser::from_tokens(tokens);

    assert_eq!(
        parser.parse_statement().unwrap(),
        Statement::Expression {
            value: Box::new(Expression::Infix {
                left: Box::new(Expression::Infix {
                    left: Box::new(Expression::Integer {
                        value: "1".to_string(),
                    }),
                    operation: Token::Multiply,
                    right: Box::new(Expression::Integer {
                        value: "2".to_string(),
                    }),
                }),
                operation: Token::Add,
                right: Box::new(Expression::Integer {
                    value: "3".to_string(),
                }),
            }),
        }
    )
}

#[test]
fn test_function_statement() {
    let tokens = vec![
        Token::Function,
        Token::Identifier("test".to_string()),
        Token::LParent,
        Token::Identifier("a".to_string()),
        Token::Colon,
        Token::IntegerType,
        Token::RParent,
        Token::LBrace,
        Token::Integer("1".to_string()),
        Token::Semicolon,
        Token::RBrace,
    ];

    let mut parser = Parser::from_tokens(tokens);

    assert_eq!(
        parser.parse_statement().unwrap(),
        Statement::Function {
            name: "test".to_string(),
            parameter: vec![("a".to_string(), Token::IntegerType)],
            typee: Token::NullType,
            body: Box::new(Expression::Block {
                statements: vec![Box::new(Statement::Expression {
                    value: Box::new(Expression::Integer {
                        value: "1".to_string(),
                    })
                })],
            }),
        }
    )
}
fn lit(v: &str) -> Box<Expression> {
    Box::new(Expression::Integer { value: v.to_string() })
}

#[test]
fn multiplication_binds_tighter_on_the_right() {
    let tokens = vec![
        Token::Integer("1".to_string()),
        Token::Add,
        Token::Integer("2".to_string()),
        Token::Multiply,
        Token::Integer("3".to_string()),
    ];
    let mut parser = Parser::from_tokens(tokens);
    assert_eq!(
        parser.parse_expression(Precedences::Lowest).unwrap(),
        Expression::Infix {
            left: lit("1"),
            operation: Token::Add,
            right: Box::new(Expression::Infix { left: lit("2"), operation: Token::Multiply, right: lit("3") }),
        }
    );
}

#[test]
fn equal_precedence_groups_to_the_left() {
    let tokens = vec![
        Token::Integer("1".to_string()),
        Token::Subtract,
        Token::Integer("2".to_string()),
        Token::Subtract,
        Token::Integer("3".to_string()),
    ];
    let mut parser = Parser::from_tokens(tokens);
    assert_eq!(
        parser.parse_expression(Precedences::Lowest).unwrap(),
        Expression::Infix {
            left: Box::new(Expression::Infix { left: lit("1"), operation: Token::Subtract, right: lit("2") }),
            operation: Token::Subtract,
            right: lit("3"),
        }
    );
}

#[test]
fn parsing_twice_gives_the_same_result() {
    let tokens = vec![
        Token::Let,
        Token::Identifier("x".to_string()),
        Token::Colon,
        Token::IntegerType,
        Token::Assign,
        Token::Integer("4".to_string()),
        Token::Multiply,
        Token::LParent,
        Token::Integer("1".to_string()),
        Token::Add,
        Token::Integer("2".to_string()),
        Token::RParent,
        Token::Semicolon,
    ];
    let first = Parser::from_tokens(tokens.clone()).parse().unwrap();
    let second = Parser::from_tokens(tokens).parse().unwrap();
    assert_eq!(first, second);
    assert_eq!(first.len(), 1);
    let bad = vec![Token::Let, Token::Integer("1".to_string())];
    let e1 = Parser::from_tokens(bad.clone()).parse().unwrap_err();
    let e2 = Parser::from_tokens(bad).parse().unwrap_err();
    assert_eq!(format!("{:?}", e1), format!("{:?}", e2));
}

#[test]
fn empty_token_list_gives_no_statements() {
    assert_eq!(Parser::from_tokens(vec![]).parse().unwrap(), vec![]);
}

#[test]
fn typed_let_and_function_return_type() {
    let tokens = vec![
        Token::Function,
        Token::Identifier("add".to_string()),
        Token::LParent,
        Token::Identifier("a".to_string()),
        Token::Colon,
        Token::IntegerType,
        Token::Comma,
        Token::Identifier("b".to_string()),
        Token::Colon,
        Token::IntegerType,
        Token::RParent,
        Token::Colon,
        Token::IntegerType,
        Token::LBrace,
        Token::Return,
        Token::Identifier("a".to_string()),
        Token::Add,
        Token::Identifier("b".to_string()),
        Token::Semicolon,
        Token::RBrace,
    ];
    let mut parser = Parser::from_tokens(tokens);
    let statements = parser.parse().unwrap();
    assert_eq!(
        statements,
        vec![Statement::Function {
            name: "add".to_string(),
            parameter: vec![("a".to_string(), Token::IntegerType), ("b".to_string(), Token::IntegerType)],
            typee: Token::IntegerType,
            body: Box::new(Expression::Block {
                statements: vec![Box::new(Statement::Return {
                    value: Box::new(Expression::Infix {
                        left: Box::new(Expression::Identifier { name: "a".to_string() }),
                        operation: Token::Add,
                        right: Box::new(Expression::Identifier { name: "b".to_string() }),
                    }),
                })],
            }),
        }]
    );
}

#[test]
fn access_and_empty_array() {
    let tokens = vec![
        Token::Identifier("arr".to_string()),
        Token::LBracket,
        Token::Integer("1".to_string()),
        Token::RBracket,
        Token::Add,
        Token::LBracket,
        Token::RBracket,
    ];
    let mut parser = Parser::from_tokens(tokens);
    assert_eq!(
        parser.parse_expression(Precedences::Lowest).unwrap(),
        Expression::Infix {
            left: Box::new(Expression::Access {
                source: Box::new(Expression::Identifier { name: "arr".to_string() }),
                index: lit("1"),
            }),
            operation: Token::Add,
            right: Box::new(Expression::Array { values: vec![] }),
        }
    );
}

#[test]
fn parse_errors_of_each_kind() {
    let e = Parser::from_tokens(vec![Token::Let]).parse().unwrap_err();
    assert!(matches!(e, ParseError::RanOutOfTokens));
    let e = Parser::from_tokens(vec![Token::Let, Token::Integer("1".to_string())]).parse().unwrap_err();
    assert!(matches!(e, ParseError::ExpectedButFound(ref k, Token::Integer(_)) if k == "Identifier"));
    let e = Parser::from_tokens(vec![
        Token::Let,
        Token::Identifier("a".to_string()),
        Token::Colon,
        Token::NullType,
    ])
    .parse()
    .unwrap_err();
    assert!(matches!(e, ParseError::ExpectedButFound(ref k, Token::NullType) if k == "Type"));
    let e = Parser::from_tokens(vec![
        Token::Let,
        Token::Identifier("a".to_string()),
        Token::Integer("1".to_string()),
    ])
    .parse()
    .unwrap_err();
    assert!(matches!(e, ParseError::ExpectedTokenButFound(Token::Assign, Token::Integer(_))));
    let e = Parser::from_tokens(vec![
        Token::Integer("1".to_string()),
        Token::Assign,
        Token::Integer("2".to_string()),
    ])
    .parse()
    .unwrap_err();
    assert!(matches!(e, ParseError::ExpectedButFoundExpression(ref k, Expression::Integer { .. }) if k == "Identifier"));
    let e = Parser::from_tokens(vec![Token::RParent]).parse().unwrap_err();
    assert!(matches!(e, ParseError::UnexpectedTokenFound(Token::RParent)));
    let e = Parser::from_tokens(vec![Token::LBrace]).parse_block_expression().unwrap_err();
    assert!(matches!(e, ParseError::RanOutOfTokens));
}

#[test]
fn assert_next_token_compares_payloads_and_consumes_one() {
    let mut parser = Parser::from_tokens(vec![
        Token::Identifier("a".to_string()),
        Token::Identifier("b".to_string()),
        Token::Semicolon,
    ]);
    assert!(parser.assert_next_token(Token::Identifier("a".to_string())).is_ok());
    let e = parser.assert_next_token(Token::Identifier("c".to_string())).unwrap_err();
    assert!(matches!(e, ParseError::ExpectedTokenButFound(Token::Identifier(_), Token::Identifier(_))));
    assert!(parser.assert_next_token(Token::Semicolon).is_ok());
    assert!(matches!(parser.assert_next_token(Token::Semicolon).unwrap_err(), ParseError::RanOutOfTokens));
}
