use toy_machines::lisp;
use toy_machines::lisp::LispyValue;
use toy_machines::lispy;
use toy_machines::lispy::Token as LispyToken;
use toy_machines::monkey::ast::Expression::IntegerLiteral as IntLit;
use toy_machines::monkey::ast::{Expression, Statement};
use toy_machines::monkey::lexer::Lexer;
use toy_machines::monkey::parser::{Parser, Precedence};
use toy_machines::monkey::token::Token;
use toy_machines::monkey::token::Token::{
    Assign, Asterisk, Bang, Comma, Function, Ident, Int, LBrace, LParen, LT, Let, Minus, NotEQ,
    Plus, RBrace, RParen, Semicolon, Slash, EQ, GT,
};
use toy_machines::token_stream;
use toy_machines::token_stream::Token as StreamToken;

#[test]
fn test_next_token() {
    let input = "let five = 5;
let ten = 10;

let add = fn(x, y) {
    x + y;
};

let result = add(five, ten);

!-/*5;
5 < 10 > 5;

10 == 10;
10 != 9;
";

    let mut l = Lexer::new(input);
    let tests = vec![
        // Line 1
        Let,
        Ident("five"),
        Assign,
        Int(5),
        Semicolon,
        // Line 2
        Let,
        Ident("ten"),
        Assign,
        Int(10),
        Semicolon,
        // Line 4
        Let,
        Ident("add"),
        Assign,
        Function,
        LParen,
        Ident("x"),
        Comma,
        Ident("y"),
        RParen,
        LBrace,
        // Line 5
        Ident("x"),
        Plus,
        Ident("y"),
        Semicolon,
        // Line 6
        RBrace,
        Semicolon,
        // Line 8
        Let,
        Ident("result"),
        Assign,
        Ident("add"),
        LParen,
        Ident("five"),
        Comma,
        Ident("ten"),
        RParen,
        Semicolon,
        // Line 10
        Bang,
        Minus,
        Slash,
        Asterisk,
        Int(5),
        Semicolon,
        // Line 11
        Int(5),
        LT,
        Int(10),
        GT,
        Int(5),
        Semicolon,
        // Line 13
        Int(10),
        EQ,
        Int(10),
        Semicolon,
        // Line 14
        Int(10),
        NotEQ,
        Int(9),
        Semicolon,
    ];

    for (i, test_token) in tests.into_iter().enumerate() {
        assert_eq!(l.next_token().unwrap(), test_token, "at token #{}", i + 1);
    }
    assert_eq!(
        l.next_token(),
        None,
        "no more tokens should be left in the lexer"
    );
}

#[test]
fn test_lookup_ident_and_precedence() {
    assert_eq!(Token::lookup_ident("let"), Token::Let);
    assert_eq!(Token::lookup_ident("fn"), Token::Function);
    assert_eq!(Token::lookup_ident("banana"), Token::Ident("banana"));
    assert_eq!(Token::Plus.get_precedence(), Precedence::Sum);
    assert_eq!(Token::Asterisk.get_precedence(), Precedence::Product);
    assert_eq!(Token::EQ.get_precedence(), Precedence::Equals);
    assert_eq!(Token::LBrace.get_precedence(), Precedence::Lowest);
}

#[test]
fn test_let_statement() {
    let input = "
let x = 5;
let y = 10;
let foobar = 838383;
";

    let mut parser = Parser::new(input);

    let program = parser.parse_program().unwrap();
    assert_eq!(program.statements.len(), 3);

    let names = vec!["x", "y", "foobar"];
    let values = vec![IntLit(5), IntLit(10), IntLit(838383)];

    for (i, statement) in program.statements.into_iter().enumerate() {
        if let Statement::Let { name, value } = statement {
            assert_eq!(name, names[i]);
            assert_eq!(value, values[i]);
        } else {
            assert!(false);
        }
    }
}

#[test]
fn test_identifier_expression() {
    let input = "foobar;";
    let mut parser = Parser::new(input);

    let pgm = parser.parse_program().unwrap();
    let statement = &pgm.statements[0];

    assert!(matches!(
        statement,
        &Statement::Expression(Expression::Identifier("foobar"))
    ))
}

#[test]
fn test_integer_literal_expression() {
    let input = "5;";
    let mut parser = Parser::new(input);

    let pgm = parser.parse_program().unwrap();
    let statement = &pgm.statements[0];

    assert!(matches!(
        statement,
        &Statement::Expression(Expression::IntegerLiteral(5))
    ))
}

#[test]
fn test_prefix_expressions() {
    let input = "!5; -15;";
    let mut parser = Parser::new(input);

    let pgm = parser.parse_program().unwrap();

    match &pgm.statements[0] {
        Statement::Expression(Expression::Prefix { operator, right }) => {
            assert_eq!(*operator, Token::Bang);
            assert_eq!(**right, Expression::IntegerLiteral(5));
        }
        other => panic!("expected a prefix expression, got {:?}", other),
    }
    match &pgm.statements[1] {
        Statement::Expression(Expression::Prefix { operator, right }) => {
            assert_eq!(*operator, Token::Minus);
            assert_eq!(**right, Expression::IntegerLiteral(15));
        }
        other => panic!("expected a prefix expression, got {:?}", other),
    }
}

#[test]
fn test_operator_precedence() {
    let input_expected = vec![
        ("!-a", "(!(-a))"),
        ("a + b + c", "((a + b) + c)"),
        ("a + b * c + d / e - f", "(((a + (b * c)) + (d / e)) - f)"),
        ("5 > 4 == 3 < 4", "((5 > 4) == (3 < 4))"),
        ("5 < 4 != 3 > 4", "((5 < 4) != (3 > 4))"),
        (
            "3 + 4 * 5 == 3 * 1 + 4 * 5",
            "((3 + (4 * 5)) == ((3 * 1) + (4 * 5)))",
        ),
    ];

    let input = input_expected
        .iter()
        .map(|(x, _)| *x)
        .collect::<Vec<_>>()
        .join(";\n");
    let mut parser = Parser::new(&input);
    let statements = parser.parse_program().unwrap().statements;
    for (i, statement) in statements.into_iter().enumerate() {
        assert_eq!(statement.to_text(), input_expected[i].1.to_string() + ";");
    }
}

#[test]
fn test_parse_program_rejects_bad_token() {
    let mut parser = Parser::new("+;");
    assert!(parser.parse_program().is_none());
    let mut parser = Parser::new("let 5 = x;");
    assert!(parser.parse_program().is_none());
}

#[test]
fn test_statement_text() {
    let statement = Statement::Let {
        name: "answer",
        value: Expression::IntegerLiteral(-42),
    };
    assert_eq!(statement.to_text(), "let answer = -42;");
    let statement = Statement::Return(Expression::Identifier("x"));
    assert_eq!(statement.to_text(), "return x;");
}

#[test]
fn test_tokenization() {
    let input = "+984 -156()))((adam app11e";
    let tokenizer = lispy::Tokenizer::new(input);
    let tokens = tokenizer.tokenize().unwrap();
    let expected = vec![
        LispyToken::Int64(984),
        LispyToken::Int64(-156),
        LispyToken::LParen,
        LispyToken::RParen,
        LispyToken::RParen,
        LispyToken::RParen,
        LispyToken::LParen,
        LispyToken::LParen,
        LispyToken::Word("adam"),
        LispyToken::Word("app11e"),
    ];
    for (i, token) in expected.into_iter().enumerate() {
        assert_eq!(token, tokens[i]);
    }
}

#[test]
fn test_parsing() {
    let source = "(+ 3 (why 9 ten) yes)";
    let parser = lispy::Parser::new(source);
    let expected = lispy::Node::expr(vec![
        lispy::Node::Ident("+"),
        lispy::Node::Int64(3),
        lispy::Node::expr(vec![
            lispy::Node::Ident("why"),
            lispy::Node::Int64(9),
            lispy::Node::Ident("ten"),
        ]),
        lispy::Node::Ident("yes"),
    ]);

    assert_eq!(parser.parse().unwrap(), lispy::Program::from_node(expected));
}

#[test]
fn test_parsing_rejects_stray_closer() {
    let parser = lispy::Parser::new(") oops");
    assert_eq!(parser.parse(), None);
}

#[test]
fn test_tokenization_skips_comments_and_commas() {
    let tokenizer = lispy::Tokenizer::new("(add, 1 // ignore me \\\\ 2)");
    let tokens = tokenizer.tokenize().unwrap();
    assert_eq!(
        tokens,
        vec![
            LispyToken::LParen,
            LispyToken::Add,
            LispyToken::Int64(1),
            LispyToken::Int64(2),
            LispyToken::RParen,
        ]
    );
}

#[test]
fn test_tokenization_rejects_stray_bytes() {
    let tokenizer = lispy::Tokenizer::new("ok \u{7f}");
    assert_eq!(tokenizer.tokenize(), None);
}

#[test]
fn test_is_valid_identifier() {
    assert!(lispy::is_valid_identifier('a', "a+b"));
    assert!(lispy::is_valid_identifier('+', "+="));
    assert!(!lispy::is_valid_identifier('(', "("));
}

#[test]
fn ops() {
    let pgm = lisp::parse_program("(+ 1 2)").unwrap();
    assert_eq!(
        pgm[0],
        lisp::Expression {
            identifier: "+",
            args: vec![LispyValue::Number(1), LispyValue::Number(2)]
        }
    );

    let pgm = lisp::parse_program("(+= x 2)").unwrap();
    assert_eq!(
        pgm[0],
        lisp::Expression {
            identifier: "+=",
            args: vec![LispyValue::Word("x"), LispyValue::Number(2)]
        }
    );
}

#[test]
fn words() {
    let pgm = lisp::parse_program("(add 97 12)").unwrap();
    assert_eq!(
        pgm[0],
        lisp::Expression {
            identifier: "add",
            args: vec![LispyValue::Number(97), LispyValue::Number(12)]
        }
    );

    let pgm = lisp::parse_program("(jmp0 x 1 2)").unwrap();
    assert_eq!(
        pgm[0],
        lisp::Expression {
            identifier: "jmp0",
            args: vec![LispyValue::Word("x"), LispyValue::Number(1), LispyValue::Number(2)]
        }
    );
}

#[test]
fn test_lisp_rejects_unbalanced() {
    assert_eq!(lisp::parse_program("(+ 1 2"), None);
    assert_eq!(lisp::parse_program(")"), None);
}

#[test]
fn test_token_stream_reads_tokens() {
    let mut stream = token_stream::TokenStream::new("(hey 123 you2 (yes ) )");
    assert_eq!(stream.next_token(), Some(StreamToken::LParen));
    assert_eq!(stream.next_token(), Some(StreamToken::Word("hey".into())));
    assert_eq!(stream.next_token(), Some(StreamToken::Number("123".into())));
    assert_eq!(stream.next_token(), Some(StreamToken::Word("you2".into())));
    assert_eq!(stream.next_token(), Some(StreamToken::LParen));
    assert_eq!(stream.next_token(), Some(StreamToken::Word("yes".into())));
    assert_eq!(stream.next_token(), Some(StreamToken::RParen));
    assert_eq!(stream.next_token(), Some(StreamToken::RParen));
    assert_eq!(stream.next_token(), None);
}
