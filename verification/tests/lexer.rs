use yo_lexer::lexer::Lexer;
use yo_lexer::token::{BooleanT, Token};

#[test]
fn next_token_should_return_eof_token() {
    let mut lexer = Lexer::new(String::from(""));
    assert_eq!(lexer.next_token(), Ok(Token::Eof));
}

#[test]
fn next_token_should_return_illegal_token() {
    let mut lexer = Lexer::new(String::from("#"));
    assert_eq!(lexer.next_token(), Ok(Token::Illegal));
}

#[test]
fn next_token_should_return_valid_token() {
    let mut lexer = Lexer::new(String::from("="));
    assert_eq!(lexer.next_token(), Ok(Token::Assign));
}

#[test]
fn next_token_should_return_valid_tokens() {
    let mut lexer = Lexer::new(String::from("={}()+"));
    let expected_tokens: Vec<Token> = vec![
        Token::Assign,
        Token::LBrace,
        Token::RBrace,
        Token::LParen,
        Token::RParen,
        Token::Plus,
    ];

    for token in expected_tokens {
        assert_eq!(lexer.next_token(), Ok(token));
    }
}

#[test]
fn next_token_should_tokenize_ids() {
    let mut lexer = Lexer::new(String::from("abc"));
    assert_eq!(lexer.next_token(), Ok(Token::Id(String::from("abc"))));
}

#[test]
fn next_token_should_tokenize_let() {
    let mut lexer = Lexer::new(String::from("let"));
    assert_eq!(lexer.next_token(), Ok(Token::Let));
}

#[test]
fn next_token_should_tokenize_fun() {
    let mut lexer = Lexer::new(String::from("fun"));
    assert_eq!(lexer.next_token(), Ok(Token::Funcion));
}

#[test]
fn next_token_should_tokenize_return() {
    let mut lexer = Lexer::new(String::from("return"));
    assert_eq!(lexer.next_token(), Ok(Token::Return));
}

#[test]
fn next_token_should_tokenize_arithmetic_operators() {
    let mut lexer = Lexer::new(String::from("+-*/%**"));
    let tokens: Vec<Token> = vec![
        Token::Plus,
        Token::Minus,
        Token::Asterisk,
        Token::Slash,
        Token::Modulo,
        Token::Power,
    ];

    for token in tokens {
        assert_eq!(lexer.next_token(), Ok(token));
    }
}

#[test]
fn next_token_should_tokenize_boolean_operators() {
    let mut lexer = Lexer::new(String::from("! != > < >= <= =="));
    let tokens: Vec<Token> = vec![
        Token::Bang,
        Token::NotEq,
        Token::Gt,
        Token::Lt,
        Token::GtEq,
        Token::LtEq,
        Token::Eq,
    ];

    for token in tokens {
        assert_eq!(lexer.next_token(), Ok(token));
    }
}

#[test]
fn next_token_should_tokenize_true_false() {
    let mut lexer = Lexer::new(String::from("true false"));
    let tokens: Vec<Token> = vec![
        Token::BooleanT(BooleanT::True),
        Token::BooleanT(BooleanT::False),
    ];

    for token in tokens {
        assert_eq!(lexer.next_token(), Ok(token));
    }
}

#[test]
fn next_token_should_tokenize_conditionals() {
    let mut lexer = Lexer::new(String::from("if else while elif"));
    let tokens: Vec<Token> = vec![Token::If, Token::Else, Token::While, Token::ElseIf];

    for token in tokens {
        assert_eq!(lexer.next_token(), Ok(token));
    }
}

#[test]
fn next_token_should_tokenize_valid_code() {
    let code = String::from(
        "
            let five = 5;
            let ten = 10;

            let add = fun(x, y) {
                return x + y;
            };

            fun sub(x, y) {
                return x - y;
            }

            let addResult = add(five, ten);
            let subResult = sub(addResult, ten);
        ",
    );

    let expected_tokens: Vec<Token> = vec![
        Token::Let,
        Token::Id(String::from("five")),
        Token::Assign,
        Token::IntT(5),
        Token::Semicolon,
        Token::Let,
        Token::Id(String::from("ten")),
        Token::Assign,
        Token::IntT(10),
        Token::Semicolon,
        Token::Let,
        Token::Id(String::from("add")),
        Token::Assign,
        Token::Funcion,
        Token::LParen,
        Token::Id(String::from("x")),
        Token::Comma,
        Token::Id(String::from("y")),
        Token::RParen,
        Token::LBrace,
        Token::Return,
        Token::Id(String::from("x")),
        Token::Plus,
        Token::Id(String::from("y")),
        Token::Semicolon,
        Token::RBrace,
        Token::Semicolon,
        Token::Funcion,
        Token::Id(String::from("sub")),
        Token::LParen,
        Token::Id(String::from("x")),
        Token::Comma,
        Token::Id(String::from("y")),
        Token::RParen,
        Token::LBrace,
        Token::Return,
        Token::Id(String::from("x")),
        Token::Minus,
        Token::Id(String::from("y")),
        Token::Semicolon,
        Token::RBrace,
        Token::Let,
        Token::Id(String::from("addResult")),
        Token::Assign,
        Token::Id(String::from("add")),
        Token::LParen,
        Token::Id(String::from("five")),
        Token::Comma,
        Token::Id(String::from("ten")),
        Token::RParen,
        Token::Semicolon,
        Token::Let,
        Token::Id(String::from("subResult")),
        Token::Assign,
        Token::Id(String::from("sub")),
        Token::LParen,
        Token::Id(String::from("addResult")),
        Token::Comma,
        Token::Id(String::from("ten")),
        Token::RParen,
        Token::Semicolon,
    ];

    let mut lexer = Lexer::new(code);

    for token in expected_tokens {
        let t = lexer.next_token();
        assert_eq!(t, Ok(token));
    }
}
