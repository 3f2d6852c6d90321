use yo_lexer::token::{build_keyword_map, BooleanT, RenderError, Token};

fn rendered(token: Token) -> Result<String, RenderError> {
    token.render()
}

fn text(s: &str) -> Result<String, RenderError> {
    Ok(String::from(s))
}

#[test]
fn tokens_compare_by_structure() {
    assert_eq!(Token::Id(String::from("abc")), Token::Id(String::from("abc")));
    assert_ne!(Token::Id(String::from("abc")), Token::Id(String::from("abd")));
    assert_ne!(Token::Comma, Token::Semicolon);
    assert_ne!(Token::IntT(1), Token::IntT(2));
    assert_ne!(
        Token::BooleanT(BooleanT::True),
        Token::BooleanT(BooleanT::False)
    );
}

#[test]
fn clone_keeps_the_token() {
    let tokens = vec![
        Token::Illegal,
        Token::Eof,
        Token::Id(String::from("name")),
        Token::IntT(-7),
        Token::BooleanT(BooleanT::False),
        Token::Power,
        Token::ElseIf,
    ];
    for token in tokens {
        assert_eq!(token.clone(), token);
    }
}

#[test]
fn punctuation_renders_as_written() {
    assert_eq!(rendered(Token::Assign), text("="));
    assert_eq!(rendered(Token::Plus), text("+"));
    assert_eq!(rendered(Token::Minus), text("-"));
    assert_eq!(rendered(Token::Asterisk), text("*"));
    assert_eq!(rendered(Token::Slash), text("/"));
    assert_eq!(rendered(Token::Modulo), text("%"));
    assert_eq!(rendered(Token::Power), text("**"));
    assert_eq!(rendered(Token::Bang), text("!"));
    assert_eq!(rendered(Token::Gt), text(">"));
    assert_eq!(rendered(Token::Lt), text("<"));
    assert_eq!(rendered(Token::GtEq), text(">="));
    assert_eq!(rendered(Token::LtEq), text("<="));
    assert_eq!(rendered(Token::Eq), text("=="));
    assert_eq!(rendered(Token::NotEq), text("!="));
    assert_eq!(rendered(Token::Comma), text(","));
    assert_eq!(rendered(Token::Semicolon), text(";"));
    assert_eq!(rendered(Token::LParen), text("("));
    assert_eq!(rendered(Token::RParen), text(")"));
    assert_eq!(rendered(Token::LBrace), text("{"));
    assert_eq!(rendered(Token::RBrace), text("}"));
}

#[test]
fn keywords_render_as_written() {
    assert_eq!(rendered(Token::Funcion), text("fun"));
    assert_eq!(rendered(Token::Let), text("let"));
    assert_eq!(rendered(Token::Return), text("return"));
    assert_eq!(rendered(Token::If), text("if"));
    assert_eq!(rendered(Token::Else), text("else"));
    assert_eq!(rendered(Token::ElseIf), text("elif"));
    assert_eq!(rendered(Token::While), text("while"));
    assert_eq!(rendered(Token::BooleanT(BooleanT::True)), text("true"));
    assert_eq!(rendered(Token::BooleanT(BooleanT::False)), text("false"));
}

#[test]
fn payloads_render_as_themselves() {
    assert_eq!(rendered(Token::Id(String::from("addResult"))), text("addResult"));
    assert_eq!(rendered(Token::Id(String::new())), text(""));
    assert_eq!(rendered(Token::IntT(0)), text("0"));
    assert_eq!(rendered(Token::IntT(5)), text("5"));
    assert_eq!(rendered(Token::IntT(10)), text("10"));
    assert_eq!(rendered(Token::IntT(-5)), text("-5"));
    assert_eq!(rendered(Token::IntT(i32::MAX)), text("2147483647"));
    assert_eq!(rendered(Token::IntT(i32::MIN)), text("-2147483648"));
}

#[test]
fn marker_tokens_have_no_text() {
    assert_eq!(rendered(Token::Illegal), Err(RenderError::IllegalCharacter));
    assert_eq!(rendered(Token::Eof), Err(RenderError::EndOfInput));
}

#[test]
fn boolean_literals_render_as_written() {
    assert_eq!(BooleanT::True.render(), "true");
    assert_eq!(BooleanT::False.render(), "false");
}

#[test]
fn keyword_map_holds_the_nine_reserved_spellings() {
    let keywords = build_keyword_map();
    assert_eq!(keywords.len(), 9);
    assert_eq!(keywords.get("fun"), Some(&Token::Funcion));
    assert_eq!(keywords.get("let"), Some(&Token::Let));
    assert_eq!(keywords.get("return"), Some(&Token::Return));
    assert_eq!(keywords.get("true"), Some(&Token::BooleanT(BooleanT::True)));
    assert_eq!(keywords.get("false"), Some(&Token::BooleanT(BooleanT::False)));
    assert_eq!(keywords.get("if"), Some(&Token::If));
    assert_eq!(keywords.get("else"), Some(&Token::Else));
    assert_eq!(keywords.get("elif"), Some(&Token::ElseIf));
    assert_eq!(keywords.get("while"), Some(&Token::While));
}

#[test]
fn keyword_map_matches_exactly() {
    let keywords = build_keyword_map();
    for miss in ["", "Let", "LET", "le", "lett", " let", "let ", "function", "elseif", "True"] {
        assert_eq!(keywords.get(miss), None);
        assert!(!keywords.contains_key(miss));
    }
}

#[test]
fn reserved_tokens_render_as_their_spelling() {
    let keywords = build_keyword_map();
    for spelling in ["fun", "let", "return", "true", "false", "if", "else", "elif", "while"] {
        let token = keywords.get(spelling).unwrap();
        assert_eq!(token.render(), Ok(String::from(spelling)));
    }
}
