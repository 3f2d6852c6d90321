//! The token model: the closed set of lexical categories and their payloads.

use vstd::prelude::*;
use vstd::hash_map::StringHashMap;
use crate::decimal::{decimal_text, render_i32};

verus! {

/// The two boolean literals.
#[derive(PartialEq, Eq, Structural, Clone, Copy, Debug)]
pub enum BooleanT {
    True,
    False,
}

/// A classified lexical unit.
#[derive(PartialEq, Eq, Debug)]
pub enum Token {
    Illegal,
    Eof,
    Id(String),
    IntT(i32),
    BooleanT(BooleanT),
    Assign,
    Plus,
    Minus,
    Asterisk,
    Slash,
    Modulo,
    Power,
    Bang,
    Gt,
    Lt,
    GtEq,
    LtEq,
    Eq,
    NotEq,
    Comma,
    Semicolon,
    LParen,
    RParen,
    LBrace,
    RBrace,
    Funcion,
    Let,
    Return,
    If,
    Else,
    ElseIf,
    While,
}

/// A token as a mathematical value: the same variants, with an identifier's
/// text as a sequence of characters.
pub enum TokenView {
    Illegal,
    Eof,
    Id(Seq<char>),
    IntT(i32),
    BooleanT(BooleanT),
    Assign,
    Plus,
    Minus,
    Asterisk,
    Slash,
    Modulo,
    Power,
    Bang,
    Gt,
    Lt,
    GtEq,
    LtEq,
    Eq,
    NotEq,
    Comma,
    Semicolon,
    LParen,
    RParen,
    LBrace,
    RBrace,
    Funcion,
    Let,
    Return,
    If,
    Else,
    ElseIf,
    While,
}

impl View for Token {
    type V = TokenView;

    open spec fn view(&self) -> TokenView {
        match *self {
            Token::Illegal => TokenView::Illegal,
            Token::Eof => TokenView::Eof,
            Token::Id(text) => TokenView::Id(text@),
            Token::IntT(value) => TokenView::IntT(value),
            Token::BooleanT(b) => TokenView::BooleanT(b),
            Token::Assign => TokenView::Assign,
            Token::Plus => TokenView::Plus,
            Token::Minus => TokenView::Minus,
            Token::Asterisk => TokenView::Asterisk,
            Token::Slash => TokenView::Slash,
            Token::Modulo => TokenView::Modulo,
            Token::Power => TokenView::Power,
            Token::Bang => TokenView::Bang,
            Token::Gt => TokenView::Gt,
            Token::Lt => TokenView::Lt,
            Token::GtEq => TokenView::GtEq,
            Token::LtEq => TokenView::LtEq,
            Token::Eq => TokenView::Eq,
            Token::NotEq => TokenView::NotEq,
            Token::Comma => TokenView::Comma,
            Token::Semicolon => TokenView::Semicolon,
            Token::LParen => TokenView::LParen,
            Token::RParen => TokenView::RParen,
            Token::LBrace => TokenView::LBrace,
            Token::RBrace => TokenView::RBrace,
            Token::Funcion => TokenView::Funcion,
            Token::Let => TokenView::Let,
            Token::Return => TokenView::Return,
            Token::If => TokenView::If,
            Token::Else => TokenView::Else,
            Token::ElseIf => TokenView::ElseIf,
            Token::While => TokenView::While,
        }
    }
}

impl Clone for Token {
    fn clone(&self) -> (copy: Token)
        ensures
            copy == *self,
    {
        match self {
            Token::Illegal => Token::Illegal,
            Token::Eof => Token::Eof,
            Token::Id(text) => Token::Id(text.clone()),
            Token::IntT(value) => Token::IntT(*value),
            Token::BooleanT(b) => Token::BooleanT(*b),
            Token::Assign => Token::Assign,
            Token::Plus => Token::Plus,
            Token::Minus => Token::Minus,
            Token::Asterisk => Token::Asterisk,
            Token::Slash => Token::Slash,
            Token::Modulo => Token::Modulo,
            Token::Power => Token::Power,
            Token::Bang => Token::Bang,
            Token::Gt => Token::Gt,
            Token::Lt => Token::Lt,
            Token::GtEq => Token::GtEq,
            Token::LtEq => Token::LtEq,
            Token::Eq => Token::Eq,
            Token::NotEq => Token::NotEq,
            Token::Comma => Token::Comma,
            Token::Semicolon => Token::Semicolon,
            Token::LParen => Token::LParen,
            Token::RParen => Token::RParen,
            Token::LBrace => Token::LBrace,
            Token::RBrace => Token::RBrace,
            Token::Funcion => Token::Funcion,
            Token::Let => Token::Let,
            Token::Return => Token::Return,
            Token::If => Token::If,
            Token::Else => Token::Else,
            Token::ElseIf => Token::ElseIf,
            Token::While => Token::While,
        }
    }
}

/// The reserved token that `text` spells, if it is exactly one of the nine
/// reserved spellings.
pub open spec fn keyword(text: Seq<char>) -> Option<Token> {
    if text == "fun"@ {
        Some(Token::Funcion)
    } else if text == "let"@ {
        Some(Token::Let)
    } else if text == "return"@ {
        Some(Token::Return)
    } else if text == "true"@ {
        Some(Token::BooleanT(BooleanT::True))
    } else if text == "false"@ {
        Some(Token::BooleanT(BooleanT::False))
    } else if text == "if"@ {
        Some(Token::If)
    } else if text == "else"@ {
        Some(Token::Else)
    } else if text == "elif"@ {
        Some(Token::ElseIf)
    } else if text == "while"@ {
        Some(Token::While)
    } else {
        None
    }
}

/// The keyword table as a map: its keys are the reserved spellings.
pub open spec fn keyword_table() -> Map<Seq<char>, Token> {
    Map::new(|text: Seq<char>| keyword(text) is Some, |text: Seq<char>| keyword(text)->0)
}

/// The token that a scanned word stands for: the reserved token where the
/// word is a reserved spelling, an identifier carrying the word otherwise.
pub open spec fn word_token(text: Seq<char>) -> TokenView {
    match keyword(text) {
        Some(reserved) => reserved@,
        None => TokenView::Id(text),
    }
}

/// Makes the characters of the nine reserved spellings known.
pub proof fn lemma_reserved_spellings()
    ensures
        "fun"@ == seq!['f', 'u', 'n'],
        "let"@ == seq!['l', 'e', 't'],
        "return"@ == seq!['r', 'e', 't', 'u', 'r', 'n'],
        "true"@ == seq!['t', 'r', 'u', 'e'],
        "false"@ == seq!['f', 'a', 'l', 's', 'e'],
        "if"@ == seq!['i', 'f'],
        "else"@ == seq!['e', 'l', 's', 'e'],
        "elif"@ == seq!['e', 'l', 'i', 'f'],
        "while"@ == seq!['w', 'h', 'i', 'l', 'e'],
{
    reveal_strlit("fun");
    reveal_strlit("let");
    reveal_strlit("return");
    reveal_strlit("true");
    reveal_strlit("false");
    reveal_strlit("if");
    reveal_strlit("else");
    reveal_strlit("elif");
    reveal_strlit("while");
    assert("fun"@ =~= seq!['f', 'u', 'n']);
    assert("let"@ =~= seq!['l', 'e', 't']);
    assert("return"@ =~= seq!['r', 'e', 't', 'u', 'r', 'n']);
    assert("true"@ =~= seq!['t', 'r', 'u', 'e']);
    assert("false"@ =~= seq!['f', 'a', 'l', 's', 'e']);
    assert("if"@ =~= seq!['i', 'f']);
    assert("else"@ =~= seq!['e', 'l', 's', 'e']);
    assert("elif"@ =~= seq!['e', 'l', 'i', 'f']);
    assert("while"@ =~= seq!['w', 'h', 'i', 'l', 'e']);
}

/// Builds the keyword table: one entry for each reserved spelling.
pub fn build_keyword_map() -> (keywords: StringHashMap<Token>)
    ensures
        keywords@ == keyword_table(),
{
    let mut keywords = StringHashMap::new();

    keywords.insert(String::from_str("fun"), Token::Funcion);
    keywords.insert(String::from_str("let"), Token::Let);
    keywords.insert(String::from_str("return"), Token::Return);
    keywords.insert(String::from_str("true"), Token::BooleanT(BooleanT::True));
    keywords.insert(String::from_str("false"), Token::BooleanT(BooleanT::False));
    keywords.insert(String::from_str("if"), Token::If);
    keywords.insert(String::from_str("else"), Token::Else);
    keywords.insert(String::from_str("elif"), Token::ElseIf);
    keywords.insert(String::from_str("while"), Token::While);

    proof {
        lemma_reserved_spellings();
        assert(keywords@ =~= keyword_table());
    }
    keywords
}

/// Why a token has no text to render.
#[derive(PartialEq, Eq, Structural, Clone, Copy, Debug)]
pub enum RenderError {
    /// The token marks a character outside the language.
    IllegalCharacter,
    /// The token marks the end of the input.
    EndOfInput,
}

impl BooleanT {
    /// The literal's spelling.
    pub open spec fn spelling(self) -> Seq<char> {
        match self {
            BooleanT::True => "true"@,
            BooleanT::False => "false"@,
        }
    }

    /// Renders the literal as it is written in source text.
    pub fn render(&self) -> (text: String)
        ensures
            text@ == self.spelling(),
    {
        match self {
            BooleanT::True => String::from_str("true"),
            BooleanT::False => String::from_str("false"),
        }
    }
}

/// The text a token stands for: the literal spelling of punctuation and
/// keywords, the payload of identifiers and integers. The two marker tokens
/// have none.
pub open spec fn rendering(token: TokenView) -> Result<Seq<char>, RenderError> {
    match token {
        TokenView::Illegal => Err(RenderError::IllegalCharacter),
        TokenView::Eof => Err(RenderError::EndOfInput),
        TokenView::Id(text) => Ok(text),
        TokenView::IntT(value) => Ok(decimal_text(value as int)),
        TokenView::BooleanT(b) => Ok(b.spelling()),
        TokenView::Assign => Ok("="@),
        TokenView::Plus => Ok("+"@),
        TokenView::Minus => Ok("-"@),
        TokenView::Asterisk => Ok("*"@),
        TokenView::Slash => Ok("/"@),
        TokenView::Modulo => Ok("%"@),
        TokenView::Power => Ok("**"@),
        TokenView::Bang => Ok("!"@),
        TokenView::Gt => Ok(">"@),
        TokenView::Lt => Ok("<"@),
        TokenView::GtEq => Ok(">="@),
        TokenView::LtEq => Ok("<="@),
        TokenView::Eq => Ok("=="@),
        TokenView::NotEq => Ok("!="@),
        TokenView::Comma => Ok(","@),
        TokenView::Semicolon => Ok(";"@),
        TokenView::LParen => Ok("("@),
        TokenView::RParen => Ok(")"@),
        TokenView::LBrace => Ok("{"@),
        TokenView::RBrace => Ok("}"@),
        TokenView::Funcion => Ok("fun"@),
        TokenView::Let => Ok("let"@),
        TokenView::Return => Ok("return"@),
        TokenView::If => Ok("if"@),
        TokenView::Else => Ok("else"@),
        TokenView::ElseIf => Ok("elif"@),
        TokenView::While => Ok("while"@),
    }
}

impl Token {
    /// Renders the token as it is written in source text, or says which of
    /// the two marker tokens it is.
    pub fn render(&self) -> (r: Result<String, RenderError>)
        ensures
            match r {
                Ok(text) => rendering(self@) == Ok::<Seq<char>, RenderError>(text@),
                Err(e) => rendering(self@) == Err::<Seq<char>, RenderError>(e),
            },
    {
        match self {
            Token::Illegal => Err(RenderError::IllegalCharacter),
            Token::Eof => Err(RenderError::EndOfInput),
            Token::Id(id) => Ok(id.clone()),
            Token::IntT(i) => Ok(render_i32(*i)),
            Token::BooleanT(b) => Ok(b.render()),
            Token::Assign => Ok(String::from_str("=")),
            Token::Plus => Ok(String::from_str("+")),
            Token::Minus => Ok(String::from_str("-")),
            Token::Slash => Ok(String::from_str("/")),
            Token::Asterisk => Ok(String::from_str("*")),
            Token::Modulo => Ok(String::from_str("%")),
            Token::Power => Ok(String::from_str("**")),
            Token::Gt => Ok(String::from_str(">")),
            Token::Lt => Ok(String::from_str("<")),
            Token::GtEq => Ok(String::from_str(">=")),
            Token::LtEq => Ok(String::from_str("<=")),
            Token::Eq => Ok(String::from_str("==")),
            Token::Bang => Ok(String::from_str("!")),
            Token::NotEq => Ok(String::from_str("!=")),
            Token::Comma => Ok(String::from_str(",")),
            Token::Semicolon => Ok(String::from_str(";")),
            Token::LParen => Ok(String::from_str("(")),
            Token::RParen => Ok(String::from_str(")")),
            Token::LBrace => Ok(String::from_str("{")),
            Token::RBrace => Ok(String::from_str("}")),
            Token::Funcion => Ok(String::from_str("fun")),
            Token::Let => Ok(String::from_str("let")),
            Token::Return => Ok(String::from_str("return")),
            Token::If => Ok(String::from_str("if")),
            Token::Else => Ok(String::from_str("else")),
            Token::ElseIf => Ok(String::from_str("elif")),
            Token::While => Ok(String::from_str("while")),
        }
    }
}

/// A reserved token renders as the spelling that is reserved for it.
pub proof fn theorem_keyword_renders_as_spelled(text: Seq<char>)
    requires
        keyword(text) is Some,
    ensures
        rendering(keyword(text)->0@) == Ok::<Seq<char>, RenderError>(text),
{
}

/// Makes the characters of the punctuation and operator spellings known.
pub proof fn lemma_operator_spellings()
    ensures
        "="@ == seq!['='],
        "+"@ == seq!['+'],
        "-"@ == seq!['-'],
        "*"@ == seq!['*'],
        "/"@ == seq!['/'],
        "%"@ == seq!['%'],
        "**"@ == seq!['*', '*'],
        "!"@ == seq!['!'],
        ">"@ == seq!['>'],
        "<"@ == seq!['<'],
        ">="@ == seq!['>', '='],
        "<="@ == seq!['<', '='],
        "=="@ == seq!['=', '='],
        "!="@ == seq!['!', '='],
        ","@ == seq![','],
        ";"@ == seq![';'],
        "("@ == seq!['('],
        ")"@ == seq![')'],
        "{"@ == seq!['{'],
        "}"@ == seq!['}'],
{
    reveal_strlit("=");
    reveal_strlit("+");
    reveal_strlit("-");
    reveal_strlit("*");
    reveal_strlit("/");
    reveal_strlit("%");
    reveal_strlit("**");
    reveal_strlit("!");
    reveal_strlit(">");
    reveal_strlit("<");
    reveal_strlit(">=");
    reveal_strlit("<=");
    reveal_strlit("==");
    reveal_strlit("!=");
    reveal_strlit(",");
    reveal_strlit(";");
    reveal_strlit("(");
    reveal_strlit(")");
    reveal_strlit("{");
    reveal_strlit("}");
    assert("="@ =~= seq!['=']);
    assert("+"@ =~= seq!['+']);
    assert("-"@ =~= seq!['-']);
    assert("*"@ =~= seq!['*']);
    assert("/"@ =~= seq!['/']);
    assert("%"@ =~= seq!['%']);
    assert("**"@ =~= seq!['*', '*']);
    assert("!"@ =~= seq!['!']);
    assert(">"@ =~= seq!['>']);
    assert("<"@ =~= seq!['<']);
    assert(">="@ =~= seq!['>', '=']);
    assert("<="@ =~= seq!['<', '=']);
    assert("=="@ =~= seq!['=', '=']);
    assert("!="@ =~= seq!['!', '=']);
    assert(","@ =~= seq![',']);
    assert(";"@ =~= seq![';']);
    assert("("@ =~= seq!['(']);
    assert(")"@ =~= seq![')']);
    assert("{"@ =~= seq!['{']);
    assert("}"@ =~= seq!['}']);
}

} // verus!
