//! What the scanner yields, as mathematics: the token that starts at a given
//! offset of a text, and the offset at which the next one is looked for.

use vstd::prelude::*;
use crate::chars::{is_letter, is_letter_or_numeral, is_numeral, is_space, CharClass};
use crate::decimal::{decimal_digits, lemma_digits_denote, parse_decimal, NumberError};
use crate::token::{
    keyword, lemma_operator_spellings, lemma_reserved_spellings, rendering, word_token, TokenView,
};

verus! {

/// A numeric literal that denotes no 32-bit signed integer.
#[derive(PartialEq, Eq, Structural, Clone, Copy, Debug)]
pub struct LexError {
    /// What is wrong with the literal.
    pub kind: NumberError,
    /// The offset, in characters, at which the literal starts.
    pub position: usize,
}

/// What one request for a token yields, and where it leaves the cursor.
pub struct Step {
    pub outcome: Result<TokenView, LexError>,
    pub position: int,
}

/// The character at offset `i`, absent outside the text.
pub open spec fn char_at(input: Seq<char>, i: int) -> Option<char> {
    if 0 <= i < input.len() {
        Some(input[i])
    } else {
        None
    }
}

/// The characters from offset `from` up to offset `to`; none where the two
/// do not lie in the text in that order.
pub open spec fn span(input: Seq<char>, from: int, to: int) -> Seq<char> {
    if 0 <= from <= to <= input.len() {
        input.subrange(from, to)
    } else {
        Seq::empty()
    }
}

/// The end of the longest run of `class` characters that starts at `from`:
/// the first offset at or after `from` that holds no character of the class.
pub open spec fn run_end(input: Seq<char>, from: int, class: CharClass) -> int
    decreases input.len() - from,
{
    if 0 <= from < input.len() && class.contains(input[from]) {
        run_end(input, from + 1, class)
    } else {
        from
    }
}

/// A token of one character: the cursor moves past that character.
pub open spec fn single(start: int, token: TokenView) -> Step {
    Step { outcome: Ok(token), position: start + 1 }
}

/// An operator of one or two characters: where `second` follows the
/// character at `start`, the two of them form `compound`; otherwise the
/// character at `start` alone forms `alone`.
pub open spec fn operator(
    input: Seq<char>,
    start: int,
    second: char,
    alone: TokenView,
    compound: TokenView,
) -> Step {
    if char_at(input, start + 1) == Some(second) {
        Step { outcome: Ok(compound), position: start + 2 }
    } else {
        single(start, alone)
    }
}

/// A word: the longest run of letters and numerals from `start`, read as a
/// keyword where it spells one and as an identifier otherwise.
pub open spec fn word(input: Seq<char>, start: int) -> Step {
    let end = run_end(input, start, CharClass::Alphanumeric);
    Step { outcome: Ok(word_token(span(input, start, end))), position: end }
}

/// The outcome of reading `text`, which starts at offset `start`, as an
/// integer literal.
pub open spec fn number_outcome(text: Seq<char>, start: int) -> Result<TokenView, LexError> {
    match parse_decimal(text) {
        Ok(value) => Ok(TokenView::IntT(value)),
        Err(kind) => Err(LexError { kind, position: start as usize }),
    }
}

/// A number: the longest run of numerals from `start`, read in base ten.
pub open spec fn number(input: Seq<char>, start: int) -> Step {
    let end = run_end(input, start, CharClass::Numeric);
    Step { outcome: number_outcome(span(input, start, end), start), position: end }
}

/// The token that starts exactly at `start`. Where no character stands
/// there, the end of input is reported and nothing is consumed.
pub open spec fn token_at(input: Seq<char>, start: int) -> Step {
    match char_at(input, start) {
        None => Step { outcome: Ok(TokenView::Eof), position: start },
        Some(c) => {
            if c == '=' {
                operator(input, start, '=', TokenView::Assign, TokenView::Eq)
            } else if c == ';' {
                single(start, TokenView::Semicolon)
            } else if c == '(' {
                single(start, TokenView::LParen)
            } else if c == ')' {
                single(start, TokenView::RParen)
            } else if c == '{' {
                single(start, TokenView::LBrace)
            } else if c == '}' {
                single(start, TokenView::RBrace)
            } else if c == ',' {
                single(start, TokenView::Comma)
            } else if c == '+' {
                single(start, TokenView::Plus)
            } else if c == '-' {
                single(start, TokenView::Minus)
            } else if c == '/' {
                single(start, TokenView::Slash)
            } else if c == '*' {
                operator(input, start, '*', TokenView::Asterisk, TokenView::Power)
            } else if c == '%' {
                single(start, TokenView::Modulo)
            } else if c == '>' {
                operator(input, start, '=', TokenView::Gt, TokenView::GtEq)
            } else if c == '<' {
                operator(input, start, '=', TokenView::Lt, TokenView::LtEq)
            } else if c == '!' {
                operator(input, start, '=', TokenView::Bang, TokenView::NotEq)
            } else if is_letter(c) {
                word(input, start)
            } else if is_numeral(c) {
                number(input, start)
            } else {
                single(start, TokenView::Illegal)
            }
        },
    }
}

/// What a request for the next token yields when the cursor stands at
/// `position`: the token that starts after any whitespace there.
pub open spec fn scan(input: Seq<char>, position: int) -> Step {
    token_at(input, run_end(input, position, CharClass::Whitespace))
}

/// A run ends inside the text, holds only characters of its class, and is
/// followed by none.
pub proof fn lemma_run_end(input: Seq<char>, from: int, class: CharClass)
    requires
        0 <= from <= input.len(),
    ensures
        from <= run_end(input, from, class) <= input.len(),
        forall|i: int|
            from <= i < run_end(input, from, class) ==> class.contains(#[trigger] input[i]),
        match char_at(input, run_end(input, from, class)) {
            Some(c) => !class.contains(c),
            None => true,
        },
    decreases input.len() - from,
{
    if from < input.len() && class.contains(input[from]) {
        lemma_run_end(input, from + 1, class);
    }
}

/// A run is the same run from any offset inside it.
pub proof fn lemma_run_end_from_inside(input: Seq<char>, from: int, mid: int, class: CharClass)
    requires
        0 <= from <= mid <= input.len(),
        forall|i: int| from <= i < mid ==> class.contains(#[trigger] input[i]),
    ensures
        run_end(input, from, class) == run_end(input, mid, class),
    decreases mid - from,
{
    if from < mid {
        lemma_run_end_from_inside(input, from + 1, mid, class);
    }
}

/// Maximal munch: where the first character that a request finds after any
/// whitespace begins `==`, `!=`, `>=`, `<=` or `**`, the request yields the
/// one compound token and consumes both characters.
pub proof fn theorem_compound_operator(input: Seq<char>, position: int)
    requires
        0 <= position,
        run_end(input, position, CharClass::Whitespace) + 1 < input.len(),
    ensures
        ({
            let start = run_end(input, position, CharClass::Whitespace);
            let compound = if input[start] == '=' && input[start + 1] == '=' {
                Some(TokenView::Eq)
            } else if input[start] == '!' && input[start + 1] == '=' {
                Some(TokenView::NotEq)
            } else if input[start] == '>' && input[start + 1] == '=' {
                Some(TokenView::GtEq)
            } else if input[start] == '<' && input[start + 1] == '=' {
                Some(TokenView::LtEq)
            } else if input[start] == '*' && input[start + 1] == '*' {
                Some(TokenView::Power)
            } else {
                None
            };
            compound matches Some(token) ==> scan(input, position) == (Step {
                outcome: Ok(token),
                position: start + 2,
            })
        }),
{
    lemma_run_end(input, position, CharClass::Whitespace);
}

/// Where the first character that a request finds after any whitespace is
/// `=`, `!`, `>`, `<` or `*` and the character that would complete a compound
/// operator does not follow it, the request yields the operator of one
/// character and consumes that character alone.
pub proof fn theorem_lone_operator(input: Seq<char>, position: int)
    requires
        0 <= position,
        run_end(input, position, CharClass::Whitespace) < input.len(),
    ensures
        ({
            let start = run_end(input, position, CharClass::Whitespace);
            let next = char_at(input, start + 1);
            let alone = if input[start] == '=' && next != Some('=') {
                Some(TokenView::Assign)
            } else if input[start] == '!' && next != Some('=') {
                Some(TokenView::Bang)
            } else if input[start] == '>' && next != Some('=') {
                Some(TokenView::Gt)
            } else if input[start] == '<' && next != Some('=') {
                Some(TokenView::Lt)
            } else if input[start] == '*' && next != Some('*') {
                Some(TokenView::Asterisk)
            } else {
                None
            };
            alone matches Some(token) ==> scan(input, position) == (Step {
                outcome: Ok(token),
                position: start + 1,
            })
        }),
{
    lemma_run_end(input, position, CharClass::Whitespace);
}

/// Keyword precedence: where the word that a request finds after any
/// whitespace is exactly a reserved spelling, the request yields the reserved
/// token and never an identifier, whatever stands before or after the word.
pub proof fn theorem_keyword_precedence(input: Seq<char>, position: int)
    requires
        0 <= position,
        ({
            let start = run_end(input, position, CharClass::Whitespace);
            let end = run_end(input, start, CharClass::Alphanumeric);
            keyword(span(input, start, end)) is Some
        }),
    ensures
        ({
            let start = run_end(input, position, CharClass::Whitespace);
            let end = run_end(input, start, CharClass::Alphanumeric);
            let reserved = keyword(span(input, start, end))->0;
            &&& scan(input, position) == (Step { outcome: Ok(reserved@), position: end })
            &&& !(reserved@ is Id)
        }),
{
    let start = run_end(input, position, CharClass::Whitespace);
    let end = run_end(input, start, CharClass::Alphanumeric);
    let text = span(input, start, end);
    lemma_reserved_spellings();
    assert(text.len() > 0);
    lemma_run_end(input, position, CharClass::Whitespace);
    lemma_run_end(input, start, CharClass::Alphanumeric);
    assert(text[0] == input[start]);
}

/// Whitespace yields no token: a request made at a whitespace character
/// yields what the request made just after it yields.
pub proof fn theorem_whitespace_is_skipped(input: Seq<char>, position: int)
    requires
        0 <= position < input.len(),
        is_space(input[position]),
    ensures
        scan(input, position) == scan(input, position + 1),
{
}

/// Whitespace ends a token: what a request passes over is a run of
/// whitespace followed by characters of which none is whitespace, so the
/// request stops at the latest on the first whitespace behind the character
/// that its token starts with.
pub proof fn theorem_whitespace_separates(input: Seq<char>, position: int)
    requires
        0 <= position,
    ensures
        position <= run_end(input, position, CharClass::Whitespace) <= scan(
            input,
            position,
        ).position,
        forall|i: int|
            position <= i < run_end(input, position, CharClass::Whitespace) ==> is_space(
                #[trigger] input[i],
            ),
        forall|i: int|
            run_end(input, position, CharClass::Whitespace) <= i < scan(input, position).position
                ==> !is_space(#[trigger] input[i]),
        forall|i: int|
            run_end(input, position, CharClass::Whitespace) <= i < input.len() && is_space(
                #[trigger] input[i],
            ) ==> scan(input, position).position <= i,
{
    let start = run_end(input, position, CharClass::Whitespace);
    if position <= input.len() {
        lemma_run_end(input, position, CharClass::Whitespace);
        if start < input.len() {
            lemma_run_end(input, start, CharClass::Alphanumeric);
            lemma_run_end(input, start, CharClass::Numeric);
        }
    }
}

/// A text that is read as one identifier: a letter followed by letters and
/// numerals, and no reserved spelling.
pub open spec fn is_identifier(text: Seq<char>) -> bool {
    &&& text.len() > 0
    &&& is_letter(text[0])
    &&& forall|i: int| 0 <= i < text.len() ==> is_letter_or_numeral(#[trigger] text[i])
    &&& keyword(text) is None
}

/// The tokens that a scanner can yield: an identifier carries the text of an
/// identifier, an integer is not negative.
pub open spec fn is_scannable(token: TokenView) -> bool {
    match token {
        TokenView::Id(text) => is_identifier(text),
        TokenView::IntT(value) => value >= 0,
        _ => true,
    }
}

/// What is rendered reads back: a request on the text that a scannable token
/// renders as yields that token and consumes the whole text.
pub proof fn theorem_rendering_reads_back(token: TokenView)
    requires
        is_scannable(token),
        rendering(token) is Ok,
    ensures
        scan(rendering(token)->Ok_0, 0) == (Step {
            outcome: Ok(token),
            position: rendering(token)->Ok_0.len() as int,
        }),
{
    let text = rendering(token)->Ok_0;
    lemma_operator_spellings();
    lemma_reserved_spellings();
    match token {
        TokenView::Id(_) => {
            lemma_run_end_from_inside(text, 0, text.len() as int, CharClass::Alphanumeric);
            assert(text.subrange(0, text.len() as int) =~= text);
        },
        TokenView::IntT(value) => {
            lemma_digits_denote(value as nat);
            assert(text == decimal_digits(value as nat));
            lemma_run_end_from_inside(text, 0, text.len() as int, CharClass::Numeric);
            assert(text.subrange(0, text.len() as int) =~= text);
        },
        TokenView::BooleanT(_)
        | TokenView::Funcion
        | TokenView::Let
        | TokenView::Return
        | TokenView::If
        | TokenView::Else
        | TokenView::ElseIf
        | TokenView::While => {
            lemma_run_end_from_inside(text, 0, text.len() as int, CharClass::Alphanumeric);
            assert(text.subrange(0, text.len() as int) =~= text);
        },
        _ => {},
    }
}

} // verus!
