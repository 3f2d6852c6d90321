//! The scanner: owns the source text and a cursor, and produces one token per
//! request.

use vstd::prelude::*;
use vstd::hash_map::StringHashMap;
use crate::chars::{is_letter_or_numeral, is_space, CharClass};
use crate::decimal::parse_i32;
use crate::grammar::{
    char_at, lemma_run_end_from_inside, number_outcome, run_end, scan, span, LexError,
};
use crate::stream::{lemma_scan_advances, resting_position, stream};
use crate::token::{build_keyword_map, keyword_table, Token, TokenView};

verus! {

/// The cursor over the source text.
#[derive(Clone, Copy)]
struct Cursor {
    /// Offset, in characters, of the character under the cursor.
    position: usize,
    /// The character under the cursor; absent once the cursor has passed the
    /// end of the text.
    ch: Option<char>,
}

/// Lexer
///
/// Offsets count characters, not bytes. From the length of the text on, no
/// character is under the cursor. A request for a token never carries the
/// cursor past the end of the text; the cursor's own advance has no such
/// bound.
pub struct Lexer {
    input: String,
    /// Number of characters of `input`.
    len: usize,
    cursor: Cursor,
    keywords: StringHashMap<Token>,
}

/// A scanner as a mathematical value: the text and the offset of the cursor,
/// which may lie at or beyond the end of the text.
pub struct LexerView {
    pub input: Seq<char>,
    pub position: nat,
}

impl LexerView {
    /// The character under the cursor, absent at the end of the text.
    pub open spec fn ch(self) -> Option<char> {
        char_at(self.input, self.position as int)
    }

    /// The offset one ahead of the cursor.
    pub open spec fn read_position(self) -> nat {
        self.position + 1
    }

    /// The character one ahead of the cursor, absent at the end of the text.
    pub open spec fn peek(self) -> Option<char> {
        char_at(self.input, self.read_position() as int)
    }
}

impl View for Lexer {
    type V = LexerView;

    closed spec fn view(&self) -> LexerView {
        LexerView { input: self.input@, position: self.cursor.position as nat }
    }
}

/// A token or a fault as a mathematical value.
pub open spec fn outcome_view(r: Result<Token, LexError>) -> Result<TokenView, LexError> {
    match r {
        Ok(token) => Ok(token@),
        Err(e) => Err(e),
    }
}

/// A sequence of tokens and faults as a mathematical value.
pub open spec fn outcomes_view(outcomes: Seq<Result<Token, LexError>>) -> Seq<
    Result<TokenView, LexError>,
> {
    outcomes.map_values(|r: Result<Token, LexError>| outcome_view(r))
}

impl Lexer {
    #[verifier::type_invariant]
    spec fn well_formed(&self) -> bool {
        &&& self.len == self.input@.len()
        &&& self.cursor.ch == char_at(self.input@, self.cursor.position as int)
        &&& self.keywords@ == keyword_table()
    }

    /// Creates a Lexer with specified input string
    ///
    /// The cursor starts on the first character. The keyword table is built
    /// here, once for the scanner's lifetime.
    ///
    /// # Arguments
    ///
    /// * `input` - A String that contains Yo source code
    pub fn new(input: String) -> (lexer: Lexer)
        ensures
            lexer@.input == input@,
            lexer@.position == 0,
    {
        let len = input.as_str().unicode_len();
        let ch = if 0 < len {
            Some(input.as_str().get_char(0))
        } else {
            None
        };
        Lexer { input, len, cursor: Cursor { position: 0, ch }, keywords: build_keyword_map() }
    }

    /// The offset, in characters, of the cursor.
    pub fn position(&self) -> (position: usize)
        ensures
            position == self@.position,
    {
        self.cursor.position
    }

    /// Read the current character, advance to the next character and return a token
    ///
    /// The token is the one that starts after any whitespace under the cursor,
    /// and the cursor is left just behind it. A numeric literal that denotes
    /// no 32-bit signed integer is reported as a fault with the offset at
    /// which it starts; the cursor is then left behind the literal.
    ///
    /// The end-of-input token consumes nothing. Where only whitespace is left,
    /// the whitespace is passed over and the cursor stops at the end of the
    /// text: the advance that closes a token of one character is not made for
    /// the end of input. Once no character is under the cursor, every request
    /// yields the end-of-input token and leaves the scanner as it is. The
    /// cursor never moves backward.
    pub fn next_token(&mut self) -> (r: Result<Token, LexError>)
        ensures
            final(self)@.input == old(self)@.input,
            final(self)@.position == scan(old(self)@.input, old(self)@.position as int).position,
            outcome_view(r) == scan(old(self)@.input, old(self)@.position as int).outcome,
            old(self)@.position <= final(self)@.position <= resting_position(
                old(self)@.input,
                old(self)@.position as int,
            ),
            old(self)@.ch() is None ==> r == Ok::<Token, LexError>(Token::Eof) && final(self)@
                == old(self)@,
            r == Ok::<Token, LexError>(Token::Eof) ==> final(self)@.ch() is None,
    {
        proof {
            use_type_invariant(&*self);
            lemma_scan_advances(self@.input, self@.position as int);
        }
        if self.cursor.ch.is_none() {
            return Ok(Token::Eof);
        }
        self.skip_whitespace();
        proof {
            use_type_invariant(&*self);
        }
        let token = match self.cursor.ch {
            None => {
                return Ok(Token::Eof);
            },
            Some('=') => self.read_binary_operator('=', Token::Assign, Token::Eq),
            Some(';') => Token::Semicolon,
            Some('(') => Token::LParen,
            Some(')') => Token::RParen,
            Some('{') => Token::LBrace,
            Some('}') => Token::RBrace,
            Some(',') => Token::Comma,
            Some('+') => Token::Plus,
            Some('-') => Token::Minus,
            Some('/') => Token::Slash,
            Some('*') => self.read_binary_operator('*', Token::Asterisk, Token::Power),
            Some('%') => Token::Modulo,
            Some('>') => self.read_binary_operator('=', Token::Gt, Token::GtEq),
            Some('<') => self.read_binary_operator('=', Token::Lt, Token::LtEq),
            Some('!') => self.read_binary_operator('=', Token::Bang, Token::NotEq),
            Some(ch) => {
                if !self.is_allowed_char() {
                    Token::Illegal
                } else if ch.is_alphabetic() {
                    let identifier = self.read_identifier();
                    proof {
                        use_type_invariant(&*self);
                    }
                    return Ok(
                        match self.keywords.get(identifier.as_str()) {
                            None => Token::Id(identifier),
                            Some(keyword_token) => keyword_token.clone(),
                        },
                    );
                } else {
                    return match self.read_number() {
                        Ok(value) => Ok(Token::IntT(value)),
                        Err(e) => Err(e),
                    };
                }
            },
        };

        self.read_char();

        Ok(token)
    }

    /// Requests tokens until the end of input is reported, and returns what
    /// the requests yielded before that, in order. No character is under the
    /// cursor afterwards: it stands at the end of the text, or where it stood
    /// if that was beyond the end.
    pub fn tokens(&mut self) -> (outcomes: Vec<Result<Token, LexError>>)
        ensures
            final(self)@.input == old(self)@.input,
            final(self)@.ch() is None,
            final(self)@.position == resting_position(
                old(self)@.input,
                old(self)@.position as int,
            ),
            outcomes_view(outcomes@) == stream(old(self)@.input, old(self)@.position as int),
    {
        let mut outcomes: Vec<Result<Token, LexError>> = Vec::new();
        loop
            invariant_except_break
                outcomes_view(outcomes@) + stream(self@.input, self@.position as int) == stream(
                    old(self)@.input,
                    old(self)@.position as int,
                ),
            invariant
                self@.input == old(self)@.input,
                old(self)@.position <= self@.position,
                resting_position(self@.input, self@.position as int) == resting_position(
                    old(self)@.input,
                    old(self)@.position as int,
                ),
            ensures
                self@.ch() is None,
                self@.position == resting_position(old(self)@.input, old(self)@.position as int),
                outcomes_view(outcomes@) == stream(old(self)@.input, old(self)@.position as int),
            decreases self@.input.len() - self@.position,
        {
            let ghost before = self@;
            let ghost collected = outcomes@;
            let r = self.next_token();
            proof {
                lemma_scan_advances(before.input, before.position as int);
            }
            if matches!(r, Ok(Token::Eof)) {
                proof {
                    assert(outcomes_view(collected) + Seq::<Result<TokenView, LexError>>::empty()
                        =~= outcomes_view(collected));
                }
                break ;
            }
            outcomes.push(r);
            proof {
                assert(outcomes_view(outcomes@) =~= outcomes_view(collected).push(
                    outcome_view(r),
                ));
                assert(outcomes_view(outcomes@) + stream(self@.input, self@.position as int)
                    =~= outcomes_view(collected) + stream(before.input, before.position as int));
            }
        }
        outcomes
    }

    /// Get next character from the input and advance to the next position.
    ///
    /// The cursor moves one character forward from wherever it stands, at and
    /// beyond the end of the input too; the character that was one ahead
    /// comes under it, and from the length of the input on none does. Only at
    /// the largest offset the machine can hold does the cursor stay.
    pub(crate) fn read_char(&mut self)
        ensures
            final(self)@.input == old(self)@.input,
            old(self)@.position < usize::MAX ==> final(self)@.position == old(self)@.position + 1,
            old(self)@.position == usize::MAX ==> final(self)@.position == old(self)@.position,
            old(self)@.position < usize::MAX ==> final(self)@.ch() == old(self)@.peek(),
            final(self)@.position >= final(self)@.input.len() ==> final(self)@.ch() is None,
    {
        proof {
            use_type_invariant(&*self);
        }
        if self.cursor.position < usize::MAX {
            let position = self.cursor.position + 1;
            let ch = if position < self.len {
                Some(self.input.as_str().get_char(position))
            } else {
                None
            };
            self.cursor = Cursor { position, ch };
        }
    }

    /// The character one ahead of the cursor, absent where the input ends
    /// before it. The cursor does not move.
    pub(crate) fn peek(&self) -> (next: Option<char>)
        ensures
            next == self@.peek(),
            self@.read_position() >= self@.input.len() ==> next is None,
    {
        proof {
            use_type_invariant(self);
        }
        if self.cursor.position >= self.len || self.len - self.cursor.position <= 1 {
            None
        } else {
            Some(self.input.as_str().get_char(self.cursor.position + 1))
        }
    }

    /// Tells whether the character under the cursor belongs to `class`.
    pub(crate) fn current_is(&self, class: CharClass) -> (b: bool)
        ensures
            b == match self@.ch() {
                Some(c) => class.contains(c),
                None => false,
            },
    {
        proof {
            use_type_invariant(self);
        }
        match self.cursor.ch {
            None => false,
            Some(ch) => class.has(ch),
        }
    }

    /// Read a string from the input. The function reads from the input, while the
    /// character under the cursor belongs to the given class.
    /// This function can be reused to read identifiers, integers, numbers, etc, whenever we need to read n characters as a whole
    ///
    /// The cursor stops on the first character that is not of the class, or
    /// where no character is left; what it passed over is returned.
    pub(crate) fn read_string(&mut self, class: CharClass) -> (text: String)
        ensures
            final(self)@.input == old(self)@.input,
            final(self)@.position == run_end(old(self)@.input, old(self)@.position as int, class),
            text@ == span(
                old(self)@.input,
                old(self)@.position as int,
                final(self)@.position as int,
            ),
            forall|i: int| 0 <= i < text@.len() ==> class.contains(#[trigger] text@[i]),
            match final(self)@.ch() {
                Some(c) => !class.contains(c),
                None => true,
            },
    {
        proof {
            use_type_invariant(&*self);
        }
        let position = self.cursor.position;

        while self.current_is(class)
            invariant
                self@.input == old(self)@.input,
                position == old(self)@.position,
                position <= self@.position,
                self@.position <= self@.input.len() || self@.position == position,
                forall|i: int|
                    position <= i < self@.position ==> class.contains(
                        #[trigger] self@.input[i],
                    ),
            decreases self@.input.len() - self@.position,
        {
            proof {
                use_type_invariant(&*self);
            }
            self.read_char();
        }

        proof {
            use_type_invariant(&*self);
            if position <= self.len {
                lemma_run_end_from_inside(
                    self@.input,
                    position as int,
                    self@.position as int,
                    class,
                );
            }
        }
        if position <= self.len {
            String::from_str(self.input.as_str().substring_char(position, self.cursor.position))
        } else {
            String::new()
        }
    }

    /// Read identifier
    ///
    /// The identifier is the longest run of letters and numerals from the
    /// cursor on; the cursor stops behind it.
    pub(crate) fn read_identifier(&mut self) -> (text: String)
        ensures
            final(self)@.input == old(self)@.input,
            final(self)@.position == run_end(
                old(self)@.input,
                old(self)@.position as int,
                CharClass::Alphanumeric,
            ),
            text@ == span(
                old(self)@.input,
                old(self)@.position as int,
                final(self)@.position as int,
            ),
            match final(self)@.ch() {
                Some(c) => !is_letter_or_numeral(c),
                None => true,
            },
    {
        self.read_string(CharClass::Alphanumeric)
    }

    /// Read a numeric literal and its value.
    ///
    /// The literal is the longest run of numerals from the cursor on; the
    /// cursor stops behind it, whether or not the literal denotes a value.
    pub(crate) fn read_number(&mut self) -> (r: Result<i32, LexError>)
        ensures
            final(self)@.input == old(self)@.input,
            final(self)@.position == run_end(
                old(self)@.input,
                old(self)@.position as int,
                CharClass::Numeric,
            ),
            match r {
                Ok(value) => Ok::<TokenView, LexError>(TokenView::IntT(value)),
                Err(e) => Err(e),
            } == number_outcome(
                span(old(self)@.input, old(self)@.position as int, final(self)@.position as int),
                old(self)@.position as int,
            ),
    {
        let position = self.position();
        let num_string = self.read_string(CharClass::Numeric);

        match parse_i32(num_string.as_str()) {
            Err(kind) => Err(LexError { kind, position }),
            Ok(number) => Ok(number),
        }
    }

    /// Decides between the operator of one character under the cursor and the
    /// compound operator that `char_to_match` completes.
    ///
    /// Where `char_to_match` is one ahead of the cursor, the cursor moves onto
    /// it, so that one more advance leaves both characters behind. Otherwise
    /// nothing is consumed and the scanner stays as it is.
    pub(crate) fn read_binary_operator(
        &mut self,
        char_to_match: char,
        single_token: Token,
        compound_token: Token,
    ) -> (token: Token)
        ensures
            final(self)@.input == old(self)@.input,
            old(self)@.peek() == Some(char_to_match) ==> {
                &&& token == compound_token
                &&& final(self)@.position == old(self)@.position + 1
                &&& final(self)@.ch() == Some(char_to_match)
            },
            old(self)@.peek() != Some(char_to_match) ==> {
                &&& token == single_token
                &&& final(self)@ == old(self)@
            },
    {
        proof {
            use_type_invariant(&*self);
        }
        let next_ch = self.peek();
        if next_ch.is_some() && next_ch.unwrap() == char_to_match {
            self.read_char();
            compound_token
        } else {
            single_token
        }
    }

    /// Tells whether the character under the cursor may continue an identifier.
    pub(crate) fn is_allowed_char(&self) -> (b: bool)
        ensures
            b == match self@.ch() {
                Some(c) => is_letter_or_numeral(c),
                None => false,
            },
    {
        self.current_is(CharClass::Alphanumeric)
    }

    /// Moves the cursor to the first character that is not whitespace, or to
    /// the end of the input where only whitespace is left. The cursor never
    /// moves backward, and what it passes over is whitespace.
    pub(crate) fn skip_whitespace(&mut self)
        ensures
            final(self)@.input == old(self)@.input,
            final(self)@.position == run_end(
                old(self)@.input,
                old(self)@.position as int,
                CharClass::Whitespace,
            ),
            old(self)@.position <= final(self)@.position,
            forall|i: int|
                old(self)@.position <= i < final(self)@.position ==> is_space(
                    #[trigger] old(self)@.input[i],
                ),
            match final(self)@.ch() {
                Some(c) => !is_space(c),
                None => true,
            },
    {
        proof {
            use_type_invariant(&*self);
        }
        while self.current_is(CharClass::Whitespace)
            invariant
                self@.input == old(self)@.input,
                old(self)@.position <= self@.position,
                self@.position <= self@.input.len() || self@.position == old(self)@.position,
                forall|i: int|
                    old(self)@.position <= i < self@.position ==> CharClass::Whitespace.contains(
                        #[trigger] self@.input[i],
                    ),
            decreases self@.input.len() - self@.position,
        {
            proof {
                use_type_invariant(&*self);
            }
            self.read_char();
        }
        proof {
            use_type_invariant(&*self);
            if old(self)@.position <= self@.input.len() {
                lemma_run_end_from_inside(
                    self@.input,
                    old(self)@.position as int,
                    self@.position as int,
                    CharClass::Whitespace,
                );
            }
        }
    }
}

} // verus!
