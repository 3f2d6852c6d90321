//! The token stream: what repeated requests yield over the whole of a text.

use vstd::prelude::*;
use crate::chars::CharClass;
use crate::grammar::{lemma_run_end, run_end, scan, LexError, Step};
use crate::token::TokenView;

verus! {

/// Where the cursor stands after `n` requests that began at `position`.
pub open spec fn position_after(input: Seq<char>, position: int, n: nat) -> int
    decreases n,
{
    if n == 0 {
        position
    } else {
        scan(input, position_after(input, position, (n - 1) as nat)).position
    }
}

/// What the request that follows `n` earlier ones yields.
pub open spec fn outcome_after(input: Seq<char>, position: int, n: nat) -> Result<
    TokenView,
    LexError,
> {
    scan(input, position_after(input, position, n)).outcome
}

/// Where the cursor rests once the end of input has been reported: at the end
/// of the text, or where it stood if that was beyond the end.
pub open spec fn resting_position(input: Seq<char>, position: int) -> int {
    if position <= input.len() {
        input.len() as int
    } else {
        position
    }
}

/// The tokens and faults that the requests yield before the end of input is
/// reported, in order.
pub open spec fn stream(input: Seq<char>, position: int) -> Seq<Result<TokenView, LexError>>
    decreases input.len() - position,
    via stream_decreases
{
    let step = scan(input, position);
    if step.outcome == Ok::<TokenView, LexError>(TokenView::Eof) {
        seq![]
    } else {
        seq![step.outcome] + stream(input, step.position)
    }
}

#[via_fn]
proof fn stream_decreases(input: Seq<char>, position: int) {
    if 0 <= position {
        lemma_scan_advances(input, position);
    }
}

/// A request never moves the cursor backward, and never past the end of the
/// text. It reports the end of input exactly when nothing but whitespace is
/// left, and then leaves the cursor at its resting position; any other
/// outcome consumes at least one character of the text.
pub proof fn lemma_scan_advances(input: Seq<char>, position: int)
    requires
        0 <= position,
    ensures
        position <= scan(input, position).position <= resting_position(input, position),
        scan(input, position).outcome == Ok::<TokenView, LexError>(TokenView::Eof) <==> run_end(
            input,
            position,
            CharClass::Whitespace,
        ) >= input.len(),
        scan(input, position).outcome == Ok::<TokenView, LexError>(TokenView::Eof) ==> scan(
            input,
            position,
        ).position == resting_position(input, position),
        scan(input, position).outcome != Ok::<TokenView, LexError>(TokenView::Eof) ==> position
            < scan(input, position).position <= input.len(),
        position >= input.len() ==> scan(input, position) == (Step {
            outcome: Ok(TokenView::Eof),
            position,
        }),
{
    if position <= input.len() {
        let start = run_end(input, position, CharClass::Whitespace);
        lemma_run_end(input, position, CharClass::Whitespace);
        if start < input.len() {
            lemma_run_end(input, start, CharClass::Alphanumeric);
            lemma_run_end(input, start, CharClass::Numeric);
        }
    }
}

/// Once the end of input has been reported, every later request reports it
/// again and leaves the cursor where it is.
pub proof fn theorem_end_is_final(input: Seq<char>, position: int)
    requires
        0 <= position,
        scan(input, position).outcome == Ok::<TokenView, LexError>(TokenView::Eof),
    ensures
        scan(input, scan(input, position).position) == scan(input, position),
{
    lemma_scan_advances(input, position);
    lemma_scan_advances(input, scan(input, position).position);
}

/// Every text is used up after finitely many requests: from the cursor at
/// `position`, the request after any `n` earlier ones reports the end of
/// input as soon as `n` is at least the number of characters left, and the
/// cursor is then at its resting position.
pub proof fn theorem_stream_ends(input: Seq<char>, position: int, n: nat)
    requires
        0 <= position,
        n >= input.len() - position,
    ensures
        position_after(input, position, n) == resting_position(input, position),
        outcome_after(input, position, n) == Ok::<TokenView, LexError>(TokenView::Eof),
{
    lemma_position_after(input, position, n);
    lemma_scan_advances(input, resting_position(input, position));
}

/// After `n` requests the cursor has passed at least `n` characters, unless
/// it has come to rest before.
proof fn lemma_position_after(input: Seq<char>, position: int, n: nat)
    requires
        0 <= position,
    ensures
        position <= position_after(input, position, n) <= resting_position(input, position),
        position_after(input, position, n) >= position + n || position_after(input, position, n)
            == resting_position(input, position),
    decreases n,
{
    if n > 0 {
        lemma_position_after(input, position, (n - 1) as nat);
        lemma_scan_advances(input, position_after(input, position, (n - 1) as nat));
    }
}

} // verus!
