//! What holds of every engine.
//!
//! The statements are about `State`, the view of an engine. `Lexer::init`,
//! `Lexer::tok` and `Lexer::is_eof` are proved to act on the view as
//! `State::init`, `State::next` and `State::at_end` say, so what is proved
//! here holds of the engine as it runs.

use vstd::prelude::*;

use crate::lexer::{is_function_of_text, Lexer};
use crate::select::{is_winner, lemma_winner};
use crate::state::State;
use crate::text::{
    byte_len, lemma_boundary_advance, lemma_boundary_in_range, lemma_ends_are_boundaries,
    lemma_nonempty_has_bytes, lemma_suffix_at_start,
};

verus! {

/// The engine after a series of requests for a token, each with its own
/// choice of whether to step over whitespace.
pub open spec fn after_requests(state: State, requests: Seq<bool>) -> State
    decreases requests.len(),
{
    if requests.len() == 0 {
        state
    } else {
        after_requests(state, requests.drop_last()).next(requests.last())
    }
}

/// Longest match, first rule: the rule that gives the token matches at the
/// cursor, no rule matches more text there, and no rule added before it
/// matches as much.
pub proof fn lemma_longest_match(state: State, rule: int, len: int)
    requires
        state.found() == Some((rule, len)),
    ensures
        0 <= rule < state.patterns.len(),
        state.match_lens()[rule] == Some(len),
        forall|other: int|
            0 <= other < state.patterns.len() && (#[trigger] state.match_lens()[other]) is Some
                ==> state.match_lens()[other]->0 <= len,
        forall|other: int|
            0 <= other < rule && (#[trigger] state.match_lens()[other]) is Some
                ==> state.match_lens()[other]->0 < len,
{
    lemma_winner(state.match_lens());
    assert(is_winner(state.match_lens(), rule));
}

/// There is a token at the cursor exactly when some rule matches there.
pub proof fn lemma_token_iff_match(state: State)
    ensures
        state.found() is Some <==> exists|rule: int|
            0 <= rule < state.patterns.len() && (#[trigger] state.match_lens()[rule]) is Some,
{
    lemma_winner(state.match_lens());
    if let Some((rule, _)) = state.found() {
        assert(is_winner(state.match_lens(), rule));
    }
}

/// Same rules, same input, same cursor: same token, from the same text, and
/// the same cursor afterwards.
pub proof fn lemma_same_state_same_result(a: State, b: State, skip_ws: bool)
    requires
        a.patterns == b.patterns,
        a.input == b.input,
        a.cursor == b.cursor,
    ensures
        a.ready(skip_ws).found() == b.ready(skip_ws).found(),
        a.ready(skip_ws).lexeme() == b.ready(skip_ws).lexeme(),
        a.next(skip_ws) == b.next(skip_ws),
{
}

/// Two engines with the same rules, the same input and the same cursor give
/// the same token, as long as each conversion returns the same token
/// whenever it is given the same text.
pub proof fn lemma_same_engine_same_token<TokenType, F: Fn(&str) -> TokenType + Copy>(
    a: Lexer<F>,
    b: Lexer<F>,
    skip_ws: bool,
    first: Option<TokenType>,
    second: Option<TokenType>,
)
    requires
        a.wf(),
        b.wf(),
        a@ == b@,
        a.conversions() == b.conversions(),
        forall|i: int|
            0 <= i < a.conversions().len() ==> is_function_of_text(#[trigger] a.conversions()[i]),
        a.yields(skip_ws, first),
        b.yields(skip_ws, second),
    ensures
        first == second,
{
    a.lemma_wf_view();
    match a@.ready(skip_ws).found() {
        Some((rule, len)) => {
            lemma_longest_match(a@.ready(skip_ws), rule, len);
        },
        None => {},
    }
}

/// One request for a token leaves rules and input as they are and moves the
/// cursor forward or not at all, never beyond the end of the input.
pub proof fn lemma_cursor_moves_forward(state: State, skip_ws: bool)
    requires
        state.wf(),
    ensures
        state.next(skip_ws).wf(),
        state.next(skip_ws).patterns == state.patterns,
        state.next(skip_ws).input == state.input,
        state.cursor <= state.ready(skip_ws).cursor <= state.next(skip_ws).cursor <= byte_len(
            state.input,
        ),
{
    let ready = state.ready(skip_ws);
    if ready.cursor != state.cursor {
        lemma_boundary_advance(state.input, state.cursor, ready.cursor - state.cursor);
    }
    lemma_boundary_in_range(state.input, ready.cursor);
    match ready.found() {
        Some((rule, len)) => {
            lemma_longest_match(ready, rule, len);
            lemma_boundary_advance(ready.input, ready.cursor, len);
        },
        None => {},
    }
}

/// However many tokens are asked for, the cursor never goes back and never
/// leaves the input.
pub proof fn lemma_cursor_never_goes_back(state: State, requests: Seq<bool>)
    requires
        state.wf(),
    ensures
        after_requests(state, requests).wf(),
        after_requests(state, requests).patterns == state.patterns,
        after_requests(state, requests).input == state.input,
        state.cursor <= after_requests(state, requests).cursor <= byte_len(state.input),
    decreases requests.len(),
{
    if requests.len() == 0 {
        lemma_boundary_in_range(state.input, state.cursor);
    } else {
        lemma_cursor_never_goes_back(state, requests.drop_last());
        lemma_cursor_moves_forward(after_requests(state, requests.drop_last()), requests.last());
    }
}

/// Right after `init` all of the new input is still to be read, and the
/// engine is at the end exactly when that input is empty.
pub proof fn lemma_at_end_after_init(state: State, input: Seq<char>)
    ensures
        state.init(input).wf(),
        state.init(input).rest() == input,
        state.init(input).at_end() <==> input.len() == 0,
{
    lemma_ends_are_boundaries(input);
    lemma_suffix_at_start(input);
    if input.len() > 0 {
        lemma_nonempty_has_bytes(input);
    } else {
        assert(vstd::utf8::encode_utf8(input) =~= Seq::<u8>::empty());
    }
}

/// `init` forgets the input and the progress made so far: engines with the
/// same rules are the same engine once they are given the same input, and
/// the same as one that was just built and given that input.
pub proof fn lemma_init_forgets(a: State, b: State, input: Seq<char>)
    requires
        a.patterns == b.patterns,
    ensures
        a.init(input) == b.init(input),
        a.init(input) == State::fresh(a.patterns).init(input),
{
}

} // verus!
