//! What an engine does, as a function of what it holds.
//!
//! `State` is the mathematical view of an engine: the patterns of its rules,
//! its input, and its cursor. The functions on it say, without any code, how
//! the cursor moves and which rule produces the next token.

use vstd::prelude::*;

use crate::search::match_at_start;
use crate::select::winner;
use crate::text::{byte_len, is_boundary, prefix, suffix};

verus! {

/// The pattern that recognises one whitespace character at the start of a
/// text.
pub open spec fn space_pattern() -> Seq<char> {
    "^\\s"@
}

/// A rule's pattern as the engine compiles it: with the anchor `^` in front.
pub open spec fn anchored(pattern: Seq<char>) -> Seq<char> {
    "^"@ + pattern
}

/// The view of an engine.
pub struct State {
    /// The pattern of each rule, as compiled, in the order the rules were added.
    pub patterns: Seq<Seq<char>>,
    /// The input.
    pub input: Seq<char>,
    /// The byte offset in `input` up to which the engine has read.
    pub cursor: int,
}

impl State {
    /// The cursor lies between two characters of the input, or at an end.
    pub open spec fn wf(self) -> bool {
        is_boundary(self.input, self.cursor)
    }

    /// An engine that has been given its rules and no input yet.
    pub open spec fn fresh(patterns: Seq<Seq<char>>) -> State {
        State { patterns, input: Seq::empty(), cursor: 0 }
    }

    /// The engine after it is given `input`: the rules stay, the cursor is at
    /// the start.
    pub open spec fn init(self, input: Seq<char>) -> State {
        State { patterns: self.patterns, input, cursor: 0 }
    }

    /// All of the input has been read.
    pub open spec fn at_end(self) -> bool {
        self.cursor == byte_len(self.input)
    }

    /// The input that has not been read yet.
    pub open spec fn rest(self) -> Seq<char> {
        suffix(self.input, self.cursor)
    }

    /// The engine with its cursor `by` bytes further on.
    pub open spec fn advance(self, by: int) -> State {
        State { patterns: self.patterns, input: self.input, cursor: self.cursor + by }
    }

    /// The engine after it has stepped over one whitespace character, if one
    /// is next.
    pub open spec fn skip_space(self) -> State {
        match match_at_start(space_pattern(), self.rest()) {
            Some(len) => self.advance(len),
            None => self,
        }
    }

    /// The engine at the moment it tries its rules: past one whitespace
    /// character if that was asked for and one was there.
    pub open spec fn ready(self, skip_ws: bool) -> State {
        if skip_ws {
            self.skip_space()
        } else {
            self
        }
    }

    /// For each rule, the length in bytes of its match at the cursor, `None`
    /// where it does not match there.
    pub open spec fn match_lens(self) -> Seq<Option<int>> {
        Seq::new(self.patterns.len(), |i: int| match_at_start(self.patterns[i], self.rest()))
    }

    /// The rule that gives the token at the cursor, and the length of its
    /// match: the longest match, and the first rule among those that match
    /// that much.
    pub open spec fn found(self) -> Option<(int, int)> {
        match winner(self.match_lens()) {
            Some(rule) => Some((rule, self.match_lens()[rule]->0)),
            None => None,
        }
    }

    /// The text of the token at the cursor; empty when no rule matches.
    pub open spec fn lexeme(self) -> Seq<char> {
        match self.found() {
            Some((_, len)) => prefix(self.rest(), len),
            None => Seq::empty(),
        }
    }

    /// The engine after it has read the token at the cursor; unchanged when
    /// no rule matches.
    pub open spec fn consume(self) -> State {
        match self.found() {
            Some((_, len)) => self.advance(len),
            None => self,
        }
    }

    /// The engine after one request for a token.
    pub open spec fn next(self, skip_ws: bool) -> State {
        self.ready(skip_ws).consume()
    }
}

} // verus!
