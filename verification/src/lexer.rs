//! The builder and the engine.
//!
//! A `LexerBuilder` collects rules in the order they are to be tried. `build`
//! compiles them into a `Lexer`, which is given an input with `init` and is
//! then asked for one token after another with `tok`.

use regex::Regex;
use regex::RegexSet;
use vstd::prelude::*;
use vstd::string::StringExecFns;

use crate::search::{
    compile, compile_set, find, lists_matching, match_at_start, matching, regex_accepts,
    regex_find, regex_is_plain, regex_set_accepts, regex_set_is_plain, regex_set_sources,
    regex_source, texts,
};
use crate::select::{as_int, lemma_winner, lengths, longest_first};
use crate::state::{anchored, space_pattern, State};
use crate::text::{
    byte_len, byte_length, head, lemma_boundary_advance, lemma_boundary_in_range,
    lemma_ends_are_boundaries, tail,
};

verus! {

/// A rule: the pattern of a token, and the conversion that makes a token
/// from the text that the pattern matched.
///
/// `F` is the type of the conversion, and all rules of one lexer have the
/// same `F`. With a function pointer type for `F`, such as `fn(&str) -> T`,
/// each rule has a function of its own.
#[derive(Clone)]
pub struct LexAction<'s, F> {
    /// The pattern, a regular expression.
    pub token: &'s str,
    /// The conversion from matched text to token.
    pub action: F,
}

/// Collects the rules of a lexer.
///
/// Rules are written into `actions` directly, or added one by one with
/// `push`.
pub struct LexerBuilder<'s, F> {
    /// The rules, first added first.
    pub actions: Vec<LexAction<'s, F>>,
}

/// A conversion `f`, given `text`, may return `token`.
pub open spec fn produces<TokenType, F: Fn(&str) -> TokenType>(
    f: F,
    text: Seq<char>,
    token: TokenType,
) -> bool {
    exists|s: &str| s@ == text && call_ensures(f, (s,), token)
}

/// What `f` returns depends on the text it is given and on nothing else.
pub open spec fn is_function_of_text<TokenType, F: Fn(&str) -> TokenType>(f: F) -> bool {
    forall|s1: &str, s2: &str, t1: TokenType, t2: TokenType|
        s1@ == s2@ && #[trigger] call_ensures(f, (s1,), t1) && #[trigger] call_ensures(
            f,
            (s2,),
            t2,
        ) ==> t1 == t2
}

/// The text of `pattern` with the anchor in front of it.
fn anchor(pattern: &str) -> (source: String)
    ensures
        source@ == anchored(pattern@),
{
    String::from_str("^").concat(pattern)
}

/// The length of the match of `re` at the start of `text`, if it matches
/// there.
fn match_len(re: &Regex, text: &str) -> (len: Option<usize>)
    requires
        regex_is_plain(re),
    ensures
        as_int(len) == match_at_start(regex_source(re), text@),
{
    match find(re, text) {
        Some((start, end)) => if start == 0 {
            Some(end)
        } else {
            None
        },
        None => None,
    }
}

impl<'s, F> Default for LexerBuilder<'s, F> {
    fn default() -> (builder: Self)
        ensures
            builder.actions@ == Seq::<LexAction<'s, F>>::empty(),
    {
        LexerBuilder { actions: Vec::new() }
    }
}

impl<'s, TokenType, F: Fn(&str) -> TokenType + Copy> LexerBuilder<'s, F> {
    /// The pattern of each rule as it will be compiled: with the anchor in
    /// front of it.
    pub open spec fn patterns(&self) -> Seq<Seq<char>> {
        Seq::new(self.actions@.len(), |i: int| anchored(self.actions@[i].token@))
    }

    /// The conversion of each rule.
    pub open spec fn conversions(&self) -> Seq<F> {
        Seq::new(self.actions@.len(), |i: int| self.actions@[i].action)
    }

    /// The pattern of each rule as it was given.
    pub open spec fn tokens(&self) -> Seq<Seq<char>> {
        Seq::new(self.actions@.len(), |i: int| self.actions@[i].token@)
    }

    /// Every pattern is accepted by the regular-expression compiler: as it
    /// was given, with the anchor in front of it, and all the anchored
    /// patterns as one set; and so is the whitespace pattern.
    ///
    /// The pattern as it was given is asked for by itself: behind the anchor
    /// the compiler accepts some texts, `*` for one, that are no regular
    /// expressions.
    pub open spec fn compiles(&self) -> bool {
        &&& regex_accepts(space_pattern())
        &&& forall|i: int|
            0 <= i < self.tokens().len() ==> regex_accepts(#[trigger] self.tokens()[i])
        &&& forall|i: int|
            0 <= i < self.patterns().len() ==> regex_accepts(#[trigger] self.patterns()[i])
        &&& regex_set_accepts(self.patterns())
    }

    /// A builder without rules.
    pub fn new() -> (builder: Self)
        ensures
            builder.actions@ == Seq::<LexAction<'s, F>>::empty(),
    {
        LexerBuilder { actions: Vec::new() }
    }

    /// Adds a rule behind those already there, and hands the builder back
    /// for the next call. The pattern is not looked at before `build`.
    ///
    /// What becomes of the rules is stated twice, as one sequence and
    /// element by element: a caller whose conversion is a named function
    /// gets on with the second form.
    pub fn push(&mut self, token: &'s str, action: F) -> (builder: &mut Self)
        ensures
            builder.actions@ == old(self).actions@.push((LexAction { token, action })),
            builder.actions@.len() == old(self).actions@.len() + 1,
            builder.actions@.last() == (LexAction { token, action }),
            forall|i: int|
                0 <= i < old(self).actions@.len() ==> builder.actions@[i] == old(self).actions@[i],
            *final(self) == *final(builder),
    {
        self.actions.push(LexAction { token, action });
        self
    }

    /// The anchored pattern of each rule, as a string.
    fn sources(&self) -> (sources: Vec<String>)
        ensures
            texts(sources@) == self.patterns(),
    {
        let mut sources: Vec<String> = Vec::new();
        let mut i: usize = 0;
        while i < self.actions.len()
            invariant
                i <= self.actions@.len(),
                sources@.len() == i,
                forall|j: int| 0 <= j < i ==> (#[trigger] sources@[j])@ == self.patterns()[j],
            decreases self.actions@.len() - i,
        {
            sources.push(anchor(self.actions[i].token));
            i = i + 1;
        }
        assert(texts(sources@) =~= self.patterns());
        sources
    }

    /// Whether `compiles` holds, found out by compiling.
    pub fn can_build(&self) -> (ok: bool)
        ensures
            ok == self.compiles(),
    {
        if compile("^\\s").is_err() {
            return false;
        }
        let sources = self.sources();
        assert(sources@.len() == texts(sources@).len());
        let mut i: usize = 0;
        while i < sources.len()
            invariant
                i <= sources@.len(),
                sources@.len() == self.actions@.len(),
                texts(sources@) == self.patterns(),
                forall|j: int| 0 <= j < i ==> regex_accepts(#[trigger] self.tokens()[j]),
                forall|j: int| 0 <= j < i ==> regex_accepts(#[trigger] self.patterns()[j]),
            decreases sources@.len() - i,
        {
            assert(texts(sources@)[i as int] == sources@[i as int]@);
            assert(self.tokens()[i as int] == self.actions@[i as int].token@);
            if compile(self.actions[i].token).is_err() {
                return false;
            }
            if compile(sources[i].as_str()).is_err() {
                return false;
            }
            i = i + 1;
        }
        compile_set(&sources).is_ok()
    }

    /// Compiles the rules into an engine that has no input yet. The builder
    /// keeps its rules and can build again.
    ///
    /// Each pattern is compiled with `^` in front of it, and a match counts
    /// only if it begins at the cursor. The engine also gets a compiled
    /// whitespace pattern of its own.
    ///
    /// Each pattern is also compiled as it was given, and the result dropped:
    /// a pattern that is no regular expression by itself is refused here,
    /// whatever it would mean behind the anchor.
    ///
    /// A pattern that is not a regular expression is a mistake in the
    /// program, not in its input: `build` is for rules known to compile,
    /// `try_build` for rules that may not compile.
    pub fn build(&self) -> (lexer: Lexer<F>)
        requires
            self.compiles(),
        ensures
            lexer.wf(),
            lexer@ == State::fresh(self.patterns()),
            lexer.conversions() == self.conversions(),
    {
        let sources = self.sources();
        assert(sources@.len() == texts(sources@).len());
        let regex_set = compile_set(&sources).unwrap();
        let mut regexes: Vec<Regex> = Vec::new();
        let mut actions: Vec<F> = Vec::new();
        let mut i: usize = 0;
        while i < sources.len()
            invariant
                i <= sources@.len(),
                sources@.len() == self.actions@.len(),
                texts(sources@) == self.patterns(),
                self.compiles(),
                regexes@.len() == i,
                actions@.len() == i,
                forall|j: int|
                    0 <= j < i ==> regex_source(#[trigger] &regexes@[j]) == self.patterns()[j]
                        && regex_is_plain(&regexes@[j]),
                forall|j: int| 0 <= j < i ==> #[trigger] actions@[j] == self.actions@[j].action,
            decreases sources@.len() - i,
        {
            assert(texts(sources@)[i as int] == sources@[i as int]@);
            assert(self.tokens()[i as int] == self.actions@[i as int].token@);
            compile(self.actions[i].token).unwrap();
            regexes.push(compile(sources[i].as_str()).unwrap());
            actions.push(self.actions[i].action);
            i = i + 1;
        }
        let space = compile("^\\s").unwrap();
        let lexer = Lexer {
            regex_set,
            regexes,
            space,
            actions,
            data: String::new(),
            len: 0,
            curr_pos: 0,
        };
        proof {
            assert(lexer@.patterns =~= self.patterns());
            lemma_ends_are_boundaries(lexer.data@);
        }
        lexer
    }

    /// Compiles the rules into an engine if `compiles` holds, and returns
    /// `None` if it does not.
    pub fn try_build(&self) -> (built: Option<Lexer<F>>)
        ensures
            built is Some <==> self.compiles(),
            built matches Some(lexer) ==> lexer.wf() && lexer@ == State::fresh(self.patterns())
                && lexer.conversions() == self.conversions(),
    {
        if self.can_build() {
            Some(self.build())
        } else {
            None
        }
    }
}

/// A lexer: compiled rules, an input, and a cursor into the input.
pub struct Lexer<F> {
    regex_set: RegexSet,
    regexes: Vec<Regex>,
    space: Regex,
    actions: Vec<F>,
    data: String,
    len: usize,
    curr_pos: usize,
}

impl<F> View for Lexer<F> {
    type V = State;

    closed spec fn view(&self) -> State {
        State {
            patterns: Seq::new(self.regexes@.len(), |i: int| regex_source(&self.regexes@[i])),
            input: self.data@,
            cursor: self.curr_pos as int,
        }
    }
}

impl<TokenType, F: Fn(&str) -> TokenType + Copy> Lexer<F> {
    /// The conversion of each rule, in the order of the rules.
    pub closed spec fn conversions(&self) -> Seq<F> {
        self.actions@
    }

    /// The engine is as `build` made it and `init` and `tok` keep it: one
    /// conversion for each pattern, every pattern compiled with the default
    /// options, the cursor on a boundary of the input.
    pub closed spec fn wf(&self) -> bool {
        &&& self.actions@.len() == self.regexes@.len()
        &&& regex_set_sources(&self.regex_set) == self@.patterns
        &&& regex_set_is_plain(&self.regex_set)
        &&& forall|i: int|
            0 <= i < self.regexes@.len() ==> regex_is_plain(#[trigger] &self.regexes@[i])
        &&& regex_source(&self.space) == space_pattern()
        &&& regex_is_plain(&self.space)
        &&& self.len == byte_len(self.data@)
        &&& self@.wf()
    }

    /// Every conversion can be called on every text.
    pub open spec fn accepts_any_text(&self) -> bool {
        forall|i: int, s: &str|
            0 <= i < self.conversions().len() ==> #[trigger] call_requires(
                self.conversions()[i],
                (s,),
            )
    }

    /// `token` is what a request for a token may return: nothing when no
    /// rule matches at the cursor, else what the conversion of the winning
    /// rule makes of the matched text.
    pub open spec fn yields(&self, skip_ws: bool, token: Option<TokenType>) -> bool {
        match self@.ready(skip_ws).found() {
            Some((rule, len)) => token is Some && produces(
                self.conversions()[rule],
                self@.ready(skip_ws).lexeme(),
                token->0,
            ),
            None => token is None,
        }
    }

    /// Replaces the input by `data` and puts the cursor at its start.
    pub fn init(&mut self, data: String)
        requires
            old(self).wf(),
        ensures
            final(self).wf(),
            final(self)@ == old(self)@.init(data@),
            final(self).conversions() == old(self).conversions(),
    {
        proof {
            lemma_ends_are_boundaries(data@);
        }
        self.curr_pos = 0;
        self.len = byte_length(data.as_str());
        self.data = data;
    }

    /// Whether the cursor has reached the end of the input.
    pub fn is_eof(&self) -> (at_end: bool)
        requires
            self.wf(),
        ensures
            at_end == self@.at_end(),
    {
        self.curr_pos == self.len
    }

    /// A well-formed engine has a conversion for each pattern, and its cursor
    /// between two characters of its input, or at one of its ends.
    pub proof fn lemma_wf_view(&self)
        requires
            self.wf(),
        ensures
            self@.wf(),
            self@.patterns.len() == self.conversions().len(),
    {
    }

    /// Steps over one whitespace character at the cursor, if there is one.
    fn skip_space(&mut self)
        requires
            old(self).wf(),
        ensures
            final(self).wf(),
            final(self)@ == old(self)@.skip_space(),
            final(self).conversions() == old(self).conversions(),
            old(self)@.cursor <= final(self)@.cursor <= byte_len(old(self)@.input),
    {
        proof {
            lemma_boundary_in_range(self@.input, self@.cursor);
        }
        let rest = tail(self.data.as_str(), self.curr_pos);
        match match_len(&self.space, rest) {
            Some(len) => {
                proof {
                    lemma_boundary_advance(self@.input, self@.cursor, len as int);
                }
                self.curr_pos = self.curr_pos + len;
            },
            None => {},
        }
    }

    /// For each rule, the length of its match at the start of `rest`. Only
    /// the rules listed in `hits` are tried: the others are known not to
    /// match.
    fn measure(&self, rest: &str, hits: &Vec<usize>) -> (lens: Vec<Option<usize>>)
        requires
            self.wf(),
            rest@ == self@.rest(),
            lists_matching(hits@, self@.patterns, rest@),
        ensures
            lengths(lens@) == self@.match_lens(),
    {
        let mut lens: Vec<Option<usize>> = Vec::new();
        let mut seen: usize = 0;
        let mut rule: usize = 0;
        while rule < self.regexes.len()
            invariant
                self.wf(),
                rest@ == self@.rest(),
                lists_matching(hits@, self@.patterns, rest@),
                rule <= self.regexes@.len(),
                lens@.len() == rule,
                seen <= hits@.len(),
                forall|k: int| 0 <= k < seen ==> (#[trigger] hits@[k]) < rule,
                forall|k: int| seen <= k < hits@.len() ==> (#[trigger] hits@[k]) >= rule,
                forall|i: int|
                    0 <= i < rule ==> (#[trigger] lengths(lens@)[i]) == self@.match_lens()[i],
            decreases self.regexes@.len() - rule,
        {
            let ghost before = lengths(lens@);
            if seen < hits.len() && hits[seen] == rule {
                lens.push(match_len(&self.regexes[rule], rest));
                seen = seen + 1;
            } else {
                lens.push(None);
            }
            assert forall|i: int| 0 <= i <= rule implies lengths(lens@)[i]
                == self@.match_lens()[i] by {
                if i < rule {
                    assert(lengths(lens@)[i] == before[i]);
                }
            }
            rule = rule + 1;
        }
        lens
    }

    /// Reads the next token.
    ///
    /// With `skip_ws`, one whitespace character at the cursor is stepped over
    /// first, and only one: a run of whitespace takes one call for each
    /// character. It stays stepped over whatever follows. Then every rule is
    /// tried at the cursor. The rule with the longest match converts the
    /// matched text into the token, the first such rule if several match
    /// that much, and the cursor moves behind the match. When no rule matches
    /// there is no token, which is no error: the caller decides what it
    /// means.
    ///
    /// The conversion runs before the cursor moves. What it returns is
    /// handed on as it is. The engine cannot tell beforehand which text a
    /// pattern will match, so every conversion has to accept any text.
    pub fn tok(&mut self, skip_ws: bool) -> (token: Option<TokenType>)
        requires
            old(self).wf(),
            old(self).accepts_any_text(),
        ensures
            final(self).wf(),
            final(self)@ == old(self)@.next(skip_ws),
            final(self).conversions() == old(self).conversions(),
            old(self)@.cursor <= old(self)@.ready(skip_ws).cursor <= final(self)@.cursor
                <= byte_len(old(self)@.input),
            old(self).yields(skip_ws, token),
    {
        if skip_ws {
            self.skip_space();
        }
        proof {
            lemma_boundary_in_range(self@.input, self@.cursor);
            lemma_winner(self@.match_lens());
        }
        let rest = tail(self.data.as_str(), self.curr_pos);
        let hits = matching(&self.regex_set, rest);
        if hits.len() == 0 {
            assert forall|i: int| 0 <= i < self@.patterns.len() implies self@.match_lens()[i]
                is None by {
                if regex_find(self@.patterns[i], rest@) is Some {
                    assert(hits@.contains(i as usize));
                }
            }
            return None;
        }
        let lens = self.measure(rest, &hits);
        match longest_first(&lens) {
            Some(rule) => {
                let len = lens[rule].unwrap();
                proof {
                    lemma_boundary_advance(self@.input, self@.cursor, len as int);
                }
                let text = head(rest, len);
                assert(self.conversions()[rule as int] == old(self).conversions()[rule as int]);
                let token = (self.actions[rule])(text);
                self.curr_pos = self.curr_pos + len;
                Some(token)
            },
            None => None,
        }
    }

    /// The cursor: the number of bytes of the input that have been read.
    pub fn position(&self) -> (at: usize)
        ensures
            at == self@.cursor,
    {
        self.curr_pos
    }
}

} // verus!
