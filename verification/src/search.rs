//! Regular expressions, as the `regex` crate provides them.
//!
//! Nothing in this file is proved. It declares the types of `regex` that the
//! engine meets, gives names to what the crate's functions return, and
//! wraps the calls. Every contract here restates the documentation of
//! `regex`; the proofs of the other modules rest on them.

use regex::Error;
use regex::Regex;
use regex::RegexSet;
use vstd::prelude::*;

use crate::text::is_boundary;

verus! {

/// `regex::Regex`, a compiled pattern. Its contents are not visible to proofs.
#[verifier::external_type_specification]
#[verifier::external_body]
pub struct ExRegex(Regex);

/// `regex::RegexSet`, several patterns compiled together. Its contents are
/// not visible to proofs.
#[verifier::external_type_specification]
#[verifier::external_body]
pub struct ExRegexSet(RegexSet);

/// `regex::Error`, the reason why a pattern was refused. Its contents are
/// not visible to proofs.
#[verifier::external_type_specification]
#[verifier::external_body]
pub struct ExError(Error);

/// The pattern text that `re` was compiled from: what `Regex::as_str` returns.
pub uninterp spec fn regex_source(re: &Regex) -> Seq<char>;

/// The pattern texts that `set` was compiled from, in the order given: what
/// `RegexSet::patterns` returns.
pub uninterp spec fn regex_set_sources(set: &RegexSet) -> Seq<Seq<char>>;

/// `re` was made by `Regex::new`: with the options that `regex` sets when
/// none are given. A `Regex` made by a `RegexBuilder` with other options
/// keeps the same pattern text and matches otherwise.
pub uninterp spec fn regex_is_plain(re: &Regex) -> bool;

/// `set` was made by `RegexSet::new`: with the options that `regex` sets
/// when none are given.
pub uninterp spec fn regex_set_is_plain(set: &RegexSet) -> bool;

/// Whether `Regex::new` accepts `pattern`. It refuses a pattern that is not
/// a regular expression, and one whose compiled form exceeds the size limit
/// that `regex` sets by default.
pub uninterp spec fn regex_accepts(pattern: Seq<char>) -> bool;

/// Whether `RegexSet::new` accepts `patterns` as one set.
pub uninterp spec fn regex_set_accepts(patterns: Seq<Seq<char>>) -> bool;

/// The first match that `Regex::find` reports when the regex that
/// `Regex::new` makes of `pattern` searches `text`: the byte offsets of its
/// start and of its end, or `None` when nothing in `text` matches.
pub uninterp spec fn regex_find(pattern: Seq<char>, text: Seq<char>) -> Option<(int, int)>;

/// The texts of a list of strings.
pub open spec fn texts(strings: Seq<String>) -> Seq<Seq<char>> {
    Seq::new(strings.len(), |i: int| strings[i]@)
}

/// A pair of byte offsets as a pair of mathematical integers.
pub open spec fn span_of(found: Option<(usize, usize)>) -> Option<(int, int)> {
    match found {
        Some((start, end)) => Some((start as int, end as int)),
        None => None,
    }
}

/// The match of `pattern` that begins where `text` begins: its length in
/// bytes. A match that begins later in `text` does not count.
pub open spec fn match_at_start(pattern: Seq<char>, text: Seq<char>) -> Option<int> {
    match regex_find(pattern, text) {
        Some((start, end)) => if start == 0 && is_boundary(text, end) {
            Some(end)
        } else {
            None
        },
        None => None,
    }
}

/// `hits` lists, in ascending order, the positions in `patterns` of the
/// patterns that find a match in `text`, and no others.
pub open spec fn lists_matching(hits: Seq<usize>, patterns: Seq<Seq<char>>, text: Seq<char>) -> bool {
    &&& forall|a: int, b: int| 0 <= a < b < hits.len() ==> hits[a] < hits[b]
    &&& forall|k: int|
        0 <= k < hits.len() ==> (#[trigger] hits[k]) < patterns.len() && regex_find(
            patterns[hits[k] as int],
            text,
        ) is Some
    &&& forall|i: int|
        0 <= i < patterns.len() && regex_find(#[trigger] patterns[i], text) is Some
            ==> hits.contains(i as usize)
}

/// Calls `Regex::new`. Claims that the call succeeds exactly on the patterns
/// that `regex_accepts` names, and that the regex it returns remembers the
/// pattern it was given and has the default options.
#[verifier::external_body]
pub(crate) fn compile(pattern: &str) -> (compiled: Result<Regex, Error>)
    ensures
        compiled is Ok <==> regex_accepts(pattern@),
        compiled matches Ok(re) ==> regex_source(&re) == pattern@ && regex_is_plain(&re),
{
    Regex::new(pattern)
}

/// Calls `RegexSet::new`. Claims that the call succeeds exactly on the lists
/// that `regex_set_accepts` names, and that the set it returns remembers the
/// patterns it was given, in their order, and has the default options.
#[verifier::external_body]
pub(crate) fn compile_set(patterns: &Vec<String>) -> (compiled: Result<RegexSet, Error>)
    ensures
        compiled is Ok <==> regex_set_accepts(texts(patterns@)),
        compiled matches Ok(set) ==> regex_set_sources(&set) == texts(patterns@)
            && regex_set_is_plain(&set),
{
    RegexSet::new(patterns)
}

/// Calls `Regex::find` and reads the offsets of the match with `Match::start`
/// and `Match::end`. It is for a regex with the default options: what such a
/// regex finds depends on its pattern and on the text alone. Claims that the
/// offsets are those that `regex_find` names for this pattern and text, that
/// the start is not behind the end, and that both fall between characters of
/// `text`, as `regex` documents of every offset it returns for a `str`.
#[verifier::external_body]
pub(crate) fn find(re: &Regex, text: &str) -> (found: Option<(usize, usize)>)
    requires
        regex_is_plain(re),
    ensures
        span_of(found) == regex_find(regex_source(re), text@),
        found matches Some((start, end)) ==> start <= end && is_boundary(text@, start as int)
            && is_boundary(text@, end as int),
{
    match re.find(text) {
        Some(m) => Some((m.start(), m.end())),
        None => None,
    }
}

/// Calls `RegexSet::matches` and collects the indices it yields. It is for a
/// set with the default options. Claims what `regex` documents: the indices
/// come in ascending order, each is the position of a pattern of the set,
/// and a pattern's position is among them exactly when that pattern,
/// compiled on its own by `Regex::new`, finds a match in `text`.
#[verifier::external_body]
pub(crate) fn matching(set: &RegexSet, text: &str) -> (hits: Vec<usize>)
    requires
        regex_set_is_plain(set),
    ensures
        lists_matching(hits@, regex_set_sources(set), text@),
{
    set.matches(text).into_iter().collect()
}

} // verus!
