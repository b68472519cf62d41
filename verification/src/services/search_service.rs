use vstd::prelude::*;

use crate::db::sql::Db;

use crate::db::sql::{self, SqlValue};
use crate::error::{AppError, AppResult};
use crate::models::prompt::{PromptListItem, SnippetRun};
use crate::services::pagination::{or_default, sanitize_search_limit, MAX_SEARCH_RESULTS};
use crate::services::{prompt_service, tag_service};
use crate::text::{
    char_is_alphanumeric, chars_of, is_alphanumeric_char, lowercase, push_char, push_str,
    starts_with, string_of, to_lowercase,
};

verus! {

broadcast use crate::db::sql::group_calls;

// ---------------------------------------------------------------------
// Query tokens
// ---------------------------------------------------------------------

/// Characters that make up words: letters, digits and underscores.
pub open spec fn is_word_char(c: char) -> bool {
    is_alphanumeric_char(c) || c == '_'
}

/// Whether a character belongs to a word.
pub fn word_char(c: char) -> (b: bool)
    ensures
        b == is_word_char(c),
{
    char_is_alphanumeric(c) || c == '_'
}

/// Scanning `s` left to right: the words completed so far and the word in progress.
pub open spec fn token_state(s: Seq<char>) -> (Seq<Seq<char>>, Seq<char>)
    decreases s.len(),
{
    if s.len() == 0 {
        (Seq::empty(), Seq::empty())
    } else {
        let (done, current) = token_state(s.drop_last());
        let c = s.last();
        if is_word_char(c) {
            (done, current.push(c))
        } else if current.len() > 0 {
            (done.push(current), Seq::empty())
        } else {
            (done, Seq::empty())
        }
    }
}

/// The maximal runs of word characters of `s`, in order.
pub open spec fn tokenize(s: Seq<char>) -> Seq<Seq<char>> {
    let (done, current) = token_state(s);
    if current.len() > 0 { done.push(current) } else { done }
}

/// A token is non-empty and made of word characters only.
pub open spec fn is_word(t: Seq<char>) -> bool {
    t.len() > 0 && forall|k: int| 0 <= k < t.len() ==> is_word_char(#[trigger] t[k])
}

/// The words of a search query: its maximal runs of letters, digits and
/// underscores.
pub fn tokenize_query(query: &str) -> (tokens: Vec<String>)
    ensures
        tokens@.map_values(|t: String| t@) == tokenize(query@),
{
    let cs = chars_of(query);
    let mut done: Vec<String> = Vec::new();
    let mut current: Vec<char> = Vec::new();
    let mut i: usize = 0;
    while i < cs.len()
        invariant
            i <= cs.len(),
            cs@ == query@,
            (done@.map_values(|t: String| t@), current@) == token_state(cs@.take(i as int)),
        decreases cs.len() - i,
    {
        proof {
            assert(cs@.take(i + 1).drop_last() =~= cs@.take(i as int));
            assert(cs@.take(i + 1).last() == cs@[i as int]);
        }
        let c = cs[i];
        if word_char(c) {
            current.push(c);
        } else if current.len() > 0 {
            let word = string_of(current.as_slice());
            done.push(word);
            current = Vec::new();
            proof {
                assert(done@.map_values(|t: String| t@) =~= token_state(cs@.take(i as int)).0.push(token_state(cs@.take(i as int)).1));
            }
        } else {
            current = Vec::new();
        }
        i = i + 1;
    }
    proof { assert(cs@.take(cs@.len() as int) =~= cs@); }
    if current.len() > 0 {
        let word = string_of(current.as_slice());
        done.push(word);
        proof {
            assert(done@.map_values(|t: String| t@) =~= tokenize(query@));
        }
    }
    done
}

/// Every token of every text is a non-empty run of word characters.
pub proof fn lemma_tokens_are_words(s: Seq<char>)
    ensures
        forall|i: int| 0 <= i < tokenize(s).len() ==> is_word(#[trigger] tokenize(s)[i]),
{
    lemma_token_state_words(s);
}

proof fn lemma_token_state_words(s: Seq<char>)
    ensures
        forall|i: int| 0 <= i < token_state(s).0.len() ==> is_word(#[trigger] token_state(s).0[i]),
        forall|k: int| 0 <= k < token_state(s).1.len() ==> is_word_char(#[trigger] token_state(s).1[k]),
    decreases s.len(),
{
    if s.len() > 0 {
        lemma_token_state_words(s.drop_last());
        let (done, current) = token_state(s.drop_last());
        let c = s.last();
        if is_word_char(c) {
            assert forall|k: int| 0 <= k < current.push(c).len() implies is_word_char(#[trigger] current.push(c)[k]) by {
                if k < current.len() {
                    assert(current.push(c)[k] == current[k]);
                }
            }
        } else if current.len() > 0 {
            assert forall|i: int| 0 <= i < done.push(current).len() implies is_word(#[trigger] done.push(current)[i]) by {
                if i < done.len() {
                    assert(done.push(current)[i] == done[i]);
                }
            }
        }
    }
}

// ---------------------------------------------------------------------
// The full-text query
// ---------------------------------------------------------------------

/// One quoted query term; the last is a prefix term.
pub open spec fn fts_term(t: Seq<char>, last: bool) -> Seq<char> {
    if last { seq!['"'] + t + seq!['"', '*'] } else { seq!['"'] + t + seq!['"'] }
}

/// The terms of the first `n` tokens joined by " AND ", where token `total - 1` is the last.
pub open spec fn fts_query_prefix(tokens: Seq<Seq<char>>, n: int) -> Seq<char>
    decreases n,
{
    if n <= 0 {
        Seq::empty()
    } else if n == 1 {
        fts_term(tokens[0], tokens.len() == 1)
    } else {
        fts_query_prefix(tokens, n - 1) + " AND "@ + fts_term(tokens[n - 1], n == tokens.len())
    }
}

/// The full-text query for a list of tokens: every token quoted, all of them
/// required, the last one matched as a prefix.
pub open spec fn fts_query(tokens: Seq<Seq<char>>) -> Seq<char> {
    fts_query_prefix(tokens, tokens.len() as int)
}

proof fn lemma_fts_prefix_starts(tokens: Seq<Seq<char>>, n: int)
    requires
        2 <= n <= tokens.len(),
    ensures
        fts_query_prefix(tokens, n).len() >= tokens[0].len() + 7,
        fts_query_prefix(tokens, n).take(tokens[0].len() + 7int) == seq!['"'] + tokens[0] + seq!['"'] + " AND "@,
    decreases n,
{
    reveal_strlit(" AND ");
    let head = seq!['"'] + tokens[0] + seq!['"'] + " AND "@;
    assert(head.len() == tokens[0].len() + 7);
    if n == 2 {
        let whole = fts_term(tokens[0], false) + " AND "@ + fts_term(tokens[1], tokens.len() == 2);
        assert(fts_query_prefix(tokens, 1) == fts_term(tokens[0], false));
        assert(whole.take(tokens[0].len() + 7int) =~= head);
    } else {
        lemma_fts_prefix_starts(tokens, n - 1);
        let prev = fts_query_prefix(tokens, n - 1);
        let whole = prev + " AND "@ + fts_term(tokens[n - 1], n == tokens.len());
        assert(prev.len() >= tokens[0].len() + 7);
        assert(whole.take(tokens[0].len() + 7int) =~= prev.take(tokens[0].len() + 7int));
    }
}

/// The full-text query requires every word and matches only the last one as
/// a prefix: a single word `w` becomes `"w"*`; with more words, the query
/// begins with the first word quoted exactly, joined by AND, and ends with
/// the last word quoted and starred.
pub proof fn lemma_fts_query_shape(tokens: Seq<Seq<char>>)
    requires
        tokens.len() > 0,
    ensures
        tokens.len() == 1 ==> fts_query(tokens) == seq!['"'] + tokens[0] + seq!['"', '*'],
        tokens.len() >= 2 ==> fts_query(tokens).take(tokens[0].len() + 7int) == seq!['"'] + tokens[0] + seq!['"'] + " AND "@,
        tokens.len() >= 2 ==> {
            let tail = " AND "@ + seq!['"'] + tokens.last() + seq!['"', '*'];
            fts_query(tokens).len() >= tail.len()
                && fts_query(tokens).skip(fts_query(tokens).len() - tail.len()) == tail
        },
{
    reveal_strlit(" AND ");
    if tokens.len() >= 2 {
        lemma_fts_prefix_starts(tokens, tokens.len() as int);
        let n = tokens.len() as int;
        let prev = fts_query_prefix(tokens, n - 1);
        let tail = " AND "@ + seq!['"'] + tokens.last() + seq!['"', '*'];
        let whole = prev + " AND "@ + fts_term(tokens[n - 1], true);
        assert(fts_query(tokens) == whole);
        assert(whole.skip(whole.len() - tail.len()) =~= tail);
    }
}

pub fn build_fts_query(tokens: &Vec<String>) -> (q: String)
    ensures
        q@ == fts_query(tokens@.map_values(|t: String| t@)),
{
    let ghost tv = tokens@.map_values(|t: String| t@);
    let n = tokens.len();
    let mut q = String::new();
    for i in 0..n
        invariant
            n == tokens.len(),
            tv == tokens@.map_values(|t: String| t@),
            q@ == fts_query_prefix(tv, i as int),
    {
        let ghost before = q@;
        if i > 0 {
            push_str(&mut q, " AND ");
        }
        let ghost mid = q@;
        push_char(&mut q, '"');
        push_str(&mut q, tokens[i].as_str());
        push_char(&mut q, '"');
        if i + 1 == n {
            push_char(&mut q, '*');
        }
        proof {
            assert(tv[i as int] == tokens@[i as int]@);
            assert(q@ =~= mid + fts_term(tv[i as int], i + 1 == n));
            if i > 0 {
                assert(fts_query_prefix(tv, i + 1) == fts_query_prefix(tv, i as int) + " AND "@ + fts_term(tv[i as int], i + 1 == tv.len()));
                assert(q@ =~= fts_query_prefix(tv, i + 1));
            }
        }
    }
    q
}

// ---------------------------------------------------------------------
// Words of a text and which of them match
// ---------------------------------------------------------------------

/// A word of a text: where it starts and ends, and its lower-cased form.
#[derive(Debug, Clone)]
pub struct TextTokenSpan {
    pub start: usize,
    pub end: usize,
    pub normalized: Vec<char>,
}

/// Scanning the first `n` characters of `s`: the words completed so far,
/// as (start, end) pairs, and where the word in progress started.
pub open spec fn span_state(s: Seq<char>, n: int) -> (Seq<(int, int)>, Option<int>)
    decreases n,
{
    if n <= 0 {
        (Seq::empty(), None)
    } else {
        let (done, start) = span_state(s, n - 1);
        if is_word_char(s[n - 1]) {
            (done, match start { Some(a) => Some(a), None => Some(n - 1) })
        } else {
            match start {
                Some(a) => (done.push((a, n - 1)), None),
                None => (done, None),
            }
        }
    }
}

/// Where each maximal run of word characters of `s` starts and ends.
pub open spec fn word_spans(s: Seq<char>) -> Seq<(int, int)> {
    let (done, start) = span_state(s, s.len() as int);
    match start {
        Some(a) => done.push((a, s.len() as int)),
        None => done,
    }
}

/// `spans` are the words of `s`, each with its lower-cased text.
pub open spec fn spans_of(s: Seq<char>, spans: Seq<TextTokenSpan>) -> bool {
    &&& spans.len() == word_spans(s).len()
    &&& forall|i: int| 0 <= i < spans.len() ==> {
        &&& (#[trigger] spans[i]).start == word_spans(s)[i].0
        &&& spans[i].end == word_spans(s)[i].1
        &&& 0 <= spans[i].start < spans[i].end <= s.len()
        &&& spans[i].normalized@ == lowercase(s.subrange(spans[i].start as int, spans[i].end as int))
    }
}

proof fn lemma_span_state_bounds(s: Seq<char>, n: int)
    requires
        0 <= n <= s.len(),
    ensures
        forall|i: int| 0 <= i < span_state(s, n).0.len() ==>
            0 <= (#[trigger] span_state(s, n).0[i]).0 < span_state(s, n).0[i].1 <= n,
        span_state(s, n).1 matches Some(a) ==> 0 <= a < n,
    decreases n,
{
    if n > 0 {
        lemma_span_state_bounds(s, n - 1);
        let (done, start) = span_state(s, n - 1);
        if !is_word_char(s[n - 1]) {
            if let Some(a) = start {
                assert forall|i: int| 0 <= i < done.push((a, n - 1)).len() implies
                    0 <= (#[trigger] done.push((a, n - 1))[i]).0 < done.push((a, n - 1))[i].1 <= n by {
                    if i < done.len() {
                        assert(done.push((a, n - 1))[i] == done[i]);
                    }
                }
            }
        }
    }
}

/// The words of a text.
pub fn text_token_spans(cs: &Vec<char>) -> (spans: Vec<TextTokenSpan>)
    ensures
        spans_of(cs@, spans@),
{
    let ghost s = cs@;
    let mut done: Vec<TextTokenSpan> = Vec::new();
    let mut start: Option<usize> = None;
    let mut i: usize = 0;
    while i < cs.len()
        invariant
            s == cs@,
            i <= cs.len(),
            done.len() == span_state(s, i as int).0.len(),
            forall|k: int| 0 <= k < done.len() ==> {
                &&& (#[trigger] done[k]).start == span_state(s, i as int).0[k].0
                &&& done[k].end == span_state(s, i as int).0[k].1
                &&& 0 <= done[k].start < done[k].end <= s.len()
                &&& done[k].normalized@ == lowercase(s.subrange(done[k].start as int, done[k].end as int))
            },
            match start {
                Some(a) => span_state(s, i as int).1 == Some(a as int),
                None => span_state(s, i as int).1 is None,
            },
        decreases cs.len() - i,
    {
        proof { lemma_span_state_bounds(s, i as int); }
        if word_char(cs[i]) {
            if start.is_none() {
                start = Some(i);
            }
        } else {
            if let Some(a) = start {
                let piece = crate::text::slice_to_vec(cs.as_slice(), a, i);
                let normalized = to_lowercase(piece.as_slice());
                done.push(TextTokenSpan { start: a, end: i, normalized });
                start = None;
            }
        }
        i = i + 1;
    }
    proof { lemma_span_state_bounds(s, i as int); }
    if let Some(a) = start {
        let piece = crate::text::slice_to_vec(cs.as_slice(), a, i);
        let normalized = to_lowercase(piece.as_slice());
        done.push(TextTokenSpan { start: a, end: i, normalized });
    }
    done
}

/// Whether a lower-cased word matches the query: equal to one of its tokens,
/// or beginning with its last token (which the query matches as a prefix).
pub open spec fn token_matches_spec(candidate: Seq<char>, tokens: Seq<Seq<char>>) -> bool {
    exists|i: int| 0 <= i < tokens.len() && (if i + 1 == tokens.len() {
        starts_with(candidate, #[trigger] tokens[i])
    } else {
        candidate == tokens[i]
    })
}

/// Only the last query word is matched as a prefix: a word matches exactly
/// when it equals one of the other query words or begins with the last one.
/// So a word that merely begins with an earlier query word, without being
/// equal to it or beginning with the last word, does not match.
pub proof fn lemma_prefix_only_for_last_word(candidate: Seq<char>, tokens: Seq<Seq<char>>)
    requires
        tokens.len() > 0,
    ensures
        token_matches_spec(candidate, tokens) <==> (starts_with(candidate, tokens.last())
            || exists|i: int| 0 <= i < tokens.len() - 1 && candidate == #[trigger] tokens[i]),
        (forall|i: int| 0 <= i < tokens.len() - 1 ==> candidate != #[trigger] tokens[i])
            && !starts_with(candidate, tokens.last()) ==> !token_matches_spec(candidate, tokens),
{
    if starts_with(candidate, tokens.last()) {
        assert(starts_with(candidate, tokens[tokens.len() - 1]));
    }
    if exists|i: int| 0 <= i < tokens.len() - 1 && candidate == #[trigger] tokens[i] {
        let i = choose|i: int| 0 <= i < tokens.len() - 1 && candidate == #[trigger] tokens[i];
        assert(i + 1 != tokens.len());
    }
    if token_matches_spec(candidate, tokens) {
        let i = choose|i: int| 0 <= i < tokens.len() && (if i + 1 == tokens.len() {
            starts_with(candidate, #[trigger] tokens[i])
        } else {
            candidate == tokens[i]
        });
        if i + 1 == tokens.len() {
            assert(tokens[i] == tokens.last());
        }
    }
}

/// A character of a snippet is highlighted exactly when it lies in a word
/// whose lower-cased text equals one of the query's earlier words or begins
/// with its last word.
pub proof fn lemma_highlight_rule(s: Seq<char>, ntokens: Seq<Seq<char>>, p: int)
    requires
        ntokens.len() > 0,
    ensures
        is_highlighted(s, ntokens, p) <==> exists|k: int| 0 <= k < word_spans(s).len()
            && word_spans(s)[k].0 <= p < word_spans(s)[k].1
            && ({
                let w = lowercase(s.subrange(#[trigger] word_spans(s)[k].0, word_spans(s)[k].1));
                starts_with(w, ntokens.last()) || exists|i: int| 0 <= i < ntokens.len() - 1 && w == #[trigger] ntokens[i]
            }),
{
    let spans = word_spans(s);
    assert forall|k: int| 0 <= k < spans.len() implies
        (span_matches(s, #[trigger] spans[k], ntokens) <==> ({
            let w = lowercase(s.subrange(spans[k].0, spans[k].1));
            starts_with(w, ntokens.last()) || exists|i: int| 0 <= i < ntokens.len() - 1 && w == #[trigger] ntokens[i]
        })) by {
        lemma_prefix_only_for_last_word(lowercase(s.subrange(spans[k].0, spans[k].1)), ntokens);
    }
}

pub fn token_matches(candidate: &Vec<char>, tokens: &Vec<Vec<char>>) -> (r: bool)
    ensures
        r == token_matches_spec(candidate@, tokens@.map_values(|t: Vec<char>| t@)),
{
    let ghost tv = tokens@.map_values(|t: Vec<char>| t@);
    let n = tokens.len();
    for i in 0..n
        invariant
            n == tokens.len(),
            tv == tokens@.map_values(|t: Vec<char>| t@),
            forall|k: int| 0 <= k < i ==> !(if k + 1 == tv.len() {
                starts_with(candidate@, #[trigger] tv[k])
            } else {
                candidate@ == tv[k]
            }),
    {
        let hit = if i + 1 == n {
            let b = crate::text::starts_with_at(candidate.as_slice(), 0, tokens[i].as_slice());
            proof { assert(candidate@.skip(0) =~= candidate@); }
            b
        } else {
            crate::text::chars_eq(candidate, &tokens[i])
        };
        if hit {
            proof { assert(tv[i as int] == tokens@[i as int]@); }
            return true;
        }
    }
    false
}

// ---------------------------------------------------------------------
// Snippets
// ---------------------------------------------------------------------

/// Characters of context kept on each side of the first match.
pub const CONTEXT_CHARS: usize = 60;
/// Length of a snippet when nothing matches.
pub const DEFAULT_SNIPPET_CHARS: usize = 120;

/// Whether a word (given by its span) matches the query tokens.
pub open spec fn span_matches(s: Seq<char>, span: (int, int), ntokens: Seq<Seq<char>>) -> bool {
    token_matches_spec(lowercase(s.subrange(span.0, span.1)), ntokens)
}

/// The window of `s` a snippet shows: 60 characters around the first
/// matching word, or the first 120 characters when no word matches.
pub open spec fn snippet_window(s: Seq<char>, ntokens: Seq<Seq<char>>) -> (int, int) {
    let spans = word_spans(s);
    if exists|i: int| 0 <= i < spans.len() && span_matches(s, spans[i], ntokens) {
        let i = choose|i: int| 0 <= i < spans.len() && span_matches(s, #[trigger] spans[i], ntokens)
            && forall|j: int| 0 <= j < i ==> !span_matches(s, #[trigger] spans[j], ntokens);
        let a = spans[i].0 - 60;
        let b = spans[i].1 + 60;
        (if a < 0 { 0 } else { a }, if b > s.len() { s.len() as int } else { b })
    } else {
        (0, if s.len() < 120 { s.len() as int } else { 120 })
    }
}

/// Whether position `p` of `s` lies in a word that matches.
pub open spec fn is_highlighted(s: Seq<char>, ntokens: Seq<Seq<char>>, p: int) -> bool {
    exists|i: int| 0 <= i < word_spans(s).len() && span_matches(s, #[trigger] word_spans(s)[i], ntokens)
        && word_spans(s)[i].0 <= p < word_spans(s)[i].1
}

/// The runs of equal highlighting of `text` with per-character flags `flags`.
pub open spec fn group_runs(text: Seq<char>, flags: Seq<bool>) -> Seq<(Seq<char>, bool)>
    decreases text.len(),
{
    if text.len() == 0 {
        Seq::empty()
    } else {
        let prev = group_runs(text.drop_last(), flags.take(text.len() - 1));
        let c = text.last();
        let f = flags[text.len() - 1];
        if prev.len() > 0 && prev.last().1 == f {
            prev.update(prev.len() - 1, (prev.last().0.push(c), f))
        } else {
            prev.push((seq![c], f))
        }
    }
}

pub open spec fn runs_view(runs: Seq<SnippetRun>) -> Seq<(Seq<char>, bool)> {
    runs.map_values(|r: SnippetRun| (r.text@, r.highlighted))
}

/// The snippet of `content` for the lower-cased query tokens: the window's
/// characters grouped into runs of equal highlighting.
pub open spec fn snippet_runs_spec(s: Seq<char>, ntokens: Seq<Seq<char>>) -> Seq<(Seq<char>, bool)> {
    let (a, b) = snippet_window(s, ntokens);
    group_runs(s.subrange(a, b), Seq::new((b - a) as nat, |k: int| is_highlighted(s, ntokens, a + k)))
}

/// The first word that matches.
fn first_matching_span(spans: &Vec<TextTokenSpan>, ntokens: &Vec<Vec<char>>, Ghost(s): Ghost<Seq<char>>) -> (r: Option<usize>)
    requires
        spans_of(s, spans@),
    ensures
        match r {
            Some(i) => i < spans.len() && span_matches(s, word_spans(s)[i as int], ntokens@.map_values(|t: Vec<char>| t@))
                && forall|j: int| 0 <= j < i ==> !span_matches(s, #[trigger] word_spans(s)[j], ntokens@.map_values(|t: Vec<char>| t@)),
            None => forall|j: int| 0 <= j < spans.len() ==> !span_matches(s, #[trigger] word_spans(s)[j], ntokens@.map_values(|t: Vec<char>| t@)),
        },
{
    for i in 0..spans.len()
        invariant
            spans_of(s, spans@),
            forall|j: int| 0 <= j < i ==> !span_matches(s, #[trigger] word_spans(s)[j], ntokens@.map_values(|t: Vec<char>| t@)),
    {
        let m = token_matches(&spans[i].normalized, ntokens);
        proof { assert(spans@[i as int] == spans[i as int]); }
        if m {
            return Some(i);
        }
    }
    None
}

/// The runs of a window of characters by their highlight flags.
fn group_into_runs(cs: &Vec<char>, from: usize, to: usize, flags: &Vec<bool>) -> (runs: Vec<SnippetRun>)
    requires
        from <= to <= cs.len(),
        flags.len() == to - from,
    ensures
        runs_view(runs@) == group_runs(cs@.subrange(from as int, to as int), flags@),
{
    let ghost text = cs@.subrange(from as int, to as int);
    let mut runs: Vec<SnippetRun> = Vec::new();
    let mut k: usize = 0;
    while k < to - from
        invariant
            from <= to <= cs.len(),
            flags.len() == to - from,
            text == cs@.subrange(from as int, to as int),
            k <= to - from,
            runs_view(runs@) == group_runs(text.take(k as int), flags@.take(k as int)),
        decreases to - from - k,
    {
        let c = cs[from + k];
        let f = flags[k];
        proof {
            let t1 = text.take(k + 1);
            assert(t1.drop_last() =~= text.take(k as int));
            assert(flags@.take(k + 1).take(k as int) =~= flags@.take(k as int));
            assert(t1.last() == c);
            assert(flags@.take(k + 1)[k as int] == f);
        }
        let n = runs.len();
        if n > 0 && runs[n - 1].highlighted == f {
            let last = runs.pop().unwrap();
            let mut text_run = last.text;
            push_char(&mut text_run, c);
            runs.push(SnippetRun { text: text_run, highlighted: f });
            proof {
                assert(runs_view(runs@) =~= group_runs(text.take(k + 1), flags@.take(k + 1)));
            }
        } else {
            let mut text_run = String::new();
            push_char(&mut text_run, c);
            runs.push(SnippetRun { text: text_run, highlighted: f });
            proof {
                assert(text_run@ =~= seq![c]);
                assert(runs_view(runs@) =~= group_runs(text.take(k + 1), flags@.take(k + 1)));
            }
        }
        k = k + 1;
    }
    proof {
        assert(text.take((to - from) as int) =~= text);
        assert(flags@.take((to - from) as int) =~= flags@);
    }
    runs
}

/// The snippet of a text for a query: the window around the first matching
/// word, with matching words highlighted, as runs of equal highlighting.
pub fn build_snippet_runs(content: &str, query_tokens: &Vec<String>) -> (runs: Vec<SnippetRun>)
    ensures
        runs_view(runs@) == snippet_runs_spec(content@, query_tokens@.map_values(|t: String| lowercase(t@))),
{
    let cs = chars_of(content);
    let ghost s = cs@;
    let mut ntokens: Vec<Vec<char>> = Vec::new();
    for i in 0..query_tokens.len()
        invariant
            ntokens@.map_values(|t: Vec<char>| t@) == query_tokens@.take(i as int).map_values(|t: String| lowercase(t@)),
    {
        let t = chars_of(query_tokens[i].as_str());
        let lower = to_lowercase(t.as_slice());
        let ghost prev = ntokens@;
        ntokens.push(lower);
        proof {
            assert(ntokens@ == prev.push(lower));
            assert(lower@ == lowercase(query_tokens@[i as int]@));
            assert(query_tokens@.take(i + 1) =~= query_tokens@.take(i as int).push(query_tokens@[i as int]));
            assert(ntokens@.map_values(|t: Vec<char>| t@) =~= prev.map_values(|t: Vec<char>| t@).push(lower@));
            assert(query_tokens@.take(i + 1).map_values(|t: String| lowercase(t@))
                =~= query_tokens@.take(i as int).map_values(|t: String| lowercase(t@)).push(lowercase(query_tokens@[i as int]@)));
            assert(ntokens@.map_values(|t: Vec<char>| t@) =~= query_tokens@.take(i + 1).map_values(|t: String| lowercase(t@)));
        }
    }
    proof { assert(query_tokens@.take(query_tokens.len() as int) =~= query_tokens@); }
    let ghost nt = ntokens@.map_values(|t: Vec<char>| t@);

    let spans = text_token_spans(&cs);
    let first = first_matching_span(&spans, &ntokens, Ghost(s));
    let len = cs.len();
    let (window_start, window_end) = match first {
        Some(i) => {
            let a = if spans[i].start >= CONTEXT_CHARS { spans[i].start - CONTEXT_CHARS } else { 0 };
            let b = if len >= CONTEXT_CHARS && spans[i].end <= len - CONTEXT_CHARS { spans[i].end + CONTEXT_CHARS } else { len };
            (a, b)
        }
        None => (0, if len < DEFAULT_SNIPPET_CHARS { len } else { DEFAULT_SNIPPET_CHARS }),
    };
    proof {
        let ws = word_spans(s);
        match first {
            Some(i) => {
                assert(span_matches(s, ws[i as int], nt));
                let c = choose|j: int| 0 <= j < ws.len() && span_matches(s, #[trigger] ws[j], nt)
                    && forall|jj: int| 0 <= jj < j ==> !span_matches(s, #[trigger] ws[jj], nt);
                if c < i { assert(!span_matches(s, ws[c], nt)); }
                if c > i { assert(!span_matches(s, ws[i as int], nt)); }
                assert(spans@[i as int].start == ws[i as int].0);
            }
            None => {
                assert forall|j: int| 0 <= j < ws.len() implies !span_matches(s, ws[j], nt) by {
                    assert(!span_matches(s, #[trigger] ws[j], nt));
                }
            }
        }
        assert((window_start as int, window_end as int) == snippet_window(s, nt));
    }

    let mut flags: Vec<bool> = Vec::new();
    let mut k: usize = window_start;
    while k < window_end
        invariant
            window_start <= k <= window_end <= cs.len(),
            flags.len() == k - window_start,
            forall|m: int| 0 <= m < flags.len() ==> flags@[m] == is_highlighted(s, nt, window_start + m),
            spans_of(s, spans@),
            nt == ntokens@.map_values(|t: Vec<char>| t@),
            s == cs@,
        decreases window_end - k,
    {
        let mut hit = false;
        for j in 0..spans.len()
            invariant
                spans_of(s, spans@),
                nt == ntokens@.map_values(|t: Vec<char>| t@),
                hit <==> exists|jj: int| 0 <= jj < j && span_matches(s, #[trigger] word_spans(s)[jj], nt)
                    && word_spans(s)[jj].0 <= k < word_spans(s)[jj].1,
        {
            if !hit && spans[j].start <= k && k < spans[j].end && token_matches(&spans[j].normalized, &ntokens) {
                hit = true;
            }
            proof { assert(spans@[j as int] == spans[j as int]); }
        }
        flags.push(hit);
        k = k + 1;
    }
    proof {
        assert(flags@ =~= Seq::new((window_end - window_start) as nat, |m: int| is_highlighted(s, nt, window_start + m)));
    }
    group_into_runs(&cs, window_start, window_end, &flags)
}

/// The text of a snippet: its runs put back together.
pub open spec fn runs_text(runs: Seq<(Seq<char>, bool)>) -> Seq<char>
    decreases runs.len(),
{
    if runs.len() == 0 { Seq::empty() } else { runs_text(runs.drop_last()) + runs.last().0 }
}

pub fn snippet_text(runs: &Vec<SnippetRun>) -> (s: String)
    ensures
        s@ == runs_text(runs_view(runs@)),
{
    let ghost rv = runs_view(runs@);
    let mut s = String::new();
    for i in 0..runs.len()
        invariant
            rv == runs_view(runs@),
            s@ == runs_text(rv.take(i as int)),
    {
        push_str(&mut s, runs[i].text.as_str());
        proof {
            assert(rv.take(i + 1).drop_last() =~= rv.take(i as int));
            assert(s@ =~= runs_text(rv.take(i + 1)));
        }
    }
    proof { assert(rv.take(runs.len() as int) =~= rv); }
    s
}

// ---------------------------------------------------------------------
// Laws of snippets
// ---------------------------------------------------------------------

/// Grouping characters into runs loses and reorders nothing, leaves no run
/// empty, and never puts two runs of the same highlighting side by side.
pub proof fn lemma_runs_rebuild_text(text: Seq<char>, flags: Seq<bool>)
    requires
        flags.len() == text.len(),
    ensures
        runs_text(group_runs(text, flags)) == text,
        forall|i: int| 0 <= i < group_runs(text, flags).len() ==> (#[trigger] group_runs(text, flags)[i]).0.len() > 0,
        forall|i: int| 0 <= i < group_runs(text, flags).len() - 1 ==>
            (#[trigger] group_runs(text, flags)[i]).1 != group_runs(text, flags)[i + 1].1,
        text.len() > 0 ==> group_runs(text, flags).len() > 0 && group_runs(text, flags).last().1 == flags.last(),
    decreases text.len(),
{
    if text.len() > 0 {
        let t0 = text.drop_last();
        let f0 = flags.take(text.len() - 1);
        lemma_runs_rebuild_text(t0, f0);
        let prev = group_runs(t0, f0);
        let c = text.last();
        let f = flags[text.len() - 1];
        let runs = group_runs(text, flags);
        if prev.len() > 0 && prev.last().1 == f {
            let n = prev.len() - 1;
            assert(runs == prev.update(n, (prev.last().0.push(c), f)));
            assert(runs.drop_last() =~= prev.drop_last());
            assert(runs_text(prev) == runs_text(prev.drop_last()) + prev.last().0);
            assert(runs_text(runs) == runs_text(runs.drop_last()) + runs.last().0);
            assert(runs_text(runs) =~= runs_text(prev) + seq![c]);
            assert(text =~= t0 + seq![c]);
            assert forall|i: int| 0 <= i < runs.len() implies (#[trigger] runs[i]).0.len() > 0 by {
                if i < n { assert(runs[i] == prev[i]); }
            }
            assert forall|i: int| 0 <= i < runs.len() - 1 implies (#[trigger] runs[i]).1 != runs[i + 1].1 by {
                assert(runs[i] == prev[i]);
                if i + 1 < n { assert(runs[i + 1] == prev[i + 1]); }
            }
        } else {
            assert(runs == prev.push((seq![c], f)));
            assert(runs.drop_last() =~= prev);
            assert(runs_text(runs) == runs_text(runs.drop_last()) + runs.last().0);
            assert(text =~= t0 + seq![c]);
            assert forall|i: int| 0 <= i < runs.len() implies (#[trigger] runs[i]).0.len() > 0 by {
                if i < prev.len() { assert(runs[i] == prev[i]); }
            }
            assert forall|i: int| 0 <= i < runs.len() - 1 implies (#[trigger] runs[i]).1 != runs[i + 1].1 by {
                assert(runs[i] == prev[i]);
                if i + 1 < prev.len() { assert(runs[i + 1] == prev[i + 1]); }
            }
        }
    }
}

/// Every word that `word_spans` finds lies inside the text, starts before it ends.
pub proof fn lemma_word_spans_in_text(s: Seq<char>)
    ensures
        forall|i: int| 0 <= i < word_spans(s).len() ==>
            0 <= (#[trigger] word_spans(s)[i]).0 < word_spans(s)[i].1 <= s.len(),
{
    lemma_span_state_bounds(s, s.len() as int);
    let (done, start) = span_state(s, s.len() as int);
    if let Some(a) = start {
        assert forall|i: int| 0 <= i < word_spans(s).len() implies
            0 <= (#[trigger] word_spans(s)[i]).0 < word_spans(s)[i].1 <= s.len() by {
            if i < done.len() {
                assert(word_spans(s)[i] == done[i]);
            }
        }
    }
}

/// The window of a snippet lies inside the text; with no matching word it
/// is the first 120 characters (or the whole of a shorter text).
pub proof fn lemma_window_bounds(s: Seq<char>, ntokens: Seq<Seq<char>>)
    ensures
        0 <= snippet_window(s, ntokens).0 <= snippet_window(s, ntokens).1 <= s.len(),
        !(exists|i: int| 0 <= i < word_spans(s).len() && span_matches(s, word_spans(s)[i], ntokens))
            ==> snippet_window(s, ntokens) == (0int, if s.len() < 120 { s.len() as int } else { 120int }),
{
    let spans = word_spans(s);
    if exists|i: int| 0 <= i < spans.len() && span_matches(s, spans[i], ntokens) {
        let w = choose|i: int| 0 <= i < spans.len() && span_matches(s, spans[i], ntokens);
        lemma_first_match_exists(s, ntokens, w);
        let i = choose|i: int| 0 <= i < spans.len() && span_matches(s, #[trigger] spans[i], ntokens)
            && forall|j: int| 0 <= j < i ==> !span_matches(s, #[trigger] spans[j], ntokens);
        lemma_word_span_in_text(s, i);
    }
}

/// When some word matches, a first one does.
proof fn lemma_first_match_exists(s: Seq<char>, ntokens: Seq<Seq<char>>, w: int)
    requires
        0 <= w < word_spans(s).len(),
        span_matches(s, word_spans(s)[w], ntokens),
    ensures
        exists|i: int| 0 <= i < word_spans(s).len() && span_matches(s, #[trigger] word_spans(s)[i], ntokens)
            && forall|j: int| 0 <= j < i ==> !span_matches(s, #[trigger] word_spans(s)[j], ntokens),
    decreases w,
{
    let spans = word_spans(s);
    if exists|j: int| 0 <= j < w && span_matches(s, spans[j], ntokens) {
        let j = choose|j: int| 0 <= j < w && span_matches(s, spans[j], ntokens);
        lemma_first_match_exists(s, ntokens, j);
    } else {
        assert(forall|j: int| 0 <= j < w ==> !span_matches(s, #[trigger] spans[j], ntokens));
    }
}

proof fn lemma_word_span_in_text(s: Seq<char>, i: int)
    requires
        0 <= i < word_spans(s).len(),
    ensures
        0 <= word_spans(s)[i].0 < word_spans(s)[i].1 <= s.len(),
{
    lemma_word_spans_in_text(s);
}

/// A snippet shows one stretch of the content, unchanged: put back together,
/// its runs give the characters of its window, which lies inside the content.
pub proof fn lemma_snippet_is_a_window(s: Seq<char>, ntokens: Seq<Seq<char>>)
    ensures
        0 <= snippet_window(s, ntokens).0 <= snippet_window(s, ntokens).1 <= s.len(),
        runs_text(snippet_runs_spec(s, ntokens)) == s.subrange(snippet_window(s, ntokens).0, snippet_window(s, ntokens).1),
{
    lemma_window_bounds(s, ntokens);
    let (a, b) = snippet_window(s, ntokens);
    let flags = Seq::new((b - a) as nat, |k: int| is_highlighted(s, ntokens, a + k));
    lemma_runs_rebuild_text(s.subrange(a, b), flags);
}

// ---------------------------------------------------------------------
// Searching
// ---------------------------------------------------------------------

/// The query's words, lower-cased, as snippets compare them.
pub open spec fn lowered_tokens(query: Seq<char>) -> Seq<Seq<char>> {
    tokenize(query).map_values(|t: Seq<char>| lowercase(t))
}

/// A search result's snippet is the snippet of some content for the query's
/// words, and its text is its runs put back together.
pub open spec fn searched_item(item: PromptListItem, ntokens: Seq<Seq<char>>) -> bool {
    &&& item.snippet@ == runs_text(runs_view(item.snippet_runs@))
    &&& exists|c: Seq<char>| runs_view(item.snippet_runs@) == #[trigger] snippet_runs_spec(c, ntokens)
}

/// The full-text search: active prompts whose indexed text matches the
/// query expression, best match first, at most the given number of them.
pub const SEARCH_SQL: &'static str = "SELECT p.id, p.title, p.description, p.is_favorite, p.copy_count,
                p.last_copied_at,
                COALESCE(v.content, '') AS primary_content,
                (SELECT COUNT(*) FROM variants WHERE prompt_id = p.id AND deleted_at IS NULL) AS variant_count
         FROM prompts_fts f
         JOIN fts_mapping m ON m.rowid = f.rowid
         JOIN prompts p ON p.id = m.prompt_id
         LEFT JOIN variants v
           ON v.id = p.primary_variant_id
          AND v.prompt_id = p.id
          AND v.deleted_at IS NULL
         WHERE prompts_fts MATCH ?1 AND p.deleted_at IS NULL
         ORDER BY f.rank
         LIMIT ?2";

/// `item` is the result a search row describes (id, title, description,
/// is_favorite, copy_count, last_copied_at, primary content, variant_count):
/// its snippet is the snippet of that content for the query's words.
pub open spec fn search_row(row: Seq<SqlValue>, item: PromptListItem, ntokens: Seq<Seq<char>>) -> bool {
    &&& row.len() == 8
    &&& row[0] == SqlValue::Text(item.id)
    &&& row[1] == SqlValue::Text(item.title)
    &&& prompt_service::opt_text_col(row[2], item.description)
    &&& prompt_service::flag_col(row[3], item.is_favorite)
    &&& row[4] == SqlValue::Integer(item.copy_count)
    &&& prompt_service::opt_text_col(row[5], item.last_copied_at)
    &&& row[7] == SqlValue::Integer(item.variant_count)
    &&& row[6] matches SqlValue::Text(c) && runs_view(item.snippet_runs@) == snippet_runs_spec(c@, ntokens)
    &&& item.snippet@ == runs_text(runs_view(item.snippet_runs@))
}

/// How many of `n` rows a search keeps under `limit`: a negative limit
/// keeps them all, as SQLite's `LIMIT` does.
pub open spec fn kept(n: int, limit: int) -> int {
    if limit < 0 { n } else if limit < n { limit } else { n }
}

/// The parameters a search hands to SQLite: the full-text expression built
/// from the query's words, and the limit.
pub open spec fn search_params(params: Seq<SqlValue>, query: Seq<char>, limit: i64) -> bool {
    &&& params.len() == 2
    &&& params[0] matches SqlValue::Text(q) && q@ == fts_query(tokenize(query))
    &&& params[1] == SqlValue::Integer(limit)
}

/// Active prompts matching every word of the query (the last as a prefix),
/// best match first, each with a highlighted snippet of its primary content.
/// A query without words finds nothing and asks nothing of the database;
/// any other query is handed over as one full-text search, and the results
/// are its rows, in order, at most `limit` of them.
pub fn search_prompts(conn: &mut Db, query: &str, limit: i64) -> (r: AppResult<Vec<PromptListItem>>)
    ensures
        sql::extends(old(conn).calls(), final(conn).calls()),
        r is Ok ==> sql::writes_ok(old(conn).calls(), final(conn).calls()),
        sql::all_met(old(conn).calls(), final(conn).calls()) ==> r is Ok,
        tokenize(query@).len() == 0 ==> (r matches Ok(items) && items.len() == 0)
            && final(conn).calls() == old(conn).calls(),
        tokenize(query@).len() > 0 ==> {
            let n = old(conn).calls().len() as int;
            &&& final(conn).calls().len() > n
            &&& final(conn).calls()[n].sql == SEARCH_SQL@
            &&& search_params(final(conn).calls()[n].params, query@, limit)
            &&& r matches Ok(items) ==> final(conn).calls()[n].outcome matches sql::SqlOutcome::Rows(rows)
                && items.len() == kept(rows.len() as int, limit as int)
                && forall|i: int| 0 <= i < items.len() ==> search_row(rows[i], #[trigger] items[i], lowered_tokens(query@))
        },
        limit >= 0 ==> (r matches Ok(items) ==> items.len() <= limit),
        r matches Ok(items) ==> forall|i: int| 0 <= i < items.len() ==> searched_item(#[trigger] items[i], lowered_tokens(query@)),
        r matches Ok(items) ==> forall|i: int| 0 <= i < items.len()
            ==> tag_service::tags_read(final(conn).calls(), (#[trigger] items[i]).id@, items[i].tags@),
{
    let tokens = tokenize_query(query);
    proof {
        assert(tokens@.map_values(|t: String| lowercase(t@)) =~= lowered_tokens(query@)) by {
            assert forall|k: int| 0 <= k < tokens@.len() implies
                tokens@.map_values(|t: String| lowercase(t@))[k] == lowered_tokens(query@)[k] by {
                assert(tokens@.map_values(|t: String| t@)[k] == tokenize(query@)[k]);
            }
        }
    }
    if tokens.len() == 0 {
        return Ok(Vec::new());
    }
    let fts = build_fts_query(&tokens);
    let ghost n = conn.calls().len() as int;
    let rows = sql::query_all(
        conn,
        SEARCH_SQL,
        &sql::params2(SqlValue::Text(fts), SqlValue::Integer(limit)),
        &[sql::Kind::Text, sql::Kind::Text, sql::Kind::OptText, sql::Kind::Int, sql::Kind::Int, sql::Kind::OptText, sql::Kind::Text, sql::Kind::Int])?;
    let ghost after_query = conn.calls();
    let ghost outcome_rows = sql::rows_view(rows@);
    proof {
        assert(after_query[n].sql == SEARCH_SQL@);
        assert(search_params(after_query[n].params, query@, limit));
    }
    let mut count: usize = rows.len();
    if limit >= 0 && (limit as i128) < (count as i128) {
        count = limit as usize;
    }
    let mut items: Vec<PromptListItem> = Vec::new();
    for i in 0..count
        invariant
            sql::extends(old(conn).calls(), conn.calls()),
            sql::extends(after_query, conn.calls()),
            after_query.len() == n + 1,
            n == old(conn).calls().len(),
            after_query[n].outcome == sql::SqlOutcome::Rows(outcome_rows),
            after_query[n].sql == SEARCH_SQL@,
            search_params(after_query[n].params, query@, limit),
            outcome_rows == sql::rows_view(rows@),
            count <= rows.len(),
            count == kept(rows.len() as int, limit as int),
            forall|k: int| 0 <= k < rows.len() ==> #[trigger] rows[k].len() == 8,
            tokenize(query@).len() > 0,
            tokens@.map_values(|t: String| lowercase(t@)) == lowered_tokens(query@),
            items.len() == i,
            forall|k: int| 0 <= k < items.len() ==> searched_item(#[trigger] items[k], lowered_tokens(query@)),
            forall|k: int| 0 <= k < items.len() ==> search_row(outcome_rows[k], #[trigger] items[k], lowered_tokens(query@)),
            sql::writes_ok(old(conn).calls(), conn.calls()),
            sql::rows_fit(outcome_rows, prompt_service::list_kinds()),
            forall|k: int| 0 <= k < items.len() ==> tag_service::tags_read(conn.calls(), (#[trigger] items[k]).id@, items[k].tags@),
    {
        proof { assert(outcome_rows[i as int] == rows[i as int]@); }
        let row = &rows[i];
        let id = sql::col_text(row, 0)?;
        let primary_content = sql::col_text(row, 6)?;
        let ghost before = conn.calls();
        let ghost prev = items@;
        let tags = tag_service::get_tags_for_prompt(conn, id.as_str())?;
        proof { assert(tag_service::tags_read_at(conn.calls(), before.len() as int, id@, tags@)); }
        let snippet_runs = build_snippet_runs(primary_content.as_str(), &tokens);
        let snippet = snippet_text(&snippet_runs);
        let ghost content_view = primary_content@;
        items.push(PromptListItem {
            id,
            title: sql::col_text(row, 1)?,
            description: sql::col_opt_text(row, 2)?,
            snippet,
            snippet_runs,
            is_favorite: sql::col_bool(row, 3)?,
            variant_count: sql::col_int(row, 7)?,
            copy_count: sql::col_int(row, 4)?,
            last_copied_at: sql::col_opt_text(row, 5)?,
            tags,
        });
        proof {
            let it = items[items.len() - 1];
            assert(runs_view(it.snippet_runs@) == snippet_runs_spec(content_view, lowered_tokens(query@)));
            assert(searched_item(it, lowered_tokens(query@)));
            assert(outcome_rows[i as int] == rows[i as int]@);
            assert(search_row(outcome_rows[i as int], it, lowered_tokens(query@)));
            assert forall|k: int| 0 <= k < items.len()
                implies tag_service::tags_read(conn.calls(), (#[trigger] items@[k]).id@, items@[k].tags@) by {
                if k < i {
                    assert(items@[k] == prev[k]);
                    tag_service::lemma_tags_read_stable(before, conn.calls(), prev[k].id@, prev[k].tags@);
                }
            }
        }
    }
    Ok(items)
}

/// A search with an optional limit, checked and capped as for every search.
pub fn search_prompts_page(conn: &mut Db, query: &str, limit: Option<i64>) -> (r: AppResult<Vec<PromptListItem>>)
    ensures
        sql::extends(old(conn).calls(), final(conn).calls()),
        r is Ok ==> sql::writes_ok(old(conn).calls(), final(conn).calls()),
        sql::all_met(old(conn).calls(), final(conn).calls()) && or_default(limit, MAX_SEARCH_RESULTS) >= 1 ==> r is Ok,
        or_default(limit, MAX_SEARCH_RESULTS) < 1 ==> (r matches Err(AppError::Invalid(m)) && m@ == "limit must be at least 1"@),
        or_default(limit, MAX_SEARCH_RESULTS) >= 1 && tokenize(query@).len() == 0 ==> (r matches Ok(items) && items.len() == 0),
        or_default(limit, MAX_SEARCH_RESULTS) >= 1 && tokenize(query@).len() > 0 ==> {
            let n = old(conn).calls().len() as int;
            let capped = crate::services::pagination::min_i64(or_default(limit, MAX_SEARCH_RESULTS), MAX_SEARCH_RESULTS);
            &&& final(conn).calls().len() > n
            &&& final(conn).calls()[n].sql == SEARCH_SQL@
            &&& search_params(final(conn).calls()[n].params, query@, capped)
            &&& r matches Ok(items) ==> items.len() <= capped
        },
{
    let limit = sanitize_search_limit(limit)?;
    search_prompts(conn, query, limit)
}

}
