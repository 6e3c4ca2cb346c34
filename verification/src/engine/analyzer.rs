//! Word segmentation for the index: jieba's search-mode segmentation of mixed
//! Chinese and Latin text, and the token stream that the index's analyzers read.
use vstd::prelude::*;

verus! {

/// Name under which the jieba analyzer is registered.
pub const CHINESE_ANALYZER_NAME: &'static str = "chinese_jieba";

/// Name under which the whitespace-and-punctuation analyzer is registered.
pub const ENGLISH_ANALYZER_NAME: &'static str = "english_standard";

/// Name under which the default analyzer (jieba, lower-cased) is registered.
pub const DEFAULT_ANALYZER_NAME: &'static str = "default_mixed";

/// A word found by jieba, with its start and end as character positions.
#[derive(Debug, Clone, PartialEq, Eq)]
pub struct WordToken {
    pub word: String,
    pub start: usize,
    pub end: usize,
}

/// The tokens, as (word, start, end), that jieba's search-mode segmentation
/// without HMM gives for `text` with the default dictionary.
pub uninterp spec fn jieba_search_tokens(text: Seq<char>) -> Seq<(Seq<char>, nat, nat)>;

/// The words of the search-mode segmentation of `text`, in order.
pub open spec fn jieba_search_words(text: Seq<char>) -> Seq<Seq<char>> {
    Seq::new(jieba_search_tokens(text).len(), |i: int| jieba_search_tokens(text)[i].0)
}

/// Calls `jieba_rs::Jieba::tokenize(text, TokenizeMode::Search, false)` on a
/// `Jieba` with the default dictionary. The contract claims that the tokens
/// come back as `jieba_search_tokens(text)` names them, and, as the source of
/// `cut` and `tokenize` shows (the cut words are consecutive pieces of the
/// text, and positions count characters), that each token's word is the
/// text's characters from its start to its end, which lies within the text.
#[verifier::external_body]
fn jieba_tokenize_search(text: &str) -> (r: Vec<WordToken>)
    ensures
        r@.len() == jieba_search_tokens(text@).len(),
        forall|i: int|
            0 <= i < r@.len() ==> {
                &&& (#[trigger] r@[i]).word@ == jieba_search_tokens(text@)[i].0
                &&& r@[i].start as nat == jieba_search_tokens(text@)[i].1
                &&& r@[i].end as nat == jieba_search_tokens(text@)[i].2
                &&& r@[i].end == r@[i].start + r@[i].word@.len()
                &&& r@[i].end <= text@.len()
                &&& r@[i].word@ == text@.subrange(r@[i].start as int, r@[i].end as int)
            },
{
    let jieba = jieba_rs::Jieba::new();
    jieba.tokenize(text, jieba_rs::TokenizeMode::Search, false).into_iter().map(
        |t| WordToken { word: t.word.to_string(), start: t.start, end: t.end },
    ).collect()
}

/// The words of jieba's search-mode segmentation of `text`, in order.
pub fn search_words(text: &str) -> (r: Vec<String>)
    ensures
        r@.len() == jieba_search_words(text@).len(),
        forall|i: int| 0 <= i < r@.len() ==> #[trigger] r@[i]@ == jieba_search_words(text@)[i],
{
    let tokens = jieba_tokenize_search(text);
    let mut words: Vec<String> = Vec::new();
    let mut k: usize = 0;
    while k < tokens.len()
        invariant
            k <= tokens@.len(),
            tokens@.len() == jieba_search_tokens(text@).len(),
            forall|i: int|
                0 <= i < tokens@.len() ==> (#[trigger] tokens@[i]).word@ == jieba_search_tokens(
                    text@,
                )[i].0,
            words@.len() == k,
            forall|i: int| 0 <= i < k ==> #[trigger] words@[i]@ == jieba_search_words(text@)[i],
        decreases tokens@.len() - k,
    {
        words.push(tokens[k].word.clone());
        k += 1;
    }
    words
}

/// A token as the index reads it: byte-free positions taken from jieba's
/// character positions, as the tokenizer reports them.
#[derive(Debug, Clone, PartialEq, Eq)]
pub struct TokenSpan {
    pub offset_from: usize,
    pub offset_to: usize,
    pub position: usize,
    pub text: String,
    pub position_length: usize,
}

impl TokenSpan {
    /// The token a stream holds before its first advance.
    pub fn empty() -> (t: TokenSpan)
        ensures
            t.offset_from == 0,
            t.offset_to == 0,
            t.position == usize::MAX,
            t.text@ == Seq::<char>::empty(),
            t.position_length == 1,
    {
        TokenSpan {
            offset_from: 0,
            offset_to: 0,
            position: usize::MAX,
            text: String::new(),
            position_length: 1,
        }
    }

    pub fn copy(&self) -> (t: TokenSpan)
        ensures
            t.offset_from == self.offset_from,
            t.offset_to == self.offset_to,
            t.position == self.position,
            t.text@ == self.text@,
            t.position_length == self.position_length,
    {
        TokenSpan {
            offset_from: self.offset_from,
            offset_to: self.offset_to,
            position: self.position,
            text: self.text.clone(),
            position_length: self.position_length,
        }
    }
}

/// Whether `span` is the token that jieba's token (word, start, end) becomes.
pub open spec fn span_of(span: TokenSpan, tok: (Seq<char>, nat, nat)) -> bool {
    &&& span.offset_from as nat == tok.1
    &&& span.offset_to as nat == tok.2
    &&& span.text@ == tok.0
    &&& span.position as nat == tok.1
    &&& span.position_length == span.offset_to - span.offset_from
}

/// Whether `span` lies within `text` and its text is the characters there.
pub open spec fn span_in(span: TokenSpan, text: Seq<char>) -> bool {
    &&& span.offset_from <= span.offset_to <= text.len()
    &&& span.text@ == text.subrange(span.offset_from as int, span.offset_to as int)
}

/// The tokenizer that segments text with jieba in search mode.
#[derive(Clone, Copy)]
pub struct JiebaTokenizer;

impl JiebaTokenizer {
    pub fn new() -> (t: JiebaTokenizer) {
        JiebaTokenizer
    }

    /// The tokens of `text`: one per jieba token, starting and ending at its
    /// character positions, at the position of its start.
    pub fn token_spans(&self, text: &str) -> (r: Vec<TokenSpan>)
        ensures
            r@.len() == jieba_search_tokens(text@).len(),
            forall|i: int|
                0 <= i < r@.len() ==> span_of(#[trigger] r@[i], jieba_search_tokens(text@)[i]),
            forall|i: int| 0 <= i < r@.len() ==> span_in(#[trigger] r@[i], text@),
    {
        let tokens = jieba_tokenize_search(text);
        let mut spans: Vec<TokenSpan> = Vec::new();
        let mut k: usize = 0;
        while k < tokens.len()
            invariant
                k <= tokens@.len(),
                tokens@.len() == jieba_search_tokens(text@).len(),
                forall|i: int|
                    0 <= i < tokens@.len() ==> {
                        &&& (#[trigger] tokens@[i]).word@ == jieba_search_tokens(text@)[i].0
                        &&& tokens@[i].start as nat == jieba_search_tokens(text@)[i].1
                        &&& tokens@[i].end as nat == jieba_search_tokens(text@)[i].2
                        &&& tokens@[i].end == tokens@[i].start + tokens@[i].word@.len()
                        &&& tokens@[i].end <= text@.len()
                        &&& tokens@[i].word@ == text@.subrange(tokens@[i].start as int, tokens@[i].end as int)
                    },
                spans@.len() == k,
                forall|i: int|
                    0 <= i < k ==> span_of(#[trigger] spans@[i], jieba_search_tokens(text@)[i]),
                forall|i: int| 0 <= i < k ==> span_in(#[trigger] spans@[i], text@),
            decreases tokens@.len() - k,
        {
            let t = &tokens[k];
            spans.push(
                TokenSpan {
                    offset_from: t.start,
                    offset_to: t.end,
                    text: t.word.clone(),
                    position: t.start,
                    position_length: t.end - t.start,
                },
            );
            k += 1;
        }
        spans
    }

    /// A stream over the tokens of `text`, before its first token.
    pub fn token_stream(&self, text: &str) -> (s: JiebaTokenStream)
        ensures
            s.tokens@.len() == jieba_search_tokens(text@).len(),
            forall|i: int|
                0 <= i < s.tokens@.len() ==> span_of(
                    #[trigger] s.tokens@[i],
                    jieba_search_tokens(text@)[i],
                ),
            forall|i: int| 0 <= i < s.tokens@.len() ==> span_in(#[trigger] s.tokens@[i], text@),
            s.index == 0,
            s.current.position == usize::MAX,
            s.current.text@ == Seq::<char>::empty(),
    {
        JiebaTokenStream { tokens: self.token_spans(text), index: 0, current: TokenSpan::empty() }
    }
}

/// A stream that hands out its tokens one by one.
pub struct JiebaTokenStream {
    pub tokens: Vec<TokenSpan>,
    pub index: usize,
    pub current: TokenSpan,
}

/// Whether two tokens agree in every field.
pub open spec fn same_span(a: TokenSpan, b: TokenSpan) -> bool {
    &&& a.offset_from == b.offset_from
    &&& a.offset_to == b.offset_to
    &&& a.position == b.position
    &&& a.text@ == b.text@
    &&& a.position_length == b.position_length
}

/// Whether one call of `advance` takes the stream from `pre` to `post` with
/// the answer `more`: true, with the next token current, while tokens remain;
/// false, with nothing changed, once they are spent.
pub open spec fn advance_step(pre: JiebaTokenStream, post: JiebaTokenStream, more: bool) -> bool {
    &&& post.tokens@ == pre.tokens@
    &&& more == (pre.index < pre.tokens@.len())
    &&& more ==> post.index == pre.index + 1 && same_span(post.current, pre.tokens@[pre.index as int])
    &&& !more ==> post.index == pre.index && same_span(post.current, pre.current)
}

impl JiebaTokenStream {
    /// Moves to the next token, as `advance_step` states it.
    pub fn advance(&mut self) -> (more: bool)
        ensures
            advance_step(*old(self), *final(self), more),
    {
        if self.index < self.tokens.len() {
            self.current = self.tokens[self.index].copy();
            self.index += 1;
            true
        } else {
            false
        }
    }

    /// The current token.
    pub fn token(&self) -> (t: &TokenSpan)
        ensures
            same_span(*t, self.current),
    {
        &self.current
    }

    /// The current token, to be changed in place: what is written through the
    /// reference becomes the current token, and nothing else changes.
    pub fn token_mut(&mut self) -> (t: &mut TokenSpan)
        ensures
            *t == old(self).current,
            final(self).tokens == old(self).tokens,
            final(self).index == old(self).index,
            final(self).current == *final(t),
    {
        &mut self.current
    }
}

} // verus!

verus! {

/// What the `k`th call of `advance` on a stream that started as `s0` gives
/// (`t` after it, answering `more`): true and the `k`th token while `k` is at
/// most the number of tokens; after that false, with the last token current,
/// or the starting token when there are none.
pub open spec fn kth_advance(s0: JiebaTokenStream, k: int, t: JiebaTokenStream, more: bool) -> bool {
    let n = s0.tokens@.len() as int;
    &&& t.tokens@ == s0.tokens@
    &&& more == (k <= n)
    &&& k <= n ==> same_span(t.current, s0.tokens@[k - 1])
    &&& k > n && n > 0 ==> same_span(t.current, s0.tokens@[n - 1])
    &&& k > n && n == 0 ==> same_span(t.current, s0.current)
}

proof fn lemma_advance_prefix(states: Seq<JiebaTokenStream>, answers: Seq<bool>, j: int)
    requires
        states.len() == answers.len() + 1,
        states[0].index == 0,
        forall|k: int| 0 <= k < answers.len() ==> advance_step(#[trigger] states[k], states[k + 1], answers[k]),
        0 <= j <= answers.len(),
    ensures
        states[j].tokens@ == states[0].tokens@,
        states[j].index == (if j <= states[0].tokens@.len() {
            j
        } else {
            states[0].tokens@.len() as int
        }),
        j >= 1 ==> kth_advance(states[0], j, states[j], answers[j - 1]),
    decreases j,
{
    if j > 0 {
        lemma_advance_prefix(states, answers, j - 1);
        assert(advance_step(states[j - 1], states[j], answers[j - 1]));
    }
}

/// Calls of `advance` on a fresh stream hand out its tokens in order: the
/// `k`th call answers true exactly while `k` is at most the number of tokens,
/// and makes the `k`th token current; every later call answers false and
/// keeps the last token current (the starting token, when there are none).
pub proof fn law_advance_hands_out_tokens_in_order(states: Seq<JiebaTokenStream>, answers: Seq<bool>)
    requires
        states.len() == answers.len() + 1,
        states[0].index == 0,
        forall|k: int| 0 <= k < answers.len() ==> advance_step(#[trigger] states[k], states[k + 1], answers[k]),
    ensures
        forall|k: int| 1 <= k <= answers.len() ==> kth_advance(states[0], k, #[trigger] states[k], answers[k - 1]),
{
    assert forall|k: int| 1 <= k <= answers.len() implies kth_advance(states[0], k, #[trigger] states[k], answers[k - 1]) by {
        lemma_advance_prefix(states, answers, k);
    }
}

} // verus!
