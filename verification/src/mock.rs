//! Offline, deterministic stand-ins for the live components: a generator with
//! canned answers, a bag-of-words embedder, a synthetic corpus.

use vstd::prelude::*;
use vstd::string::StringExecFns;
use vstd::utf8::encode_utf8;
use crate::number::{decimal, decimal_of, padded, padded_of};
use crate::text::{
    after_last, before_first, chars_of, find_from, find_last, lemma_occurs_in_suffix, lowercase,
    matches_at, occurs_at, replace_all, replaced, texts, to_lowercase, trim_range, trimmed, words, words_of,
};

verus! {

// ── Canned answers ──────────────────────────────────────────────────────────

/// Answers every prompt with its template.
#[derive(Clone, Debug)]
pub struct MockResponder {
    pub label: String,
    pub template: String,
}

/// The text ends with the mark that asks for an answer, as prompts do.
pub open spec fn asks_for_answer(s: Seq<char>) -> bool {
    occurs_at(s, "<|assistant|>\n"@, s.len() - "<|assistant|>\n"@.len())
}

/// A turn without the answer behind it: where it ends with the mark that asks
/// for an answer, all before that mark; else all before the first mark of an
/// answer.
pub open spec fn turn_of(s: Seq<char>) -> Seq<char> {
    if asks_for_answer(s) {
        s.take(s.len() - "<|assistant|>\n"@.len())
    } else {
        before_first(s, "<|assistant|>"@)
    }
}

/// What the last user turn of a prompt asks.
pub open spec fn user_query(prompt: Seq<char>) -> Seq<char> {
    trimmed(turn_of(after_last(prompt, "<|user|>\n"@)))
}

/// The answer of a template to a prompt: the template with the last user turn
/// in place of `{query}`.
pub open spec fn canned(template: Seq<char>, prompt: Seq<char>) -> Seq<char> {
    replaced(template, "{query}"@, user_query(prompt))
}

/// What the last user turn of `prompt` asks.
fn last_user_turn(prompt: &str) -> (r: String)
    ensures
        r@ == user_query(prompt@),
{
    let chars: Vec<char> = chars_of(prompt);
    let user: Vec<char> = chars_of("<|user|>\n");
    let request: Vec<char> = chars_of("<|assistant|>\n");
    let assistant: Vec<char> = chars_of("<|assistant|>");
    let n: usize = chars.len();
    let from: usize = match find_last(&chars, &user) {
        Some(i) => i + user.len(),
        None => 0,
    };
    let ghost rest = chars@.skip(from as int);
    assert(rest =~= after_last(prompt@, "<|user|>\n"@));
    if request.len() <= n - from {
        let to: usize = n - request.len();
        proof {
            lemma_occurs_in_suffix(chars@, request@, from as int, to - from);
        }
        if matches_at(&chars, &request, to) {
            assert(chars@.subrange(from as int, to as int) =~= turn_of(rest));
            return trim_range(&chars, from, to);
        }
    }
    assert(!asks_for_answer(rest));
    let to: usize = match find_from(&chars, &assistant, from) {
        Some(i) => i,
        None => n,
    };
    assert(chars@.subrange(from as int, to as int) =~= before_first(rest, "<|assistant|>"@));
    trim_range(&chars, from, to)
}

impl MockResponder {
    /// Answers `prompt`.
    pub fn respond(&mut self, prompt: &str) -> (r: String)
        ensures
            r@ == canned(old(self).template@, prompt@),
            *final(self) == *old(self),
    {
        proof {
            reveal_strlit("{query}");
        }
        let query: String = last_user_turn(prompt);
        replace_all(self.template.as_str(), "{query}", query.as_str())
    }

    /// The name of the backend.
    pub fn backend_name(&self) -> (r: &'static str)
        ensures
            r@ == "Mock"@,
    {
        "Mock"
    }

    /// The label of the agent that answers.
    pub fn model_name(&self) -> (r: String)
        ensures
            r@ == self.label@,
    {
        self.label.clone()
    }
}

// ── Bag of words ────────────────────────────────────────────────────────────

/// Embeds a text as its bag of words: every word adds one in the dimension
/// that its lowercase form hashes to.
#[derive(Clone, Copy, Debug)]
pub struct MockEmbedder;

/// The number of dimensions of [`MockEmbedder`].
pub const MOCK_EMBED_DIM: usize = 128;

/// The greatest count of a dimension: single-precision numbers do not count
/// past it by ones.
pub const MOCK_COUNT_LIMIT: u32 = 16_777_216;

/// The hash of a byte sequence by FNV-1a with 64 bits.
pub open spec fn fnv(bytes: Seq<u8>) -> u64
    decreases bytes.len(),
{
    if bytes.len() == 0 {
        0xcbf2_9ce4_8422_2325
    } else {
        (((fnv(bytes.drop_last()) ^ (bytes.last() as u64)) as nat * 0x0000_0100_0000_01b3)
            % 0x1_0000_0000_0000_0000) as u64
    }
}

/// The hash of the UTF-8 form of `s`.
pub fn fnv1a(s: &str) -> (r: u64)
    ensures
        r == fnv(encode_utf8(s@)),
{
    let bytes: &[u8] = s.as_bytes();
    let mut hash: u64 = 0xcbf2_9ce4_8422_2325;
    let mut i: usize = 0;
    while i < bytes.len()
        invariant
            i <= bytes@.len(),
            hash == fnv(bytes@.take(i as int)),
        decreases bytes@.len() - i,
    {
        assert(bytes@.take(i + 1).drop_last() =~= bytes@.take(i as int));
        hash = hash ^ (bytes[i] as u64);
        hash = hash.wrapping_mul(0x0000_0100_0000_01b3);
        i += 1;
    }
    assert(bytes@.take(bytes@.len() as int) =~= bytes@);
    hash
}

/// The dimension of a word.
pub open spec fn dimension_of(word: Seq<char>) -> int {
    (fnv(encode_utf8(lowercase(word))) % 128) as int
}

/// How many of `list` fall into dimension `d`.
pub open spec fn words_in(list: Seq<Seq<char>>, d: int) -> nat
    decreases list.len(),
{
    if list.len() == 0 {
        0
    } else {
        words_in(list.drop_last(), d) + if dimension_of(list.last()) == d {
            1nat
        } else {
            0nat
        }
    }
}

/// A count held to the limit of a dimension.
pub open spec fn limited(n: nat) -> nat {
    if n <= MOCK_COUNT_LIMIT {
        n
    } else {
        MOCK_COUNT_LIMIT as nat
    }
}

/// `v` is the vector of the words `list`.
pub open spec fn counts(v: Seq<u32>, list: Seq<Seq<char>>) -> bool {
    &&& v.len() == MOCK_EMBED_DIM
    &&& forall|d: int| 0 <= d < v.len() ==> #[trigger] v[d] as nat == limited(words_in(list, d))
}

impl MockEmbedder {
    /// The vector of `text`, in whole numbers.
    pub fn vectorize(text: &str) -> (r: Vec<u32>)
        ensures
            counts(r@, words(text@)),
    {
        let list: Vec<String> = words_of(text);
        let mut v: Vec<u32> = Vec::new();
        let mut d: usize = 0;
        while d < MOCK_EMBED_DIM
            invariant
                d <= MOCK_EMBED_DIM,
                v@.len() == d,
                forall|k: int| 0 <= k < d ==> v@[k] == 0,
            decreases MOCK_EMBED_DIM - d,
        {
            v.push(0);
            d += 1;
        }
        let mut i: usize = 0;
        while i < list.len()
            invariant
                i <= list@.len(),
                counts(v@, texts(list@).take(i as int)),
            decreases list@.len() - i,
        {
            let ghost before = texts(list@).take(i as int);
            let ghost after = texts(list@).take(i + 1);
            assert(after.drop_last() =~= before);
            assert(after.last() == list@[i as int]@);
            let word: String = to_lowercase(list[i].as_str());
            let hash: u64 = fnv1a(word.as_str());
            let at: usize = (hash % 128) as usize;
            assert(at == dimension_of(after.last()));
            assert(v@[at as int] as nat == limited(words_in(before, at as int)));
            let ghost held = v@;
            if v[at] < MOCK_COUNT_LIMIT {
                let more: u32 = v[at] + 1;
                v.set(at, more);
            }
            assert forall|k: int| 0 <= k < v@.len() implies #[trigger] v@[k] as nat == limited(
                words_in(after, k),
            ) by {
                assert(held[k] as nat == limited(words_in(before, k)));
            }
            i += 1;
        }
        assert(texts(list@).take(list@.len() as int) =~= texts(list@));
        v
    }

    /// Every text with its vector, in order.
    pub fn embed(&self, list: Vec<String>) -> (r: Vec<(String, Vec<u32>)>)
        ensures
            r@.len() == list@.len(),
            forall|i: int|
                0 <= i < r@.len() ==> (#[trigger] r@[i]).0 == list@[i] && counts(
                    r@[i].1@,
                    words(list@[i]@),
                ),
    {
        let mut r: Vec<(String, Vec<u32>)> = Vec::new();
        let mut i: usize = 0;
        while i < list.len()
            invariant
                i <= list@.len(),
                r@.len() == i,
                forall|k: int|
                    0 <= k < i ==> (#[trigger] r@[k]).0 == list@[k] && counts(
                        r@[k].1@,
                        words(list@[k]@),
                    ),
            decreases list@.len() - i,
        {
            let vector: Vec<u32> = MockEmbedder::vectorize(list[i].as_str());
            r.push((list[i].clone(), vector));
            i += 1;
        }
        r
    }

    /// The name of the backend.
    pub fn backend_name(&self) -> (r: &'static str)
        ensures
            r@ == "Mock"@,
    {
        "Mock"
    }

    /// The name of the model.
    pub fn model_name(&self) -> (r: &'static str)
        ensures
            r@ == "mock-bow"@,
    {
        "mock-bow"
    }

    /// The number of dimensions.
    pub fn dimension(&self) -> (r: usize)
        ensures
            r == MOCK_EMBED_DIM,
    {
        MOCK_EMBED_DIM
    }
}

// ── Synthetic corpus ────────────────────────────────────────────────────────

/// `count` synthetic Markdown documents that cycle through a few topics.
#[derive(Debug)]
pub struct MockCorpus {
    pub name: String,
    pub count: usize,
}

/// A document of a synthetic corpus.
#[derive(Debug)]
pub struct MockDocument {
    /// The corpus that it belongs to.
    pub corpus: String,
    pub id: String,
    /// Its format, by the file extension.
    pub format: String,
    pub text: String,
}

/// A [`MockDocument`] with its texts as character sequences.
pub struct MockDocumentView {
    pub corpus: Seq<char>,
    pub id: Seq<char>,
    pub format: Seq<char>,
    pub text: Seq<char>,
}

impl View for MockDocument {
    type V = MockDocumentView;

    open spec fn view(&self) -> MockDocumentView {
        MockDocumentView {
            corpus: self.corpus@,
            id: self.id@,
            format: self.format@,
            text: self.text@,
        }
    }
}

/// The title of topic `t` of the four.
pub open spec fn topic_title(t: int) -> Seq<char> {
    if t == 0 {
        "Quantum entanglement"@
    } else if t == 1 {
        "Linear regression"@
    } else if t == 2 {
        "Bayesian statistics"@
    } else {
        "Vector stores"@
    }
}

/// What there is to say on topic `t` of the four.
pub open spec fn topic_body(t: int) -> Seq<char> {
    if t == 0 {
        "Entangled particles share a correlated quantum state; measuring one particle instantly determines the other, regardless of the distance between them."@
    } else if t == 1 {
        "Linear regression models a response variable as a weighted sum of predictors plus Gaussian noise, fitted by ordinary least squares."@
    } else if t == 2 {
        "Bayesian statistics updates prior beliefs with observed data through Bayes' theorem to produce posterior probability distributions."@
    } else {
        "A vector store indexes text chunks by embedding similarity; hybrid search fuses BM25 keyword scoring with cosine vector ranking."@
    }
}

/// A document on one topic, as its part number `part`.
pub open spec fn topic_text(title: Seq<char>, body: Seq<char>, part: nat) -> Seq<char> {
    "# "@ + title + " — part "@ + decimal(part) + "\n\n"@ + body + "\n\nPart "@ + decimal(part)
        + " of "@ + title + " discusses the same topic in different words.\n"@
}

/// The text of synthetic document `i`.
pub open spec fn document_text(i: nat) -> Seq<char> {
    topic_text(topic_title((i % 4) as int), topic_body((i % 4) as int), i / 4)
}

/// The title of topic `t` of the four.
fn title_of(t: usize) -> (r: &'static str)
    requires
        t < 4,
    ensures
        r@ == topic_title(t as int),
{
    match t {
        0 => "Quantum entanglement",
        1 => "Linear regression",
        2 => "Bayesian statistics",
        _ => "Vector stores",
    }
}

/// What there is to say on topic `t` of the four.
fn body_of(t: usize) -> (r: &'static str)
    requires
        t < 4,
    ensures
        r@ == topic_body(t as int),
{
    match t {
        0 => "Entangled particles share a correlated quantum state; measuring one particle instantly determines the other, regardless of the distance between them.",
        1 => "Linear regression models a response variable as a weighted sum of predictors plus Gaussian noise, fitted by ordinary least squares.",
        2 => "Bayesian statistics updates prior beliefs with observed data through Bayes' theorem to produce posterior probability distributions.",
        _ => "A vector store indexes text chunks by embedding similarity; hybrid search fuses BM25 keyword scoring with cosine vector ranking.",
    }
}

/// The text of synthetic document `i`.
pub fn mock_document_text(i: usize) -> (r: String)
    ensures
        r@ == document_text(i as nat),
{
    let title: &str = title_of(i % 4);
    let body: &str = body_of(i % 4);
    let part: String = decimal_of(i / 4);
    let mut r: String = String::from_str("# ");
    r.append(title);
    r.append(" — part ");
    r.append(part.as_str());
    r.append("\n\n");
    r.append(body);
    r.append("\n\nPart ");
    r.append(part.as_str());
    r.append(" of ");
    r.append(title);
    r.append(" discusses the same topic in different words.\n");
    r
}

/// The identifier of synthetic document `i`: its number with at least three
/// digits.
pub open spec fn document_id(i: nat) -> Seq<char> {
    "doc-"@ + padded(i, 3) + ".md"@
}

/// Synthetic document `i` of the corpus `name`.
pub open spec fn document(name: Seq<char>, i: nat) -> MockDocumentView {
    MockDocumentView {
        corpus: name,
        id: document_id(i),
        format: "md"@,
        text: document_text(i),
    }
}

impl MockCorpus {
    /// The name of the corpus.
    pub fn name(&self) -> (r: String)
        ensures
            r@ == self.name@,
    {
        self.name.clone()
    }

    /// The documents, in order.
    pub fn documents(&self) -> (r: Vec<MockDocument>)
        ensures
            r@.len() == self.count,
            forall|i: int|
                0 <= i < r@.len() ==> (#[trigger] r@[i])@ == document(self.name@, i as nat),
    {
        let mut r: Vec<MockDocument> = Vec::new();
        let mut i: usize = 0;
        while i < self.count
            invariant
                i <= self.count,
                r@.len() == i,
                forall|k: int| 0 <= k < i ==> (#[trigger] r@[k])@ == document(self.name@, k as nat),
            decreases self.count - i,
        {
            let mut id: String = String::from_str("doc-");
            let number: String = padded_of(i, 3);
            id.append(number.as_str());
            id.append(".md");
            let text: String = mock_document_text(i);
            r.push(
                MockDocument {
                    corpus: self.name.clone(),
                    id,
                    format: String::from_str("md"),
                    text,
                },
            );
            i += 1;
        }
        r
    }
}

} // verus!
