//! What the mock components compute, in terms of the prompt, the hash of each
//! word and the number of each document.

use vstd::prelude::*;
use vstd::utf8::encode_utf8;
use crate::config::canned_answer;
use crate::mock::{
    canned, counts, document, document_id, document_text, fnv, limited, turn_of, user_query,
    words_in, MockDocument, MOCK_COUNT_LIMIT, MOCK_EMBED_DIM,
};
use crate::number::{decimal, padded};
use crate::text::{
    after_last, before_first, lemma_no_occurrence, lowercase, occurs_at, trimmed, words,
};
use crate::text_laws::{law_after_the_last, law_before_the_first, law_replacing};

verus! {

// ── Canned answers ──────────────────────────────────────────────────────────

/// A turn that ends with the request for an answer is all before that request,
/// whatever else it holds.
pub proof fn law_requests_end_the_turn(turn: Seq<char>)
    ensures
        turn_of(turn + "<|assistant|>\n"@) == turn,
{
    reveal_strlit("<|assistant|>\n");
    let s = turn + "<|assistant|>\n"@;
    let n = turn.len() as int;
    assert(s.subrange(n, n + 14) =~= "<|assistant|>\n"@);
    assert(s.take(n) =~= turn);
}

/// A turn that does not end with the request for an answer ends before the
/// first mark of an answer; without such a mark it is the whole text.
pub proof fn law_answers_end_the_turn(turn: Seq<char>, answer: Seq<char>)
    requires
        ({
            let s = turn + "<|assistant|>"@ + answer;
            &&& forall|j: int| 0 <= j < turn.len() ==> !occurs_at(s, "<|assistant|>"@, j)
            &&& !occurs_at(s, "<|assistant|>\n"@, s.len() - 14)
        }),
    ensures
        turn_of(turn + "<|assistant|>"@ + answer) == turn,
{
    reveal_strlit("<|assistant|>\n");
    reveal_strlit("<|assistant|>");
    let mark = "<|assistant|>"@;
    let s = turn + mark + answer;
    let n = turn.len() as int;
    assert(s.subrange(n, n + 13) =~= mark);
    assert(occurs_at(s, mark, n));
    law_before_the_first(s, mark, n);
    let head = before_first(s, mark);
    if head.len() < n {
        assert(occurs_at(s, mark, head.len() as int));
    }
    assert(head =~= turn);
}

/// A text without the mark of an answer is a turn as it stands.
pub proof fn law_unanswered_turns_are_whole(turn: Seq<char>)
    requires
        forall|j: int| !occurs_at(turn, "<|assistant|>"@, j),
    ensures
        turn_of(turn) == turn,
{
    reveal_strlit("<|assistant|>\n");
    reveal_strlit("<|assistant|>");
    let request = "<|assistant|>\n"@;
    let mark = "<|assistant|>"@;
    let at = turn.len() - 14;
    if occurs_at(turn, request, at) {
        assert(turn.subrange(at, at + 13) =~= turn.subrange(at, at + 14).take(13));
        assert(request.take(13) =~= mark);
        assert(occurs_at(turn, mark, at));
    }
    law_before_the_first(turn, mark, 0);
}

/// The question of a prompt is its last user turn without the white space
/// around it: what stands before the last mark of a user has no part in it.
pub proof fn law_questions_are_the_last_turn(before: Seq<char>, rest: Seq<char>)
    requires
        forall|j: int|
            j > before.len() ==> !occurs_at(before + "<|user|>\n"@ + rest, "<|user|>\n"@, j),
    ensures
        user_query(before + "<|user|>\n"@ + rest) == trimmed(turn_of(rest)),
{
    reveal_strlit("<|user|>\n");
    let mark = "<|user|>\n"@;
    let s = before + mark + rest;
    let n = before.len() as int;
    assert(s.subrange(n, n + 9) =~= mark);
    assert(occurs_at(s, mark, n));
    law_after_the_last(s, mark, n);
    let found = after_last(s, mark);
    let m = choose|m: int| #[trigger] occurs_at(s, mark, m) && found == s.skip(m + mark.len());
    assert(m == n);
    assert(found =~= rest);
}

/// A prompt without the mark of a user is one turn.
pub proof fn law_prompts_without_a_user_are_one_turn(prompt: Seq<char>)
    requires
        forall|j: int| !occurs_at(prompt, "<|user|>\n"@, j),
    ensures
        user_query(prompt) == trimmed(turn_of(prompt)),
{
    reveal_strlit("<|user|>\n");
    law_after_the_last(prompt, "<|user|>\n"@, 0);
}

/// An answer is the template up to its first `{query}`, the question, and what
/// the rest of the template answers; a template without one is the answer.
pub proof fn law_templates_quote_the_question(
    head: Seq<char>,
    tail: Seq<char>,
    prompt: Seq<char>,
)
    requires
        forall|j: int| 0 <= j < head.len() ==> !occurs_at(head + "{query}"@ + tail, "{query}"@, j),
    ensures
        canned(head + "{query}"@ + tail, prompt) == head + user_query(prompt) + canned(
            tail,
            prompt,
        ),
        (forall|j: int| !occurs_at(tail, "{query}"@, j)) ==> canned(tail, prompt) == tail,
        canned_answer() == "[mock] answer for: {query}"@,
{
    reveal_strlit("{query}");
    let pat = "{query}"@;
    let s = head + pat + tail;
    let n = head.len() as int;
    assert(s.subrange(n, n + 7) =~= pat);
    assert(occurs_at(s, pat, n));
    law_replacing(s, pat, user_query(prompt), n);
    assert(s.take(n) =~= head);
    assert(s.skip(n + 7) =~= tail);
    if forall|j: int| !occurs_at(tail, pat, j) {
        lemma_no_occurrence(tail, pat);
    }
}

// ── Bag of words ────────────────────────────────────────────────────────────

/// The hash is FNV-1a with 64 bits: it starts from the offset basis, and each
/// byte is joined by exclusive or before the product with the prime, of which
/// 64 bits are kept.
pub proof fn law_hash_is_fnv1a(bytes: Seq<u8>, byte: u8)
    ensures
        fnv(Seq::empty()) == 0xcbf29ce484222325u64,
        fnv(bytes.push(byte)) as int == ((fnv(bytes) ^ (byte as u64)) as int * 1099511628211)
            % 18446744073709551616,
{
    assert(bytes.push(byte).drop_last() =~= bytes);
    assert(bytes.push(byte).last() == byte);
}

/// The words of `list` whose small letters hash to `d` among a hundred and
/// twenty-eight dimensions.
pub open spec fn hashed_to(list: Seq<Seq<char>>, d: int) -> Seq<Seq<char>> {
    list.filter(|w: Seq<char>| fnv(encode_utf8(lowercase(w))) as int % 128 == d)
}

proof fn lemma_words_in_are_hashed_to(list: Seq<Seq<char>>, d: int)
    ensures
        words_in(list, d) == hashed_to(list, d).len(),
    decreases list.len(),
{
    reveal(Seq::filter);
    if list.len() > 0 {
        lemma_words_in_are_hashed_to(list.drop_last(), d);
    }
}

/// The vector of a text has a hundred and twenty-eight entries.  Each is the
/// number of the words, long or short, whose lowercase form in UTF-8 hashes to
/// it by FNV-1a, up to sixteen million seven hundred and seventy-seven thousand
/// two hundred and sixteen.
pub proof fn law_vector_counts_words_by_hash(text: Seq<char>, v: Seq<u32>, d: int)
    requires
        counts(v, words(text)),
    ensures
        v.len() == 128,
        0 <= d < 128 ==> v[d] as int == if hashed_to(words(text), d).len() <= 16777216 {
            hashed_to(words(text), d).len() as int
        } else {
            16777216
        },
{
    lemma_words_in_are_hashed_to(words(text), d);
    if 0 <= d < 128 {
        assert(v[d] as nat == limited(words_in(words(text), d)));
    }
}

/// The vector of a text of one word has a one at the hash of that word, and
/// zeros elsewhere.
pub proof fn law_single_words_are_unit_vectors(text: Seq<char>, word: Seq<char>, v: Seq<u32>, d: int)
    requires
        words(text) == seq![word],
        counts(v, words(text)),
        0 <= d < 128,
    ensures
        fnv(encode_utf8(lowercase(word))) as int % 128 == d ==> v[d] == 1,
        fnv(encode_utf8(lowercase(word))) as int % 128 != d ==> v[d] == 0,
{
    law_vector_counts_words_by_hash(text, v, d);
    let list = seq![word];
    reveal(Seq::filter);
    assert(list.drop_last() =~= Seq::empty());
    assert(list.last() == word);
    assert(hashed_to(list.drop_last(), d).len() == 0);
}

/// A vector with these entries is the vector of the text: the entries say all.
pub proof fn law_vector_is_its_counts(text: Seq<char>, v: Seq<u32>)
    requires
        v.len() == 128,
        forall|d: int|
            0 <= d < 128 ==> #[trigger] v[d] as int == if hashed_to(words(text), d).len()
                <= 16777216 {
                hashed_to(words(text), d).len() as int
            } else {
                16777216
            },
    ensures
        counts(v, words(text)),
        MOCK_EMBED_DIM == 128,
        MOCK_COUNT_LIMIT == 16777216,
{
    assert forall|d: int| 0 <= d < v.len() implies #[trigger] v[d] as nat == limited(
        words_in(words(text), d),
    ) by {
        lemma_words_in_are_hashed_to(words(text), d);
    }
}

// ── Synthetic documents ─────────────────────────────────────────────────────

/// A document is seen with its own corpus, identifier, format and text.
pub proof fn law_documents_are_seen_as_they_are(d: MockDocument)
    ensures
        d@.corpus == d.corpus@,
        d@.id == d.id@,
        d@.format == d.format@,
        d@.text == d.text@,
{
}

/// Every document belongs to its corpus, is Markdown, and is numbered with
/// three digits or as many as it takes.
pub proof fn law_documents_are_numbered(name: Seq<char>, i: nat)
    ensures
        document(name, i).corpus == name,
        document(name, i).id == document_id(i),
        document(name, i).text == document_text(i),
        document(name, i).format == "md"@,
        document_id(i) == "doc-"@ + padded(i, 3) + ".md"@,
{
}

/// The four topics follow each other: documents `4 * part`, `4 * part + 1`,
/// `4 * part + 2` and `4 * part + 3` are their texts with that part number.
pub proof fn law_documents_are_parts_of_topics(part: nat)
    ensures
        document_text(4 * part) == "# "@ + "Quantum entanglement"@ + " — part "@ + decimal(part)
            + "\n\n"@
            + "Entangled particles share a correlated quantum state; measuring one particle instantly determines the other, regardless of the distance between them."@
            + "\n\nPart "@ + decimal(part) + " of "@ + "Quantum entanglement"@
            + " discusses the same topic in different words.\n"@,
        document_text(4 * part + 1) == "# "@ + "Linear regression"@ + " — part "@ + decimal(part)
            + "\n\n"@
            + "Linear regression models a response variable as a weighted sum of predictors plus Gaussian noise, fitted by ordinary least squares."@
            + "\n\nPart "@ + decimal(part) + " of "@ + "Linear regression"@
            + " discusses the same topic in different words.\n"@,
        document_text(4 * part + 2) == "# "@ + "Bayesian statistics"@ + " — part "@ + decimal(part)
            + "\n\n"@
            + "Bayesian statistics updates prior beliefs with observed data through Bayes' theorem to produce posterior probability distributions."@
            + "\n\nPart "@ + decimal(part) + " of "@ + "Bayesian statistics"@
            + " discusses the same topic in different words.\n"@,
        document_text(4 * part + 3) == "# "@ + "Vector stores"@ + " — part "@ + decimal(part)
            + "\n\n"@
            + "A vector store indexes text chunks by embedding similarity; hybrid search fuses BM25 keyword scoring with cosine vector ranking."@
            + "\n\nPart "@ + decimal(part) + " of "@ + "Vector stores"@
            + " discusses the same topic in different words.\n"@,
{
    assert((4 * part) % 4 == 0 && (4 * part) / 4 == part);
    assert((4 * part + 1) % 4 == 1 && (4 * part + 1) / 4 == part);
    assert((4 * part + 2) % 4 == 2 && (4 * part + 2) / 4 == part);
    assert((4 * part + 3) % 4 == 3 && (4 * part + 3) / 4 == part);
}

} // verus!
