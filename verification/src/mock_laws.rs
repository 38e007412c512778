//! What the mock components promise: canned answers follow the last question,
//! vectors depend on the bag of words alone, synthetic documents are distinct
//! and cycle through their topics.

use vstd::prelude::*;
use crate::mock::{
    canned, counts, dimension_of, document, document_id, document_text, limited, topic_body,
    topic_text, topic_title, turn_of, user_query, words_in, MOCK_COUNT_LIMIT, MOCK_EMBED_DIM,
};
use crate::number::{decimal, law_decimal_is_injective, law_padded_is_injective, padded};
use crate::text::{
    after_last, ascii_lowercase, fields, is_alphanumeric, is_ascii_text, is_white_space,
    lemma_first_occurrence, lemma_last_occurrence, lemma_no_occurrence, occurs_at, replaced,
    trim_start, trimmed, words,
};

verus! {

// ── Canned answers ──────────────────────────────────────────────────────────

/// A prompt whose last turn asks `query`, after whatever came before.
pub open spec fn prompt_for(before: Seq<char>, query: Seq<char>) -> Seq<char> {
    before + "<|user|>\n"@ + query + "\n<|assistant|>\n"@
}

/// The mark that opens a user turn is found last before `query`.
proof fn lemma_last_turn(before: Seq<char>, query: Seq<char>)
    requires
        forall|i: int| !occurs_at(query + "\n"@, "<|user|>\n"@, i),
    ensures
        after_last(prompt_for(before, query), "<|user|>\n"@) == query + "\n<|assistant|>\n"@,
{
    reveal_strlit("<|user|>\n");
    reveal_strlit("\n<|assistant|>\n");
    reveal_strlit("\n");
    let mark = "<|user|>\n"@;
    let end = "\n<|assistant|>\n"@;
    let p = prompt_for(before, query);
    let b = before.len() as int;
    let q = query.len() as int;
    assert(p.subrange(b, b + 9) =~= mark);
    assert forall|j: int| b < j implies !occurs_at(p, mark, j) by {
        if occurs_at(p, mark, j) {
            let found = p.subrange(j, j + 9);
            assert forall|k: int| 0 <= k < 9 implies p[j + k] == mark[k] by {
                assert(found[k] == mark[k]);
            }
            assert(p[j + 8] == mark[8]);
            if j < b + 9 {
                let k = b + 8 - j;
                assert(p[j + k] == mark[k]);
                assert(p[b + 8] == mark[8]);
                assert(false);
            }
            let i = j - b - 9;
            assert(i >= 0);
            if i + 9 <= q + 1 {
                assert((query + "\n"@).subrange(i, i + 9) =~= found);
                assert(occurs_at(query + "\n"@, mark, i));
                assert(false);
            }
            let t = i + 8 - q;
            assert(p[j + 8] == end[t]);
            assert(t == 14);
            assert(p[j + 5] == end[11]);
            assert(p[j + 5] == mark[5]);
            assert(false);
        }
    }
    lemma_last_occurrence(p, mark, b);
    assert(p.skip(b + 9) =~= query + end);
}

/// The mark that asks for an answer is dropped from the end of a turn.
proof fn lemma_turn_ends(query: Seq<char>)
    ensures
        turn_of(query + "\n<|assistant|>\n"@) == query + "\n"@,
{
    reveal_strlit("<|assistant|>\n");
    reveal_strlit("\n<|assistant|>\n");
    reveal_strlit("\n");
    let s = query + "\n<|assistant|>\n"@;
    let q = query.len() as int;
    assert(s.subrange(q + 1, q + 15) =~= "<|assistant|>\n"@);
    assert(s.take(q + 1) =~= query + "\n"@);
}

/// White space appended to a text is trimmed away.
proof fn lemma_trim_appended(s: Seq<char>, c: char)
    requires
        is_white_space(c),
    ensures
        trimmed(s.push(c)) == trimmed(s),
    decreases s.len(),
{
    let t = s.push(c);
    if s.len() > 0 && is_white_space(s[0]) {
        assert(t[0] == s[0]);
        assert(t.drop_first() =~= s.drop_first().push(c));
        lemma_trim_appended(s.drop_first(), c);
    } else if s.len() == 0 {
        assert(t.drop_first() =~= s);
        assert(trim_start(t) == trim_start(s));
    } else {
        assert(t[0] == s[0]);
        assert(trim_start(t) == t);
        assert(t.drop_last() =~= s);
    }
}

/// A canned answer quotes the whole question of the last turn, trimmed,
/// whatever came before it and whatever marks the question mentions, as long
/// as it does not open a user turn itself.
pub proof fn law_answers_quote_the_last_question(
    template: Seq<char>,
    before: Seq<char>,
    query: Seq<char>,
)
    requires
        forall|i: int| !occurs_at(query + "\n"@, "<|user|>\n"@, i),
    ensures
        user_query(prompt_for(before, query)) == trimmed(query + "\n"@),
        user_query(prompt_for(before, query)) == trimmed(query),
        canned(template, prompt_for(before, query)) == replaced(
            template,
            "{query}"@,
            trimmed(query),
        ),
{
    lemma_last_turn(before, query);
    lemma_turn_ends(query);
    reveal_strlit("\n");
    assert(query + "\n"@ =~= query.push('\n'));
    lemma_trim_appended(query, '\n');
}

/// A template without a placeholder is the answer to everything.
pub proof fn law_fixed_template_is_the_answer(template: Seq<char>, prompt: Seq<char>)
    requires
        forall|i: int| !occurs_at(template, "{query}"@, i),
    ensures
        canned(template, prompt) == template,
{
    lemma_no_occurrence(template, "{query}"@);
}

/// The answer that mock mode gives an agent is `[mock] answer for: ` and the
/// question.
pub proof fn law_canned_answer_quotes_the_question(prompt: Seq<char>)
    ensures
        canned(crate::config::canned_answer(), prompt) == "[mock] answer for: "@ + user_query(
            prompt,
        ),
{
    reveal_strlit("[mock] answer for: {query}");
    reveal_strlit("[mock] answer for: ");
    reveal_strlit("{query}");
    let template = crate::config::canned_answer();
    let pat = "{query}"@;
    assert(template.subrange(19, 26) =~= pat);
    assert forall|j: int| 0 <= j < 19 implies !occurs_at(template, pat, j) by {
        if occurs_at(template, pat, j) {
            assert(template.subrange(j, j + 7)[0] == pat[0]);
            assert(template[j] == '{');
        }
    }
    lemma_first_occurrence(template, pat, 19);
    let rest = template.skip(26);
    assert(rest.len() == 0);
    assert forall|j: int| !occurs_at(rest, pat, j) by {}
    lemma_no_occurrence(rest, pat);
    assert(template.take(19) =~= "[mock] answer for: "@);
    let query = user_query(prompt);
    assert(replaced(template, pat, query) == template.take(19) + query + replaced(
        rest,
        pat,
        query,
    ));
    assert(template.take(19) + query + rest =~= "[mock] answer for: "@ + query);
}

// ── Bag of words ────────────────────────────────────────────────────────────

proof fn lemma_words_in_concat(a: Seq<Seq<char>>, b: Seq<Seq<char>>, d: int)
    ensures
        words_in(a + b, d) == words_in(a, d) + words_in(b, d),
    decreases b.len(),
{
    if b.len() == 0 {
        assert(a + b =~= a);
    } else {
        assert((a + b).drop_last() =~= a + b.drop_last());
        assert((a + b).last() == b.last());
        lemma_words_in_concat(a, b.drop_last(), d);
    }
}

proof fn lemma_words_in_without(list: Seq<Seq<char>>, i: int, d: int)
    requires
        0 <= i < list.len(),
    ensures
        words_in(list, d) == words_in(list.remove(i), d) + if dimension_of(list[i]) == d {
            1nat
        } else {
            0nat
        },
{
    let a = list.take(i);
    let b = list.skip(i + 1);
    assert(list =~= a.push(list[i]) + b);
    assert(list.remove(i) =~= a + b);
    lemma_words_in_concat(a.push(list[i]), b, d);
    lemma_words_in_concat(a, b, d);
    assert(a.push(list[i]).drop_last() =~= a);
}

proof fn lemma_words_in_same_bag(a: Seq<Seq<char>>, b: Seq<Seq<char>>, d: int)
    requires
        a.to_multiset() == b.to_multiset(),
    ensures
        words_in(a, d) == words_in(b, d),
    decreases a.len(),
{
    broadcast use vstd::seq_lib::group_to_multiset_ensures;

    assert(a.len() == a.to_multiset().len());
    assert(b.len() == b.to_multiset().len());
    if a.len() > 0 {
        let w = a.last();
        let n = a.len() - 1;
        assert(a.contains(w));
        assert(b.to_multiset().count(w) > 0);
        assert(b.contains(w));
        let i = choose|i: int| 0 <= i < b.len() && b[i] == w;
        lemma_words_in_without(b, i, d);
        assert(a.drop_last() =~= a.remove(n));
        assert(a.remove(n).to_multiset() =~= a.to_multiset().remove(w));
        assert(b.remove(i).to_multiset() =~= b.to_multiset().remove(w));
        lemma_words_in_same_bag(a.drop_last(), b.remove(i), d);
    }
}

/// Texts with the same words, in whatever order, have the same vector.
pub proof fn law_vector_ignores_order(a: Seq<char>, b: Seq<char>, v: Seq<u32>, w: Seq<u32>)
    requires
        words(a).to_multiset() == words(b).to_multiset(),
        counts(v, words(a)),
        counts(w, words(b)),
    ensures
        v == w,
{
    assert forall|d: int| 0 <= d < v.len() implies v[d] == w[d] by {
        lemma_words_in_same_bag(words(a), words(b), d);
        assert(v[d] as nat == limited(words_in(words(a), d)));
        assert(w[d] as nat == limited(words_in(words(b), d)));
    }
    assert(v =~= w);
}

pub proof fn lemma_fields_of_joined(
    a: Seq<char>,
    sep: char,
    b: Seq<char>,
    separates: spec_fn(char) -> bool,
)
    requires
        separates(sep),
    ensures
        fields(a.push(sep) + b, separates) == fields(a, separates) + fields(b, separates),
        b.len() > 0 && !separates(b.last()) ==> fields(b, separates).len() > 0,
    decreases b.len(),
{
    let s = a.push(sep) + b;
    if b.len() == 0 {
        assert(s.drop_last() =~= a);
        assert(s.last() == sep);
        assert(fields(a, separates) + fields(b, separates) =~= fields(a, separates));
    } else {
        let before = b.drop_last();
        assert(s.drop_last() =~= a.push(sep) + before);
        assert(s.last() == b.last());
        lemma_fields_of_joined(a, sep, before, separates);
        let fa = fields(a, separates);
        let fb = fields(before, separates);
        if separates(b.last()) {
        } else if b.len() > 1 && !separates(b[b.len() - 2]) {
            assert(s[s.len() - 2] == b[b.len() - 2]);
            assert(before.last() == b[b.len() - 2]);
            assert(fb.len() > 0);
            assert((fa + fb).drop_last() =~= fa + fb.drop_last());
            assert((fa + fb).last() == fb.last());
            assert(fields(s, separates) =~= fa + fields(b, separates));
        } else {
            if b.len() == 1 {
                assert(s[s.len() - 2] == sep);
            } else {
                assert(s[s.len() - 2] == b[b.len() - 2]);
            }
            assert(fields(s, separates) =~= fa + fields(b, separates));
        }
    }
}

/// Two texts with a separator between them have the words of both.
pub proof fn law_separated_texts_keep_their_words(a: Seq<char>, sep: char, b: Seq<char>)
    requires
        !is_alphanumeric(sep),
    ensures
        words(a.push(sep) + b) == words(a) + words(b),
{
    lemma_fields_of_joined(a, sep, b, |c: char| !is_alphanumeric(c));
}

proof fn lemma_words_in_bound(list: Seq<Seq<char>>, d: int)
    ensures
        words_in(list, d) <= list.len(),
    decreases list.len(),
{
    if list.len() > 0 {
        lemma_words_in_bound(list.drop_last(), d);
    }
}

proof fn lemma_small_letters(s: Seq<char>)
    requires
        is_ascii_text(s),
    ensures
        is_ascii_text(ascii_lowercase(s)),
        ascii_lowercase(ascii_lowercase(s)) == ascii_lowercase(s),
        forall|i: int|
            0 <= i < s.len() ==> is_alphanumeric(#[trigger] ascii_lowercase(s)[i])
                == is_alphanumeric(s[i]),
{
    assert(ascii_lowercase(ascii_lowercase(s)) =~= ascii_lowercase(s));
}

/// The words of an ASCII text in small letters are its words in small letters.
proof fn lemma_words_in_small_letters(s: Seq<char>)
    requires
        is_ascii_text(s),
    ensures
        words(ascii_lowercase(s)).len() == words(s).len(),
        forall|i: int|
            0 <= i < words(s).len() ==> is_ascii_text(#[trigger] words(s)[i]) && words(
                ascii_lowercase(s),
            )[i] == ascii_lowercase(words(s)[i]),
        s.len() > 0 && is_alphanumeric(s.last()) ==> words(s).len() > 0,
    decreases s.len(),
{
    let t = ascii_lowercase(s);
    if s.len() > 0 {
        let before = s.drop_last();
        lemma_small_letters(s);
        lemma_words_in_small_letters(before);
        assert(t.drop_last() =~= ascii_lowercase(before));
        assert(is_alphanumeric(t[t.len() - 1]) == is_alphanumeric(s[s.len() - 1]));
        if s.len() > 1 {
            assert(is_alphanumeric(t[t.len() - 2]) == is_alphanumeric(s[s.len() - 2]));
            assert(before.last() == s[s.len() - 2]);
        }
        let ws = words(s);
        let wt = words(t);
        let prior = words(before);
        let c = s.last();
        assert forall|i: int| 0 <= i < ws.len() implies is_ascii_text(#[trigger] ws[i]) && wt[i]
            == ascii_lowercase(ws[i]) by {
            if is_alphanumeric(c) && i == ws.len() - 1 {
                if s.len() > 1 && is_alphanumeric(s[s.len() - 2]) {
                    assert(is_ascii_text(prior[i]));
                    assert(ws[i] == prior[i].push(c));
                    assert(wt[i] =~= ascii_lowercase(ws[i]));
                } else {
                    assert(ws[i] == seq![c]);
                    assert(wt[i] =~= ascii_lowercase(ws[i]));
                }
            } else {
                assert(ws[i] == prior[i]);
            }
        }
    }
}

proof fn lemma_words_in_same_small_letters(a: Seq<Seq<char>>, b: Seq<Seq<char>>, d: int)
    requires
        a.len() == b.len(),
        forall|i: int|
            0 <= i < a.len() ==> is_ascii_text(#[trigger] a[i]) && b[i] == ascii_lowercase(a[i]),
    ensures
        words_in(a, d) == words_in(b, d),
    decreases a.len(),
{
    if a.len() > 0 {
        lemma_words_in_same_small_letters(a.drop_last(), b.drop_last(), d);
        lemma_small_letters(a[a.len() - 1]);
    }
}

/// ASCII texts that differ in the case of letters alone have the same vector.
pub proof fn law_vector_ignores_ascii_case(a: Seq<char>, b: Seq<char>, v: Seq<u32>, w: Seq<u32>)
    requires
        is_ascii_text(a),
        is_ascii_text(b),
        ascii_lowercase(a) == ascii_lowercase(b),
        counts(v, words(a)),
        counts(w, words(b)),
    ensures
        v == w,
{
    lemma_words_in_small_letters(a);
    lemma_words_in_small_letters(b);
    assert forall|d: int| 0 <= d < v.len() implies v[d] == w[d] by {
        lemma_words_in_same_small_letters(words(a), words(ascii_lowercase(a)), d);
        lemma_words_in_same_small_letters(words(b), words(ascii_lowercase(b)), d);
        assert(v[d] as nat == limited(words_in(words(a), d)));
        assert(w[d] as nat == limited(words_in(words(b), d)));
    }
    assert(v =~= w);
}

/// The vectors of two texts add up to the vector of the texts with a space
/// between them, in either order, as long as the counts stay exact: up to the
/// limit of a dimension.
pub proof fn law_vectors_add_up(
    a: Seq<char>,
    b: Seq<char>,
    va: Seq<u32>,
    vb: Seq<u32>,
    ab: Seq<u32>,
    ba: Seq<u32>,
    k: int,
)
    requires
        words(a).len() + words(b).len() <= MOCK_COUNT_LIMIT,
        counts(va, words(a)),
        counts(vb, words(b)),
        counts(ab, words(a + " "@ + b)),
        counts(ba, words(b + " "@ + a)),
        0 <= k < MOCK_EMBED_DIM,
    ensures
        ab[k] == va[k] + vb[k],
        ba[k] == ab[k],
{
    reveal_strlit(" ");
    assert(a + " "@ + b =~= a.push(' ') + b);
    assert(b + " "@ + a =~= b.push(' ') + a);
    law_separated_texts_keep_their_words(a, ' ', b);
    law_separated_texts_keep_their_words(b, ' ', a);
    lemma_words_in_concat(words(a), words(b), k);
    lemma_words_in_concat(words(b), words(a), k);
    lemma_words_in_bound(words(a), k);
    lemma_words_in_bound(words(b), k);
    assert(va[k] as nat == limited(words_in(words(a), k)));
    assert(vb[k] as nat == limited(words_in(words(b), k)));
    assert(ab[k] as nat == limited(words_in(words(a + " "@ + b), k)));
    assert(ba[k] as nat == limited(words_in(words(b + " "@ + a), k)));
}

/// The counts of the first `n` dimensions together.
pub open spec fn words_below(list: Seq<Seq<char>>, n: nat) -> nat
    decreases n,
{
    if n == 0 {
        0
    } else {
        words_below(list, (n - 1) as nat) + words_in(list, n - 1)
    }
}

proof fn lemma_words_below_push(list: Seq<Seq<char>>, word: Seq<char>, n: nat)
    ensures
        words_below(list.push(word), n) == words_below(list, n) + if dimension_of(word) < n {
            1nat
        } else {
            0nat
        },
    decreases n,
{
    if n > 0 {
        lemma_words_below_push(list, word, (n - 1) as nat);
        assert(list.push(word).drop_last() =~= list);
        assert(list.push(word).last() == word);
    }
}

/// Every word is counted in exactly one dimension.
proof fn lemma_every_word_counts_once(list: Seq<Seq<char>>)
    ensures
        words_below(list, MOCK_EMBED_DIM as nat) == list.len(),
    decreases list.len(),
{
    if list.len() > 0 {
        let before = list.drop_last();
        lemma_every_word_counts_once(before);
        assert(list =~= before.push(list.last()));
        lemma_words_below_push(before, list.last(), MOCK_EMBED_DIM as nat);
    } else {
        lemma_no_words_below(list, MOCK_EMBED_DIM as nat);
    }
}

/// The sum of the entries of a vector.
pub open spec fn entries_sum(v: Seq<u32>) -> nat
    decreases v.len(),
{
    if v.len() == 0 {
        0
    } else {
        entries_sum(v.drop_last()) + v.last() as nat
    }
}

proof fn lemma_entries_sum(v: Seq<u32>, list: Seq<Seq<char>>, n: int)
    requires
        counts(v, list),
        list.len() <= MOCK_COUNT_LIMIT,
        0 <= n <= v.len(),
    ensures
        entries_sum(v.take(n)) == words_below(list, n as nat),
    decreases n,
{
    if n > 0 {
        lemma_entries_sum(v, list, n - 1);
        lemma_words_in_bound(list, n - 1);
        assert(v.take(n).drop_last() =~= v.take(n - 1));
        assert(v.take(n).last() == v[n - 1]);
        assert(v[n - 1] as nat == limited(words_in(list, n - 1)));
    }
}

/// The entries of a vector add up to the number of words, as long as no count
/// reaches the limit of a dimension.
pub proof fn law_every_word_counts_once(text: Seq<char>, v: Seq<u32>)
    requires
        counts(v, words(text)),
        words(text).len() <= MOCK_COUNT_LIMIT,
    ensures
        entries_sum(v) == words(text).len(),
{
    lemma_entries_sum(v, words(text), v.len() as int);
    assert(v.take(v.len() as int) =~= v);
    lemma_every_word_counts_once(words(text));
}

proof fn lemma_no_words_below(list: Seq<Seq<char>>, n: nat)
    requires
        list.len() == 0,
    ensures
        words_below(list, n) == 0,
    decreases n,
{
    if n > 0 {
        lemma_no_words_below(list, (n - 1) as nat);
    }
}

// ── Synthetic corpus ────────────────────────────────────────────────────────

/// No two documents of a synthetic corpus have the same identifier.
pub proof fn law_document_ids_are_distinct(i: usize, j: usize)
    requires
        document_id(i as nat) == document_id(j as nat),
    ensures
        i == j,
{
    reveal_strlit("doc-");
    reveal_strlit(".md");
    let a = padded(i as nat, 3);
    let b = padded(j as nat, 3);
    let x = document_id(i as nat);
    let y = document_id(j as nat);
    assert(x.len() == 4 + a.len() + 3);
    assert(y.len() == 4 + b.len() + 3);
    assert(x.subrange(4, 4 + a.len() as int) =~= a);
    assert(y.subrange(4, 4 + b.len() as int) =~= b);
    law_padded_is_injective(i, j, 3);
}

/// No two synthetic documents have the same text.
pub proof fn law_document_texts_are_distinct(i: nat, j: nat)
    requires
        document_text(i) == document_text(j),
    ensures
        i == j,
{
    reveal_strlit("# ");
    reveal_strlit(" — part ");
    reveal_strlit("\n\n");
    reveal_strlit("\n\nPart ");
    reveal_strlit(" of ");
    reveal_strlit(" discusses the same topic in different words.\n");
    reveal_strlit("Quantum entanglement");
    reveal_strlit("Linear regression");
    reveal_strlit("Bayesian statistics");
    reveal_strlit("Vector stores");
    let x = document_text(i);
    let t = (i % 4) as int;
    let u = (j % 4) as int;
    assert(x[2] == topic_title(t)[0]);
    assert(x[2] == topic_title(u)[0]);
    assert(t == u);
    let title = topic_title(t);
    let body = topic_body(t);
    let a = decimal(i / 4);
    let b = decimal(j / 4);
    lemma_topic_text(title, body, i / 4);
    lemma_topic_text(title, body, j / 4);
    assert(a.len() == b.len());
    assert(a == b);
    law_decimal_is_injective(i / 4, j / 4);
}

/// Where the part number stands in a text on a topic, and how long the text is.
proof fn lemma_topic_text(title: Seq<char>, body: Seq<char>, part: nat)
    ensures
        ({
            let x = topic_text(title, body, part);
            let n = decimal(part).len();
            &&& x.len() == 2 * title.len() + body.len() + 2 * n + "# "@.len() + " — part "@.len()
                + "\n\n"@.len() + "\n\nPart "@.len() + " of "@.len()
                + " discusses the same topic in different words.\n"@.len()
            &&& x.subrange(
                "# "@.len() + title.len() + " — part "@.len() as int,
                "# "@.len() + title.len() + " — part "@.len() + n as int,
            ) == decimal(part)
        }),
{
    let x = topic_text(title, body, part);
    let from = "# "@.len() + title.len() + " — part "@.len() as int;
    assert(x.subrange(from, from + decimal(part).len()) =~= decimal(part));
}

/// The documents of a synthetic corpus cycle through four topics: a document
/// and the one `4 * k` places on have the same title and the same body, and
/// differ in their part numbers.
pub proof fn law_topics_cycle(name: Seq<char>, i: nat, k: nat)
    ensures
        document(name, i).text == topic_text(
            topic_title((i % 4) as int),
            topic_body((i % 4) as int),
            i / 4,
        ),
        document(name, i + 4 * k).text == topic_text(
            topic_title((i % 4) as int),
            topic_body((i % 4) as int),
            i / 4 + k,
        ),
{
    assert((i + 4 * k) % 4 == i % 4);
    assert((i + 4 * k) / 4 == i / 4 + k);
}

} // verus!
