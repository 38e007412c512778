use ragrig_bench::mock::{fnv1a, mock_document_text, MockCorpus, MockEmbedder, MockResponder};

fn responder(template: &str) -> MockResponder {
    MockResponder { label: "canned".to_string(), template: template.to_string() }
}

#[test]
fn the_last_user_turn_is_quoted() {
    let mut r = responder("You asked: {query}!");
    let prompt = "<|system|>\nbe nice\n<|user|>\nfirst\n<|assistant|>\nok\n<|user|>\n  second one \n<|assistant|>\n";
    assert_eq!(r.respond(prompt), "You asked: second one!");
    assert_eq!(r.template, "You asked: {query}!");
}

#[test]
fn a_prompt_without_marks_is_the_query() {
    assert_eq!(responder("<{query}>").respond("\t plain text \n"), "<plain text>");
    assert_eq!(responder("<{query}>").respond(""), "<>");
    assert_eq!(responder("<{query}>").respond("a<|assistant|>b"), "<a>");
}

#[test]
fn a_question_may_mention_the_mark_of_an_answer() {
    assert_eq!(
        responder("{query}").respond("<|user|>\nwhat is <|assistant|> here?\n<|assistant|>\n"),
        "what is <|assistant|> here?"
    );
    assert_eq!(
        responder("{query}").respond("<|user|>\na\n<|assistant|>\nb\n<|user|>\nno mark"),
        "no mark"
    );
}

#[test]
fn without_a_request_for_an_answer_the_first_mark_ends_the_turn() {
    assert_eq!(responder("{query}").respond("q<|assistant|>r<|assistant|>"), "q");
    assert_eq!(responder("{query}").respond("<|user|>\nq\n<|assistant|>\nan answer"), "q");
    assert_eq!(responder("{query}").respond("<|assistant|>\n"), "");
    assert_eq!(responder("{query}").respond("<|user|>\n<|assistant|>\n"), "");
}

#[test]
fn every_placeholder_is_replaced() {
    assert_eq!(responder("{query} and {query}").respond("x"), "x and x");
    // What is put in is not searched again.
    assert_eq!(responder("{query}").respond("{query}"), "{query}");
    assert_eq!(responder("{que{query}").respond("x"), "{quex");
    assert_eq!(responder("nothing").respond("x"), "nothing");
    assert_eq!(responder("").respond("x"), "");
}

#[test]
fn unicode_white_space_is_trimmed() {
    assert_eq!(responder("[{query}]").respond("\u{a0}\u{2003}frage\u{3000}"), "[frage]");
}

#[test]
fn canned_answer_of_mock_mode() {
    let mut r = responder("[mock] answer for: {query}");
    assert_eq!(
        r.respond("ctx<|user|>\nWhat is RAG?\n<|assistant|>\n"),
        "[mock] answer for: What is RAG?"
    );
}

#[test]
fn responder_introduces_itself() {
    let r = responder("t");
    assert_eq!(r.backend_name(), "Mock");
    assert_eq!(r.model_name(), "canned");
}

#[test]
fn fnv1a_known_values() {
    assert_eq!(fnv1a(""), 0xcbf2_9ce4_8422_2325);
    assert_eq!(fnv1a("a"), 0xaf63_dc4c_8601_ec8c);
    assert_eq!(fnv1a("foobar"), 0x8594_4171_f739_67e8);
}

#[test]
fn words_count_in_their_dimension() {
    let v = MockEmbedder::vectorize("a A, a!");
    assert_eq!(v.len(), 128);
    assert_eq!(v[0x0c], 3);
    assert_eq!(v.iter().sum::<u32>(), 3);
    assert!(MockEmbedder::vectorize(" ,.- ").iter().all(|&n| n == 0));
}

#[test]
fn words_are_runs_of_letters_and_numbers() {
    let v = MockEmbedder::vectorize("foobar42 Übung_x");
    let mut expected = vec![0u32; 128];
    for word in ["foobar42", "übung", "x"] {
        expected[(fnv1a(word) % 128) as usize] += 1;
    }
    assert_eq!(v, expected);
}

#[test]
fn vectors_ignore_order() {
    assert_eq!(
        MockEmbedder::vectorize("the quick brown fox"),
        MockEmbedder::vectorize("fox; brown -- THE Quick")
    );
    assert_ne!(MockEmbedder::vectorize("quick fox"), MockEmbedder::vectorize("quick dog"));
}

#[test]
fn vectors_ignore_case() {
    assert_eq!(MockEmbedder::vectorize("A b-C4"), MockEmbedder::vectorize("a B-c4"));
    assert_eq!(MockEmbedder::vectorize("ÄRA"), MockEmbedder::vectorize("ära"));
}

#[test]
fn vectors_add_up() {
    let a = MockEmbedder::vectorize("one two");
    let b = MockEmbedder::vectorize("two three");
    let both = MockEmbedder::vectorize("one two two three");
    let swapped = MockEmbedder::vectorize("two three one two");
    for d in 0..128 {
        assert_eq!(both[d], a[d] + b[d]);
        assert_eq!(swapped[d], both[d]);
    }
    assert_eq!(both.iter().sum::<u32>(), 4);
}

#[test]
fn embed_pairs_texts_with_vectors() {
    let e = MockEmbedder;
    let texts = vec!["b".to_string(), "a".to_string()];
    let r = e.embed(texts);
    assert_eq!(r.len(), 2);
    assert_eq!(r[0].0, "b");
    assert_eq!(r[1].0, "a");
    assert_eq!(r[1].1, MockEmbedder::vectorize("a"));
    assert!(e.embed(Vec::new()).is_empty());
    assert_eq!(e.backend_name(), "Mock");
    assert_eq!(e.model_name(), "mock-bow");
    assert_eq!(e.dimension(), 128);
}

#[test]
fn first_synthetic_document() {
    assert_eq!(
        mock_document_text(0),
        "# Quantum entanglement — part 0\n\nEntangled particles share a correlated quantum state; measuring one particle instantly determines the other, regardless of the distance between them.\n\nPart 0 of Quantum entanglement discusses the same topic in different words.\n"
    );
}

#[test]
fn topics_cycle_with_growing_parts() {
    assert!(mock_document_text(5).starts_with("# Linear regression — part 1\n\nLinear regression models"));
    assert!(mock_document_text(6).contains("Part 1 of Bayesian statistics discusses"));
    assert!(mock_document_text(43).starts_with("# Vector stores — part 10\n\nA vector store indexes"));
    assert_eq!(
        mock_document_text(2).replace("part 0", "part 7").replace("Part 0", "Part 7"),
        mock_document_text(30)
    );
}

#[test]
fn synthetic_texts_are_distinct() {
    let mut all: Vec<String> = (0..500).map(mock_document_text).collect();
    all.sort();
    all.dedup();
    assert_eq!(all.len(), 500);
}

#[test]
fn ascii_words_are_letters_and_digits() {
    for n in 0..128u32 {
        let c = char::from_u32(n).unwrap();
        let counted = MockEmbedder::vectorize(&c.to_string()).iter().sum::<u32>();
        assert_eq!(counted == 1, c.is_ascii_alphanumeric(), "{c:?}");
    }
}

#[test]
fn documents_of_a_synthetic_corpus() {
    let corpus = MockCorpus { name: "synth".to_string(), count: 1002 };
    let docs = corpus.documents();
    assert_eq!(docs.len(), 1002);
    assert_eq!(docs[0].id, "doc-000.md");
    assert_eq!(docs[42].id, "doc-042.md");
    assert_eq!(docs[1001].id, "doc-1001.md");
    assert_eq!(docs[7].corpus, "synth");
    assert_eq!(docs[7].format, "md");
    assert_eq!(docs[7].text, mock_document_text(7));
    let mut ids: Vec<&str> = docs.iter().map(|d| d.id.as_str()).collect();
    ids.sort();
    ids.dedup();
    assert_eq!(ids.len(), 1002);
    assert!(MockCorpus { name: String::new(), count: 0 }.documents().is_empty());
}
