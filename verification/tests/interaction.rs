use ragrig_bench::interaction::{answer_of, Answer, Interaction, Outcome, Reply, Style};
use ragrig_bench::matrix::{Cursor, Event, Run, Shape};
use ragrig_bench::report::{
    after_embedding, answer, error_answer, gate, no_database, not_indexed, oneshot_stats,
    plain_stats, question, read_query, retrieved, search, snippet, stats, title, AfterEmbedding,
    CellStats, Headings, RetrievedChunk, SearchOutcome, StageStats,
};

fn strings(list: &[&str]) -> Vec<String> {
    list.iter().map(|s| s.to_string()).collect()
}

fn answered(q: &str, a: &str) -> Event {
    Event::Answered { question: q.to_string(), answer: a.to_string() }
}

/// Runs a matrix in which corpus `missing` is not indexed, and lists what the
/// run did.
fn visit(shape: Shape, chat: bool, missing: usize) -> Vec<String> {
    let mut run = Run::begin(shape, chat);
    let mut seen = Vec::new();
    loop {
        let at = run.cursor();
        let event = match at {
            Cursor::Agent { agent } => {
                seen.push(format!("a{agent}"));
                Event::Ready
            }
            Cursor::Pipeline { pipeline, .. } => {
                seen.push(format!("p{pipeline}"));
                Event::Ready
            }
            Cursor::Corpus { corpus, .. } => {
                seen.push(format!("c{corpus}"));
                Event::Matching { chunks: if corpus == missing { 0 } else { 5 } }
            }
            Cursor::Ranker { ranker, .. } => {
                seen.push(format!("r{ranker}"));
                Event::Ready
            }
            Cursor::Turn { turn, .. } => {
                seen.push(format!("q{turn}/{}", run.transcript().len()));
                answered("q", "a")
            }
            Cursor::Finished => break,
        };
        assert!(run.advance(event));
    }
    seen
}

// ── The run ─────────────────────────────────────────────────────────────────

#[test]
fn the_matrix_is_walked_agent_by_agent() {
    let shape = Shape { agents: 2, pipelines: 1, corpora: 2, rankers: 1, turns: 2 };
    assert_eq!(
        visit(shape, false, 9).join(" "),
        "a0 p0 c0 r0 q0/0 q1/0 c1 r0 q0/0 q1/0 a1 p0 c0 r0 q0/0 q1/0 c1 r0 q0/0 q1/0"
    );
}

#[test]
fn chats_carry_their_transcript_and_start_anew() {
    let shape = Shape { agents: 1, pipelines: 1, corpora: 1, rankers: 2, turns: 3 };
    assert_eq!(visit(shape, true, 9).join(" "), "a0 p0 c0 r0 q0/0 q1/1 q2/2 r1 q0/0 q1/1 q2/2");
}

#[test]
fn missing_corpora_are_passed_over() {
    let shape = Shape { agents: 1, pipelines: 2, corpora: 2, rankers: 1, turns: 1 };
    assert_eq!(visit(shape, false, 0).join(" "), "a0 p0 c0 c1 r0 q0/0 p1 c0 c1 r0 q0/0");
}

#[test]
fn transcripts_hold_questions_with_answers() {
    let shape = Shape { agents: 1, pipelines: 1, corpora: 1, rankers: 1, turns: 2 };
    let mut run = Run::begin(shape, true);
    for event in [Event::Ready, Event::Ready, Event::Matching { chunks: 1 }, Event::Ready] {
        assert!(run.advance(event));
    }
    assert!(run.advance(answered("hello", "hi")));
    assert_eq!(run.transcript(), &vec![("hello".to_string(), "hi".to_string())]);
    assert_eq!(
        run.cursor(),
        Cursor::Turn { agent: 0, pipeline: 0, corpus: 0, ranker: 0, turn: 1 }
    );
}

#[test]
fn events_that_do_not_fit_change_nothing() {
    let shape = Shape { agents: 1, pipelines: 1, corpora: 1, rankers: 1, turns: 1 };
    let mut run = Run::begin(shape, false);
    assert!(!run.advance(Event::Matching { chunks: 3 }));
    assert!(!run.advance(answered("q", "a")));
    assert_eq!(run.cursor(), Cursor::Agent { agent: 0 });
}

#[test]
fn empty_matrices_finish_at_once() {
    let shape = Shape { agents: 0, pipelines: 1, corpora: 1, rankers: 1, turns: 1 };
    let mut run = Run::begin(shape, false);
    assert_eq!(run.cursor(), Cursor::Finished);
    assert!(!run.advance(Event::Ready));
}

// ── Headings and questions ──────────────────────────────────────────────────

fn headings(pipelines: &[&str], corpora: &[&str], rankers: &[&str]) -> Headings {
    Headings {
        agents: strings(&["ollama / gemma2:latest"]),
        pipelines: strings(pipelines),
        corpora: strings(corpora),
        rankers: strings(rankers),
    }
}

const PIPELINE: Cursor = Cursor::Pipeline { agent: 0, pipeline: 0 };
const CORPUS: Cursor = Cursor::Corpus { agent: 0, pipeline: 0, corpus: 0 };
const RANKER: Cursor = Cursor::Ranker { agent: 0, pipeline: 0, corpus: 0, ranker: 0 };
const TURN: Cursor = Cursor::Turn { agent: 0, pipeline: 0, corpus: 0, ranker: 0, turn: 0 };

#[test]
fn report_title() {
    assert_eq!(title("2026-08-27"), "# RAG Benchmark — 2026-08-27\n\n");
}

#[test]
fn headings_where_there_is_a_choice() {
    let h = headings(&["unpdf · markdown", "x"], &["coursework", "y"], &["bm25", "rrf"]);
    assert_eq!(h.heading(Cursor::Agent { agent: 0 }), "## ollama / gemma2:latest\n\n");
    assert_eq!(h.heading(PIPELINE), "### unpdf · markdown\n\n");
    assert_eq!(h.heading(CORPUS), "#### coursework\n\n");
    assert_eq!(h.heading(RANKER), "##### ranker: bm25\n\n");
    assert_eq!(h.heading(TURN), "");
    let shape = h.shape(4);
    assert_eq!(shape, Shape { agents: 1, pipelines: 2, corpora: 2, rankers: 2, turns: 4 });
}

#[test]
fn no_headings_without_a_choice() {
    let h = headings(&["x"], &["y"], &["z"]);
    assert_eq!(h.heading(Cursor::Agent { agent: 0 }), "## ollama / gemma2:latest\n\n");
    for stop in [PIPELINE, CORPUS, RANKER, TURN, Cursor::Finished] {
        assert_eq!(h.heading(stop), "");
    }
}

#[test]
fn questions_are_numbered_from_one() {
    assert_eq!(question(false, 0, "What?"), "**Q1:** What?\n\n");
    assert_eq!(question(false, 11, "What?"), "**Q12:** What?\n\n");
    assert_eq!(question(true, 11, "What?"), "**Q:** What?\n\n");
}

#[test]
fn missing_provenance_message() {
    let msg = "_Error: pipeline 'unpdf · token' is not indexed for corpus 'docs' in the vector database at .ragrig_bench — run `ragrig-bench-ingest` first._";
    assert_eq!(not_indexed("unpdf · token", "docs", ".ragrig_bench"), msg);
    assert_eq!(gate(0, "unpdf · token", "docs", ".ragrig_bench"), format!("{msg}\n\n"));
    assert_eq!(gate(1, "unpdf · token", "docs", ".ragrig_bench"), "");
    assert_eq!(
        no_database("ws", "bench.toml"),
        "no vector database at ws — run `ragrig-bench-ingest bench.toml` first."
    );
}

// ── Cells ───────────────────────────────────────────────────────────────────

fn figures(chunks: Option<usize>) -> CellStats {
    CellStats {
        threshold: "0.04".to_string(),
        top_k: 50,
        chunks,
        context_tokens: 8192,
        total_secs: "3.2".to_string(),
    }
}

fn stages() -> StageStats {
    StageStats {
        embed_secs: "0.1".to_string(),
        generate_secs: "2.9".to_string(),
    }
}

fn chunk(document: &str, score: &str, text: &str) -> RetrievedChunk {
    RetrievedChunk {
        document: document.to_string(),
        score: score.to_string(),
        text: text.to_string(),
    }
}

const LINE: &str =
    "_ranker=rrf · t=0.04 · k=50 → 12 in context · 8192 ctx · emb 0.1s · gen 2.9s · total 3.2s_\n\n";

#[test]
fn statistics_lines() {
    assert_eq!(stats("rrf", &figures(Some(12)), &stages()), LINE);
    assert_eq!(
        plain_stats(&figures(None)),
        "_t=0.04 · k=50 → 0 in context · 8192 ctx · 3.2s_\n\n"
    );
}

#[test]
fn snippets_are_single_spaced_and_short() {
    assert_eq!(snippet("  a\n\tb \u{2003} c "), "a b c");
    assert_eq!(snippet(""), "");
    let long = "word ".repeat(40);
    let s = snippet(&long);
    assert_eq!(s.chars().count(), 96);
    assert!(s.ends_with(" w"));
    assert_eq!(snippet(&"ä".repeat(200)).chars().count(), 96);
}

#[test]
fn retrieved_chunks_are_listed_by_rank() {
    let list = Some(vec![
        chunk("lecture-03.pdf", "0.0325 (rrf)", "chunk\nsnippet …"),
        chunk("b.md", "0.01", "x"),
    ]);
    assert_eq!(
        retrieved(&list, "whatever"),
        "**Retrieved** (ranked by store ranker):\n1. **lecture-03.pdf** — 0.0325 (rrf) — _chunk snippet …_\n2. **b.md** — 0.01 — _x_\n\n"
    );
    assert_eq!(retrieved(&Some(Vec::new()), "x"), "**Retrieved** (ranked by store ranker):\n\n");
}

#[test]
fn nothing_retrieved_is_said_of_successful_cells_alone() {
    assert_eq!(
        retrieved(&None, "an answer"),
        "_No chunks passed the similarity threshold._\n\n"
    );
    assert_eq!(retrieved(&None, &error_answer("timeout")), "");
    assert_eq!(error_answer("timeout"), "_Error: timeout_");
}

#[test]
fn search_outcomes() {
    assert_eq!(
        search(&SearchOutcome::EmbeddingFailed { cause: "no route".to_string() }),
        "_Embedding error: no route_\n\n"
    );
    assert_eq!(search(&SearchOutcome::NoVector), "_Embedding error: no vector returned._\n\n");
    assert_eq!(
        search(&SearchOutcome::Found { chunks: Vec::new() }),
        "_No chunks passed the similarity threshold._\n\n"
    );
    assert_eq!(
        search(&SearchOutcome::Found { chunks: vec![chunk("d", "1", "t")] }),
        "**Retrieved** (ranked by store ranker):\n1. **d** — 1 — _t_\n\n"
    );
    assert_eq!(
        search(&SearchOutcome::SearchFailed { cause: "locked".to_string() }),
        "_Retrieval error: locked_\n\n"
    );
}

#[test]
fn searches_need_a_vector() {
    assert!(matches!(
        after_embedding(Err("no route".to_string())),
        AfterEmbedding::Stop(SearchOutcome::EmbeddingFailed { cause }) if cause == "no route"
    ));
    assert!(matches!(after_embedding(Ok(0)), AfterEmbedding::Stop(SearchOutcome::NoVector)));
    assert!(matches!(after_embedding(Ok(1)), AfterEmbedding::Search));
}

#[test]
fn every_white_space_character_is_trimmed() {
    for n in 0..=0x10FFFFu32 {
        if let Some(c) = char::from_u32(n) {
            let stays = n != 0x85 && !matches!(n, 0x9..=0xD | 0x20 | 0xA0 | 0x1680 | 0x2000..=0x200A
                | 0x2028 | 0x2029 | 0x202F | 0x205F | 0x3000);
            assert_eq!(answer(&c.to_string()).chars().count() == 3, stays, "{n:x}");
        }
    }
}

#[test]
fn messages_of_any_text_are_asked() {
    let message = format!("{}é", "a".repeat(59));
    let h = headings(&["p"], &["docs"], &["rrf"]);
    let (log, report) = interact(Style::Staged, true, h, &[&message], 9);
    assert_eq!(log[0], format!("  ollama / gemma2:latest / docs ← \"{}\"", "a".repeat(59)));
    assert!(report.contains(&format!("**Q:** {message}\n\n")));
    assert!(report.contains(&format!("{message} after 0\n\n")));
}

#[test]
fn replies_become_answers() {
    let reply = Reply {
        text: "yes".to_string(),
        chunks_retrieved: Some(12),
        retrieved: Some(vec![chunk("d", "1", "t")]),
        total_secs: None,
        embed_secs: "0.1".to_string(),
        generate_secs: "2.9".to_string(),
    };
    let a = answer_of(Ok(reply), "0.04".to_string(), 50, 8192);
    assert_eq!(a.text, "yes");
    assert_eq!(a.chunks.unwrap().len(), 1);
    assert_eq!(
        plain_stats(&a.stats),
        "_t=0.04 · k=50 → 12 in context · 8192 ctx · 0.0s_\n\n"
    );
    assert_eq!((a.stages.embed_secs.as_str(), a.stages.generate_secs.as_str()), ("0.1", "2.9"));
    assert!(a.search.is_none());
}

#[test]
fn failures_become_answers() {
    let a = answer_of(Err("timeout".to_string()), "0.04".to_string(), 50, 8192);
    assert_eq!(a.text, "_Error: timeout_");
    assert!(a.chunks.is_none());
    assert_eq!(
        stats("rrf", &a.stats, &a.stages),
        "_ranker=rrf · t=0.04 · k=50 → 0 in context · 8192 ctx · emb 0.0s · gen 0.0s · total 0.0s_\n\n"
    );
    assert_eq!(retrieved(&a.chunks, &a.text), "");
}

#[test]
fn answers_are_trimmed() {
    assert_eq!(answer("\n  The answer. \n\n"), "The answer.\n\n");
    assert_eq!(answer(""), "\n\n");
}

// ── Whole reports ───────────────────────────────────────────────────────────

fn answered_with(text: &str, search: Option<SearchOutcome>) -> Outcome {
    Outcome::Answered(Answer {
        text: text.to_string(),
        stats: figures(Some(12)),
        stages: stages(),
        chunks: None,
        search,
    })
}

/// Runs an interaction in which corpus `missing` is not indexed; gives the log
/// and the report.
fn interact(
    style: Style,
    chat: bool,
    headings: Headings,
    questions: &[&str],
    missing: usize,
) -> (Vec<String>, String) {
    let mut it = Interaction::begin(style, chat, headings, strings(questions), "ws".to_string());
    let mut log = Vec::new();
    let mut report = String::new();
    loop {
        let outcome = match it.cursor() {
            Cursor::Finished => break,
            Cursor::Corpus { corpus, .. } => match style {
                Style::Staged => Outcome::Counted { chunks: if corpus == missing { 0 } else { 3 } },
                Style::Plain => Outcome::Ready,
            },
            Cursor::Turn { .. } => {
                log.push(it.announcement());
                let text = format!("{} after {}", it.question().unwrap(), it.transcript().len());
                let search = match style {
                    Style::Staged => None,
                    Style::Plain => Some(SearchOutcome::NoVector),
                };
                answered_with(&text, search)
            }
            _ => Outcome::Ready,
        };
        report.push_str(&it.opening());
        report.push_str(&it.conclude(outcome).unwrap());
    }
    (log, report)
}

#[test]
fn staged_report() {
    let h = headings(&["unpdf · markdown"], &["docs", "gone"], &["rrf"]);
    let (log, report) = interact(Style::Staged, false, h, &["What?", "Why?"], 1);
    let line = LINE;
    assert_eq!(
        report,
        format!(
            "## ollama / gemma2:latest\n\n#### docs\n\n\
             **Q1:** What?\n\n{line}_No chunks passed the similarity threshold._\n\nWhat? after 0\n\n\
             **Q2:** Why?\n\n{line}_No chunks passed the similarity threshold._\n\nWhy? after 0\n\n\
             #### gone\n\n\
             _Error: pipeline 'unpdf · markdown' is not indexed for corpus 'gone' in the vector database at ws — run `ragrig-bench-ingest` first._\n\n"
        )
    );
    assert_eq!(
        log,
        strings(&[
            "  ollama / gemma2:latest / unpdf · markdown / docs / rrf ← \"What?\"",
            "  ollama / gemma2:latest / unpdf · markdown / docs / rrf ← \"Why?\"",
        ])
    );
}

#[test]
fn staged_chat_report() {
    let h = headings(&["p"], &["docs"], &["rrf"]);
    let (log, report) = interact(Style::Staged, true, h, &["Hi", "Ok"], 9);
    let line = LINE;
    assert_eq!(
        report,
        format!(
            "## ollama / gemma2:latest\n\n\
             **Q:** Hi\n\n{line}_No chunks passed the similarity threshold._\n\nHi after 0\n\n\
             **Q:** Ok\n\n{line}_No chunks passed the similarity threshold._\n\nOk after 1\n\n"
        )
    );
    assert_eq!(log[0], "  ollama / gemma2:latest / docs ← \"Hi\"");
}

#[test]
fn plain_reports() {
    let stats = "_t=0.04 · k=50 → 12 in context · 8192 ctx · 3.2s_\n\n";
    let search = "_Embedding error: no vector returned._\n\n";
    let h = headings(&["p"], &["docs"], &[""]);
    let (log, report) = interact(Style::Plain, false, h, &["What?"], 9);
    assert_eq!(
        report,
        format!("## ollama / gemma2:latest\n\n**Q1:** What?\n\n{search}{stats}What? after 0\n\n")
    );
    assert_eq!(log[0], "  ollama / gemma2:latest / p / docs ← \"What?\"");
    let h = headings(&["p"], &["docs"], &[""]);
    let (log, report) = interact(Style::Plain, true, h, &["What?"], 9);
    assert_eq!(
        report,
        format!("## ollama / gemma2:latest\n\n{search}**Q:** What?\n\n{stats}What? after 0\n\n")
    );
    assert_eq!(log[0], "  ollama / gemma2:latest / docs ← \"What?\"");
}

#[test]
fn outcomes_that_do_not_fit_change_nothing() {
    let h = headings(&["p"], &["docs"], &["rrf"]);
    let mut it =
        Interaction::begin(Style::Staged, false, h, strings(&["What?"]), "ws".to_string());
    assert!(it.conclude(answered_with("x", None)).is_none());
    assert!(it.conclude(Outcome::Counted { chunks: 1 }).is_none());
    assert_eq!(it.cursor(), Cursor::Agent { agent: 0 });
    assert_eq!(it.conclude(Outcome::Ready).as_deref(), Some(""));
    assert_eq!(it.conclude(Outcome::Ready).as_deref(), Some(""));
    // A staged run has to be told how many chunks there are.
    assert!(it.conclude(Outcome::Ready).is_none());
    assert_eq!(it.announcement(), "");
    assert!(it.question().is_none());
}

#[test]
fn one_shot_queries() {
    assert_eq!(read_query("  what now?\n").as_deref(), Some("what now?"));
    assert!(read_query(" \n").is_none());
    assert!(read_query("").is_none());
    assert_eq!(oneshot_stats(25, "1.5"), "  [25 chunks, 1.5s]");
}
