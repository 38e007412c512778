//! What the operations on the report, the log, the run and the interaction
//! return and change: each law speaks of any result that a call may give.

use vstd::prelude::*;
use crate::error::BenchError;
use crate::interaction::{answer_of, Answer, Interaction, Outcome, Reply, Style};
use crate::interaction_laws::{
    law_answers_close_with_figures_and_text, law_answers_join_the_conversation,
};
use crate::matrix::{Cursor, Event, Run, Shape};
use crate::matrix_laws::{past_corpus, past_ranker};
use crate::number::{decimal, NumberError};
use crate::progress::{
    asking_chat, asking_query, asking_ranked_query, done_line, excerpt, excerpt_text,
    indexing_line, ingesting_line, ready_line, reindex_line, stored_line, workspace_line,
};
use crate::report::{
    after_embedding, answer, answer_text, chunk_lines, chunk_views, error_answer, gate,
    no_database, not_indexed, oneshot_stats, plain_stats, plain_stats_text, question,
    question_text, read_query, reported, retrieved, retrieved_text, search, search_text, snippet,
    stats, stats_text, title, AfterEmbedding, CellStats, Headings, RetrievedChunk, SearchOutcome,
    StageStats,
};
use crate::text::{joined, occurs_at, trimmed, white_space_fields};

verus! {

/// The operations that write the report and the log take every input, and a
/// question every turn that can be counted from one.
pub proof fn law_texts_of_any_kind_are_written(
    a: &str,
    b: &str,
    c: &str,
    d: &str,
    text: &str,
    n: usize,
    m: usize,
    chat: bool,
    cell: &CellStats,
    stages: &StageStats,
    chunks: &Option<Vec<RetrievedChunk>>,
    outcome: &SearchOutcome,
    e: &BenchError,
    h: &Headings,
    embedded: Result<usize, String>,
)
    ensures
        call_requires(title, (a,)),
        call_requires(not_indexed, (a, b, c)),
        call_requires(gate, (n, a, b, c)),
        call_requires(no_database, (a, b)),
        n < usize::MAX ==> call_requires(question, (chat, n, text)),
        call_requires(stats, (a, cell, stages)),
        call_requires(plain_stats, (cell,)),
        call_requires(snippet, (text,)),
        call_requires(retrieved, (chunks, text)),
        call_requires(search, (outcome,)),
        call_requires(after_embedding, (embedded,)),
        call_requires(error_answer, (a,)),
        call_requires(answer, (text,)),
        call_requires(read_query, (text,)),
        call_requires(oneshot_stats, (n, a)),
        call_requires(excerpt, (text,)),
        call_requires(asking_query, (a, b, c, text)),
        call_requires(asking_ranked_query, (a, b, c, d, text)),
        call_requires(asking_chat, (a, b, text)),
        call_requires(workspace_line, (a, b, c, n)),
        call_requires(reindex_line, (a,)),
        call_requires(ingesting_line, (a, b)),
        call_requires(indexing_line, (a,)),
        call_requires(stored_line, (n, m)),
        call_requires(ready_line, (n, m)),
        call_requires(done_line, (n, a)),
        call_requires(BenchError::message, (e,)),
        call_requires(BenchError::source, (e,)),
        call_requires(Headings::shape, (h, n)),
{
}

/// An interaction in order can be asked at every stop.
pub proof fn law_interactions_can_be_asked(it: &Interaction)
    requires
        it@.well_formed(),
    ensures
        call_requires(Interaction::cursor, (it,)),
        call_requires(Interaction::transcript, (it,)),
        call_requires(Interaction::question, (it,)),
        call_requires(Interaction::announcement, (it,)),
        call_requires(Interaction::opening, (it,)),
{
}

// ── Errors ──────────────────────────────────────────────────────────────────

/// The message of an error names what is wrong, and a cause is given exactly
/// where a number could not be read.
pub proof fn law_errors_explain_themselves(e: &BenchError, message: String, source: Option<String>)
    requires
        call_ensures(BenchError::message, (e,), message),
        call_ensures(BenchError::source, (e,), source),
    ensures
        match *e {
            BenchError::NoQuestions => message@ == "config must contain 'queries' or 'chat'."@,
            BenchError::TwoModes => message@
                == "config must not contain both 'queries' and 'chat' — pick one."@,
            BenchError::NoAgents => message@
                == "config must contain at least one [[agents]] entry."@,
            BenchError::NoCorpora => message@
                == "config must contain at least one 'corpus_dirs' entry."@,
            BenchError::MalformedCorpus { spec } => message@ == "corpus '"@ + spec@
                + "' must have the form 'name=path'"@,
            BenchError::MockCorpusSize { count, spec, .. } => message@ == "mock corpus size '"@
                + count@ + "' in corpus '"@ + spec@ + "'"@,
            BenchError::UnknownChunker { name, available } => message@ == "unknown chunker '"@
                + name@ + "'. Available: "@ + available@,
            BenchError::UnknownPdfParser { name, available } => message@
                == "unknown PDF parser '"@ + name@ + "'. Available: "@ + available@,
            BenchError::UnknownRanker { name } => message@ == "unknown ranker '"@ + name@
                + "'. Available: rrf, cosine, bm25, weighted, mmr"@,
            BenchError::UnsupportedChatProvider { provider } => message@ == "chat provider "@
                + provider@ + " is not supported by this build"@,
            BenchError::Embedder { explanation } => message@ == explanation@,
        },
        source is Some <==> *e is MockCorpusSize,
        *e matches BenchError::MockCorpusSize { reason, .. } ==> source->0@ == match reason {
            NumberError::Empty => "cannot parse integer from empty string"@,
            NumberError::InvalidDigit => "invalid digit found in string"@,
            NumberError::TooLarge => "number too large to fit in target type"@,
        },
{
}

// ── Headings ────────────────────────────────────────────────────────────────

/// Headings give the matrix its size: as many of each as there are names, and
/// as many turns as are asked for.
pub proof fn law_headings_give_the_shape(h: &Headings, turns: usize, r: Shape)
    requires
        call_ensures(Headings::shape, (h, turns), r),
    ensures
        r.agents == h.agents@.len(),
        r.pipelines == h.pipelines@.len(),
        r.corpora == h.corpora@.len(),
        r.rankers == h.rankers@.len(),
        r.turns == turns,
{
}

/// A heading, where there is one, names the very agent, pipeline, corpus or
/// ranker of the stop.
pub proof fn law_stops_are_headed_by_their_own_name(h: &Headings, stop: Cursor, r: String)
    requires
        call_ensures(Headings::heading, (h, stop), r),
        match stop {
            Cursor::Agent { agent } => agent < h.agents@.len(),
            Cursor::Pipeline { pipeline, .. } => pipeline < h.pipelines@.len(),
            Cursor::Corpus { corpus, .. } => corpus < h.corpora@.len(),
            Cursor::Ranker { ranker, .. } => ranker < h.rankers@.len(),
            _ => true,
        },
    ensures
        match stop {
            Cursor::Agent { agent } => r@ == "## "@ + h.agents@[agent as int]@ + "\n\n"@,
            Cursor::Pipeline { pipeline, .. } => r@ == if h.pipelines@.len() > 1 {
                "### "@ + h.pipelines@[pipeline as int]@ + "\n\n"@
            } else {
                Seq::empty()
            },
            Cursor::Corpus { corpus, .. } => r@ == if h.corpora@.len() > 1 {
                "#### "@ + h.corpora@[corpus as int]@ + "\n\n"@
            } else {
                Seq::empty()
            },
            Cursor::Ranker { ranker, .. } => r@ == if h.rankers@.len() > 1 {
                "##### ranker: "@ + h.rankers@[ranker as int]@ + "\n\n"@
            } else {
                Seq::empty()
            },
            _ => r@.len() == 0,
        },
{
}

/// Two pipelines of different labels have different headings.
pub proof fn law_pipelines_are_told_apart(
    h: &Headings,
    agent: usize,
    p: usize,
    q: usize,
    a: String,
    b: String,
)
    requires
        p < h.pipelines@.len(),
        q < h.pipelines@.len(),
        h.pipelines@[p as int]@ != h.pipelines@[q as int]@,
        call_ensures(Headings::heading, (h, Cursor::Pipeline { agent, pipeline: p }), a),
        call_ensures(Headings::heading, (h, Cursor::Pipeline { agent, pipeline: q }), b),
    ensures
        a@ != b@,
{
    law_stops_are_headed_by_their_own_name(h, Cursor::Pipeline { agent, pipeline: p }, a);
    law_stops_are_headed_by_their_own_name(h, Cursor::Pipeline { agent, pipeline: q }, b);
    let x = h.pipelines@[p as int]@;
    let y = h.pipelines@[q as int]@;
    let m = "### "@.len() as int;
    assert(p != q);
    assert(a@ == "### "@ + x + "\n\n"@);
    assert(b@ == "### "@ + y + "\n\n"@);
    if a@ == b@ {
        assert(a@.len() == m + x.len() + "\n\n"@.len());
        assert(b@.len() == m + y.len() + "\n\n"@.len());
        assert(a@.subrange(m, m + x.len()) =~= x);
        assert(b@.subrange(m, m + y.len()) =~= y);
    }
}

// ── Blocks of the report ────────────────────────────────────────────────────

/// The title has the date; a missing provenance is named, and only where no
/// chunk was counted; a missing database is named with what to run.
pub proof fn law_titles_and_gates_are_written(
    today: &str,
    pipeline: &str,
    corpus: &str,
    workspace: &str,
    config: &str,
    chunks: usize,
    head: String,
    missing: String,
    gated: String,
    absent: String,
)
    requires
        call_ensures(title, (today,), head),
        call_ensures(not_indexed, (pipeline, corpus, workspace), missing),
        call_ensures(gate, (chunks, pipeline, corpus, workspace), gated),
        call_ensures(no_database, (workspace, config), absent),
    ensures
        head@ == "# RAG Benchmark — "@ + today@ + "\n\n"@,
        missing@ == "_Error: pipeline '"@ + pipeline@ + "' is not indexed for corpus '"@ + corpus@
            + "' in the vector database at "@ + workspace@
            + " — run `ragrig-bench-ingest` first._"@,
        chunks == 0 ==> gated@ == missing@ + "\n\n"@,
        chunks > 0 ==> gated@.len() == 0,
        absent@ == "no vector database at "@ + workspace@ + " — run `ragrig-bench-ingest "@
            + config@ + "` first."@,
{
}

/// A question is written whole, with the number of its turn counted from one
/// outside a chat.
pub proof fn law_questions_are_written(chat: bool, turn: usize, text: &str, r: String)
    requires
        call_ensures(question, (chat, turn, text), r),
    ensures
        chat ==> r@ == "**Q:** "@ + text@ + "\n\n"@,
        !chat ==> r@ == "**Q"@ + decimal((turn + 1) as nat) + ":** "@ + text@ + "\n\n"@,
{
}

/// The statistics are written figure by figure; no report of chunks counts as
/// none.
pub proof fn law_statistics_are_written(
    ranker: &str,
    s: &CellStats,
    stages: &StageStats,
    staged: String,
    plain: String,
)
    requires
        call_ensures(stats, (ranker, s, stages), staged),
        call_ensures(plain_stats, (s,), plain),
    ensures
        ({
            let n = if s.chunks is Some {
                s.chunks->0 as nat
            } else {
                0
            };
            let figures = "t="@ + s.threshold@ + " · k="@ + decimal(s.top_k as nat) + " → "@
                + decimal(n) + " in context · "@ + decimal(s.context_tokens as nat) + " ctx · "@;
            &&& staged@ == "_ranker="@ + ranker@ + " · "@ + figures + "emb "@ + stages.embed_secs@
                + "s · gen "@ + stages.generate_secs@ + "s · total "@ + s.total_secs@ + "s_\n\n"@
            &&& plain@ == "_"@ + figures + s.total_secs@ + "s_\n\n"@
        }),
{
}

/// A snippet is the start, up to ninety-six characters, of the text with
/// single spaces for its white space.
pub proof fn law_snippets_are_written(text: &str, r: String)
    requires
        call_ensures(snippet, (text,), r),
    ensures
        ({
            let line = joined(white_space_fields(text@), " "@);
            &&& line.len() <= 96 ==> r@ == line
            &&& line.len() > 96 ==> r@ == line.subrange(0, 96)
        }),
{
    crate::report_laws::law_snippets_are_the_start_of_the_text(text@);
}

/// An answer lists the chunks that it reports; where it reports none, the
/// report says so unless the answer starts as a failure does.
pub proof fn law_chunks_are_written(chunks: &Option<Vec<RetrievedChunk>>, text: &str, r: String)
    requires
        call_ensures(retrieved, (chunks, text), r),
    ensures
        *chunks is Some ==> r@ == "**Retrieved** (ranked by store ranker):\n"@ + chunk_lines(
            chunk_views((*chunks)->0@),
        ) + "\n"@,
        *chunks is None && occurs_at(text@, "_Error:"@, 0) ==> r@.len() == 0,
        *chunks is None && !occurs_at(text@, "_Error:"@, 0) ==> r@
            == "_No chunks passed the similarity threshold._\n\n"@,
{
}

/// A search is written with what it found or what failed.
pub proof fn law_searches_are_written(outcome: &SearchOutcome, r: String)
    requires
        call_ensures(search, (outcome,), r),
    ensures
        match *outcome {
            SearchOutcome::EmbeddingFailed { cause } => r@ == "_Embedding error: "@ + cause@
                + "_\n\n"@,
            SearchOutcome::NoVector => r@ == "_Embedding error: no vector returned._\n\n"@,
            SearchOutcome::SearchFailed { cause } => r@ == "_Retrieval error: "@ + cause@
                + "_\n\n"@,
            SearchOutcome::Found { chunks } => r@ == if chunks@.len() == 0 {
                "_No chunks passed the similarity threshold._\n\n"@
            } else {
                "**Retrieved** (ranked by store ranker):\n"@ + chunk_lines(chunk_views(chunks@))
                    + "\n"@
            },
        },
{
}

/// A query that could not be embedded is not searched for, and says why; one
/// that was is searched for with its first vector.
pub proof fn law_searches_need_a_vector(embedded: Result<usize, String>, r: AfterEmbedding)
    requires
        call_ensures(after_embedding, (embedded,), r),
    ensures
        r is Search <==> embedded is Ok && embedded->Ok_0 > 0,
        embedded is Ok && embedded->Ok_0 == 0 ==> (r matches AfterEmbedding::Stop(o)
            && o is NoVector),
        embedded is Err ==> (r matches AfterEmbedding::Stop(SearchOutcome::EmbeddingFailed {
            cause,
        }) && cause == embedded->Err_0),
{
}

/// Answers, queries and the figures of a one-shot answer are written from the
/// texts and numbers that they are given.
pub proof fn law_answers_and_queries_are_written(
    cause: &str,
    text: &str,
    chunks: usize,
    total_secs: &str,
    failed: String,
    answered: String,
    query: Option<String>,
    figures: String,
)
    requires
        call_ensures(error_answer, (cause,), failed),
        call_ensures(answer, (text,), answered),
        call_ensures(read_query, (text,), query),
        call_ensures(oneshot_stats, (chunks, total_secs), figures),
    ensures
        failed@ == "_Error: "@ + cause@ + "_"@,
        answered@ == trimmed(text@) + "\n\n"@,
        query is None <==> trimmed(text@).len() == 0,
        query is Some ==> query->0@ == trimmed(text@),
        figures@ == "  ["@ + decimal(chunks as nat) + " chunks, "@ + total_secs@ + "s]"@,
{
}

// ── The log ─────────────────────────────────────────────────────────────────

/// The log names where a question is asked, from the agent down.
pub proof fn law_asking_is_logged(
    agent: &str,
    pipeline: &str,
    corpus: &str,
    ranker: &str,
    text: &str,
    shown: String,
    query: String,
    ranked: String,
    chat: String,
)
    requires
        call_ensures(excerpt, (text,), shown),
        call_ensures(asking_query, (agent, pipeline, corpus, text), query),
        call_ensures(asking_ranked_query, (agent, pipeline, corpus, ranker, text), ranked),
        call_ensures(asking_chat, (agent, corpus, text), chat),
    ensures
        shown@ == excerpt_text(text@),
        query@ == "  "@ + (agent@ + " / "@ + pipeline@ + " / "@ + corpus@) + " ← \""@ + shown@
            + "\""@,
        ranked@ == "  "@ + (agent@ + " / "@ + pipeline@ + " / "@ + corpus@ + " / "@ + ranker@)
            + " ← \""@ + shown@ + "\""@,
        chat@ == "  "@ + (agent@ + " / "@ + corpus@) + " ← \""@ + shown@ + "\""@,
{
}

/// The log names workspace, embedder, database, pipeline and corpus, and counts
/// the store before the run.
pub proof fn law_indexing_is_logged(
    workspace: &str,
    backend: &str,
    model: &str,
    pipeline: &str,
    corpus: &str,
    a: usize,
    b: usize,
    lines: (String, String, String, String, String, String, String),
)
    requires
        call_ensures(workspace_line, (workspace, backend, model, a), lines.0),
        call_ensures(reindex_line, (workspace,), lines.1),
        call_ensures(ingesting_line, (pipeline, corpus), lines.2),
        call_ensures(indexing_line, (pipeline,), lines.3),
        call_ensures(stored_line, (a, b), lines.4),
        call_ensures(ready_line, (a, b), lines.5),
        call_ensures(done_line, (a, workspace), lines.6),
    ensures
        lines.0@ == "Workspace: "@ + workspace@ + " — embedder: "@ + backend@ + "/"@ + model@
            + " ("@ + decimal(a as nat) + " dims)"@,
        lines.1@ == "Reindex: removing existing vector database "@ + workspace@ + " …"@,
        lines.2@ == "Ingesting pipeline '"@ + pipeline@ + "' into corpus '"@ + corpus@ + "' …"@,
        lines.3@ == "Indexing pipeline '"@ + pipeline@ + "' …"@,
        lines.4@ == "  "@ + decimal(a as nat) + " chunks in store ("@ + decimal(b as nat)
            + " indexed in this run)."@,
        lines.5@ == "Store: "@ + decimal(a as nat) + " chunks ready ("@ + decimal(b as nat)
            + " in this run)."@,
        lines.6@ == "Done: "@ + decimal(a as nat) + " provenance(s) indexed in "@ + workspace@
            + "."@,
{
}

// ── The run ─────────────────────────────────────────────────────────────────

/// A run starts at the first agent with nothing said.
pub proof fn law_runs_begin(shape: Shape, chat: bool, r: Run)
    requires
        call_ensures(Run::begin, (shape, chat), r),
    ensures
        r@.shape == shape,
        r@.chat == chat,
        r@.transcript.len() == 0,
        shape.agents > 0 ==> r@.cursor == (Cursor::Agent { agent: 0 }),
        shape.agents == 0 ==> r@.cursor is Finished,
{
}

/// A run tells where it stands and what was said, the question before the
/// answer.
pub proof fn law_runs_tell_where_they_stand(
    run: &Run,
    at: Cursor,
    said: &Vec<(String, String)>,
    i: int,
)
    requires
        call_ensures(Run::cursor, (run,), at),
        call_ensures(Run::transcript, (run,), said),
    ensures
        at == run@.cursor,
        said@.len() == run@.transcript.len(),
        0 <= i < said@.len() ==> said@[i].0@ == run@.transcript[i].0 && said@[i].1@
            == run@.transcript[i].1,
{
    let pairs = crate::matrix::turns_text(said@);
    assert(pairs.len() == said@.len());
    if 0 <= i < said@.len() {
        assert(pairs[i] == (said@[i].0@, said@[i].1@));
    }
}

/// A run takes a count at a corpus, an answer at a turn, nothing at the end,
/// and the word that all is ready elsewhere.  What it takes moves it on; what
/// it does not take changes nothing.
pub proof fn law_runs_advance(run: &mut Run, event: Event, taken: bool)
    requires
        call_ensures(Run::advance, (run, event), taken),
    ensures
        taken <==> {
            ||| old(run)@.cursor is Corpus && event is Matching
            ||| old(run)@.cursor is Turn && event is Answered
            ||| (old(run)@.cursor is Agent || old(run)@.cursor is Pipeline || old(
                run,
            )@.cursor is Ranker) && event is Ready
        },
        !taken ==> final(run)@ == old(run)@,
        final(run)@.shape == old(run)@.shape,
        final(run)@.chat == old(run)@.chat,
        taken && old(run)@.cursor is Ranker ==> final(run)@.transcript.len() == 0,
        taken && old(run)@.cursor is Turn && old(run)@.chat ==> final(run)@.transcript == old(
            run,
        )@.transcript.push((event->question@, event->answer@)),
        taken && old(run)@.cursor !is Ranker && !(old(run)@.cursor is Turn && old(run)@.chat)
            ==> final(run)@.transcript == old(run)@.transcript,
{
}

/// At each stop a run goes on to what the matrix has next.
pub proof fn law_next_stops(s: &Shape, at: Cursor, indexed: bool, r: Cursor)
    requires
        call_ensures(Shape::next, (s, at, indexed), r),
        s.holds(at),
    ensures
        match at {
            Cursor::Agent { agent } => s.pipelines > 0 ==> r == (Cursor::Pipeline {
                agent,
                pipeline: 0,
            }),
            Cursor::Pipeline { agent, pipeline } => s.corpora > 0 ==> r == (Cursor::Corpus {
                agent,
                pipeline,
                corpus: 0,
            }),
            Cursor::Corpus { agent, pipeline, corpus } => {
                &&& indexed && s.rankers > 0 ==> r == (Cursor::Ranker {
                    agent,
                    pipeline,
                    corpus,
                    ranker: 0,
                })
                &&& !indexed ==> r == past_corpus(*s, agent, pipeline, corpus)
            },
            Cursor::Ranker { agent, pipeline, corpus, ranker } => s.turns > 0 ==> r
                == (Cursor::Turn { agent, pipeline, corpus, ranker, turn: 0 }),
            Cursor::Turn { agent, pipeline, corpus, ranker, turn } => r == if turn + 1 < s.turns {
                Cursor::Turn { agent, pipeline, corpus, ranker, turn: (turn + 1) as usize }
            } else {
                past_ranker(*s, agent, pipeline, corpus, ranker)
            },
            Cursor::Finished => r is Finished,
        },
{
}

// ── The interaction ─────────────────────────────────────────────────────────

/// An answer has the text, the chunks and the figures of its reply and the
/// settings that it was asked with; a failure to reply is answered with its
/// cause, without chunks and without a measured time.
pub proof fn law_replies_become_answers(
    reply: Result<Reply, String>,
    threshold: String,
    top_k: usize,
    context_tokens: usize,
    r: Answer,
)
    requires
        call_ensures(answer_of, (reply, threshold, top_k, context_tokens), r),
    ensures
        r.stats.threshold@ == threshold@,
        r.stats.top_k == top_k,
        r.stats.context_tokens == context_tokens,
        r.search is None,
        reply matches Ok(p) ==> {
            &&& r.text@ == p.text@
            &&& r.chunks == p.retrieved
            &&& r.stats.chunks == p.chunks_retrieved
            &&& p.total_secs is Some ==> r.stats.total_secs@ == p.total_secs->0@
            &&& p.total_secs is None ==> r.stats.total_secs@ == "0.0"@
            &&& r.stages.embed_secs@ == p.embed_secs@
            &&& r.stages.generate_secs@ == p.generate_secs@
        },
        reply matches Err(cause) ==> {
            &&& r.text@ == "_Error: "@ + cause@ + "_"@
            &&& r.chunks is None
            &&& r.stats.chunks is None
            &&& r.stats.total_secs@ == "0.0"@
            &&& r.stages.embed_secs@ == "0.0"@
            &&& r.stages.generate_secs@ == "0.0"@
        },
{
}

/// An interaction begins in order, with what it was given, at the first agent
/// and with nothing said.
pub proof fn law_interactions_begin(
    style: Style,
    chat: bool,
    headings: Headings,
    questions: Vec<String>,
    workspace: String,
    r: Interaction,
    i: int,
)
    requires
        call_ensures(Interaction::begin, (style, chat, headings, questions, workspace), r),
    ensures
        r@.well_formed(),
        r@.layout.style == style,
        r@.layout.chat == chat,
        r@.layout.headings == headings@,
        r@.layout.workspace == workspace@,
        r@.layout.questions.len() == questions@.len(),
        0 <= i < questions@.len() ==> r@.layout.questions[i] == questions@[i]@,
        r@.run.chat == chat,
        r@.run.transcript.len() == 0,
        headings.agents@.len() > 0 ==> r@.run.cursor == (Cursor::Agent { agent: 0 }),
        headings.agents@.len() == 0 ==> r@.run.cursor is Finished,
{
}

/// An interaction tells where it stands, what was said, and at a turn the very
/// question of that turn.
pub proof fn law_interactions_tell_where_they_stand(
    it: &Interaction,
    at: Cursor,
    said: &Vec<(String, String)>,
    asked: Option<&String>,
    i: int,
)
    requires
        call_ensures(Interaction::cursor, (it,), at),
        call_ensures(Interaction::transcript, (it,), said),
        call_ensures(Interaction::question, (it,), asked),
    ensures
        at == it@.run.cursor,
        said@.len() == it@.run.transcript.len(),
        0 <= i < said@.len() ==> said@[i].0@ == it@.run.transcript[i].0 && said@[i].1@
            == it@.run.transcript[i].1,
        asked is Some <==> at is Turn,
        at matches Cursor::Turn { turn, .. } ==> asked->0@ == it@.layout.questions[turn as int],
{
    let pairs = crate::matrix::turns_text(said@);
    assert(pairs.len() == said@.len());
    if 0 <= i < said@.len() {
        assert(pairs[i] == (said@[i].0@, said@[i].1@));
    }
}

/// An interaction announces a question with the names of the place where it is
/// asked, and nothing anywhere else.
pub proof fn law_interactions_announce_questions(it: &Interaction, r: String)
    requires
        call_ensures(Interaction::announcement, (it,), r),
    ensures
        it@.run.cursor !is Turn ==> r@.len() == 0,
        it@.run.cursor matches Cursor::Turn { agent, pipeline, corpus, ranker, turn } ==> {
            let names = it@.layout.headings;
            let a = names.agents[agent as int];
            let p = names.pipelines[pipeline as int];
            let c = names.corpora[corpus as int];
            let place = if it@.layout.chat {
                a + " / "@ + c
            } else if it@.layout.style is Plain {
                a + " / "@ + p + " / "@ + c
            } else {
                a + " / "@ + p + " / "@ + c + " / "@ + names.rankers[ranker as int]
            };
            r@ == "  "@ + place + " ← \""@ + excerpt_text(it@.layout.questions[turn as int]) + "\""@
        },
{
}

/// An interaction opens a turn with its own question, numbered outside a chat,
/// and in a chat of the plain style with nothing.
pub proof fn law_interactions_open_turns(it: &Interaction, r: String)
    requires
        call_ensures(Interaction::opening, (it,), r),
        it@.run.cursor is Turn,
    ensures
        ({
            let turn = it@.run.cursor->Turn_turn;
            let text = it@.layout.questions[turn as int];
            &&& it@.layout.chat && it@.layout.style is Plain ==> r@.len() == 0
            &&& it@.layout.chat && it@.layout.style is Staged ==> r@ == "**Q:** "@ + text + "\n\n"@
            &&& !it@.layout.chat ==> r@ == "**Q"@ + decimal((turn + 1) as nat) + ":** "@ + text
                + "\n\n"@
        }),
{
}

/// Concluding a turn with an answer is possible; in a chat the conversation
/// grows by the question of the turn and the text of the answer, in that
/// order, and outside a chat it stays; the next turn follows where there is
/// one.
pub proof fn law_interactions_conclude_turns(
    it: &mut Interaction,
    a: Answer,
    agent: usize,
    pipeline: usize,
    corpus: usize,
    ranker: usize,
    turn: usize,
    r: Option<String>,
)
    requires
        call_ensures(Interaction::conclude, (it, Outcome::Answered(a)), r),
        old(it)@.well_formed(),
        old(it)@.run.cursor == (Cursor::Turn { agent, pipeline, corpus, ranker, turn }),
    ensures
        r is Some,
        final(it)@.well_formed(),
        final(it)@.layout == old(it)@.layout,
        old(it)@.run.chat ==> final(it)@.run.transcript == old(it)@.run.transcript + seq![
            (old(it)@.layout.questions[turn as int], a.text@),
        ],
        !old(it)@.run.chat ==> final(it)@.run.transcript == old(it)@.run.transcript,
        turn + 1 < old(it)@.layout.questions.len() ==> final(it)@.run.cursor == (Cursor::Turn {
            agent,
            pipeline,
            corpus,
            ranker,
            turn: (turn + 1) as usize,
        }),
{
    law_answers_join_the_conversation(
        old(it)@,
        agent,
        pipeline,
        corpus,
        ranker,
        turn,
        a,
        0,
    );
}

/// Concluding a turn of the staged style writes the figures under the ranker of
/// the turn, the chunks and the answer; in the plain style the search, in a
/// chat the question of the turn, the figures and the answer.
pub proof fn law_interactions_write_answers(
    it: &mut Interaction,
    a: Answer,
    agent: usize,
    pipeline: usize,
    corpus: usize,
    ranker: usize,
    turn: usize,
    r: Option<String>,
)
    requires
        call_ensures(Interaction::conclude, (it, Outcome::Answered(a)), r),
        old(it)@.run.cursor == (Cursor::Turn { agent, pipeline, corpus, ranker, turn }),
    ensures
        r is Some,
        ({
            let layout = old(it)@.layout;
            let text = r->0@;
            let end = answer_text(a.text@);
            let figures = plain_stats_text(a.stats);
            let asked = question_text(true, turn as nat, layout.questions[turn as int]);
            &&& layout.style is Staged ==> text == stats_text(
                layout.headings.rankers[ranker as int],
                a.stats,
                a.stages,
            ) + retrieved_text(reported(a.chunks), a.text@) + end
            &&& layout.style is Plain && a.search is Some && layout.chat ==> text == search_text(
                a.search->0,
            ) + asked + figures + end
            &&& layout.style is Plain && a.search is Some && !layout.chat ==> text == search_text(
                a.search->0,
            ) + figures + end
            &&& layout.style is Plain && a.search is None && layout.chat ==> text == asked
                + figures + end
            &&& layout.style is Plain && a.search is None && !layout.chat ==> text == figures + end
        }),
{
    law_answers_close_with_figures_and_text(
        old(it)@.layout,
        agent,
        pipeline,
        corpus,
        ranker,
        turn,
        a,
    );
}

/// An interaction opens every other stop with the name of that stop: an agent
/// always, a pipeline, a corpus or a ranker where there are several.
pub proof fn law_interactions_open_stops(it: &Interaction, r: String)
    requires
        call_ensures(Interaction::opening, (it,), r),
    ensures
        ({
            let names = it@.layout.headings;
            match it@.run.cursor {
                Cursor::Agent { agent } => r@ == "## "@ + names.agents[agent as int] + "\n\n"@,
                Cursor::Pipeline { pipeline, .. } => r@ == if names.pipelines.len() > 1 {
                    "### "@ + names.pipelines[pipeline as int] + "\n\n"@
                } else {
                    Seq::empty()
                },
                Cursor::Corpus { corpus, .. } => r@ == if names.corpora.len() > 1 {
                    "#### "@ + names.corpora[corpus as int] + "\n\n"@
                } else {
                    Seq::empty()
                },
                Cursor::Ranker { ranker, .. } => r@ == if names.rankers.len() > 1 {
                    "##### ranker: "@ + names.rankers[ranker as int] + "\n\n"@
                } else {
                    Seq::empty()
                },
                Cursor::Turn { .. } => true,
                Cursor::Finished => r@.len() == 0,
            }
        }),
{
}

/// Concluding any stop writes what closes it and moves on where the outcome
/// belongs to the stop, and else changes nothing.
pub proof fn law_interactions_conclude_stops(
    it: &mut Interaction,
    outcome: Outcome,
    r: Option<String>,
)
    requires
        call_ensures(Interaction::conclude, (it, outcome), r),
    ensures
        r is Some <==> old(it)@.expects(outcome),
        r is Some ==> r->0@ == old(it)@.layout.closing(old(it)@.run.cursor, outcome),
        final(it)@ == old(it)@.after(outcome),
        r is None ==> final(it)@ == old(it)@,
        final(it)@.well_formed(),
{
}

/// Concluding a ranker starts a new conversation; what does not belong to the
/// ranker changes nothing.
pub proof fn law_interactions_conclude_rankers(
    it: &mut Interaction,
    outcome: Outcome,
    r: Option<String>,
)
    requires
        call_ensures(Interaction::conclude, (it, outcome), r),
        old(it)@.run.cursor is Ranker,
    ensures
        r is Some <==> outcome is Ready,
        outcome is Ready ==> r->0@.len() == 0 && final(it)@.run.transcript.len() == 0,
        outcome !is Ready ==> final(it)@ == old(it)@,
        final(it)@.layout == old(it)@.layout,
{
}

/// Concluding a corpus with a count says what is missing exactly where nothing
/// was counted, by the names of that very pipeline and corpus, and then passes
/// the corpus.
pub proof fn law_interactions_conclude_corpora(
    it: &mut Interaction,
    agent: usize,
    pipeline: usize,
    corpus: usize,
    chunks: usize,
    r: Option<String>,
)
    requires
        call_ensures(Interaction::conclude, (it, Outcome::Counted { chunks }), r),
        old(it)@.well_formed(),
        old(it)@.run.cursor == (Cursor::Corpus { agent, pipeline, corpus }),
    ensures
        r is Some,
        chunks > 0 ==> r->0@.len() == 0,
        chunks == 0 ==> r->0@ == "_Error: pipeline '"@ + old(
            it,
        )@.layout.headings.pipelines[pipeline as int] + "' is not indexed for corpus '"@ + old(
            it,
        )@.layout.headings.corpora[corpus as int] + "' in the vector database at "@ + old(
            it,
        )@.layout.workspace + " — run `ragrig-bench-ingest` first._"@ + "\n\n"@,
        chunks == 0 ==> final(it)@.run.cursor == past_corpus(
            old(it)@.run.shape,
            agent,
            pipeline,
            corpus,
        ),
        chunks > 0 && old(it)@.run.shape.rankers > 0 ==> final(it)@.run.cursor == (Cursor::Ranker {
            agent,
            pipeline,
            corpus,
            ranker: 0,
        }),
        final(it)@.run.transcript == old(it)@.run.transcript,
        final(it)@.layout == old(it)@.layout,
{
}

} // verus!
