//! What the blocks of the report say, in terms of the names, texts and figures
//! that go into them.

use vstd::prelude::*;
use crate::matrix::{Cursor, Shape};
use crate::number::decimal;
use crate::report::{
    answer_text, chunk_line, chunk_lines, chunk_list, chunk_views, error_answer_text, gate_text,
    no_database_text, not_indexed_text, oneshot_text, plain_stats_text, query_of_line,
    question_text, reported, retrieved_text, search_text, snippet_of, stats_text,
    title_text, CellStats, Headings, HeadingsView, RetrievedChunk, RetrievedChunkView,
    SearchOutcome, StageStats,
};
use crate::text::{joined, occurs_at, trimmed, white_space_fields};

verus! {

/// What stands between the same two texts can be told apart.
proof fn lemma_told_apart(before: Seq<char>, a: Seq<char>, b: Seq<char>, after: Seq<char>)
    requires
        before + a + after == before + b + after,
    ensures
        a == b,
{
    let s = before + a + after;
    assert(s.len() == before.len() + a.len() + after.len());
    assert(a.len() == b.len());
    let n = before.len() as int;
    assert(s.subrange(n, n + a.len()) =~= a);
    assert((before + b + after).subrange(n, n + b.len()) =~= b);
}

// ── Headings ────────────────────────────────────────────────────────────────

/// The title is a heading of the first level with the date.
pub proof fn law_title_has_the_date(today: Seq<char>, other: Seq<char>)
    ensures
        title_text(today) == "# RAG Benchmark — "@ + today + "\n\n"@,
        title_text(today) == title_text(other) ==> today == other,
{
    if title_text(today) == title_text(other) {
        lemma_told_apart("# RAG Benchmark — "@, today, other, "\n\n"@);
    }
}

/// Headings are seen name by name, each list in its order.
pub proof fn law_headings_are_seen_as_they_are(h: Headings, i: int)
    ensures
        h@.agents.len() == h.agents@.len(),
        0 <= i < h.agents@.len() ==> h@.agents[i] == h.agents@[i]@,
        h@.pipelines.len() == h.pipelines@.len(),
        0 <= i < h.pipelines@.len() ==> h@.pipelines[i] == h.pipelines@[i]@,
        h@.corpora.len() == h.corpora@.len(),
        0 <= i < h.corpora@.len() ==> h@.corpora[i] == h.corpora@[i]@,
        h@.rankers.len() == h.rankers@.len(),
        0 <= i < h.rankers@.len() ==> h@.rankers[i] == h.rankers@[i]@,
{
}

/// Headings stand over a matrix that has as many agents, pipelines, corpora
/// and rankers as there are names.
pub proof fn law_headings_fit_where_all_is_named(h: Headings, shape: Shape)
    ensures
        h@.fits(shape) <==> {
            &&& h.agents@.len() == shape.agents
            &&& h.pipelines@.len() == shape.pipelines
            &&& h.corpora@.len() == shape.corpora
            &&& h.rankers@.len() == shape.rankers
        },
{
}

/// The heading of a stop is the mark of its level, the name of the very agent,
/// pipeline, corpus or ranker of that stop, and an empty line.
pub proof fn law_headings_name_their_stop(
    h: Headings,
    agent: usize,
    pipeline: usize,
    corpus: usize,
    ranker: usize,
    turn: usize,
)
    requires
        agent < h.agents@.len(),
        pipeline < h.pipelines@.len(),
        corpus < h.corpora@.len(),
        ranker < h.rankers@.len(),
    ensures
        h@.at(Cursor::Agent { agent }) == "## "@ + h.agents@[agent as int]@ + "\n\n"@,
        h.pipelines@.len() > 1 ==> h@.at(Cursor::Pipeline { agent, pipeline }) == "### "@
            + h.pipelines@[pipeline as int]@ + "\n\n"@,
        h.corpora@.len() > 1 ==> h@.at(Cursor::Corpus { agent, pipeline, corpus }) == "#### "@
            + h.corpora@[corpus as int]@ + "\n\n"@,
        h.rankers@.len() > 1 ==> h@.at(Cursor::Ranker { agent, pipeline, corpus, ranker })
            == "##### ranker: "@ + h.rankers@[ranker as int]@ + "\n\n"@,
        h.pipelines@.len() == 1 ==> h@.at(Cursor::Pipeline { agent, pipeline }).len() == 0,
        h.corpora@.len() == 1 ==> h@.at(Cursor::Corpus { agent, pipeline, corpus }).len() == 0,
        h.rankers@.len() == 1 ==> h@.at(
            Cursor::Ranker { agent, pipeline, corpus, ranker },
        ).len() == 0,
        h@.at(Cursor::Turn { agent, pipeline, corpus, ranker, turn }).len() == 0,
        h@.at(Cursor::Finished).len() == 0,
{
}

/// Two agents of different names have different headings, and so have two
/// pipelines, two corpora and two rankers.
pub proof fn law_different_names_have_different_headings(
    h: HeadingsView,
    agents: (usize, usize),
    pipelines: (usize, usize),
    corpora: (usize, usize),
    rankers: (usize, usize),
)
    requires
        h.pipelines.len() > 1,
        h.corpora.len() > 1,
        h.rankers.len() > 1,
    ensures
        h.agents[agents.0 as int] != h.agents[agents.1 as int] ==> h.at(
            Cursor::Agent { agent: agents.0 },
        ) != h.at(Cursor::Agent { agent: agents.1 }),
        h.pipelines[pipelines.0 as int] != h.pipelines[pipelines.1 as int] ==> h.at(
            Cursor::Pipeline { agent: agents.0, pipeline: pipelines.0 },
        ) != h.at(Cursor::Pipeline { agent: agents.1, pipeline: pipelines.1 }),
        h.corpora[corpora.0 as int] != h.corpora[corpora.1 as int] ==> h.at(
            Cursor::Corpus { agent: agents.0, pipeline: pipelines.0, corpus: corpora.0 },
        ) != h.at(Cursor::Corpus { agent: agents.1, pipeline: pipelines.1, corpus: corpora.1 }),
        h.rankers[rankers.0 as int] != h.rankers[rankers.1 as int] ==> h.at(
            Cursor::Ranker {
                agent: agents.0,
                pipeline: pipelines.0,
                corpus: corpora.0,
                ranker: rankers.0,
            },
        ) != h.at(
            Cursor::Ranker {
                agent: agents.1,
                pipeline: pipelines.1,
                corpus: corpora.1,
                ranker: rankers.1,
            },
        ),
{
    let (a, b) = (h.agents[agents.0 as int], h.agents[agents.1 as int]);
    if "## "@ + a + "\n\n"@ == "## "@ + b + "\n\n"@ {
        lemma_told_apart("## "@, a, b, "\n\n"@);
    }
    let (a, b) = (h.pipelines[pipelines.0 as int], h.pipelines[pipelines.1 as int]);
    if "### "@ + a + "\n\n"@ == "### "@ + b + "\n\n"@ {
        lemma_told_apart("### "@, a, b, "\n\n"@);
    }
    let (a, b) = (h.corpora[corpora.0 as int], h.corpora[corpora.1 as int]);
    if "#### "@ + a + "\n\n"@ == "#### "@ + b + "\n\n"@ {
        lemma_told_apart("#### "@, a, b, "\n\n"@);
    }
    let (a, b) = (h.rankers[rankers.0 as int], h.rankers[rankers.1 as int]);
    if "##### ranker: "@ + a + "\n\n"@ == "##### ranker: "@ + b + "\n\n"@ {
        lemma_told_apart("##### ranker: "@, a, b, "\n\n"@);
    }
}

// ── Missing provenances ─────────────────────────────────────────────────────

/// A provenance counts as missing exactly where no chunk was counted; then the
/// report names the pipeline, the corpus and the place of the database.
pub proof fn law_missing_provenances_are_named(
    chunks: nat,
    pipeline: Seq<char>,
    corpus: Seq<char>,
    workspace: Seq<char>,
)
    ensures
        not_indexed_text(pipeline, corpus, workspace) == "_Error: pipeline '"@ + pipeline
            + "' is not indexed for corpus '"@ + corpus + "' in the vector database at "@
            + workspace + " — run `ragrig-bench-ingest` first._"@,
        chunks == 0 ==> gate_text(chunks, pipeline, corpus, workspace) == "_Error: pipeline '"@
            + pipeline + "' is not indexed for corpus '"@ + corpus
            + "' in the vector database at "@ + workspace
            + " — run `ragrig-bench-ingest` first._"@ + "\n\n"@,
        chunks > 0 ==> gate_text(chunks, pipeline, corpus, workspace).len() == 0,
{
}

/// A run without a database says where it looked and what to run.
pub proof fn law_no_database_says_what_to_run(workspace: Seq<char>, config: Seq<char>)
    ensures
        no_database_text(workspace, config) == "no vector database at "@ + workspace
            + " — run `ragrig-bench-ingest "@ + config + "` first."@,
{
}

// ── Questions ───────────────────────────────────────────────────────────────

/// A question of a chat has no number, whatever its turn; any other has the
/// number of its turn, counted from one.  Different questions of a turn are
/// written differently.
pub proof fn law_questions_are_numbered_outside_a_chat(
    turn: nat,
    question: Seq<char>,
    chat: bool,
    other: Seq<char>,
)
    ensures
        question_text(true, turn, question) == "**Q:** "@ + question + "\n\n"@,
        question_text(false, turn, question) == "**Q"@ + decimal(turn + 1) + ":** "@ + question
            + "\n\n"@,
        question_text(chat, turn, question) == question_text(chat, turn, other) ==> question
            == other,
{
    if question_text(chat, turn, question) == question_text(chat, turn, other) {
        if chat {
            lemma_told_apart("**Q:** "@, question, other, "\n\n"@);
        } else {
            lemma_told_apart("**Q"@ + decimal(turn + 1) + ":** "@, question, other, "\n\n"@);
        }
    }
}

// ── Statistics ──────────────────────────────────────────────────────────────

/// The statistics hold the ranker, the threshold, the chunks asked for, the
/// chunks in the context, the size of the context, and the seconds of each
/// stage and of the whole; no report of chunks counts as none.
pub proof fn law_statistics_hold_their_figures(
    ranker: Seq<char>,
    s: CellStats,
    stages: StageStats,
    n: usize,
)
    ensures
        s.chunks == Some(n) ==> stats_text(ranker, s, stages) == "_ranker="@ + ranker + " · "@ + (
        "t="@ + s.threshold@ + " · k="@ + decimal(s.top_k as nat) + " → "@ + decimal(n as nat)
            + " in context · "@ + decimal(s.context_tokens as nat) + " ctx · "@) + "emb "@
            + stages.embed_secs@ + "s · gen "@ + stages.generate_secs@ + "s · total "@
            + s.total_secs@ + "s_\n\n"@,
        s.chunks is None ==> stats_text(ranker, s, stages) == "_ranker="@ + ranker + " · "@ + ("t="@
            + s.threshold@ + " · k="@ + decimal(s.top_k as nat) + " → "@ + decimal(0)
            + " in context · "@ + decimal(s.context_tokens as nat) + " ctx · "@) + "emb "@
            + stages.embed_secs@ + "s · gen "@ + stages.generate_secs@ + "s · total "@
            + s.total_secs@ + "s_\n\n"@,
        s.chunks == Some(n) ==> plain_stats_text(s) == "_"@ + ("t="@ + s.threshold@ + " · k="@
            + decimal(s.top_k as nat) + " → "@ + decimal(n as nat) + " in context · "@ + decimal(
            s.context_tokens as nat,
        ) + " ctx · "@) + s.total_secs@ + "s_\n\n"@,
        s.chunks is None ==> plain_stats_text(s) == "_"@ + ("t="@ + s.threshold@ + " · k="@
            + decimal(s.top_k as nat) + " → "@ + decimal(0) + " in context · "@ + decimal(
            s.context_tokens as nat,
        ) + " ctx · "@) + s.total_secs@ + "s_\n\n"@,
{
}

// ── Chunks ──────────────────────────────────────────────────────────────────

/// A chunk is seen with its own document, score and text, and a list of chunks
/// in its order; where none is reported, none is seen.
pub proof fn law_chunks_are_seen_as_they_are(
    c: RetrievedChunk,
    v: Seq<RetrievedChunk>,
    chunks: Option<Vec<RetrievedChunk>>,
    i: int,
)
    ensures
        c@.document == c.document@,
        c@.score == c.score@,
        c@.text == c.text@,
        chunk_views(v).len() == v.len(),
        0 <= i < v.len() ==> chunk_views(v)[i] == v[i]@,
        reported(chunks) is Some <==> chunks is Some,
        chunks is Some ==> reported(chunks)->0.len() == chunks->0@.len(),
        chunks is Some && 0 <= i < chunks->0@.len() ==> reported(chunks)->0[i] == chunks->0@[i]@,
{
}

/// A snippet is the start of the text with single spaces for its white space:
/// the whole of it up to ninety-six characters, and exactly so many of a
/// longer one.
pub proof fn law_snippets_are_the_start_of_the_text(text: Seq<char>)
    ensures
        ({
            let line = joined(white_space_fields(text), " "@);
            &&& line.len() <= 96 ==> snippet_of(text) == line
            &&& line.len() > 96 ==> snippet_of(text).len() == 96 && snippet_of(text)
                == line.subrange(0, 96)
        }),
{
    let line = joined(white_space_fields(text), " "@);
    assert(line.len() <= 96 ==> snippet_of(text) =~= line);
    assert(line.len() > 96 ==> snippet_of(text) =~= line.subrange(0, 96));
}

/// The list of chunks grows at its end by a line for each: its rank counted
/// from one, its document, its score, the start of its text.
pub proof fn law_chunks_are_listed_by_rank(
    chunks: Seq<RetrievedChunkView>,
    c: RetrievedChunkView,
)
    ensures
        chunk_lines(Seq::empty()).len() == 0,
        chunk_lines(chunks.push(c)) == chunk_lines(chunks) + (decimal(chunks.len() + 1) + ". **"@
            + c.document + "** — "@ + c.score + " — _"@ + snippet_of(c.text) + "_\n"@),
        chunk_list(chunks) == "**Retrieved** (ranked by store ranker):\n"@ + chunk_lines(chunks)
            + "\n"@,
{
    assert(chunks.push(c).drop_last() =~= chunks);
}

/// The line of the chunk at a rank shows that chunk, and the lines of chunks
/// of different documents, all else being the same, differ.
pub proof fn law_chunk_lines_show_the_chunk(
    rank: nat,
    c: RetrievedChunkView,
    other: Seq<char>,
)
    ensures
        chunk_line(rank, c) == decimal(rank + 1) + ". **"@ + c.document + "** — "@ + c.score
            + " — _"@ + snippet_of(c.text) + "_\n"@,
        other != c.document ==> chunk_line(rank, c) != chunk_line(
            rank,
            RetrievedChunkView { document: other, score: c.score, text: c.text },
        ),
{
    let d = RetrievedChunkView { document: other, score: c.score, text: c.text };
    if chunk_line(rank, c) == chunk_line(rank, d) {
        let before = decimal(rank + 1) + ". **"@;
        let after = "** — "@ + c.score + " — _"@ + snippet_of(c.text) + "_\n"@;
        assert(chunk_line(rank, c) =~= before + c.document + after);
        assert(chunk_line(rank, d) =~= before + other + after);
        lemma_told_apart(before, c.document, other, after);
    }
}

/// An answer lists the chunks that it reports, also where there are none of
/// them.  Where it reports none at all, the report says that none was similar
/// enough, except beside an answer that starts as a failure does.
pub proof fn law_answers_list_what_they_report(
    list: Seq<RetrievedChunkView>,
    answer: Seq<char>,
)
    ensures
        retrieved_text(Some(list), answer) == "**Retrieved** (ranked by store ranker):\n"@
            + chunk_lines(list) + "\n"@,
        occurs_at(answer, "_Error:"@, 0) ==> retrieved_text(None, answer).len() == 0,
        !occurs_at(answer, "_Error:"@, 0) ==> retrieved_text(None, answer)
            == "_No chunks passed the similarity threshold._\n\n"@,
{
}

/// A search of its own reports what it found, or that nothing was similar
/// enough, or what failed and why.
pub proof fn law_searches_report_what_came(outcome: SearchOutcome)
    ensures
        match outcome {
            SearchOutcome::EmbeddingFailed { cause } => search_text(outcome)
                == "_Embedding error: "@ + cause@ + "_\n\n"@,
            SearchOutcome::NoVector => search_text(outcome)
                == "_Embedding error: no vector returned._\n\n"@,
            SearchOutcome::SearchFailed { cause } => search_text(outcome)
                == "_Retrieval error: "@ + cause@ + "_\n\n"@,
            SearchOutcome::Found { chunks } => if chunks@.len() == 0 {
                search_text(outcome) == "_No chunks passed the similarity threshold._\n\n"@
            } else {
                search_text(outcome) == "**Retrieved** (ranked by store ranker):\n"@ + chunk_lines(
                    chunk_views(chunks@),
                ) + "\n"@
            },
        },
{
}

// ── Answers ─────────────────────────────────────────────────────────────────

/// The answer that stands for a failure says its cause; every answer is
/// written without the white space around it.
pub proof fn law_answers_are_written_trimmed(cause: Seq<char>, answer: Seq<char>)
    ensures
        error_answer_text(cause) == "_Error: "@ + cause + "_"@,
        answer_text(answer) == trimmed(answer) + "\n\n"@,
{
}

/// A line of input is a query unless it is white space throughout, and the
/// query is the line without the white space around it.
pub proof fn law_queries_are_trimmed_lines(line: Seq<char>)
    ensures
        query_of_line(line) is None <==> trimmed(line).len() == 0,
        query_of_line(line) is Some ==> query_of_line(line)->0 == trimmed(line),
{
}

/// The figures of a one-shot answer are its chunks and its seconds.
pub proof fn law_oneshot_figures(chunks: nat, total_secs: Seq<char>)
    ensures
        oneshot_text(chunks, total_secs) == "  ["@ + decimal(chunks) + " chunks, "@ + total_secs
            + "s]"@,
{
}

} // verus!
