//! The text of the report, block by block.
//!
//! Every block ends with an empty line.  Numbers with a fraction come as the
//! text they are to be printed with.

use vstd::prelude::*;
use vstd::string::StringExecFns;
use crate::matrix::{Cursor, EventView, RunView, Shape};
use crate::number::{decimal, decimal_of};
use crate::text::{
    is_white_space, join, joined, leading, leading_chars, lemma_fields_are_clean,
    lemma_joined_chars, occurs_at, opt_text, same_text, starts_with, texts, trim_text, trimmed,
    white_space_fields, white_space_fields_of,
};

verus! {

// ── Headings ────────────────────────────────────────────────────────────────

/// The title of the report.
pub open spec fn title_text(today: Seq<char>) -> Seq<char> {
    "# RAG Benchmark — "@ + today + "\n\n"@
}

/// The title of the report.
pub fn title(today: &str) -> (r: String)
    ensures
        r@ == title_text(today@),
{
    let mut r: String = String::from_str("# RAG Benchmark — ");
    r.append(today);
    r.append("\n\n");
    r
}

/// What the agents, pipelines, corpora and rankers of a matrix are called.
#[derive(Debug)]
pub struct Headings {
    pub agents: Vec<String>,
    pub pipelines: Vec<String>,
    pub corpora: Vec<String>,
    pub rankers: Vec<String>,
}

/// [`Headings`] as character sequences.
pub struct HeadingsView {
    pub agents: Seq<Seq<char>>,
    pub pipelines: Seq<Seq<char>>,
    pub corpora: Seq<Seq<char>>,
    pub rankers: Seq<Seq<char>>,
}

impl View for Headings {
    type V = HeadingsView;

    open spec fn view(&self) -> HeadingsView {
        HeadingsView {
            agents: texts(self.agents@),
            pipelines: texts(self.pipelines@),
            corpora: texts(self.corpora@),
            rankers: texts(self.rankers@),
        }
    }
}

/// A heading: the mark of its level, the text, an empty line.
pub open spec fn heading_line(mark: Seq<char>, text: Seq<char>) -> Seq<char> {
    mark + text + "\n\n"@
}

impl HeadingsView {
    /// The matrix that these headings stand over.
    pub open spec fn fits(self, shape: Shape) -> bool {
        &&& self.agents.len() == shape.agents
        &&& self.pipelines.len() == shape.pipelines
        &&& self.corpora.len() == shape.corpora
        &&& self.rankers.len() == shape.rankers
    }

    /// The heading at a stop of the run.  An agent always has one; a pipeline,
    /// a corpus and a ranker only where the matrix has more than one of its
    /// kind.
    pub open spec fn at(self, stop: Cursor) -> Seq<char> {
        match stop {
            Cursor::Agent { agent } => heading_line("## "@, self.agents[agent as int]),
            Cursor::Pipeline { pipeline, .. } => if self.pipelines.len() > 1 {
                heading_line("### "@, self.pipelines[pipeline as int])
            } else {
                Seq::empty()
            },
            Cursor::Corpus { corpus, .. } => if self.corpora.len() > 1 {
                heading_line("#### "@, self.corpora[corpus as int])
            } else {
                Seq::empty()
            },
            Cursor::Ranker { ranker, .. } => if self.rankers.len() > 1 {
                heading_line("##### ranker: "@, self.rankers[ranker as int])
            } else {
                Seq::empty()
            },
            Cursor::Turn { .. } => Seq::empty(),
            Cursor::Finished => Seq::empty(),
        }
    }
}

fn write_heading(mark: &str, text: &str) -> (r: String)
    ensures
        r@ == heading_line(mark@, text@),
{
    let mut r: String = String::from_str(mark);
    r.append(text);
    r.append("\n\n");
    r
}

impl Headings {
    /// The shape of the matrix when it asks `turns` questions.
    pub fn shape(&self, turns: usize) -> (r: Shape)
        ensures
            self@.fits(r),
            r.turns == turns,
    {
        Shape {
            agents: self.agents.len(),
            pipelines: self.pipelines.len(),
            corpora: self.corpora.len(),
            rankers: self.rankers.len(),
            turns,
        }
    }

    /// The heading at a stop of the run.
    pub fn heading(&self, stop: Cursor) -> (r: String)
        requires
            exists|shape: Shape| #[trigger] self@.fits(shape) && shape.holds(stop),
        ensures
            r@ == self@.at(stop),
    {
        match stop {
            Cursor::Agent { agent } => write_heading("## ", self.agents[agent].as_str()),
            Cursor::Pipeline { pipeline, .. } => if self.pipelines.len() > 1 {
                write_heading("### ", self.pipelines[pipeline].as_str())
            } else {
                String::new()
            },
            Cursor::Corpus { corpus, .. } => if self.corpora.len() > 1 {
                write_heading("#### ", self.corpora[corpus].as_str())
            } else {
                String::new()
            },
            Cursor::Ranker { ranker, .. } => if self.rankers.len() > 1 {
                write_heading("##### ranker: ", self.rankers[ranker].as_str())
            } else {
                String::new()
            },
            Cursor::Turn { .. } => String::new(),
            Cursor::Finished => String::new(),
        }
    }
}

/// A pipeline, corpus or ranker heading appears exactly where the matrix has
/// more than one of its kind; an agent heading always does.
pub proof fn law_headings_appear_where_there_is_a_choice(
    h: HeadingsView,
    shape: Shape,
    stop: Cursor,
)
    requires
        h.fits(shape),
        shape.holds(stop),
    ensures
        h.at(stop).len() > 0 <==> match stop {
            Cursor::Agent { .. } => true,
            Cursor::Pipeline { .. } => shape.pipelines > 1,
            Cursor::Corpus { .. } => shape.corpora > 1,
            Cursor::Ranker { .. } => shape.rankers > 1,
            Cursor::Turn { .. } => false,
            Cursor::Finished => false,
        },
{
    reveal_strlit("\n\n");
}

// ── The provenance gate ─────────────────────────────────────────────────────

/// What stands in place of the answers where ingestion has not built a
/// pipeline for a corpus.
pub open spec fn not_indexed_text(
    pipeline: Seq<char>,
    corpus: Seq<char>,
    workspace: Seq<char>,
) -> Seq<char> {
    "_Error: pipeline '"@ + pipeline + "' is not indexed for corpus '"@ + corpus
        + "' in the vector database at "@ + workspace + " — run `ragrig-bench-ingest` first._"@
}

/// What stands in place of the answers where ingestion has not built a
/// pipeline for a corpus.
pub fn not_indexed(pipeline: &str, corpus: &str, workspace: &str) -> (r: String)
    ensures
        r@ == not_indexed_text(pipeline@, corpus@, workspace@),
{
    let mut r: String = String::from_str("_Error: pipeline '");
    r.append(pipeline);
    r.append("' is not indexed for corpus '");
    r.append(corpus);
    r.append("' in the vector database at ");
    r.append(workspace);
    r.append(" — run `ragrig-bench-ingest` first._");
    r
}

/// What the count of chunks at a corpus adds to the report: nothing where
/// there are some.
pub open spec fn gate_text(
    chunks: nat,
    pipeline: Seq<char>,
    corpus: Seq<char>,
    workspace: Seq<char>,
) -> Seq<char> {
    if chunks == 0 {
        not_indexed_text(pipeline, corpus, workspace) + "\n\n"@
    } else {
        Seq::empty()
    }
}

/// What the count of chunks at a corpus adds to the report.
pub fn gate(chunks: usize, pipeline: &str, corpus: &str, workspace: &str) -> (r: String)
    ensures
        r@ == gate_text(chunks as nat, pipeline@, corpus@, workspace@),
{
    if chunks == 0 {
        let mut r: String = not_indexed(pipeline, corpus, workspace);
        r.append("\n\n");
        r
    } else {
        String::new()
    }
}

/// A provenance that is missing from the database is never passed over in
/// silence: the report says so exactly where the run skips the questions of a
/// corpus.
pub proof fn law_missing_provenance_is_reported(
    run: RunView,
    chunks: nat,
    pipeline: Seq<char>,
    corpus: Seq<char>,
    workspace: Seq<char>,
)
    requires
        run.shape.holds(run.cursor),
        run.cursor is Corpus,
        run.shape.rankers > 0,
    ensures
        gate_text(chunks, pipeline, corpus, workspace).len() > 0 <==> run.after(
            EventView::Matching { chunks },
        ).cursor !is Ranker,
{
    reveal_strlit("\n\n");
}

/// Why a run without a database cannot start.
pub open spec fn no_database_text(workspace: Seq<char>, config: Seq<char>) -> Seq<char> {
    "no vector database at "@ + workspace + " — run `ragrig-bench-ingest "@ + config + "` first."@
}

/// Why a run without a database cannot start.
pub fn no_database(workspace: &str, config: &str) -> (r: String)
    ensures
        r@ == no_database_text(workspace@, config@),
{
    let mut r: String = String::from_str("no vector database at ");
    r.append(workspace);
    r.append(" — run `ragrig-bench-ingest ");
    r.append(config);
    r.append("` first.");
    r
}

// ── Questions ───────────────────────────────────────────────────────────────

/// A question: numbered from one where it stands alone, without a number in a
/// chat.
pub open spec fn question_text(chat: bool, turn: nat, question: Seq<char>) -> Seq<char> {
    if chat {
        "**Q:** "@ + question + "\n\n"@
    } else {
        "**Q"@ + decimal(turn + 1) + ":** "@ + question + "\n\n"@
    }
}

/// The question of a turn.
pub fn question(chat: bool, turn: usize, text: &str) -> (r: String)
    requires
        turn < usize::MAX,
    ensures
        r@ == question_text(chat, turn as nat, text@),
{
    if chat {
        let mut r: String = String::from_str("**Q:** ");
        r.append(text);
        r.append("\n\n");
        r
    } else {
        let mut r: String = String::from_str("**Q");
        r.append(decimal_of(turn + 1).as_str());
        r.append(":** ");
        r.append(text);
        r.append("\n\n");
        r
    }
}

// ── Statistics ──────────────────────────────────────────────────────────────

/// The figures of an answer.
#[derive(Debug)]
pub struct CellStats {
    /// Similarity threshold.
    pub threshold: String,
    /// Chunks asked for.
    pub top_k: usize,
    /// Chunks put into the context, where the agent reports them.
    pub chunks: Option<usize>,
    /// Context window in tokens.
    pub context_tokens: usize,
    /// Seconds of the whole answer.
    pub total_secs: String,
}

/// The figures of the stages of an answer.
#[derive(Debug)]
pub struct StageStats {
    /// Seconds of the embedding.
    pub embed_secs: String,
    /// Seconds of the generation.
    pub generate_secs: String,
}

/// The number of chunks; none reported is none.
pub open spec fn chunk_count(chunks: Option<usize>) -> nat {
    match chunks {
        Some(n) => n as nat,
        None => 0,
    }
}

/// Threshold, chunks and context window.
pub open spec fn retrieval_figures(s: CellStats) -> Seq<char> {
    "t="@ + s.threshold@ + " · k="@ + decimal(s.top_k as nat) + " → "@ + decimal(
        chunk_count(s.chunks),
    ) + " in context · "@ + decimal(s.context_tokens as nat) + " ctx · "@
}

/// The statistics of an answer under a ranker, stage by stage.
pub open spec fn stats_text(ranker: Seq<char>, s: CellStats, stages: StageStats) -> Seq<char> {
    "_ranker="@ + ranker + " · "@ + retrieval_figures(s) + "emb "@ + stages.embed_secs@
        + "s · gen "@ + stages.generate_secs@ + "s · total "@ + s.total_secs@ + "s_\n\n"@
}

/// The statistics of an answer as a whole.
pub open spec fn plain_stats_text(s: CellStats) -> Seq<char> {
    "_"@ + retrieval_figures(s) + s.total_secs@ + "s_\n\n"@
}

fn write_figures(s: &CellStats) -> (r: String)
    ensures
        r@ == retrieval_figures(*s),
{
    let chunks: usize = match s.chunks {
        Some(n) => n,
        None => 0,
    };
    let mut r: String = String::from_str("t=");
    r.append(s.threshold.as_str());
    r.append(" · k=");
    r.append(decimal_of(s.top_k).as_str());
    r.append(" → ");
    r.append(decimal_of(chunks).as_str());
    r.append(" in context · ");
    r.append(decimal_of(s.context_tokens).as_str());
    r.append(" ctx · ");
    r
}

/// The statistics of an answer under a ranker, stage by stage.
pub fn stats(ranker: &str, s: &CellStats, stages: &StageStats) -> (r: String)
    ensures
        r@ == stats_text(ranker@, *s, *stages),
{
    let mut r: String = String::from_str("_ranker=");
    r.append(ranker);
    r.append(" · ");
    r.append(write_figures(s).as_str());
    r.append("emb ");
    r.append(stages.embed_secs.as_str());
    r.append("s · gen ");
    r.append(stages.generate_secs.as_str());
    r.append("s · total ");
    r.append(s.total_secs.as_str());
    r.append("s_\n\n");
    r
}

/// The statistics of an answer as a whole.
pub fn plain_stats(s: &CellStats) -> (r: String)
    ensures
        r@ == plain_stats_text(*s),
{
    let mut r: String = String::from_str("_");
    r.append(write_figures(s).as_str());
    r.append(s.total_secs.as_str());
    r.append("s_\n\n");
    r
}

// ── Retrieved chunks ────────────────────────────────────────────────────────

/// A chunk that a search returned.
#[derive(Debug)]
pub struct RetrievedChunk {
    pub document: String,
    pub score: String,
    pub text: String,
}

/// A [`RetrievedChunk`] with its texts as character sequences.
pub struct RetrievedChunkView {
    pub document: Seq<char>,
    pub score: Seq<char>,
    pub text: Seq<char>,
}

impl View for RetrievedChunk {
    type V = RetrievedChunkView;

    open spec fn view(&self) -> RetrievedChunkView {
        RetrievedChunkView { document: self.document@, score: self.score@, text: self.text@ }
    }
}

/// The views of a list of chunks.
pub open spec fn chunk_views(v: Seq<RetrievedChunk>) -> Seq<RetrievedChunkView> {
    Seq::new(v.len(), |i: int| v[i]@)
}

/// How many characters of a chunk are shown.
pub const SNIPPET_CHARS: usize = 96;

/// The start of a text, with single spaces for all its white space.
pub open spec fn snippet_of(text: Seq<char>) -> Seq<char> {
    leading(joined(white_space_fields(text), " "@), SNIPPET_CHARS as int)
}

/// The start of a text, with single spaces for all its white space.
pub fn snippet(text: &str) -> (r: String)
    ensures
        r@ == snippet_of(text@),
{
    let fields: Vec<String> = white_space_fields_of(text);
    let line: String = join(&fields, " ");
    leading_chars(line.as_str(), SNIPPET_CHARS)
}

/// A snippet stays on one line of the report: it has a bounded length and no
/// white space but spaces.
pub proof fn law_snippet_fits_on_a_line(text: Seq<char>, k: int)
    requires
        0 <= k < snippet_of(text).len(),
    ensures
        snippet_of(text).len() <= SNIPPET_CHARS,
        snippet_of(text)[k] == ' ' || !is_white_space(snippet_of(text)[k]),
{
    reveal_strlit(" ");
    let parts = white_space_fields(text);
    let line = joined(parts, " "@);
    let c = snippet_of(text)[k];
    assert(line[k] == c);
    lemma_joined_chars(parts, " "@, k);
    if !" "@.contains(c) {
        let i = choose|i: int| 0 <= i < parts.len() && (#[trigger] parts[i]).contains(c);
        lemma_fields_are_clean(text, |x: char| is_white_space(x), i);
        let j = choose|j: int| 0 <= j < parts[i].len() && parts[i][j] == c;
        assert(!is_white_space(parts[i][j]));
    }
}

/// The line of the chunk at rank `i`.
pub open spec fn chunk_line(i: nat, chunk: RetrievedChunkView) -> Seq<char> {
    decimal(i + 1) + ". **"@ + chunk.document + "** — "@ + chunk.score + " — _"@ + snippet_of(
        chunk.text,
    ) + "_\n"@
}

/// The lines of all chunks, by rank.
pub open spec fn chunk_lines(chunks: Seq<RetrievedChunkView>) -> Seq<char>
    decreases chunks.len(),
{
    if chunks.len() == 0 {
        Seq::empty()
    } else {
        chunk_lines(chunks.drop_last()) + chunk_line((chunks.len() - 1) as nat, chunks.last())
    }
}

/// The list of chunks under its caption.
pub open spec fn chunk_list(chunks: Seq<RetrievedChunkView>) -> Seq<char> {
    "**Retrieved** (ranked by store ranker):\n"@ + chunk_lines(chunks) + "\n"@
}

/// What is said where no chunk was similar enough.
pub open spec fn nothing_retrieved() -> Seq<char> {
    "_No chunks passed the similarity threshold._\n\n"@
}

fn write_chunks(chunks: &Vec<RetrievedChunk>) -> (r: String)
    ensures
        r@ == chunk_list(chunk_views(chunks@)),
{
    let ghost all = chunk_views(chunks@);
    let n: usize = chunks.len();
    let mut lines: String = String::new();
    let mut i: usize = 0;
    while i < n
        invariant
            i <= n == chunks@.len(),
            all == chunk_views(chunks@),
            lines@ == chunk_lines(all.take(i as int)),
        decreases n - i,
    {
        proof {
            assert(all.take(i + 1).drop_last() =~= all.take(i as int));
            assert(all.take(i + 1).last() == chunks@[i as int]@);
        }
        let mut line: String = decimal_of(i + 1);
        line.append(". **");
        line.append(chunks[i].document.as_str());
        line.append("** — ");
        line.append(chunks[i].score.as_str());
        line.append(" — _");
        line.append(snippet(chunks[i].text.as_str()).as_str());
        line.append("_\n");
        lines.append(line.as_str());
        i += 1;
    }
    assert(all.take(n as int) =~= all);
    let mut r: String = String::from_str("**Retrieved** (ranked by store ranker):\n");
    r.append(lines.as_str());
    r.append("\n");
    r
}

/// The chunks that went into an answer.  Where none are reported, either the
/// answer says what failed, or no chunk was similar enough.
pub open spec fn retrieved_text(
    chunks: Option<Seq<RetrievedChunkView>>,
    answer: Seq<char>,
) -> Seq<char> {
    match chunks {
        Some(list) => chunk_list(list),
        None => if occurs_at(answer, "_Error:"@, 0) {
            Seq::empty()
        } else {
            nothing_retrieved()
        },
    }
}

/// The views of the chunks that went into an answer, where they are reported.
pub open spec fn reported(chunks: Option<Vec<RetrievedChunk>>) -> Option<
    Seq<RetrievedChunkView>,
> {
    match chunks {
        Some(list) => Some(chunk_views(list@)),
        None => None,
    }
}

/// The chunks that went into an answer.
pub fn retrieved(chunks: &Option<Vec<RetrievedChunk>>, answer: &str) -> (r: String)
    ensures
        r@ == retrieved_text(reported(*chunks), answer@),
{
    match chunks {
        Some(list) => write_chunks(list),
        None => if starts_with(answer, "_Error:") {
            String::new()
        } else {
            String::from_str("_No chunks passed the similarity threshold._\n\n")
        },
    }
}

/// What came of a search that is reported for itself.
#[derive(Debug)]
pub enum SearchOutcome {
    /// The query could not be embedded.
    EmbeddingFailed { cause: String },
    /// The embedder returned no vector.
    NoVector,
    /// The store found these.
    Found { chunks: Vec<RetrievedChunk> },
    /// The store could not search.
    SearchFailed { cause: String },
}

/// What follows the embedding of a query that is searched for.
#[derive(Debug)]
pub enum AfterEmbedding {
    /// There is nothing to search with: this is what came of it.
    Stop(SearchOutcome),
    /// The store is searched with the first vector.
    Search,
}

/// Decides what follows the embedding of a query, which failed or gave so many
/// vectors.
pub fn after_embedding(embedded: Result<usize, String>) -> (r: AfterEmbedding)
    ensures
        match embedded {
            Err(cause) => r == AfterEmbedding::Stop(SearchOutcome::EmbeddingFailed { cause }),
            Ok(n) => if n == 0 {
                r == AfterEmbedding::Stop(SearchOutcome::NoVector)
            } else {
                r is Search
            },
        },
{
    match embedded {
        Err(cause) => AfterEmbedding::Stop(SearchOutcome::EmbeddingFailed { cause }),
        Ok(n) => if n == 0 {
            AfterEmbedding::Stop(SearchOutcome::NoVector)
        } else {
            AfterEmbedding::Search
        },
    }
}

/// What a search found, or why it did not.
pub open spec fn search_text(outcome: SearchOutcome) -> Seq<char> {
    match outcome {
        SearchOutcome::EmbeddingFailed { cause } => "_Embedding error: "@ + cause@ + "_\n\n"@,
        SearchOutcome::NoVector => "_Embedding error: no vector returned._\n\n"@,
        SearchOutcome::Found { chunks } => if chunks@.len() == 0 {
            nothing_retrieved()
        } else {
            chunk_list(chunk_views(chunks@))
        },
        SearchOutcome::SearchFailed { cause } => "_Retrieval error: "@ + cause@ + "_\n\n"@,
    }
}

/// What a search found, or why it did not.
pub fn search(outcome: &SearchOutcome) -> (r: String)
    ensures
        r@ == search_text(*outcome),
{
    match outcome {
        SearchOutcome::EmbeddingFailed { cause } => {
            let mut r: String = String::from_str("_Embedding error: ");
            r.append(cause.as_str());
            r.append("_\n\n");
            r
        },
        SearchOutcome::NoVector => String::from_str("_Embedding error: no vector returned._\n\n"),
        SearchOutcome::Found { chunks } => if chunks.len() == 0 {
            String::from_str("_No chunks passed the similarity threshold._\n\n")
        } else {
            write_chunks(chunks)
        },
        SearchOutcome::SearchFailed { cause } => {
            let mut r: String = String::from_str("_Retrieval error: ");
            r.append(cause.as_str());
            r.append("_\n\n");
            r
        },
    }
}

// ── Answers ─────────────────────────────────────────────────────────────────

/// The answer that stands for a failure.
pub open spec fn error_answer_text(cause: Seq<char>) -> Seq<char> {
    "_Error: "@ + cause + "_"@
}

/// The answer that stands for a failure.
pub fn error_answer(cause: &str) -> (r: String)
    ensures
        r@ == error_answer_text(cause@),
{
    let mut r: String = String::from_str("_Error: ");
    r.append(cause);
    r.append("_");
    r
}

/// An answer, trimmed.
pub open spec fn answer_text(answer: Seq<char>) -> Seq<char> {
    trimmed(answer) + "\n\n"@
}

/// An answer, trimmed.
pub fn answer(text: &str) -> (r: String)
    ensures
        r@ == answer_text(text@),
{
    let mut r: String = trim_text(text);
    r.append("\n\n");
    r
}

/// A failed cell reports its failure once: no retrieval is listed beside the
/// answer that stands for it, whatever the cause.
pub proof fn law_failed_cells_list_no_retrieval(cause: Seq<char>)
    ensures
        retrieved_text(None, error_answer_text(cause)) == Seq::<char>::empty(),
{
    reveal_strlit("_Error: ");
    reveal_strlit("_Error:");
    let answer = error_answer_text(cause);
    assert(answer.subrange(0, 7) =~= "_Error:"@);
}

// ── One-shot queries ────────────────────────────────────────────────────────

/// The query of a line of input: the line, trimmed, unless that is empty.
pub open spec fn query_of_line(line: Seq<char>) -> Option<Seq<char>> {
    if trimmed(line).len() == 0 {
        None
    } else {
        Some(trimmed(line))
    }
}

/// The query of a line of input.
pub fn read_query(line: &str) -> (r: Option<String>)
    ensures
        opt_text(r) == query_of_line(line@),
{
    proof {
        reveal_strlit("");
    }
    let query: String = trim_text(line);
    assert(query@.len() == 0 ==> query@ =~= ""@);
    if same_text(query.as_str(), "") {
        None
    } else {
        Some(query)
    }
}

/// The figures of a one-shot answer.
pub open spec fn oneshot_text(chunks: nat, total_secs: Seq<char>) -> Seq<char> {
    "  ["@ + decimal(chunks) + " chunks, "@ + total_secs + "s]"@
}

/// The figures of a one-shot answer.
pub fn oneshot_stats(chunks: usize, total_secs: &str) -> (r: String)
    ensures
        r@ == oneshot_text(chunks as nat, total_secs@),
{
    let mut r: String = String::from_str("  [");
    r.append(decimal_of(chunks).as_str());
    r.append(" chunks, ");
    r.append(total_secs);
    r.append("s]");
    r
}

} // verus!
