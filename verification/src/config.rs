//! The benchmark configuration, shared by ingestion and interaction.
//!
//! Floating-point settings are held as the bit patterns of their `f64` values:
//! no rule here computes with them.

use vstd::prelude::*;
use vstd::string::StringExecFns;
use crate::error::BenchError;
use crate::text::opt_text;

verus! {

// ── Schema ──────────────────────────────────────────────────────────────────

/// The benchmark configuration.
pub struct BenchmarkConfig {
    /// Independent queries: no history between them.
    pub queries: Vec<String>,
    /// Sequential chat: each response feeds into the next prompt.
    pub chat: Vec<String>,
    /// Named document corpora in `name=path` form.  A path prefixed with
    /// `@fixtures/` names an embedded fixture set; `@mock/<n>` names `n`
    /// synthetic documents.
    pub corpus_dirs: Vec<String>,
    /// Chat agents forming the benchmark matrix.
    pub agents: Vec<AgentConfig>,
    /// (parser, chunker) pipelines to compare.  Empty = one default pipeline.
    pub pipelines: Vec<PipelineConfig>,
    /// Embedding and retrieval settings.
    pub embed: EmbedConfig,
    /// Chunk size and overlap applied by every pipeline.
    pub parse: ParseConfig,
    /// Offline replacements for the live backends.
    pub mock: MockConfig,
    /// Rankers to sweep.  Empty = the single default hybrid ranker.
    pub rankers: Vec<RankerConfig>,
}

/// One ranker variant of the benchmark matrix.
#[derive(Debug)]
pub struct RankerConfig {
    /// `rrf` (or nothing), `cosine`, `bm25`, `weighted` or `mmr`.
    pub name: String,
    /// Weight of the `weighted` ranker: 0 = BM25, 1 = cosine.
    pub alpha: Option<u64>,
    /// Diversity penalty of the `mmr` ranker.
    pub lambda: Option<u64>,
}

/// Offline, deterministic mock backends for fast combinatorial runs.
#[derive(Clone, Copy, Debug, PartialEq, Eq, Structural)]
pub struct MockConfig {
    /// Replace the live embedder with the bag-of-words embedder.
    pub embedder: bool,
}

/// One agent of the benchmark matrix.
pub struct AgentConfig {
    /// Optional display label.
    pub label: Option<String>,
    /// When set, the agent answers with this template and no chat backend is
    /// used.
    pub answer: Option<String>,
    /// Chat settings, ignored when `answer` is set.
    pub chat: ChatConfig,
}

/// One (parser, chunker) pipeline to index and query.
#[derive(Debug)]
pub struct PipelineConfig {
    /// PDF parser by name; `None` = the full registry.
    pub parser: Option<String>,
    /// Chunker by name; `None` = the Markdown chunker.
    pub chunker: Option<String>,
}

/// A chat provider.
#[derive(Clone, Debug)]
pub enum Provider {
    /// A local Ollama server.
    Ollama,
    /// The DeepSeek API.
    Deepseek,
    /// Another provider, by the name under which it is declared.
    Other(String),
}

/// An embedding provider.
#[derive(Clone, Debug)]
pub enum EmbeddingProvider {
    /// A local Ollama server.
    Ollama,
    /// Another provider, by the name under which it is declared.
    Other(String),
}

/// Overrides of the generation defaults.
#[derive(Clone, Copy, Debug, PartialEq, Eq, Structural)]
pub struct GenerationParams {
    pub temperature: Option<u64>,
    pub top_p: Option<u64>,
    pub max_tokens: Option<usize>,
    pub seed: Option<u64>,
}

/// Chat settings.
pub struct ChatConfig {
    pub provider: Provider,
    /// Model for Ollama.
    pub model: String,
    pub deepseek_api_key: Option<String>,
    /// Model for DeepSeek.
    pub deepseek_model: String,
    pub params: GenerationParams,
    /// Context budget for retrieved chunks.
    pub context_tokens: usize,
    /// File with a custom system prompt.
    pub system_prompt_path: Option<String>,
    pub request_timeout_secs: Option<u64>,
}

/// Embedding and retrieval settings.
pub struct EmbedConfig {
    pub provider: EmbeddingProvider,
    pub model: String,
    /// Chunks retrieved per search.
    pub top_k: usize,
    /// Least cosine similarity of a retrieved chunk.
    pub similarity_threshold: u64,
    pub request_timeout_secs: Option<u64>,
}

/// Chunking settings.
#[derive(Clone, Copy, Debug, PartialEq, Eq, Structural)]
pub struct ParseConfig {
    pub chunk_size: usize,
    pub chunk_overlap: usize,
}

/// Chunk size and overlap in tokens.
#[derive(Clone, Copy, Debug, PartialEq, Eq, Structural)]
pub struct ChunkConfig {
    pub size: usize,
    pub overlap: usize,
}

/// The chunking configuration shared by every pipeline.
pub fn chunk_config(parse: &ParseConfig) -> (r: ChunkConfig)
    ensures
        r.size == parse.chunk_size,
        r.overlap == parse.chunk_overlap,
{
    ChunkConfig { size: parse.chunk_size, overlap: parse.chunk_overlap }
}

impl Default for MockConfig {
    fn default() -> (r: Self)
        ensures
            !r.embedder,
    {
        MockConfig { embedder: false }
    }
}

impl Default for RankerConfig {
    fn default() -> (r: Self)
        ensures
            r@ == RankerConfigView::default_ranker(),
    {
        let name: String = String::new();
        RankerConfig { name, alpha: None, lambda: None }
    }
}

impl Default for PipelineConfig {
    fn default() -> (r: Self)
        ensures
            r@ == PipelineConfigView::default_pipeline(),
    {
        PipelineConfig { parser: None, chunker: None }
    }
}

// ── Views ───────────────────────────────────────────────────────────────────

/// A [`RankerConfig`] with its name as a character sequence.
pub struct RankerConfigView {
    pub name: Seq<char>,
    pub alpha: Option<u64>,
    pub lambda: Option<u64>,
}

impl RankerConfigView {
    /// The ranker that stands for an empty list: no name, no parameters.
    pub open spec fn default_ranker() -> RankerConfigView {
        RankerConfigView { name: Seq::empty(), alpha: None, lambda: None }
    }
}

impl View for RankerConfig {
    type V = RankerConfigView;

    open spec fn view(&self) -> RankerConfigView {
        RankerConfigView { name: self.name@, alpha: self.alpha, lambda: self.lambda }
    }
}

/// A [`PipelineConfig`] with its names as character sequences.
pub struct PipelineConfigView {
    pub parser: Option<Seq<char>>,
    pub chunker: Option<Seq<char>>,
}

impl PipelineConfigView {
    /// The pipeline that stands for an empty list: every parser, the Markdown
    /// chunker.
    pub open spec fn default_pipeline() -> PipelineConfigView {
        PipelineConfigView { parser: None, chunker: None }
    }
}

impl View for PipelineConfig {
    type V = PipelineConfigView;

    open spec fn view(&self) -> PipelineConfigView {
        PipelineConfigView { parser: opt_text(self.parser), chunker: opt_text(self.chunker) }
    }
}

// ── Validation ──────────────────────────────────────────────────────────────

/// Ingestion-side validation: at least one corpus.
pub fn validate_corpora(config: &BenchmarkConfig) -> (r: Result<(), BenchError>)
    ensures
        match r {
            Ok(()) => config.corpus_dirs@.len() > 0,
            Err(e) => config.corpus_dirs@.len() == 0 && e is NoCorpora,
        },
{
    if config.corpus_dirs.len() == 0 {
        return Err(BenchError::NoCorpora);
    }
    Ok(())
}

/// Exactly one of `queries` and `chat` holds something.
pub open spec fn one_mode(config: BenchmarkConfig) -> bool {
    (config.queries@.len() > 0) != (config.chat@.len() > 0)
}

/// The benchmark matrix is well-formed: one mode, an agent, a corpus.
pub open spec fn matrix_is_valid(config: BenchmarkConfig) -> bool {
    &&& one_mode(config)
    &&& config.agents@.len() > 0
    &&& config.corpus_dirs@.len() > 0
}

fn validate_mode(config: &BenchmarkConfig) -> (r: Result<(), BenchError>)
    ensures
        match r {
            Ok(()) => one_mode(*config),
            Err(BenchError::NoQuestions) => config.queries@.len() == 0 && config.chat@.len() == 0,
            Err(BenchError::TwoModes) => config.queries@.len() > 0 && config.chat@.len() > 0,
            Err(_) => false,
        },
{
    if config.queries.len() == 0 && config.chat.len() == 0 {
        return Err(BenchError::NoQuestions);
    }
    if config.queries.len() > 0 && config.chat.len() > 0 {
        return Err(BenchError::TwoModes);
    }
    Ok(())
}

/// Interaction-side validation: the benchmark matrix is well-formed.  Of
/// several faults the mode is reported before the agents, and the agents
/// before the corpora.
pub fn validate_matrix(config: &BenchmarkConfig) -> (r: Result<(), BenchError>)
    ensures
        r is Ok <==> matrix_is_valid(*config),
        r matches Err(e) ==> match e {
            BenchError::NoQuestions => config.queries@.len() == 0 && config.chat@.len() == 0,
            BenchError::TwoModes => config.queries@.len() > 0 && config.chat@.len() > 0,
            BenchError::NoAgents => one_mode(*config) && config.agents@.len() == 0,
            BenchError::NoCorpora => one_mode(*config) && config.agents@.len() > 0
                && config.corpus_dirs@.len() == 0,
            _ => false,
        },
{
    match validate_mode(config) {
        Err(e) => Err(e),
        Ok(()) => {
            if config.agents.len() == 0 {
                return Err(BenchError::NoAgents);
            }
            validate_corpora(config)
        },
    }
}

/// Validation of a run that indexes and interacts in one process.  Of several
/// faults the mode is reported before the corpora, and the corpora before the
/// agents.
pub fn validate_combined(config: &BenchmarkConfig) -> (r: Result<(), BenchError>)
    ensures
        r is Ok <==> matrix_is_valid(*config),
        r matches Err(e) ==> match e {
            BenchError::NoQuestions => config.queries@.len() == 0 && config.chat@.len() == 0,
            BenchError::TwoModes => config.queries@.len() > 0 && config.chat@.len() > 0,
            BenchError::NoCorpora => one_mode(*config) && config.corpus_dirs@.len() == 0,
            BenchError::NoAgents => one_mode(*config) && config.corpus_dirs@.len() > 0
                && config.agents@.len() == 0,
            _ => false,
        },
{
    match validate_mode(config) {
        Err(e) => Err(e),
        Ok(()) => {
            match validate_corpora(config) {
                Err(e) => Err(e),
                Ok(()) => {
                    if config.agents.len() == 0 {
                        return Err(BenchError::NoAgents);
                    }
                    Ok(())
                },
            }
        },
    }
}

// ── Mode ────────────────────────────────────────────────────────────────────

/// Whether the questions form a chat: whether there are messages at all.
pub fn is_chat(config: &BenchmarkConfig) -> (r: bool)
    ensures
        r == (config.chat@.len() > 0),
{
    config.chat.len() > 0
}

/// The questions to ask: the messages of the chat, or else the queries.
pub fn questions(config: &BenchmarkConfig) -> (r: &Vec<String>)
    ensures
        *r == if config.chat@.len() > 0 {
            config.chat
        } else {
            config.queries
        },
        one_mode(*config) ==> r@.len() > 0,
{
    if is_chat(config) {
        &config.chat
    } else {
        &config.queries
    }
}

// ── Mock mode ───────────────────────────────────────────────────────────────

/// The template of an agent that has none when everything is mocked.
pub open spec fn canned_answer() -> Seq<char> {
    "[mock] answer for: {query}"@
}

/// `after` is the agent `before` with an answer: its own, or the canned one.
pub open spec fn agent_mocked(before: AgentConfig, after: AgentConfig) -> bool {
    &&& after.label == before.label
    &&& after.chat == before.chat
    &&& after.answer is Some
    &&& match before.answer {
        Some(template) => after.answer->0 == template,
        None => after.answer->0@ == canned_answer(),
    }
}

/// `after` is the configuration `before` in mock mode: the mock embedder, an
/// answer for every agent, all else as it was.
pub open spec fn mocked(before: BenchmarkConfig, after: BenchmarkConfig) -> bool {
    &&& after.queries == before.queries
    &&& after.chat == before.chat
    &&& after.corpus_dirs == before.corpus_dirs
    &&& after.pipelines == before.pipelines
    &&& after.embed == before.embed
    &&& after.parse == before.parse
    &&& after.rankers == before.rankers
    &&& after.mock.embedder
    &&& after.agents@.len() == before.agents@.len()
    &&& forall|i: int|
        0 <= i < before.agents@.len() ==> agent_mocked(
            before.agents@[i],
            #[trigger] after.agents@[i],
        )
}

/// Replaces every slow backend of a configuration by a mock.
pub fn apply_mock_mode(config: &mut BenchmarkConfig)
    ensures
        mocked(*old(config), *final(config)),
{
    config.mock.embedder = true;
    let mut i: usize = 0;
    while i < config.agents.len()
        invariant
            i <= config.agents@.len(),
            config.agents@.len() == old(config).agents@.len(),
            config.queries == old(config).queries,
            config.chat == old(config).chat,
            config.corpus_dirs == old(config).corpus_dirs,
            config.pipelines == old(config).pipelines,
            config.embed == old(config).embed,
            config.parse == old(config).parse,
            config.rankers == old(config).rankers,
            config.mock.embedder,
            forall|k: int|
                0 <= k < i ==> agent_mocked(old(config).agents@[k], #[trigger] config.agents@[k]),
            forall|k: int|
                i <= k < config.agents@.len() ==> old(config).agents@[k]
                    == #[trigger] config.agents@[k],
        decreases config.agents@.len() - i,
    {
        if config.agents[i].answer.is_none() {
            config.agents[i].answer = Some(String::from_str("[mock] answer for: {query}"));
        }
        i += 1;
    }
}

/// Mock mode is reached in one step: mocking again changes nothing.
pub proof fn law_mock_mode_is_idempotent(
    before: BenchmarkConfig,
    once: BenchmarkConfig,
    twice: BenchmarkConfig,
)
    requires
        mocked(before, once),
        mocked(once, twice),
    ensures
        twice.mock == once.mock,
        twice.agents@ == once.agents@,
        mocked(before, twice),
{
    assert forall|i: int| 0 <= i < once.agents@.len() implies twice.agents@[i]
        == once.agents@[i] by {
        assert(agent_mocked(before.agents@[i], once.agents@[i]));
        assert(agent_mocked(once.agents@[i], twice.agents@[i]));
    }
    assert(twice.agents@ =~= once.agents@);
}

/// Mock mode keeps a configuration exactly as valid as it was.
pub proof fn law_mock_mode_keeps_validity(before: BenchmarkConfig, after: BenchmarkConfig)
    requires
        mocked(before, after),
    ensures
        matrix_is_valid(before) <==> matrix_is_valid(after),
{
}

} // verus!
