//! What the operations on settings, names, pipelines, corpora and mock
//! components return, whatever way they take: each law speaks of any result
//! that a call may give.

use vstd::prelude::*;
use vstd::utf8::encode_utf8;
use crate::backends::{
    agent_label, build_agent, build_chat_agent, build_embedder, AgentPlan, ChatChoice,
    EmbedderChoice, GeneratorChoice,
};
use crate::config::{
    apply_mock_mode, chunk_config, is_chat, questions, validate_combined, validate_corpora,
    validate_matrix, AgentConfig, BenchmarkConfig, ChatConfig, ChunkConfig, EmbedConfig,
    MockConfig, ParseConfig, PipelineConfig, PipelineConfigView, Provider, RankerConfig,
};
use crate::corpora::{
    resolution, resolve_corpora, resolve_folder_corpora, CorpusSource, IngestCorpus, Resolution,
    ResolvedCorpus,
};
use crate::corpora_laws::{law_directories_are_taken_as_written, names_a_directory};
use crate::defaults::{is_json_object, json_fields, merge_defaults};
use crate::error::{text_result, texts_result, BenchError};
use crate::ingestion::{ingestion_walk, total_chunks};
use crate::mock::{
    fnv, fnv1a, mock_document_text, MockCorpus, MockDocument, MockEmbedder, MockResponder,
};
use crate::mock_value_laws::{hashed_to, law_vector_counts_words_by_hash};
use crate::number::{decimal, padded};
use crate::pipeline_laws::{
    is_pdf_parser_named, law_corpus_names, law_corpus_names_keep_the_order,
    law_labels_keep_the_order, law_pipelines_resolve_where_their_components_are,
    law_resolved_pipelines_keep_the_order, law_resolved_pipelines_use_their_chunker,
    law_resolved_pipelines_use_their_parsers,
};
use crate::pipelines::{
    all_resolved_result, parsers_for, parsers_for_among, resolve_pipeline_among,
    resolve_pipelines, resolve_pipelines_among, resolved_among, resolved_views, ResolvedPipeline,
};
use crate::provenance::{
    cell_filter, corpus_name, corpus_names, label_among, name_of_corpus, pipeline_label,
    pipeline_label_among, pipeline_labels, pipeline_labels_among, pipeline_views,
    scoped_corpus_name, CellFilter,
};
use crate::rankers::{build_ranker, ranker_configs, ranker_label, RankerChoice};
use crate::registry::{chunker_registry, parser_registry, parser_views, ParserInfo};
use crate::setting_laws::{law_ranker_names, law_rankers_are_labelled_by_name};
use crate::text::{collected, lowercase, opt_text, texts, words};

verus! {

/// The operations on settings, names, pipelines and corpora take every input.
pub proof fn law_settings_of_any_kind_are_taken(
    config: &BenchmarkConfig,
    ranker: &RankerConfig,
    rankers: &[RankerConfig],
    agent: &AgentConfig,
    mock: &MockConfig,
    pipeline: &PipelineConfig,
    pipelines: &[PipelineConfig],
    chunkers: &Vec<String>,
    parsers: &Vec<ParserInfo>,
    specs: &[String],
    extracted: &[String],
    text: &str,
    other: &str,
    counts: &[usize],
    p: usize,
    c: usize,
)
    ensures
        call_requires(validate_corpora, (config,)),
        call_requires(validate_matrix, (config,)),
        call_requires(validate_combined, (config,)),
        call_requires(is_chat, (config,)),
        call_requires(questions, (config,)),
        call_requires(chunk_config, (&config.parse,)),
        call_requires(ranker_configs, (rankers,)),
        call_requires(ranker_label, (ranker,)),
        call_requires(build_ranker, (ranker,)),
        call_requires(build_embedder, (&config.embed, mock.embedder)),
        call_requires(build_chat_agent, (&agent.chat,)),
        call_requires(build_agent, (agent, &config.embed, mock)),
        call_requires(agent_label, (agent,)),
        call_requires(corpus_name, (text,)),
        call_requires(corpus_names, (specs,)),
        call_requires(scoped_corpus_name, (text, other)),
        call_requires(cell_filter, (text, other)),
        call_requires(pipeline_label_among, (pipeline, chunkers)),
        call_requires(pipeline_labels_among, (pipelines, chunkers)),
        call_requires(pipeline_label, (pipeline,)),
        call_requires(pipeline_labels, (pipelines,)),
        call_requires(parsers_for_among, (&pipeline.parser, parsers)),
        call_requires(parsers_for, (&pipeline.parser,)),
        call_requires(resolve_pipeline_among, (pipeline, chunkers, parsers)),
        call_requires(resolve_pipelines_among, (pipelines, chunkers, parsers)),
        call_requires(resolve_pipelines, (pipelines,)),
        call_requires(resolve_corpora, (specs, extracted)),
        call_requires(resolve_folder_corpora, (specs, extracted)),
        call_requires(total_chunks, (counts,)),
        call_requires(ingestion_walk, (p, c)),
        call_requires(MockEmbedder::vectorize, (text,)),
        call_requires(fnv1a, (text,)),
        call_requires(mock_document_text, (p,)),
{
}

// ── Settings ────────────────────────────────────────────────────────────────

/// Chunks have the size and the overlap of the settings.
pub proof fn law_chunks_are_cut_as_set(parse: &ParseConfig, r: ChunkConfig)
    requires
        call_ensures(chunk_config, (parse,), r),
    ensures
        r.size == parse.chunk_size,
        r.overlap == parse.chunk_overlap,
{
}

/// Ingestion refuses a configuration exactly where it has no corpus.
pub proof fn law_ingestion_needs_a_corpus(config: &BenchmarkConfig, r: Result<(), BenchError>)
    requires
        call_ensures(validate_corpora, (config,), r),
    ensures
        config.corpus_dirs@.len() > 0 ==> r is Ok,
        config.corpus_dirs@.len() == 0 ==> r == Err::<(), BenchError>(BenchError::NoCorpora),
{
}

/// Interaction refuses a configuration for its questions first, then for its
/// agents, then for its corpora, and no other.
pub proof fn law_interaction_needs_a_matrix(config: &BenchmarkConfig, r: Result<(), BenchError>)
    requires
        call_ensures(validate_matrix, (config,), r),
    ensures
        ({
            let asked = config.queries@.len();
            let chatted = config.chat@.len();
            let agents = config.agents@.len();
            let corpora = config.corpus_dirs@.len();
            if asked == 0 && chatted == 0 {
                r == Err::<(), BenchError>(BenchError::NoQuestions)
            } else if asked > 0 && chatted > 0 {
                r == Err::<(), BenchError>(BenchError::TwoModes)
            } else if agents == 0 {
                r == Err::<(), BenchError>(BenchError::NoAgents)
            } else if corpora == 0 {
                r == Err::<(), BenchError>(BenchError::NoCorpora)
            } else {
                r is Ok
            }
        }),
{
}

/// A run in one process refuses a configuration for its questions first, then
/// for its corpora, then for its agents, and no other.
pub proof fn law_combined_runs_need_a_matrix(config: &BenchmarkConfig, r: Result<(), BenchError>)
    requires
        call_ensures(validate_combined, (config,), r),
    ensures
        ({
            let asked = config.queries@.len();
            let chatted = config.chat@.len();
            let agents = config.agents@.len();
            let corpora = config.corpus_dirs@.len();
            if asked == 0 && chatted == 0 {
                r == Err::<(), BenchError>(BenchError::NoQuestions)
            } else if asked > 0 && chatted > 0 {
                r == Err::<(), BenchError>(BenchError::TwoModes)
            } else if corpora == 0 {
                r == Err::<(), BenchError>(BenchError::NoCorpora)
            } else if agents == 0 {
                r == Err::<(), BenchError>(BenchError::NoAgents)
            } else {
                r is Ok
            }
        }),
{
}

/// A configuration with messages is a chat and asks them; any other asks its
/// queries.
pub proof fn law_questions_come_from_the_mode(
    config: &BenchmarkConfig,
    chat: bool,
    asked: &Vec<String>,
)
    requires
        call_ensures(is_chat, (config,), chat),
        call_ensures(questions, (config,), asked),
    ensures
        chat <==> config.chat@.len() > 0,
        chat ==> *asked == config.chat,
        !chat ==> *asked == config.queries,
{
}

/// Mock mode leaves every setting as it was but the embedder and the answers
/// of the agents that have none.
pub proof fn law_mock_mode_leaves_the_rest(config: &mut BenchmarkConfig, i: int)
    requires
        call_ensures(apply_mock_mode, (config,), ()),
    ensures
        final(config).mock.embedder,
        final(config).queries == old(config).queries,
        final(config).chat == old(config).chat,
        final(config).corpus_dirs == old(config).corpus_dirs,
        final(config).pipelines == old(config).pipelines,
        final(config).embed == old(config).embed,
        final(config).parse == old(config).parse,
        final(config).rankers == old(config).rankers,
        final(config).agents@.len() == old(config).agents@.len(),
        0 <= i < old(config).agents@.len() ==> {
            let before = old(config).agents@[i];
            let after = final(config).agents@[i];
            &&& after.label == before.label
            &&& after.chat == before.chat
            &&& before.answer is Some ==> after.answer == before.answer
            &&& before.answer is None ==> after.answer is Some && after.answer->0@
                == "[mock] answer for: {query}"@
        },
{
    if 0 <= i < old(config).agents@.len() {
        assert(crate::config::agent_mocked(old(config).agents@[i], final(config).agents@[i]));
    }
}

/// By default nothing is mocked, a ranker has neither name nor parameters, and
/// a pipeline names neither parser nor chunker.
pub proof fn law_defaults_are_empty(mock: MockConfig, ranker: RankerConfig, pipeline: PipelineConfig)
    requires
        call_ensures(<MockConfig as Default>::default, (), mock),
        call_ensures(<RankerConfig as Default>::default, (), ranker),
        call_ensures(<PipelineConfig as Default>::default, (), pipeline),
    ensures
        !mock.embedder,
        ranker.name@.len() == 0,
        ranker.alpha is None,
        ranker.lambda is None,
        pipeline.parser is None,
        pipeline.chunker is None,
{
}

// ── Rankers ─────────────────────────────────────────────────────────────────

/// Every ranker of the list is swept, in order and with its parameters; where
/// there is none, one without name and parameters is.
pub proof fn law_all_rankers_are_swept(specs: &[RankerConfig], r: Vec<RankerConfig>, i: int)
    requires
        call_ensures(ranker_configs, (specs,), r),
    ensures
        specs@.len() > 0 ==> r@.len() == specs@.len(),
        specs@.len() > 0 && 0 <= i < specs@.len() ==> r@[i].name@ == specs@[i].name@
            && r@[i].alpha == specs@[i].alpha && r@[i].lambda == specs@[i].lambda,
        specs@.len() == 0 ==> r@.len() == 1 && r@[0].name@.len() == 0 && r@[0].alpha is None
            && r@[0].lambda is None,
{
    let swept = crate::rankers::ranker_views(r@);
    assert(swept.len() == r@.len());
    if specs@.len() == 0 {
        assert(swept[0] == r@[0]@);
    } else if 0 <= i < specs@.len() {
        assert(swept[i] == r@[i]@);
        assert(crate::rankers::ranker_views(specs@)[i] == specs@[i]@);
    }
}

/// A ranker is what its name says, with its own parameter or one half, under
/// its own name or `rrf`; any other name is refused with itself in the error.
pub proof fn law_rankers_are_what_they_are_called(
    cfg: &RankerConfig,
    label: String,
    r: Result<RankerChoice, BenchError>,
)
    requires
        call_ensures(ranker_label, (cfg,), label),
        call_ensures(build_ranker, (cfg,), r),
    ensures
        ({
            let name = cfg.name@;
            let known = name.len() == 0 || name == "rrf"@ || name == "cosine"@ || name == "bm25"@
                || name == "weighted"@ || name == "mmr"@;
            &&& name.len() > 0 ==> label@ == name
            &&& name.len() == 0 ==> label@ == "rrf"@
            &&& r is Ok <==> known
            &&& name.len() == 0 || name == "rrf"@ ==> r->Ok_0 is HybridRrf
            &&& name == "cosine"@ ==> r->Ok_0 == (RankerChoice::Weighted {
                alpha: 0x3ff0000000000000u64,
            })
            &&& name == "bm25"@ ==> r->Ok_0 == (RankerChoice::Weighted { alpha: 0u64 })
            &&& name == "weighted"@ ==> r->Ok_0 == (RankerChoice::Weighted {
                alpha: if cfg.alpha is Some {
                    cfg.alpha->0
                } else {
                    0x3fe0000000000000u64
                },
            })
            &&& name == "mmr"@ ==> r->Ok_0 == (RankerChoice::Mmr {
                lambda: if cfg.lambda is Some {
                    cfg.lambda->0
                } else {
                    0x3fe0000000000000u64
                },
            })
            &&& !known ==> r->Err_0 is UnknownRanker && r->Err_0->UnknownRanker_name@ == name
        }),
{
    law_ranker_names(cfg@);
    law_rankers_are_labelled_by_name(cfg@);
}

// ── Backends ────────────────────────────────────────────────────────────────

/// The mock embedder serves where it is asked for; Ollama serves with the model
/// and the time limit of the settings.
pub proof fn law_embedders_are_those_of_the_settings(
    embed: &EmbedConfig,
    mock: bool,
    r: Result<EmbedderChoice, BenchError>,
)
    requires
        call_ensures(build_embedder, (embed, mock), r),
    ensures
        mock ==> r is Ok && r->Ok_0 is Mock,
        !mock && embed.provider is Ollama ==> {
            &&& r is Ok
            &&& r->Ok_0 is Ollama
            &&& r->Ok_0->model@ == embed.model@
            &&& r->Ok_0->request_timeout_secs == embed.request_timeout_secs
        },
{
}

/// A chat backend is that of the provider, with the provider's own model and
/// the parameters, key and time limit of the settings; another provider is
/// refused with its name.
pub proof fn law_chat_backends_are_those_of_the_settings(
    chat: &ChatConfig,
    r: Result<ChatChoice, BenchError>,
)
    requires
        call_ensures(build_chat_agent, (chat,), r),
    ensures
        match chat.provider {
            Provider::Ollama => r is Ok && (r->Ok_0 matches ChatChoice::Ollama {
                model,
                params,
                request_timeout_secs,
            } && model@ == chat.model@ && params == chat.params && request_timeout_secs
                == chat.request_timeout_secs),
            Provider::Deepseek => r is Ok && (r->Ok_0 matches ChatChoice::Deepseek {
                model,
                api_key,
                params,
                request_timeout_secs,
            } && model@ == chat.deepseek_model@ && params == chat.params && request_timeout_secs
                == chat.request_timeout_secs && (api_key is Some <==> chat.deepseek_api_key is Some)
                && (api_key is Some ==> api_key->0@ == chat.deepseek_api_key->0@)),
            Provider::Other(name) => r is Err && (r->Err_0 matches
                BenchError::UnsupportedChatProvider { provider } && provider@ == name@),
        },
{
}

/// An agent with an answer is planned without its chat settings: it answers
/// from its template, under its label or as `mock`, in the default context
/// window and without a prompt file.
pub proof fn law_canned_agents_are_planned_from_their_answer(
    agent: &AgentConfig,
    embed: &EmbedConfig,
    r: Result<AgentPlan, BenchError>,
)
    requires
        call_ensures(build_agent, (agent, embed, &(MockConfig { embedder: true })), r),
        agent.answer is Some,
    ensures
        r is Ok,
        r->Ok_0.generator matches GeneratorChoice::Mock(m) && m.template@ == agent.answer->0@ && (
        agent.label is Some ==> m.label@ == agent.label->0@) && (agent.label is None ==> m.label@
            == "mock"@),
        r->Ok_0.embedder is Mock,
        r->Ok_0.context_tokens == 4096,
        r->Ok_0.system_prompt_path is None,
        r->Ok_0.top_k == embed.top_k,
        r->Ok_0.similarity_threshold == embed.similarity_threshold,
{
}

/// An agent without an answer is planned from its chat settings: with the chat
/// backend that they ask for, their context window and their prompt file.
pub proof fn law_live_agents_are_planned_from_their_chat(
    agent: &AgentConfig,
    embed: &EmbedConfig,
    mock: &MockConfig,
    chat: Result<ChatChoice, BenchError>,
    embedder: Result<EmbedderChoice, BenchError>,
    r: Result<AgentPlan, BenchError>,
)
    requires
        call_ensures(build_agent, (agent, embed, mock), r),
        call_ensures(build_chat_agent, (&agent.chat,), chat),
        call_ensures(build_embedder, (embed, mock.embedder), embedder),
        agent.answer is None,
    ensures
        r is Ok <==> chat is Ok && embedder is Ok,
        chat is Err ==> r is Err && r->Err_0@ == chat->Err_0@,
        chat is Ok && embedder is Err ==> r is Err && r->Err_0@ == embedder->Err_0@,
        r is Ok ==> {
            let plan = r->Ok_0;
            let path = agent.chat.system_prompt_path;
            &&& (plan.generator matches GeneratorChoice::Backend(c) && c@ == chat->Ok_0@)
            &&& plan.embedder@ == embedder->Ok_0@
            &&& plan.context_tokens == agent.chat.context_tokens
            &&& plan.system_prompt_path is Some <==> path is Some
            &&& path is Some ==> plan.system_prompt_path->0@ == path->0@
            &&& plan.top_k == embed.top_k
            &&& plan.similarity_threshold == embed.similarity_threshold
        },
{
}

/// An agent is called by its label, as `mock`, or by provider and model.
pub proof fn law_agents_are_called(agent: &AgentConfig, r: String)
    requires
        call_ensures(agent_label, (agent,), r),
    ensures
        agent.label is Some ==> r@ == agent.label->0@,
        agent.label is None && agent.answer is Some ==> r@ == "mock"@,
        agent.label is None && agent.answer is None ==> match agent.chat.provider {
            Provider::Ollama => r@ == "ollama"@ + " / "@ + agent.chat.model@,
            Provider::Deepseek => r@ == "deepseek"@ + " / "@ + agent.chat.deepseek_model@,
            Provider::Other(name) => r@ == lowercase(name@) + " / "@ + "unknown"@,
        },
{
}

// ── Names ───────────────────────────────────────────────────────────────────

/// The name of an entry is what stands before its first equals sign.
pub proof fn law_entries_are_named(
    spec: &str,
    name: Seq<char>,
    path: Seq<char>,
    r: Result<String, BenchError>,
)
    requires
        call_ensures(corpus_name, (spec,), r),
        forall|i: int| 0 <= i < name.len() ==> #[trigger] name[i] != '=',
    ensures
        spec@ == name + seq!['='] + path ==> r is Ok && r->Ok_0@ == name,
        spec@ == name ==> r is Err && (r->Err_0 matches BenchError::MalformedCorpus { spec: s }
            && s@ == name),
{
    law_corpus_names(name, path);
}

proof fn lemma_all_collected<A, E>(results: Seq<Result<A, E>>, i: int)
    requires
        collected(results) is Ok,
        0 <= i < results.len(),
    ensures
        collected(results)->Ok_0.len() == results.len(),
        results[i] == Ok::<A, E>(collected(results)->Ok_0[i]),
    decreases results.len(),
{
    let before = results.drop_last();
    assert(collected(before) is Ok);
    if before.len() > 0 {
        lemma_all_collected(before, 0);
    }
    if i < before.len() {
        lemma_all_collected(before, i);
    }
}

/// A list of entries is named entry by entry, in order, and only where each of
/// them is.
pub proof fn law_entries_are_named_one_by_one(
    specs: &[String],
    i: int,
    spec: &str,
    all: Result<Vec<String>, BenchError>,
    one: Result<String, BenchError>,
)
    requires
        call_ensures(corpus_names, (specs,), all),
        call_ensures(corpus_name, (spec,), one),
        0 <= i < specs@.len(),
        specs@[i]@ == spec@,
    ensures
        all is Ok ==> one is Ok && all->Ok_0@.len() == specs@.len() && all->Ok_0@[i]@
            == one->Ok_0@,
        i == 0 && one is Err ==> all is Err && all->Err_0@ == one->Err_0@,
{
    let entries = texts(specs@);
    let results = Seq::new(entries.len(), |k: int| name_of_corpus(entries[k]));
    assert(results[i] == name_of_corpus(spec@));
    if all is Ok {
        lemma_all_collected(results, i);
        assert(texts(all->Ok_0@)[i] == all->Ok_0@[i]@);
    }
    if i == 0 && one is Err {
        law_corpus_names_keep_the_order(entries, 0);
    }
}

/// A list of pipelines is labelled and resolved pipeline by pipeline, in order,
/// and only where each of them is.
pub proof fn law_pipelines_are_handled_one_by_one(
    specs: &[PipelineConfig],
    chunkers: &Vec<String>,
    parsers: &Vec<ParserInfo>,
    i: int,
    labels: Result<Vec<String>, BenchError>,
    label: Result<String, BenchError>,
    resolved: Result<Vec<ResolvedPipeline>, BenchError>,
    one: Result<ResolvedPipeline, BenchError>,
)
    requires
        0 <= i < specs@.len(),
        call_ensures(pipeline_labels_among, (specs, chunkers), labels),
        call_ensures(pipeline_label_among, (&specs@[i], chunkers), label),
        call_ensures(resolve_pipelines_among, (specs, chunkers, parsers), resolved),
        call_ensures(resolve_pipeline_among, (&specs@[i], chunkers, parsers), one),
    ensures
        labels is Ok ==> label is Ok && labels->Ok_0@.len() == specs@.len() && labels->Ok_0@[i]@
            == label->Ok_0@,
        i == 0 && label is Err ==> labels is Err && labels->Err_0@ == label->Err_0@,
        resolved is Ok ==> one is Ok && resolved->Ok_0@.len() == specs@.len()
            && resolved->Ok_0@[i]@ == one->Ok_0@,
        i == 0 && one is Err ==> resolved is Err && resolved->Err_0@ == one->Err_0@,
{
    let all = pipeline_views(specs@);
    let names = texts(chunkers@);
    let views = parser_views(parsers@);
    assert(all[i] == specs@[i]@);
    let labelled = Seq::new(all.len(), |k: int| label_among(all[k], names));
    let found = Seq::new(all.len(), |k: int| resolved_among(all[k], names, views));
    assert(labelled[i] == label_among(specs@[i]@, names));
    assert(found[i] == resolved_among(specs@[i]@, names, views));
    if labels is Ok {
        lemma_all_collected(labelled, i);
        assert(texts(labels->Ok_0@)[i] == labels->Ok_0@[i]@);
    }
    if resolved is Ok {
        lemma_all_collected(found, i);
        assert(resolved_views(resolved->Ok_0@)[i] == resolved->Ok_0@[i]@);
    }
    if i == 0 && label is Err {
        law_labels_keep_the_order(all, names, 0);
    }
    if i == 0 && one is Err {
        law_resolved_pipelines_keep_the_order(all, names, views, 0);
    }
}

/// A scoped name is the corpus, two colons and the pipeline, and the filter of
/// a cell has the corpus and the pipeline of that cell.
pub proof fn law_cells_are_named_and_filtered(
    corpus: &str,
    pipeline: &str,
    name: String,
    filter: CellFilter,
)
    requires
        call_ensures(scoped_corpus_name, (corpus, pipeline), name),
        call_ensures(cell_filter, (corpus, pipeline), filter),
    ensures
        name@ == corpus@ + "::"@ + pipeline@,
        filter.corpus@ == corpus@,
        filter.pipeline@ == pipeline@,
{
}

/// A pipeline is labelled by its parser, or all parsers, and its chunker, or
/// `markdown`; only a chunker that there is not is refused.
pub proof fn law_pipelines_are_labelled(
    spec: &PipelineConfig,
    chunkers: &Vec<String>,
    r: Result<String, BenchError>,
)
    requires
        call_ensures(pipeline_label_among, (spec, chunkers), r),
    ensures
        ({
            let there = spec.chunker is None || exists|i: int|
                0 <= i < chunkers@.len() && (#[trigger] chunkers@[i])@ == spec.chunker->0@;
            &&& r is Ok <==> there
            &&& there ==> r->Ok_0@ == (if spec.parser is Some {
                spec.parser->0@
            } else {
                "all-parsers"@
            }) + " · "@ + (if spec.chunker is Some {
                spec.chunker->0@
            } else {
                "markdown"@
            })
            &&& !there ==> (r->Err_0 matches BenchError::UnknownChunker { name, .. } && name@
                == spec.chunker->0@)
        }),
{
    if spec.chunker is Some {
        let name = spec.chunker->0@;
        let names = texts(chunkers@);
        if names.contains(name) {
            let i = choose|i: int| 0 <= i < names.len() && names[i] == name;
            assert(chunkers@[i]@ == name);
        }
        if exists|i: int| 0 <= i < chunkers@.len() && (#[trigger] chunkers@[i])@ == name {
            let i = choose|i: int| 0 <= i < chunkers@.len() && (#[trigger] chunkers@[i])@ == name;
            assert(names[i] == name);
        }
    }
}

// ── Pipelines ───────────────────────────────────────────────────────────────

/// A pipeline resolves exactly where its chunker and its PDF parser are there.
/// It then uses the first chunker of the name that it gives, whatever its
/// parser, and none where it gives none; the parser of the name that it gives
/// and all parsers of other formats; and it has the label of its names.
pub proof fn law_pipelines_resolve_to_what_they_name(
    spec: &PipelineConfig,
    chunkers: &Vec<String>,
    parsers: &Vec<ParserInfo>,
    r: Result<ResolvedPipeline, BenchError>,
    k: usize,
)
    requires
        call_ensures(resolve_pipeline_among, (spec, chunkers, parsers), r),
        chunkers@.len() <= usize::MAX,
        parsers@.len() <= usize::MAX,
    ensures
        r is Ok <==> {
            &&& spec.chunker is None || exists|i: int|
                0 <= i < chunkers@.len() && (#[trigger] chunkers@[i])@ == spec.chunker->0@
            &&& spec.parser is None || exists|i: int|
                0 <= i < parsers@.len() && is_pdf_parser_named(
                    (#[trigger] parsers@[i])@,
                    spec.parser->0@,
                )
        },
        r is Ok ==> {
            let p = r->Ok_0;
            &&& p.chunker is None <==> spec.chunker is None
            &&& p.chunker is Some ==> {
                let i = p.chunker->0 as int;
                &&& i < chunkers@.len()
                &&& chunkers@[i]@ == spec.chunker->0@
                &&& forall|j: int| 0 <= j < i ==> (#[trigger] chunkers@[j])@ != spec.chunker->0@
            }
            &&& p.parsers@.contains(k) <==> k < parsers@.len() && (spec.parser is None
                || parsers@[k as int].name@ == spec.parser->0@ || forall|e: int|
                0 <= e < parsers@[k as int].extensions@.len() ==> (
                #[trigger] parsers@[k as int].extensions@[e])@ != "pdf"@)
            &&& forall|a: int, b: int| 0 <= a < b < p.parsers@.len() ==> p.parsers@[a] < p.parsers@[b]
            &&& p.label@ == (if spec.parser is Some {
                spec.parser->0@
            } else {
                "all-parsers"@
            }) + " · "@ + (if spec.chunker is Some {
                spec.chunker->0@
            } else {
                "markdown"@
            })
        },
{
    let names = texts(chunkers@);
    let views = parser_views(parsers@);
    law_pipelines_resolve_where_their_components_are(spec@, names, views);
    if spec.chunker is Some {
        let name = spec.chunker->0@;
        if names.contains(name) {
            let i = choose|i: int| 0 <= i < names.len() && names[i] == name;
            assert(chunkers@[i]@ == name);
        }
        if exists|i: int| 0 <= i < chunkers@.len() && (#[trigger] chunkers@[i])@ == name {
            let i = choose|i: int| 0 <= i < chunkers@.len() && (#[trigger] chunkers@[i])@ == name;
            assert(names[i] == name);
        }
    }
    if spec.parser is Some {
        let name = spec.parser->0@;
        if exists|i: int| 0 <= i < views.len() && is_pdf_parser_named(#[trigger] views[i], name) {
            let i = choose|i: int|
                0 <= i < views.len() && is_pdf_parser_named(#[trigger] views[i], name);
            assert(is_pdf_parser_named(parsers@[i]@, name));
        }
        if exists|i: int|
            0 <= i < parsers@.len() && is_pdf_parser_named((#[trigger] parsers@[i])@, name) {
            let i = choose|i: int|
                0 <= i < parsers@.len() && is_pdf_parser_named((#[trigger] parsers@[i])@, name);
            assert(is_pdf_parser_named(views[i], name));
        }
    }
    if r is Ok {
        let p = r->Ok_0;
        assert(resolved_among(spec@, names, views)->Ok_0 == p@);
        law_resolved_pipelines_use_their_chunker(spec@, names, views);
        law_resolved_pipelines_use_their_parsers(spec@, names, views, k);
        if p.chunker is Some {
            let i = p.chunker->0 as int;
            assert(names[i] == chunkers@[i]@);
            assert forall|j: int| 0 <= j < i implies (#[trigger] chunkers@[j])@
                != spec.chunker->0@ by {
                assert(names[j] != spec.chunker->0@);
            }
        }
        if k < parsers@.len() {
            let own = parsers@[k as int].extensions@;
            assert(views[k as int] == parsers@[k as int]@);
            assert(views[k as int].extensions == texts(own));
            if texts(own).contains("pdf"@) {
                let e = choose|e: int| 0 <= e < texts(own).len() && texts(own)[e] == "pdf"@;
                assert(own[e]@ == "pdf"@);
            } else {
                assert forall|e: int| 0 <= e < own.len() implies (#[trigger] own[e])@ != "pdf"@ by {
                    assert(texts(own)[e] == own[e]@);
                }
            }
        }
    }
}

/// Against the registries of the build pipelines are labelled and resolved as
/// against any lists with the same chunkers and parsers.
pub proof fn law_registries_are_lists(
    spec: &PipelineConfig,
    specs: &[PipelineConfig],
    chunkers: &Vec<String>,
    parsers: &Vec<ParserInfo>,
    label: (Result<String, BenchError>, Result<String, BenchError>),
    labels: (Result<Vec<String>, BenchError>, Result<Vec<String>, BenchError>),
    resolved: (Result<Vec<ResolvedPipeline>, BenchError>, Result<Vec<ResolvedPipeline>, BenchError>),
    kept: (Result<Vec<usize>, BenchError>, Result<Vec<usize>, BenchError>),
)
    requires
        texts(chunkers@) == chunker_registry(),
        parser_views(parsers@) == parser_registry(),
        call_ensures(pipeline_label, (spec,), label.0),
        call_ensures(pipeline_label_among, (spec, chunkers), label.1),
        call_ensures(pipeline_labels, (specs,), labels.0),
        call_ensures(pipeline_labels_among, (specs, chunkers), labels.1),
        call_ensures(resolve_pipelines, (specs,), resolved.0),
        call_ensures(resolve_pipelines_among, (specs, chunkers, parsers), resolved.1),
        call_ensures(parsers_for, (&spec.parser,), kept.0),
        call_ensures(parsers_for_among, (&spec.parser, parsers), kept.1),
    ensures
        text_result(label.0) == text_result(label.1),
        texts_result(labels.0) == texts_result(labels.1),
        all_resolved_result(resolved.0) == all_resolved_result(resolved.1),
        kept.0 is Ok <==> kept.1 is Ok,
        kept.0 is Ok ==> kept.0->Ok_0@ == kept.1->Ok_0@,
        kept.0 is Err ==> kept.0->Err_0@ == kept.1->Err_0@,
{
}

/// The parsers for a choice are, each once and in order, the parser of that
/// name and those of other formats, or all of them; a name that no PDF parser
/// has is refused.
pub proof fn law_parsers_are_chosen(
    choice: &Option<String>,
    parsers: &Vec<ParserInfo>,
    r: Result<Vec<usize>, BenchError>,
    k: usize,
)
    requires
        call_ensures(parsers_for_among, (choice, parsers), r),
        parsers@.len() <= usize::MAX,
    ensures
        r is Ok <==> *choice is None || exists|i: int|
            0 <= i < parsers@.len() && is_pdf_parser_named(
                (#[trigger] parsers@[i])@,
                (*choice)->0@,
            ),
        r is Ok ==> {
            &&& r->Ok_0@.contains(k) <==> k < parsers@.len() && (*choice is None
                || parsers@[k as int].name@ == (*choice)->0@
                || !parsers@[k as int]@.extensions.contains("pdf"@))
            &&& forall|a: int, b: int| 0 <= a < b < r->Ok_0@.len() ==> r->Ok_0@[a] < r->Ok_0@[b]
        },
        r is Err ==> (r->Err_0 matches BenchError::UnknownPdfParser { name, .. } && name@
            == (*choice)->0@),
{
    let views = parser_views(parsers@);
    let spec = PipelineConfigView { parser: opt_text(*choice), chunker: None };
    law_pipelines_resolve_where_their_components_are(spec, Seq::empty(), views);
    if *choice is Some {
        let name = (*choice)->0@;
        if exists|i: int| 0 <= i < views.len() && is_pdf_parser_named(#[trigger] views[i], name) {
            let i = choose|i: int|
                0 <= i < views.len() && is_pdf_parser_named(#[trigger] views[i], name);
            assert(is_pdf_parser_named(parsers@[i]@, name));
        }
        if exists|i: int|
            0 <= i < parsers@.len() && is_pdf_parser_named((#[trigger] parsers@[i])@, name) {
            let i = choose|i: int|
                0 <= i < parsers@.len() && is_pdf_parser_named((#[trigger] parsers@[i])@, name);
            assert(is_pdf_parser_named(views[i], name));
        }
    }
    if r is Ok {
        law_resolved_pipelines_use_their_parsers(spec, Seq::empty(), views, k);
        if k < parsers@.len() {
            assert(views[k as int] == parsers@[k as int]@);
        }
    }
}

/// A section filled up has the provided value of every field that is provided,
/// the default of every other, and no further field; what is no object leaves
/// the defaults as they are.
pub proof fn law_sections_are_filled_up(
    defaults: serde_json::Value,
    provided: serde_json::Value,
    r: serde_json::Value,
    name: Seq<char>,
)
    requires
        call_ensures(merge_defaults, (defaults, provided), r),
    ensures
        is_json_object(defaults) && is_json_object(provided) ==> {
            let base = json_fields(defaults);
            let given = json_fields(provided);
            let merged = json_fields(r);
            &&& is_json_object(r)
            &&& merged.dom().contains(name) <==> base.dom().contains(name) || given.dom().contains(
                name,
            )
            &&& given.dom().contains(name) ==> merged[name] == given[name]
            &&& base.dom().contains(name) && !given.dom().contains(name) ==> merged[name]
                == base[name]
        },
        !is_json_object(defaults) || !is_json_object(provided) ==> r == defaults,
{
}

// ── Corpora ─────────────────────────────────────────────────────────────────

proof fn lemma_resolved_before(
    specs: Seq<Seq<char>>,
    mocks: bool,
    extracted: Seq<Seq<char>>,
    n: int,
)
    requires
        0 <= n <= specs.len(),
        resolution(specs, mocks, extracted).progress is Complete,
    ensures
        resolution(specs.take(n), mocks, extracted).progress is Complete,
        resolution(specs.take(n), mocks, extracted).corpora.len() == n,
        resolution(specs.take(n), mocks, extracted).corpora == resolution(
            specs,
            mocks,
            extracted,
        ).corpora.take(n),
    decreases specs.len(),
{
    if specs.len() == 0 {
        assert(specs.take(n) =~= specs);
        assert(resolution(specs, mocks, extracted).corpora.take(n) =~= resolution(
            specs,
            mocks,
            extracted,
        ).corpora);
    } else {
        let before = specs.drop_last();
        let all = resolution(specs, mocks, extracted).corpora;
        let earlier = resolution(before, mocks, extracted).corpora;
        lemma_resolved_before(before, mocks, extracted, before.len() as int);
        assert(before.take(before.len() as int) =~= before);
        assert(all.len() == specs.len());
        assert(all.drop_last() =~= earlier);
        if n < specs.len() {
            lemma_resolved_before(before, mocks, extracted, n);
            assert(before.take(n) =~= specs.take(n));
            assert(earlier.take(n) =~= all.take(n));
        } else {
            assert(specs.take(n) =~= specs);
            assert(all.take(n) =~= all);
        }
    }
}

proof fn lemma_directory_at(
    specs: Seq<Seq<char>>,
    mocks: bool,
    extracted: Seq<Seq<char>>,
    i: int,
    name: Seq<char>,
    path: Seq<char>,
)
    requires
        0 <= i < specs.len(),
        resolution(specs, mocks, extracted).progress is Complete,
        specs[i] == name + seq!['='] + path,
        forall|k: int| 0 <= k < name.len() ==> #[trigger] name[k] != '=',
        names_a_directory(path),
    ensures
        ({
            let all = resolution(specs, mocks, extracted).corpora;
            &&& all.len() == specs.len()
            &&& all[i].name == name
            &&& all[i].source == crate::corpora::CorpusSourceView::Folder(path)
            &&& all[i].extraction is None
        }),
{
    let all = resolution(specs, mocks, extracted).corpora;
    lemma_resolved_before(specs, mocks, extracted, specs.len() as int);
    assert(specs.take(specs.len() as int) =~= specs);
    lemma_resolved_before(specs, mocks, extracted, i);
    lemma_resolved_before(specs, mocks, extracted, i + 1);
    let upto = specs.take(i + 1);
    assert(upto.drop_last() =~= specs.take(i));
    law_directories_are_taken_as_written(upto, mocks, extracted, name, path);
    let got = resolution(upto, mocks, extracted).corpora;
    assert(got[i] == all[i]);
}

/// Where all entries are resolved, there is one corpus for each, and one that
/// is written as a name, an equals sign and a directory has that name and that
/// directory, character for character.
pub proof fn law_directories_are_resolved_as_written(
    specs: &[String],
    extracted: &[String],
    r: Resolution,
    plain: Resolution,
    i: int,
    name: Seq<char>,
    path: Seq<char>,
)
    requires
        call_ensures(resolve_corpora, (specs, extracted), r),
        call_ensures(resolve_folder_corpora, (specs, extracted), plain),
        0 <= i < specs@.len(),
        specs@[i]@ == name + seq!['='] + path,
        forall|k: int| 0 <= k < name.len() ==> #[trigger] name[k] != '=',
        names_a_directory(path),
    ensures
        r.progress is Complete ==> {
            &&& r.corpora@.len() == specs@.len()
            &&& r.corpora@[i].name@ == name
            &&& (r.corpora@[i].source matches CorpusSource::Folder(p) && p@ == path)
            &&& r.corpora@[i].extraction is None
        },
        plain.progress is Complete ==> {
            &&& plain.corpora@.len() == specs@.len()
            &&& plain.corpora@[i].name@ == name
            &&& (plain.corpora@[i].source matches CorpusSource::Folder(p) && p@ == path)
            &&& plain.corpora@[i].extraction is None
        },
{
    let all = texts(specs@);
    let at_hand = texts(extracted@);
    assert(all[i] == specs@[i]@);
    if r.progress is Complete {
        lemma_directory_at(all, true, at_hand, i, name, path);
        assert(r@.corpora[i] == r.corpora@[i]@);
    }
    if plain.progress is Complete {
        lemma_directory_at(all, false, at_hand, i, name, path);
        assert(plain@.corpora[i] == plain.corpora@[i]@);
    }
}

/// Entries are resolved in order, with synthetic documents or without, by the
/// extractions at hand.
pub proof fn law_entries_are_resolved_in_order(
    specs: &[String],
    extracted: &[String],
    r: Resolution,
    plain: Resolution,
)
    requires
        call_ensures(resolve_corpora, (specs, extracted), r),
        call_ensures(resolve_folder_corpora, (specs, extracted), plain),
    ensures
        r@ == resolution(texts(specs@), true, texts(extracted@)),
        plain@ == resolution(texts(specs@), false, texts(extracted@)),
{
}

/// A corpus is ingested from its own source: for a pipeline under its name, two
/// colons and the label of the pipeline, otherwise under its name.
pub proof fn law_corpora_are_ingested_from_their_source(
    c: &ResolvedCorpus,
    pipeline: &ResolvedPipeline,
    name: String,
    scoped: IngestCorpus,
    unscoped: IngestCorpus,
)
    requires
        call_ensures(ResolvedCorpus::scoped_name, (c, pipeline), name),
        call_ensures(ResolvedCorpus::corpus_for, (c, pipeline), scoped),
        call_ensures(ResolvedCorpus::unscoped_corpus, (c,), unscoped),
    ensures
        name@ == c.name@ + "::"@ + pipeline.label@,
        match c.source {
            CorpusSource::Folder(from) => {
                &&& (scoped matches IngestCorpus::Folder { name: n, path } && n@ == c.name@ + "::"@
                    + pipeline.label@ && path@ == from@)
                &&& (unscoped matches IngestCorpus::Folder { name: n, path } && n@ == c.name@
                    && path@ == from@)
            },
            CorpusSource::Mock(count) => {
                &&& (scoped matches IngestCorpus::Mock(m) && m.name@ == c.name@ + "::"@
                    + pipeline.label@ && m.count == count)
                &&& (unscoped matches IngestCorpus::Mock(m) && m.name@ == c.name@ && m.count
                    == count)
            },
        },
{
}

// ── Ingestion ───────────────────────────────────────────────────────────────

/// The walk takes each pipeline over all corpora before the next pipeline.
pub proof fn law_ingestion_walks_in_order(
    pipelines: usize,
    corpora: usize,
    r: Vec<(usize, usize)>,
    k: int,
)
    requires
        call_ensures(ingestion_walk, (pipelines, corpora), r),
    ensures
        r@.len() == pipelines * corpora,
        0 <= k < r@.len() ==> r@[k].0 as int == k / corpora as int && r@[k].1 as int == k
            % corpora as int,
{
    crate::ingestion::law_walk_covers_every_provenance(pipelines, corpora, 0, 0);
    if 0 <= k < r@.len() {
        crate::setting_laws::law_walk_goes_pipeline_by_pipeline(pipelines, corpora, k);
    }
}

/// One count more makes the total larger by it, and nothing else does.
pub proof fn law_totals_add_up(
    counts: &[usize],
    more: &[usize],
    n: usize,
    total: Option<usize>,
    larger: Option<usize>,
)
    requires
        call_ensures(total_chunks, (counts,), total),
        call_ensures(total_chunks, (more,), larger),
        more@ == counts@.push(n),
    ensures
        counts@.len() == 0 ==> total == Some(0usize),
        total is Some && total->0 + n <= usize::MAX ==> larger is Some && larger->0 == total->0 + n,
        total is Some && total->0 + n > usize::MAX ==> larger is None,
        total is None ==> larger is None,
{
    crate::setting_laws::law_sums_add_every_count(counts@, n);
    if counts@.len() == 0 {
        assert(counts@ =~= Seq::empty());
    }
}

// ── Mock components ─────────────────────────────────────────────────────────

/// The vector of a text has a hundred and twenty-eight entries, each the number
/// of words, long or short, whose lowercase form hashes to it by FNV-1a, up to
/// the greatest number that single precision counts to.
pub proof fn law_texts_are_embedded_by_hash(text: &str, v: Vec<u32>, d: int)
    requires
        call_ensures(MockEmbedder::vectorize, (text,), v),
    ensures
        v@.len() == 128,
        0 <= d < 128 ==> v@[d] as int == if hashed_to(words(text@), d).len() <= 16777216 {
            hashed_to(words(text@), d).len() as int
        } else {
            16777216
        },
{
    law_vector_counts_words_by_hash(text@, v@, d);
}

/// Every text is embedded, in order and with itself.
pub proof fn law_all_texts_are_embedded(
    e: &MockEmbedder,
    list: Vec<String>,
    r: Vec<(String, Vec<u32>)>,
    i: int,
    d: int,
    dimensions: usize,
)
    requires
        call_ensures(MockEmbedder::embed, (e, list), r),
        call_ensures(MockEmbedder::dimension, (e,), dimensions),
    ensures
        dimensions == 128,
        r@.len() == list@.len(),
        0 <= i < list@.len() ==> r@[i].0@ == list@[i]@ && r@[i].1@.len() == 128,
        0 <= i < list@.len() && 0 <= d < 128 ==> r@[i].1@[d] as int == if hashed_to(
            words(list@[i]@),
            d,
        ).len() <= 16777216 {
            hashed_to(words(list@[i]@), d).len() as int
        } else {
            16777216
        },
{
    if 0 <= i < list@.len() {
        assert(r@[i].0 == list@[i]);
        law_vector_counts_words_by_hash(list@[i]@, r@[i].1@, d);
    }
}

/// The hash of a text is that of its bytes in UTF-8.
pub proof fn law_texts_are_hashed_as_utf8(s: &str, r: u64)
    requires
        call_ensures(fnv1a, (s,), r),
    ensures
        r == fnv(encode_utf8(s@)),
{
}

/// An answer replaces `{query}` by the last question of the prompt and leaves
/// the responder as it is; the components are called by their names.
pub proof fn law_components_are_called(
    m: &MockResponder,
    e: &MockEmbedder,
    backend: &'static str,
    label: String,
    embedder_backend: &'static str,
    embedder_model: &'static str,
)
    requires
        call_ensures(MockResponder::backend_name, (m,), backend),
        call_ensures(MockResponder::model_name, (m,), label),
        call_ensures(MockEmbedder::backend_name, (e,), embedder_backend),
        call_ensures(MockEmbedder::model_name, (e,), embedder_model),
    ensures
        backend@ == "Mock"@,
        label@ == m.label@,
        embedder_backend@ == "Mock"@,
        embedder_model@ == "mock-bow"@,
{
}

/// A responder answers with its template, the question of the prompt's last
/// user turn in place of each `{query}`, and is not changed by it.
pub proof fn law_responders_answer_from_their_template(
    m: &mut MockResponder,
    prompt: &str,
    r: String,
)
    requires
        call_ensures(MockResponder::respond, (m, prompt), r),
    ensures
        r@ == crate::text::replaced(
            old(m).template@,
            "{query}"@,
            crate::mock::user_query(prompt@),
        ),
        final(m).template == old(m).template,
        final(m).label == old(m).label,
{
}

/// A synthetic corpus has as many documents as it says, in order: each of its
/// own corpus, in Markdown, with its number in its identifier, and with the
/// text of its number.
pub proof fn law_corpora_have_their_documents(
    c: &MockCorpus,
    name: String,
    r: Vec<MockDocument>,
    i: usize,
    text: String,
)
    requires
        call_ensures(MockCorpus::name, (c,), name),
        call_ensures(MockCorpus::documents, (c,), r),
        call_ensures(mock_document_text, (i,), text),
    ensures
        name@ == c.name@,
        r@.len() == c.count,
        i < c.count ==> {
            let d = r@[i as int];
            &&& d.corpus@ == c.name@
            &&& d.format@ == "md"@
            &&& d.id@ == "doc-"@ + padded(i as nat, 3) + ".md"@
            &&& d.text@ == text@
        },
{
    if i < c.count {
        assert(r@[i as int]@ == crate::mock::document(c.name@, i as nat));
    }
}

/// A document tells its topic by its number modulo four and its part by its
/// number divided by four.
pub proof fn law_documents_tell_topic_and_part(i: usize, text: String)
    requires
        call_ensures(mock_document_text, (i,), text),
    ensures
        ({
            let part = decimal((i / 4) as nat);
            let title = if i % 4 == 0 {
                "Quantum entanglement"@
            } else if i % 4 == 1 {
                "Linear regression"@
            } else if i % 4 == 2 {
                "Bayesian statistics"@
            } else {
                "Vector stores"@
            };
            let start = "# "@ + title + " — part "@ + part + "\n\n"@;
            let end = "\n\nPart "@ + part + " of "@ + title
                + " discusses the same topic in different words.\n"@;
            &&& text@.len() >= start.len() + end.len()
            &&& text@.take(start.len() as int) == start
            &&& text@.skip(text@.len() - end.len()) == end
        }),
{
    let part = decimal((i / 4) as nat);
    let title = crate::mock::topic_title((i % 4) as int);
    let body = crate::mock::topic_body((i % 4) as int);
    let start = "# "@ + title + " — part "@ + part + "\n\n"@;
    let end = "\n\nPart "@ + part + " of "@ + title
        + " discusses the same topic in different words.\n"@;
    assert(text@ =~= start + body + end);
    assert(text@.take(start.len() as int) =~= start);
    assert(text@.skip(text@.len() - end.len()) =~= end);
}

} // verus!
