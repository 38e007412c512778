//! What the settings come to: which configurations can run, what mock mode
//! changes, which ranker, embedder and chat backend serve, and how they are
//! called.

use vstd::prelude::*;
use crate::backends::{
    agent_plan, chat_choice, embedder_choice, embedder_named, generator_choice, label_of_agent,
    AgentPlan, AgentPlanView, ChatChoice, ChatChoiceView, EmbedderChoice, EmbedderChoiceView,
    GeneratorChoice, GeneratorChoiceView,
};
use crate::config::{
    matrix_is_valid, mocked, one_mode, AgentConfig, BenchmarkConfig, ChatConfig, EmbedConfig,
    EmbeddingProvider, MockConfig, PipelineConfigView, Provider, RankerConfig, RankerConfigView,
};
use crate::defaults::filled_up;
use crate::error::BenchErrorView;
use crate::ingestion::{sum, walk_from};
use crate::provenance::effective_pipelines;
use crate::rankers::{
    effective_rankers, label_of_ranker, ranker_choice, ranker_views, RankerChoice,
};
use crate::text::{lowercase, opt_text};

verus! {

// ── Configurations ──────────────────────────────────────────────────────────

/// A configuration can run exactly where it has queries or a chat but not both,
/// an agent, and a corpus.
pub proof fn law_valid_configurations(config: BenchmarkConfig)
    ensures
        one_mode(config) <==> {
            ||| config.queries@.len() > 0 && config.chat@.len() == 0
            ||| config.queries@.len() == 0 && config.chat@.len() > 0
        },
        matrix_is_valid(config) <==> {
            &&& config.queries@.len() > 0 || config.chat@.len() > 0
            &&& config.queries@.len() == 0 || config.chat@.len() == 0
            &&& config.agents@.len() > 0
            &&& config.corpus_dirs@.len() > 0
        },
{
}

/// Mock mode sets the mock embedder and gives an answer to the agents that have
/// none; all else it leaves as it was.
pub proof fn law_mock_mode_changes_backends_alone(
    before: BenchmarkConfig,
    after: BenchmarkConfig,
    i: int,
)
    requires
        mocked(before, after),
    ensures
        after.mock.embedder,
        after.queries == before.queries,
        after.chat == before.chat,
        after.corpus_dirs == before.corpus_dirs,
        after.pipelines == before.pipelines,
        after.embed == before.embed,
        after.parse == before.parse,
        after.rankers == before.rankers,
        after.agents@.len() == before.agents@.len(),
        0 <= i < before.agents@.len() ==> {
            let old_agent = before.agents@[i];
            let new_agent = after.agents@[i];
            &&& new_agent.label == old_agent.label
            &&& new_agent.chat == old_agent.chat
            &&& old_agent.answer is Some ==> new_agent.answer == old_agent.answer
            &&& old_agent.answer is None ==> new_agent.answer is Some && new_agent.answer->0@
                == "[mock] answer for: {query}"@
        },
{
    if 0 <= i < before.agents@.len() {
        assert(crate::config::agent_mocked(before.agents@[i], after.agents@[i]));
    }
}

/// A section that is filled up has the fields of both, and of a field that is
/// in both the provided value.
pub proof fn law_provided_fields_prevail(
    defaults: Map<Seq<char>, serde_json::Value>,
    provided: Map<Seq<char>, serde_json::Value>,
    name: Seq<char>,
)
    ensures
        filled_up(defaults, provided).dom().contains(name) <==> defaults.dom().contains(name)
            || provided.dom().contains(name),
        provided.dom().contains(name) ==> filled_up(defaults, provided)[name] == provided[name],
        defaults.dom().contains(name) && !provided.dom().contains(name) ==> filled_up(
            defaults,
            provided,
        )[name] == defaults[name],
{
}

// ── Lists with a default ────────────────────────────────────────────────────

/// A list of pipelines stands for itself; an empty one stands for a single
/// pipeline that names neither parser nor chunker.
pub proof fn law_empty_pipelines_stand_for_one(specs: Seq<PipelineConfigView>)
    ensures
        specs.len() > 0 ==> effective_pipelines(specs) == specs,
        specs.len() == 0 ==> effective_pipelines(specs).len() == 1 && effective_pipelines(
            specs,
        )[0].parser is None && effective_pipelines(specs)[0].chunker is None,
        PipelineConfigView::default_pipeline().parser is None,
        PipelineConfigView::default_pipeline().chunker is None,
{
}

/// A list of rankers stands for itself; an empty one stands for a single ranker
/// without name and parameters.
pub proof fn law_empty_rankers_stand_for_one(specs: Seq<RankerConfigView>)
    ensures
        specs.len() > 0 ==> effective_rankers(specs) == specs,
        specs.len() == 0 ==> effective_rankers(specs).len() == 1 && effective_rankers(
            specs,
        )[0].name.len() == 0 && effective_rankers(specs)[0].alpha is None && effective_rankers(
            specs,
        )[0].lambda is None,
        RankerConfigView::default_ranker().name.len() == 0,
        RankerConfigView::default_ranker().alpha is None,
        RankerConfigView::default_ranker().lambda is None,
{
}

// ── Rankers ─────────────────────────────────────────────────────────────────

/// A ranker is seen with its own name and parameters, and a list of rankers in
/// its order.
pub proof fn law_rankers_are_seen_as_they_are(c: RankerConfig, v: Seq<RankerConfig>, i: int)
    ensures
        c@.name == c.name@,
        c@.alpha == c.alpha,
        c@.lambda == c.lambda,
        ranker_views(v).len() == v.len(),
        0 <= i < v.len() ==> ranker_views(v)[i] == v[i]@,
{
}

/// A ranker is labelled by its name, and by `rrf` where it has none.
pub proof fn law_rankers_are_labelled_by_name(cfg: RankerConfigView)
    ensures
        cfg.name.len() > 0 ==> label_of_ranker(cfg) == cfg.name,
        cfg.name.len() == 0 ==> label_of_ranker(cfg) == "rrf"@,
{
    reveal_strlit("");
    if cfg.name.len() == 0 {
        assert(cfg.name =~= ""@);
    }
}

/// The names of rankers say what they are: hybrid fusion, cosine as the weight
/// one, BM25 as the weight nought, the weight that is given, diversity with the
/// penalty that is given; where a parameter is left out it is one half, and any
/// other name is refused.
pub proof fn law_ranker_names(cfg: RankerConfigView)
    ensures
        ({
            let r = ranker_choice(cfg);
            &&& cfg.name.len() == 0 ==> r == Ok::<RankerChoice, BenchErrorView>(
                RankerChoice::HybridRrf,
            )
            &&& cfg.name == "rrf"@ ==> r == Ok::<RankerChoice, BenchErrorView>(
                RankerChoice::HybridRrf,
            )
            &&& cfg.name == "cosine"@ ==> r == Ok::<RankerChoice, BenchErrorView>(
                RankerChoice::Weighted { alpha: 0x3ff0000000000000u64 },
            )
            &&& cfg.name == "bm25"@ ==> r == Ok::<RankerChoice, BenchErrorView>(
                RankerChoice::Weighted { alpha: 0u64 },
            )
            &&& cfg.name == "weighted"@ && cfg.alpha is Some ==> r == Ok::<
                RankerChoice,
                BenchErrorView,
            >(RankerChoice::Weighted { alpha: cfg.alpha->0 })
            &&& cfg.name == "weighted"@ && cfg.alpha is None ==> r == Ok::<
                RankerChoice,
                BenchErrorView,
            >(RankerChoice::Weighted { alpha: 0x3fe0000000000000u64 })
            &&& cfg.name == "mmr"@ && cfg.lambda is Some ==> r == Ok::<
                RankerChoice,
                BenchErrorView,
            >(RankerChoice::Mmr { lambda: cfg.lambda->0 })
            &&& cfg.name == "mmr"@ && cfg.lambda is None ==> r == Ok::<
                RankerChoice,
                BenchErrorView,
            >(RankerChoice::Mmr { lambda: 0x3fe0000000000000u64 })
            &&& cfg.name.len() > 0 && cfg.name != "rrf"@ && cfg.name != "cosine"@ && cfg.name
                != "bm25"@ && cfg.name != "weighted"@ && cfg.name != "mmr"@ ==> r == Err::<
                RankerChoice,
                BenchErrorView,
            >(BenchErrorView::UnknownRanker { name: cfg.name })
        }),
{
    reveal_strlit("");
    reveal_strlit("rrf");
    reveal_strlit("cosine");
    reveal_strlit("bm25");
    reveal_strlit("weighted");
    reveal_strlit("mmr");
    if cfg.name.len() == 0 {
        assert(cfg.name =~= ""@);
    }
    assert(""@.len() == 0);
    assert("rrf"@[0] == 'r' && "cosine"@[0] == 'c' && "bm25"@[0] == 'b' && "weighted"@[0] == 'w'
        && "mmr"@[0] == 'm');
}

// ── Backends ────────────────────────────────────────────────────────────────

/// An embedder, a chat backend, a generator and a plan are each seen with their
/// own settings.
pub proof fn law_choices_are_seen_as_they_are(
    e: EmbedderChoice,
    c: ChatChoice,
    g: GeneratorChoice,
    p: AgentPlan,
)
    ensures
        e is Mock <==> e@ is Mock,
        e is Disabled <==> e@ is Disabled,
        e matches EmbedderChoice::Ollama { model, request_timeout_secs } ==> e@
            == (EmbedderChoiceView::Ollama { model: model@, request_timeout_secs }),
        c matches ChatChoice::Ollama { model, params, request_timeout_secs } ==> c@
            == (ChatChoiceView::Ollama { model: model@, params, request_timeout_secs }),
        c matches ChatChoice::Deepseek { model, api_key, params, request_timeout_secs } ==> c@
            == (ChatChoiceView::Deepseek {
            model: model@,
            api_key: opt_text(api_key),
            params,
            request_timeout_secs,
        }),
        g matches GeneratorChoice::Mock(m) ==> g@ == (GeneratorChoiceView::Mock {
            label: m.label@,
            template: m.template@,
        }),
        g matches GeneratorChoice::Backend(b) ==> g@ == GeneratorChoiceView::Backend(b@),
        p@.generator == p.generator@,
        p@.embedder == p.embedder@,
        p@.context_tokens == p.context_tokens,
        p@.top_k == p.top_k,
        p@.similarity_threshold == p.similarity_threshold,
        p@.system_prompt_path == opt_text(p.system_prompt_path),
{
}

/// A backend name in whatever letters stands for Ollama with that model, for
/// no embeddings, or for nothing: then the explanation repeats the name.
pub proof fn law_embedder_names(backend: Seq<char>, model: Seq<char>)
    ensures
        ({
            let name = lowercase(backend);
            let r = embedder_named(backend, model);
            &&& name == "ollama"@ ==> r == Ok::<EmbedderChoiceView, Seq<char>>(
                EmbedderChoiceView::Ollama { model, request_timeout_secs: None },
            )
            &&& name == "none"@ || name == "off"@ ==> r == Ok::<EmbedderChoiceView, Seq<char>>(
                EmbedderChoiceView::Disabled,
            )
            &&& name != "ollama"@ && name != "none"@ && name != "off"@ ==> r == Err::<
                EmbedderChoiceView,
                Seq<char>,
            >("Unknown embedding backend: '"@ + name + "'. Available: ollama, none"@)
        }),
{
    reveal_strlit("ollama");
    reveal_strlit("none");
    reveal_strlit("off");
    assert("ollama"@.len() == 6 && "none"@.len() == 4 && "off"@.len() == 3);
}

/// The mock embedder serves where it is asked for, whatever the provider; else
/// Ollama with the model and the time limit of the settings, or the backend
/// that the provider's name stands for.
pub proof fn law_embedders_follow_the_settings(embed: EmbedConfig, mock: bool)
    ensures
        ({
            let r = embedder_choice(embed, mock);
            &&& mock ==> r == Ok::<EmbedderChoiceView, BenchErrorView>(EmbedderChoiceView::Mock)
            &&& !mock && embed.provider is Ollama ==> r == Ok::<
                EmbedderChoiceView,
                BenchErrorView,
            >(
                EmbedderChoiceView::Ollama {
                    model: embed.model@,
                    request_timeout_secs: embed.request_timeout_secs,
                },
            )
            &&& embed.provider matches EmbeddingProvider::Other(name) ==> !mock ==> {
                let named = embedder_named(lowercase(name@), embed.model@);
                &&& named is Ok ==> r == Ok::<EmbedderChoiceView, BenchErrorView>(named->Ok_0)
                &&& named is Err ==> r == Err::<EmbedderChoiceView, BenchErrorView>(
                    BenchErrorView::Embedder { explanation: named->Err_0 },
                )
            }
        }),
{
}

/// A chat backend has the model of its own provider, and the parameters, the
/// time limit and the key of the settings; another provider is refused by name.
pub proof fn law_chat_backends_follow_the_settings(chat: ChatConfig)
    ensures
        ({
            let r = chat_choice(chat);
            &&& chat.provider is Ollama ==> r == Ok::<ChatChoiceView, BenchErrorView>(
                ChatChoiceView::Ollama {
                    model: chat.model@,
                    params: chat.params,
                    request_timeout_secs: chat.request_timeout_secs,
                },
            )
            &&& chat.provider is Deepseek ==> r == Ok::<ChatChoiceView, BenchErrorView>(
                ChatChoiceView::Deepseek {
                    model: chat.deepseek_model@,
                    api_key: opt_text(chat.deepseek_api_key),
                    params: chat.params,
                    request_timeout_secs: chat.request_timeout_secs,
                },
            )
            &&& chat.provider matches Provider::Other(name) ==> r == Err::<
                ChatChoiceView,
                BenchErrorView,
            >(BenchErrorView::UnsupportedChatProvider { provider: name@ })
        }),
{
}

/// An agent with an answer generates from it, under its label or as `mock`; any
/// other generates with its chat backend, or has that backend's fault.
pub proof fn law_generators_follow_the_answer(agent: AgentConfig)
    ensures
        ({
            let r = generator_choice(agent);
            &&& agent.answer is Some && agent.label is Some ==> r == Ok::<
                GeneratorChoiceView,
                BenchErrorView,
            >(
                GeneratorChoiceView::Mock {
                    label: agent.label->0@,
                    template: agent.answer->0@,
                },
            )
            &&& agent.answer is Some && agent.label is None ==> r == Ok::<
                GeneratorChoiceView,
                BenchErrorView,
            >(GeneratorChoiceView::Mock { label: "mock"@, template: agent.answer->0@ })
            &&& agent.answer is None && chat_choice(agent.chat) is Ok ==> r == Ok::<
                GeneratorChoiceView,
                BenchErrorView,
            >(GeneratorChoiceView::Backend(chat_choice(agent.chat)->Ok_0))
            &&& agent.answer is None && chat_choice(agent.chat) is Err ==> r == Err::<
                GeneratorChoiceView,
                BenchErrorView,
            >(chat_choice(agent.chat)->Err_0)
        }),
{
}

/// An agent is planned with its generator and its embedder, and where both can
/// be had with nothing else in the way: with the retrieval settings, and with
/// the context window and prompt file of its chat settings unless it has an
/// answer.  A fault of the generator hides one of the embedder.
pub proof fn law_plans_follow_the_settings(
    agent: AgentConfig,
    embed: EmbedConfig,
    mock: MockConfig,
)
    ensures
        ({
            let r = agent_plan(agent, embed, mock);
            let generator = generator_choice(agent);
            let embedder = embedder_choice(embed, mock.embedder);
            &&& r is Ok <==> generator is Ok && embedder is Ok
            &&& generator is Err ==> r == Err::<AgentPlanView, BenchErrorView>(generator->Err_0)
            &&& generator is Ok && embedder is Err ==> r == Err::<AgentPlanView, BenchErrorView>(
                embedder->Err_0,
            )
            &&& r is Ok ==> {
                let plan = r->Ok_0;
                &&& plan.generator == generator->Ok_0
                &&& plan.embedder == embedder->Ok_0
                &&& plan.top_k == embed.top_k
                &&& plan.similarity_threshold == embed.similarity_threshold
                &&& agent.answer is Some ==> plan.context_tokens == 4096
                    && plan.system_prompt_path is None
                &&& agent.answer is None ==> plan.context_tokens == agent.chat.context_tokens
                    && plan.system_prompt_path == opt_text(agent.chat.system_prompt_path)
            }
        }),
{
}

/// An agent is called by its label; without one, `mock` where it has an answer,
/// and else by its provider and the model of that provider.
pub proof fn law_agents_are_called_by_label_or_model(agent: AgentConfig)
    ensures
        agent.label is Some ==> label_of_agent(agent) == agent.label->0@,
        agent.label is None && agent.answer is Some ==> label_of_agent(agent) == "mock"@,
        agent.label is None && agent.answer is None ==> match agent.chat.provider {
            Provider::Ollama => label_of_agent(agent) == "ollama"@ + " / "@ + agent.chat.model@,
            Provider::Deepseek => label_of_agent(agent) == "deepseek"@ + " / "@
                + agent.chat.deepseek_model@,
            Provider::Other(name) => label_of_agent(agent) == lowercase(name@) + " / "@
                + "unknown"@,
        },
{
}

// ── Ingestion ───────────────────────────────────────────────────────────────

/// The sum of counts is that of all but the last and the last.
pub proof fn law_sums_add_every_count(counts: Seq<usize>, n: usize)
    ensures
        sum(Seq::empty()) == 0,
        sum(counts.push(n)) == sum(counts) + n,
{
    assert(counts.push(n).drop_last() =~= counts);
}

proof fn lemma_walk_order(pipelines: nat, corpora: nat, p: nat, c: nat, k: int)
    requires
        p < pipelines,
        c <= corpora,
        0 <= k < walk_from(pipelines, corpora, p, c).len(),
        pipelines <= usize::MAX,
        corpora <= usize::MAX,
    ensures
        corpora > 0,
        walk_from(pipelines, corpora, p, c)[k].0 as int == p + (c + k) / corpora as int,
        walk_from(pipelines, corpora, p, c)[k].1 as int == (c + k) % corpora as int,
    decreases pipelines - p, corpora - c,
{
    let walk = walk_from(pipelines, corpora, p, c);
    if c >= corpora {
        if p + 1 >= pipelines {
            assert(walk_from(pipelines, corpora, p + 1, 0).len() == 0);
        }
        lemma_walk_order(pipelines, corpora, p + 1, 0, k);
        let n = corpora as int;
        vstd::arithmetic::div_mod::lemma_div_plus_one(k, n);
        vstd::arithmetic::div_mod::lemma_mod_add_multiples_vanish(k, n);
        assert(c + k == n + k);
    } else {
        let rest = walk_from(pipelines, corpora, p, c + 1);
        if k == 0 {
            vstd::arithmetic::div_mod::lemma_basic_div(c as int, corpora as int);
            vstd::arithmetic::div_mod::lemma_small_mod(c, corpora);
        } else {
            assert(walk[k] == rest[k - 1]);
            lemma_walk_order(pipelines, corpora, p, c + 1, k - 1);
        }
    }
}

/// Ingestion takes one pipeline over all corpora, in their order, before it
/// takes the next pipeline.
pub proof fn law_walk_goes_pipeline_by_pipeline(pipelines: usize, corpora: usize, k: int)
    requires
        0 <= k < walk_from(pipelines as nat, corpora as nat, 0, 0).len(),
    ensures
        corpora > 0,
        walk_from(pipelines as nat, corpora as nat, 0, 0)[k].0 as int == k / corpora as int,
        walk_from(pipelines as nat, corpora as nat, 0, 0)[k].1 as int == k % corpora as int,
{
    lemma_walk_order(pipelines as nat, corpora as nat, 0, 0, k);
}

} // verus!
