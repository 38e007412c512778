//! Which backend serves an agent: the choices that the configuration makes,
//! ready to be built.

use vstd::prelude::*;
use vstd::string::StringExecFns;
use crate::config::{
    mocked, AgentConfig, BenchmarkConfig, ChatConfig, EmbedConfig, EmbeddingProvider,
    GenerationParams, MockConfig, Provider,
};
use crate::error::{BenchError, BenchErrorView};
use crate::mock::MockResponder;
use crate::text::{copy_opt, lowercase, opt_text, to_lowercase};

verus! {

// ── Embedders ───────────────────────────────────────────────────────────────

/// An embedding backend.
#[derive(Debug)]
pub enum EmbedderChoice {
    /// The bag-of-words embedder.
    Mock,
    /// An Ollama server.
    Ollama { model: String, request_timeout_secs: Option<u64> },
    /// No embeddings.
    Disabled,
}

/// An [`EmbedderChoice`] with its texts as character sequences.
pub enum EmbedderChoiceView {
    Mock,
    Ollama { model: Seq<char>, request_timeout_secs: Option<u64> },
    Disabled,
}

impl View for EmbedderChoice {
    type V = EmbedderChoiceView;

    open spec fn view(&self) -> EmbedderChoiceView {
        match self {
            EmbedderChoice::Mock => EmbedderChoiceView::Mock,
            EmbedderChoice::Ollama { model, request_timeout_secs } => EmbedderChoiceView::Ollama {
                model: model@,
                request_timeout_secs: *request_timeout_secs,
            },
            EmbedderChoice::Disabled => EmbedderChoiceView::Disabled,
        }
    }
}

/// The embedder that a backend name stands for in this build, or the
/// explanation of why there is none.
pub open spec fn embedder_named(backend: Seq<char>, model: Seq<char>) -> Result<
    EmbedderChoiceView,
    Seq<char>,
> {
    let name = lowercase(backend);
    if name == "ollama"@ {
        Ok(EmbedderChoiceView::Ollama { model, request_timeout_secs: None })
    } else if name == "none"@ || name == "off"@ {
        Ok(EmbedderChoiceView::Disabled)
    } else {
        Err("Unknown embedding backend: '"@ + name + "'. Available: ollama, none"@)
    }
}

/// Calls `ragrig::EmbedderSpec::parse` with a model.  Claimed of it: the name
/// is taken in lowercase; `ollama` gives that model without a timeout, `none`
/// and `off` disable embeddings, and every other name is refused with a
/// message that lists the backends which the features in the manifest select.
#[verifier::external_body]
fn parse_embedder(backend: &str, model: &str) -> (r: Result<EmbedderChoice, String>)
    ensures
        match r {
            Ok(choice) => embedder_named(backend@, model@) == Ok::<EmbedderChoiceView, Seq<char>>(
                choice@,
            ),
            Err(text) => embedder_named(backend@, model@) == Err::<EmbedderChoiceView, Seq<char>>(
                text@,
            ),
        },
{
    match ragrig::EmbedderSpec::parse(backend, Some(model)) {
        Ok(ragrig::EmbedderSpec::Ollama { model, request_timeout_secs }) => Ok(
            EmbedderChoice::Ollama { model, request_timeout_secs },
        ),
        Ok(ragrig::EmbedderSpec::None) => Ok(EmbedderChoice::Disabled),
        Ok(other) => Err(format!("{other:?}")),
        Err(e) => Err(e.to_string()),
    }
}

/// The embedder that the configuration asks for.
pub open spec fn embedder_choice(embed: EmbedConfig, mock: bool) -> Result<
    EmbedderChoiceView,
    BenchErrorView,
> {
    if mock {
        Ok(EmbedderChoiceView::Mock)
    } else {
        match embed.provider {
            EmbeddingProvider::Ollama => Ok(
                EmbedderChoiceView::Ollama {
                    model: embed.model@,
                    request_timeout_secs: embed.request_timeout_secs,
                },
            ),
            EmbeddingProvider::Other(name) => match embedder_named(lowercase(name@), embed.model@) {
                Ok(choice) => Ok(choice),
                Err(explanation) => Err(BenchErrorView::Embedder { explanation }),
            },
        }
    }
}

/// Chooses the embedding backend, or the mock embedder when `mock` is set.
pub fn build_embedder(embed: &EmbedConfig, mock: bool) -> (r: Result<EmbedderChoice, BenchError>)
    ensures
        match r {
            Ok(choice) => embedder_choice(*embed, mock) == Ok::<EmbedderChoiceView, BenchErrorView>(
                choice@,
            ),
            Err(e) => embedder_choice(*embed, mock) == Err::<EmbedderChoiceView, BenchErrorView>(e@),
        },
{
    if mock {
        return Ok(EmbedderChoice::Mock);
    }
    match &embed.provider {
        EmbeddingProvider::Ollama => Ok(
            EmbedderChoice::Ollama {
                model: embed.model.clone(),
                request_timeout_secs: embed.request_timeout_secs,
            },
        ),
        EmbeddingProvider::Other(name) => {
            let backend: String = to_lowercase(name.as_str());
            match parse_embedder(backend.as_str(), embed.model.as_str()) {
                Ok(choice) => Ok(choice),
                Err(explanation) => Err(BenchError::Embedder { explanation }),
            }
        },
    }
}

// ── Chat backends ───────────────────────────────────────────────────────────

/// A chat backend.
#[derive(Debug)]
pub enum ChatChoice {
    Ollama { model: String, params: GenerationParams, request_timeout_secs: Option<u64> },
    Deepseek {
        model: String,
        api_key: Option<String>,
        params: GenerationParams,
        request_timeout_secs: Option<u64>,
    },
}

/// A [`ChatChoice`] with its texts as character sequences.
pub enum ChatChoiceView {
    Ollama { model: Seq<char>, params: GenerationParams, request_timeout_secs: Option<u64> },
    Deepseek {
        model: Seq<char>,
        api_key: Option<Seq<char>>,
        params: GenerationParams,
        request_timeout_secs: Option<u64>,
    },
}

impl View for ChatChoice {
    type V = ChatChoiceView;

    open spec fn view(&self) -> ChatChoiceView {
        match self {
            ChatChoice::Ollama { model, params, request_timeout_secs } => ChatChoiceView::Ollama {
                model: model@,
                params: *params,
                request_timeout_secs: *request_timeout_secs,
            },
            ChatChoice::Deepseek { model, api_key, params, request_timeout_secs } => {
                ChatChoiceView::Deepseek {
                    model: model@,
                    api_key: opt_text(*api_key),
                    params: *params,
                    request_timeout_secs: *request_timeout_secs,
                }
            },
        }
    }
}

/// The chat backend that the settings ask for.
pub open spec fn chat_choice(chat: ChatConfig) -> Result<ChatChoiceView, BenchErrorView> {
    match chat.provider {
        Provider::Ollama => Ok(
            ChatChoiceView::Ollama {
                model: chat.model@,
                params: chat.params,
                request_timeout_secs: chat.request_timeout_secs,
            },
        ),
        Provider::Deepseek => Ok(
            ChatChoiceView::Deepseek {
                model: chat.deepseek_model@,
                api_key: opt_text(chat.deepseek_api_key),
                params: chat.params,
                request_timeout_secs: chat.request_timeout_secs,
            },
        ),
        Provider::Other(name) => Err(BenchErrorView::UnsupportedChatProvider { provider: name@ }),
    }
}

/// Chooses the chat backend.
pub fn build_chat_agent(chat: &ChatConfig) -> (r: Result<ChatChoice, BenchError>)
    ensures
        match r {
            Ok(choice) => chat_choice(*chat) == Ok::<ChatChoiceView, BenchErrorView>(choice@),
            Err(e) => chat_choice(*chat) == Err::<ChatChoiceView, BenchErrorView>(e@),
        },
{
    match &chat.provider {
        Provider::Ollama => Ok(
            ChatChoice::Ollama {
                model: chat.model.clone(),
                params: chat.params,
                request_timeout_secs: chat.request_timeout_secs,
            },
        ),
        Provider::Deepseek => Ok(
            ChatChoice::Deepseek {
                model: chat.deepseek_model.clone(),
                api_key: copy_opt(&chat.deepseek_api_key),
                params: chat.params,
                request_timeout_secs: chat.request_timeout_secs,
            },
        ),
        Provider::Other(name) => Err(
            BenchError::UnsupportedChatProvider { provider: name.clone() },
        ),
    }
}

// ── Agents ──────────────────────────────────────────────────────────────────

/// What generates the answers of an agent.
#[derive(Debug)]
pub enum GeneratorChoice {
    /// A canned answer.
    Mock(MockResponder),
    /// A chat backend.
    Backend(ChatChoice),
}

/// A [`GeneratorChoice`] with its texts as character sequences.
pub enum GeneratorChoiceView {
    Mock { label: Seq<char>, template: Seq<char> },
    Backend(ChatChoiceView),
}

impl View for GeneratorChoice {
    type V = GeneratorChoiceView;

    open spec fn view(&self) -> GeneratorChoiceView {
        match self {
            GeneratorChoice::Mock(m) => GeneratorChoiceView::Mock {
                label: m.label@,
                template: m.template@,
            },
            GeneratorChoice::Backend(chat) => GeneratorChoiceView::Backend(chat@),
        }
    }
}

/// What an agent of the matrix is built from.
#[derive(Debug)]
pub struct AgentPlan {
    pub generator: GeneratorChoice,
    pub embedder: EmbedderChoice,
    pub context_tokens: usize,
    pub top_k: usize,
    /// The bit pattern of an `f64`.
    pub similarity_threshold: u64,
    /// The file whose text replaces the default system prompt.
    pub system_prompt_path: Option<String>,
}

/// An [`AgentPlan`] with its texts as character sequences.
pub struct AgentPlanView {
    pub generator: GeneratorChoiceView,
    pub embedder: EmbedderChoiceView,
    pub context_tokens: usize,
    pub top_k: usize,
    pub similarity_threshold: u64,
    pub system_prompt_path: Option<Seq<char>>,
}

impl View for AgentPlan {
    type V = AgentPlanView;

    open spec fn view(&self) -> AgentPlanView {
        AgentPlanView {
            generator: self.generator@,
            embedder: self.embedder@,
            context_tokens: self.context_tokens,
            top_k: self.top_k,
            similarity_threshold: self.similarity_threshold,
            system_prompt_path: opt_text(self.system_prompt_path),
        }
    }
}

/// What generates the answers of an agent: its template where it has one,
/// else its chat backend.
pub open spec fn generator_choice(agent: AgentConfig) -> Result<
    GeneratorChoiceView,
    BenchErrorView,
> {
    match agent.answer {
        Some(template) => Ok(
            GeneratorChoiceView::Mock {
                label: match agent.label {
                    Some(label) => label@,
                    None => "mock"@,
                },
                template: template@,
            },
        ),
        None => match chat_choice(agent.chat) {
            Ok(chat) => Ok(GeneratorChoiceView::Backend(chat)),
            Err(e) => Err(e),
        },
    }
}

/// The context window of an agent whose chat settings are ignored: the default
/// of `ragrig`.
pub const DEFAULT_CONTEXT_TOKENS: usize = 4096;

/// What an agent is built from.  A fault of the generator is reported before
/// one of the embedder.  With a canned answer the chat settings are ignored:
/// the context window is the default one, and so is the system prompt.
pub open spec fn agent_plan(agent: AgentConfig, embed: EmbedConfig, mock: MockConfig) -> Result<
    AgentPlanView,
    BenchErrorView,
> {
    match generator_choice(agent) {
        Err(e) => Err(e),
        Ok(generator) => match embedder_choice(embed, mock.embedder) {
            Err(e) => Err(e),
            Ok(embedder) => Ok(
                AgentPlanView {
                    generator,
                    embedder,
                    context_tokens: if agent.answer is Some {
                        DEFAULT_CONTEXT_TOKENS
                    } else {
                        agent.chat.context_tokens
                    },
                    top_k: embed.top_k,
                    similarity_threshold: embed.similarity_threshold,
                    system_prompt_path: if agent.answer is Some {
                        None
                    } else {
                        opt_text(agent.chat.system_prompt_path)
                    },
                },
            ),
        },
    }
}

/// Plans one agent of the matrix: a mock generator when it sets `answer`,
/// otherwise the configured chat backend.
pub fn build_agent(agent: &AgentConfig, embed: &EmbedConfig, mock: &MockConfig) -> (r: Result<
    AgentPlan,
    BenchError,
>)
    ensures
        match r {
            Ok(plan) => agent_plan(*agent, *embed, *mock) == Ok::<AgentPlanView, BenchErrorView>(
                plan@,
            ),
            Err(e) => agent_plan(*agent, *embed, *mock) == Err::<AgentPlanView, BenchErrorView>(e@),
        },
{
    let generator: GeneratorChoice = match &agent.answer {
        Some(template) => {
            let label: String = match &agent.label {
                Some(label) => label.clone(),
                None => String::from_str("mock"),
            };
            GeneratorChoice::Mock(MockResponder { label, template: template.clone() })
        },
        None => match build_chat_agent(&agent.chat) {
            Ok(chat) => GeneratorChoice::Backend(chat),
            Err(e) => {
                return Err(e);
            },
        },
    };
    match build_embedder(embed, mock.embedder) {
        Err(e) => Err(e),
        Ok(embedder) => {
            let canned: bool = agent.answer.is_some();
            let context_tokens: usize = if canned {
                DEFAULT_CONTEXT_TOKENS
            } else {
                agent.chat.context_tokens
            };
            let system_prompt_path: Option<String> = if canned {
                None
            } else {
                copy_opt(&agent.chat.system_prompt_path)
            };
            Ok(
                AgentPlan {
                    generator,
                    embedder,
                    context_tokens,
                    top_k: embed.top_k,
                    similarity_threshold: embed.similarity_threshold,
                    system_prompt_path,
                },
            )
        },
    }
}

/// The heading of an agent: its label; else `mock` where it has a canned
/// answer; else the provider and the model.
pub open spec fn label_of_agent(agent: AgentConfig) -> Seq<char> {
    match agent.label {
        Some(label) => label@,
        None => if agent.answer is Some {
            "mock"@
        } else {
            match agent.chat.provider {
                Provider::Ollama => "ollama"@ + " / "@ + agent.chat.model@,
                Provider::Deepseek => "deepseek"@ + " / "@ + agent.chat.deepseek_model@,
                Provider::Other(name) => lowercase(name@) + " / "@ + "unknown"@,
            }
        },
    }
}

/// Display label for a matrix agent.
pub fn agent_label(agent: &AgentConfig) -> (r: String)
    ensures
        r@ == label_of_agent(*agent),
{
    if let Some(label) = &agent.label {
        return label.clone();
    }
    if agent.answer.is_some() {
        return String::from_str("mock");
    }
    match &agent.chat.provider {
        Provider::Ollama => {
            let mut r: String = String::from_str("ollama");
            r.append(" / ");
            r.append(agent.chat.model.as_str());
            r
        },
        Provider::Deepseek => {
            let mut r: String = String::from_str("deepseek");
            r.append(" / ");
            r.append(agent.chat.deepseek_model.as_str());
            r
        },
        Provider::Other(name) => {
            let mut r: String = to_lowercase(name.as_str());
            r.append(" / ");
            r.append("unknown");
            r
        },
    }
}

// ── Laws ────────────────────────────────────────────────────────────────────

/// In mock mode no live backend is left: every agent can be planned, answers
/// from a template, embeds with the bag-of-words embedder and reads no prompt
/// file.
pub proof fn law_mock_mode_needs_no_backend(
    before: BenchmarkConfig,
    after: BenchmarkConfig,
    i: int,
)
    requires
        mocked(before, after),
        0 <= i < after.agents@.len(),
    ensures
        agent_plan(after.agents@[i], after.embed, after.mock) is Ok,
        agent_plan(after.agents@[i], after.embed, after.mock)->Ok_0.generator is Mock,
        agent_plan(after.agents@[i], after.embed, after.mock)->Ok_0.embedder is Mock,
        agent_plan(after.agents@[i], after.embed, after.mock)->Ok_0.system_prompt_path is None,
        embedder_choice(after.embed, after.mock.embedder) == Ok::<
            EmbedderChoiceView,
            BenchErrorView,
        >(EmbedderChoiceView::Mock),
{
    assert(crate::config::agent_mocked(before.agents@[i], after.agents@[i]));
}

/// A canned answer comes from a model that is called what the heading says.
pub proof fn law_mock_model_is_the_heading(agent: AgentConfig)
    requires
        agent.answer is Some,
    ensures
        generator_choice(agent) is Ok,
        generator_choice(agent)->Ok_0->label == label_of_agent(agent),
{
}

/// An agent with a canned answer ignores its chat settings: whatever they are,
/// it is planned in the same way and has the same heading.
pub proof fn law_canned_agents_ignore_chat_settings(
    agent: AgentConfig,
    other: AgentConfig,
    embed: EmbedConfig,
    mock: MockConfig,
)
    requires
        agent.answer is Some,
        other.answer == agent.answer,
        other.label == agent.label,
    ensures
        agent_plan(other, embed, mock) == agent_plan(agent, embed, mock),
        label_of_agent(other) == label_of_agent(agent),
{
}

} // verus!
