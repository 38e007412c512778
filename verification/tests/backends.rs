use ragrig_bench::backends::{
    agent_label, build_agent, build_chat_agent, build_embedder, ChatChoice, EmbedderChoice,
    GeneratorChoice, DEFAULT_CONTEXT_TOKENS,
};
use ragrig_bench::config::{
    apply_mock_mode, chunk_config, is_chat, questions, validate_combined, validate_corpora, validate_matrix,
    AgentConfig, BenchmarkConfig, ChatConfig, EmbedConfig, EmbeddingProvider, GenerationParams,
    MockConfig, ParseConfig, Provider, RankerConfig,
};
use ragrig_bench::error::BenchError;
use ragrig_bench::rankers::{build_ranker, ranker_configs, ranker_label, RankerChoice};

fn chat(provider: Provider) -> ChatConfig {
    ChatConfig {
        provider,
        model: "gemma2:latest".to_string(),
        deepseek_api_key: Some("key".to_string()),
        deepseek_model: "deepseek-chat".to_string(),
        params: GenerationParams {
            temperature: Some(0.7f64.to_bits()),
            top_p: None,
            max_tokens: Some(1024),
            seed: Some(42),
        },
        context_tokens: 8192,
        system_prompt_path: Some("prompt.md".to_string()),
        request_timeout_secs: Some(300),
    }
}

fn embed(provider: EmbeddingProvider) -> EmbedConfig {
    EmbedConfig {
        provider,
        model: "nomic-embed-text:latest".to_string(),
        top_k: 50,
        similarity_threshold: 0.04f64.to_bits(),
        request_timeout_secs: Some(7),
    }
}

fn agent(label: Option<&str>, answer: Option<&str>, provider: Provider) -> AgentConfig {
    AgentConfig {
        label: label.map(|s| s.to_string()),
        answer: answer.map(|s| s.to_string()),
        chat: chat(provider),
    }
}

fn config(queries: &[&str], messages: &[&str], corpora: &[&str], agents: Vec<AgentConfig>) -> BenchmarkConfig {
    let strings = |list: &[&str]| -> Vec<String> { list.iter().map(|s| s.to_string()).collect() };
    BenchmarkConfig {
        queries: strings(queries),
        chat: strings(messages),
        corpus_dirs: strings(corpora),
        agents,
        pipelines: Vec::new(),
        embed: embed(EmbeddingProvider::Other("Strange".to_string())),
        parse: ParseConfig { chunk_size: 512, chunk_overlap: 64 },
        mock: MockConfig::default(),
        rankers: Vec::new(),
    }
}

fn one_agent() -> Vec<AgentConfig> {
    vec![agent(None, None, Provider::Ollama)]
}

fn ranker(name: &str, alpha: Option<f64>, lambda: Option<f64>) -> RankerConfig {
    RankerConfig {
        name: name.to_string(),
        alpha: alpha.map(f64::to_bits),
        lambda: lambda.map(f64::to_bits),
    }
}

// ── Configuration ───────────────────────────────────────────────────────────

#[test]
fn well_formed_matrices() {
    let queries = config(&["q"], &[], &["a=b"], one_agent());
    assert!(validate_matrix(&queries).is_ok());
    assert!(validate_combined(&queries).is_ok());
    assert!(validate_corpora(&queries).is_ok());
    assert!(validate_matrix(&config(&[], &["m"], &["a=b"], one_agent())).is_ok());
}

#[test]
fn questions_are_required() {
    let e = validate_matrix(&config(&[], &[], &[], Vec::new())).unwrap_err();
    assert!(matches!(e, BenchError::NoQuestions));
    assert_eq!(e.message(), "config must contain 'queries' or 'chat'.");
}

#[test]
fn two_modes_are_refused() {
    let e = validate_matrix(&config(&["q"], &["m"], &[], Vec::new())).unwrap_err();
    assert!(matches!(e, BenchError::TwoModes));
    assert_eq!(e.message(), "config must not contain both 'queries' and 'chat' — pick one.");
}

#[test]
fn agents_are_required() {
    let c = config(&["q"], &[], &[], Vec::new());
    let e = validate_matrix(&c).unwrap_err();
    assert!(matches!(e, BenchError::NoAgents));
    assert_eq!(e.message(), "config must contain at least one [[agents]] entry.");
    // A combined run looks at the corpora first.
    assert!(matches!(validate_combined(&c).unwrap_err(), BenchError::NoCorpora));
    assert!(matches!(
        validate_combined(&config(&["q"], &[], &["a=b"], Vec::new())).unwrap_err(),
        BenchError::NoAgents
    ));
}

#[test]
fn corpora_are_required() {
    let e = validate_matrix(&config(&["q"], &[], &[], one_agent())).unwrap_err();
    assert!(matches!(e, BenchError::NoCorpora));
    assert_eq!(e.message(), "config must contain at least one 'corpus_dirs' entry.");
    assert!(matches!(
        validate_corpora(&config(&[], &[], &[], Vec::new())).unwrap_err(),
        BenchError::NoCorpora
    ));
    // Ingestion needs nothing else.
    assert!(validate_corpora(&config(&[], &[], &["a=b"], Vec::new())).is_ok());
}

#[test]
fn chunking_is_passed_on() {
    let c = chunk_config(&ParseConfig { chunk_size: 1024, chunk_overlap: 128 });
    assert_eq!((c.size, c.overlap), (1024, 128));
}

#[test]
fn mock_mode_replaces_every_backend() {
    let agents = vec![
        agent(Some("own"), Some("mine: {query}"), Provider::Ollama),
        agent(None, None, Provider::Other("Candle".to_string())),
    ];
    let mut c = config(&["q"], &[], &["a=b"], agents);
    assert!(build_agent(&c.agents[1], &c.embed, &c.mock).is_err());
    apply_mock_mode(&mut c);
    assert!(c.mock.embedder);
    assert_eq!(c.agents[0].answer.as_deref(), Some("mine: {query}"));
    assert_eq!(c.agents[1].answer.as_deref(), Some("[mock] answer for: {query}"));
    assert_eq!(c.corpus_dirs, vec!["a=b".to_string()]);
    for a in &c.agents {
        let plan = build_agent(a, &c.embed, &c.mock).unwrap();
        assert!(matches!(plan.generator, GeneratorChoice::Mock(_)));
        assert!(matches!(plan.embedder, EmbedderChoice::Mock));
    }
    assert!(validate_matrix(&c).is_ok());
    apply_mock_mode(&mut c);
    assert_eq!(c.agents[1].answer.as_deref(), Some("[mock] answer for: {query}"));
}

#[test]
fn the_mode_decides_what_is_asked() {
    let c = config(&["q", "r"], &[], &["a=b"], one_agent());
    assert!(!is_chat(&c));
    assert_eq!(questions(&c), &vec!["q".to_string(), "r".to_string()]);
    let c = config(&[], &["m"], &["a=b"], one_agent());
    assert!(is_chat(&c));
    assert_eq!(questions(&c), &vec!["m".to_string()]);
}

// ── Embedders ───────────────────────────────────────────────────────────────

#[test]
fn ollama_embedder_keeps_model_and_timeout() {
    match build_embedder(&embed(EmbeddingProvider::Ollama), false).unwrap() {
        EmbedderChoice::Ollama { model, request_timeout_secs } => {
            assert_eq!(model, "nomic-embed-text:latest");
            assert_eq!(request_timeout_secs, Some(7));
        }
        other => panic!("{other:?}"),
    }
}

#[test]
fn mock_embedder_goes_before_the_provider() {
    let e = embed(EmbeddingProvider::Other("Strange".to_string()));
    assert!(matches!(build_embedder(&e, true).unwrap(), EmbedderChoice::Mock));
}

#[test]
fn other_embedders_go_by_their_lowercase_name() {
    match build_embedder(&embed(EmbeddingProvider::Other("OLLAMA".to_string())), false).unwrap() {
        EmbedderChoice::Ollama { model, request_timeout_secs } => {
            assert_eq!(model, "nomic-embed-text:latest");
            assert_eq!(request_timeout_secs, None);
        }
        other => panic!("{other:?}"),
    }
    for name in ["None", "OFF"] {
        let e = embed(EmbeddingProvider::Other(name.to_string()));
        assert!(matches!(build_embedder(&e, false).unwrap(), EmbedderChoice::Disabled));
    }
}

#[test]
fn unknown_embedders_are_refused() {
    let e = build_embedder(&embed(EmbeddingProvider::Other("Fastembed".to_string())), false)
        .unwrap_err();
    assert!(matches!(e, BenchError::Embedder { .. }));
    assert_eq!(e.message(), "Unknown embedding backend: 'fastembed'. Available: ollama, none");
}

// ── Agents ──────────────────────────────────────────────────────────────────

#[test]
fn chat_backends() {
    match build_chat_agent(&chat(Provider::Ollama)).unwrap() {
        ChatChoice::Ollama { model, params, request_timeout_secs } => {
            assert_eq!(model, "gemma2:latest");
            assert_eq!(params.seed, Some(42));
            assert_eq!(request_timeout_secs, Some(300));
        }
        other => panic!("{other:?}"),
    }
    match build_chat_agent(&chat(Provider::Deepseek)).unwrap() {
        ChatChoice::Deepseek { model, api_key, .. } => {
            assert_eq!(model, "deepseek-chat");
            assert_eq!(api_key.as_deref(), Some("key"));
        }
        other => panic!("{other:?}"),
    }
    let e = build_chat_agent(&chat(Provider::Other("Candle".to_string()))).unwrap_err();
    assert!(matches!(&e, BenchError::UnsupportedChatProvider { provider } if provider == "Candle"));
    assert_eq!(e.message(), "chat provider Candle is not supported by this build");
}

#[test]
fn agent_plans() {
    let a = agent(None, None, Provider::Ollama);
    let plan = build_agent(&a, &embed(EmbeddingProvider::Ollama), &MockConfig::default()).unwrap();
    assert!(matches!(plan.generator, GeneratorChoice::Backend(ChatChoice::Ollama { .. })));
    assert!(matches!(plan.embedder, EmbedderChoice::Ollama { .. }));
    assert_eq!(plan.context_tokens, 8192);
    assert_eq!(plan.top_k, 50);
    assert_eq!(f64::from_bits(plan.similarity_threshold), 0.04);
    assert_eq!(plan.system_prompt_path.as_deref(), Some("prompt.md"));
}

#[test]
fn canned_agents_need_no_provider() {
    let a = agent(None, Some("t"), Provider::Other("Candle".to_string()));
    let plan = build_agent(&a, &embed(EmbeddingProvider::Ollama), &MockConfig::default()).unwrap();
    match plan.generator {
        GeneratorChoice::Mock(m) => {
            assert_eq!(m.label, "mock");
            assert_eq!(m.label, agent_label(&a));
            assert_eq!(m.template, "t");
        }
        other => panic!("{other:?}"),
    }
}

#[test]
fn canned_agents_ignore_their_chat_settings() {
    let a = agent(Some("l"), Some("t"), Provider::Ollama);
    let plan = build_agent(&a, &embed(EmbeddingProvider::Ollama), &MockConfig::default()).unwrap();
    assert_eq!(plan.system_prompt_path, None);
    assert_eq!(plan.context_tokens, DEFAULT_CONTEXT_TOKENS);
    assert_eq!(DEFAULT_CONTEXT_TOKENS, ragrig::types::ChatConfig::default().context_tokens);
    let mut b = agent(Some("l"), Some("t"), Provider::Other("Candle".to_string()));
    b.chat.context_tokens = 1;
    b.chat.system_prompt_path = Some("/no/such/file".to_string());
    let other = build_agent(&b, &embed(EmbeddingProvider::Ollama), &MockConfig::default()).unwrap();
    assert_eq!(format!("{plan:?}"), format!("{other:?}"));
}

#[test]
fn generator_faults_go_first() {
    let a = agent(None, None, Provider::Other("Candle".to_string()));
    let e = embed(EmbeddingProvider::Other("Strange".to_string()));
    assert!(matches!(
        build_agent(&a, &e, &MockConfig::default()).unwrap_err(),
        BenchError::UnsupportedChatProvider { .. }
    ));
    let a = agent(None, Some("t"), Provider::Ollama);
    assert!(matches!(
        build_agent(&a, &e, &MockConfig::default()).unwrap_err(),
        BenchError::Embedder { .. }
    ));
}

#[test]
fn agent_labels() {
    assert_eq!(agent_label(&agent(Some("small"), Some("t"), Provider::Ollama)), "small");
    assert_eq!(agent_label(&agent(None, Some("t"), Provider::Ollama)), "mock");
    assert_eq!(agent_label(&agent(None, None, Provider::Ollama)), "ollama / gemma2:latest");
    assert_eq!(agent_label(&agent(None, None, Provider::Deepseek)), "deepseek / deepseek-chat");
    assert_eq!(
        agent_label(&agent(None, None, Provider::Other("CandleÄ".to_string()))),
        "candleä / unknown"
    );
}

// ── Rankers ─────────────────────────────────────────────────────────────────

#[test]
fn no_rankers_mean_rrf() {
    let r = ranker_configs(&[]);
    assert_eq!(r.len(), 1);
    assert_eq!(ranker_label(&r[0]), "rrf");
    assert_eq!(build_ranker(&r[0]).unwrap(), RankerChoice::HybridRrf);
}

#[test]
fn ranker_lists_are_kept() {
    let list = [ranker("bm25", None, None), ranker("weighted", Some(0.7), None), ranker("", None, None)];
    let r = ranker_configs(&list);
    let labels: Vec<String> = r.iter().map(ranker_label).collect();
    assert_eq!(labels, vec!["bm25".to_string(), "weighted".to_string(), "rrf".to_string()]);
    assert_eq!(r[1].alpha, Some(0.7f64.to_bits()));
}

#[test]
fn ranker_choices() {
    assert_eq!(build_ranker(&ranker("rrf", None, None)).unwrap(), RankerChoice::HybridRrf);
    assert_eq!(
        build_ranker(&ranker("cosine", Some(0.3), None)).unwrap(),
        RankerChoice::Weighted { alpha: 1.0f64.to_bits() }
    );
    assert_eq!(
        build_ranker(&ranker("bm25", Some(0.3), None)).unwrap(),
        RankerChoice::Weighted { alpha: 0.0f64.to_bits() }
    );
    assert_eq!(
        build_ranker(&ranker("weighted", None, Some(0.3))).unwrap(),
        RankerChoice::Weighted { alpha: 0.5f64.to_bits() }
    );
    assert_eq!(
        build_ranker(&ranker("weighted", Some(0.7), None)).unwrap(),
        RankerChoice::Weighted { alpha: 0.7f64.to_bits() }
    );
    assert_eq!(
        build_ranker(&ranker("mmr", Some(0.7), None)).unwrap(),
        RankerChoice::Mmr { lambda: 0.5f64.to_bits() }
    );
    assert_eq!(
        build_ranker(&ranker("mmr", None, Some(0.25))).unwrap(),
        RankerChoice::Mmr { lambda: 0.25f64.to_bits() }
    );
}

#[test]
fn unknown_rankers_are_refused() {
    let e = build_ranker(&ranker("RRF", None, None)).unwrap_err();
    assert!(matches!(&e, BenchError::UnknownRanker { name } if name == "RRF"));
    assert_eq!(e.message(), "unknown ranker 'RRF'. Available: rrf, cosine, bm25, weighted, mmr");
}
