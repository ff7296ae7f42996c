use rqmd::llm::config::{ModelEnv, DEFAULT_EMBED_MODEL, DEFAULT_EXPAND_CONTEXT_SIZE};
use rqmd::llm::error::Error;
use rqmd::llm::format::{
    embedding_fingerprint, fingerprint_of, format_doc, format_doc_for_embedding, format_query,
    format_query_for_embedding, is_qwen3_embedding_model,
};
use rqmd::llm::llama_cpp::{
    chat_messages, chunk_sizes, chunk_warning, drain_warning, pool_warning, settings_warnings,
    worker_warning, PoolKind, embed_batch_inputs, embed_result, embed_results_to_output,
    expand_query_messages, expand_query_result, flatten_with_chunk_fallback, format_for_embedding,
    generate_limits, generate_result, load_step, model_exists, model_name, pool_teardown,
    rerank_prompts, rerank_results, resolve_pool_parallelism, ChatDecode, DrainStep, LlamaCpp,
    LlamaCppConfig, LlmEnv, LoadStep, Operation, PoolTeardown, Sampled, DEFAULT_TEMPERATURE_BITS,
};
use rqmd::llm::prompt::{
    build_expand_query_user_message, build_qwen3_rerank_prompt, drop_lexical, fallback_queryables,
    filter_with_query_terms, mentions_a_term, parse_expand_query_output, query_terms,
};
use rqmd::llm::session::{apply_event, LlmSession, LlmSessionOptions, SessionEvent};
use rqmd::llm::singleton::DefaultSlot;
use rqmd::llm::types::{
    EmbedOptions, ExpandQueryOptions, GenerateOptions, QueryType, Queryable, RerankDocument,
};
use rqmd::llm::worker::{
    batch_capacity, batch_slots, check_tokens, first_score, non_zero_ctx, spawn_outcome,
    split_into_chunks, EmbedPool, RerankPool,
};

#[test]
fn embedding_fingerprint_is_six_lowercase_hex_and_stable() {
    let fp = embedding_fingerprint("hf:test/embed.gguf");
    assert_eq!(fp.len(), 6);
    assert!(fp.chars().all(|c| c.is_ascii_digit() || ('a'..='f').contains(&c)));
    assert_eq!(fp, embedding_fingerprint("hf:test/embed.gguf"));
}

#[test]
fn embedding_fingerprint_matches_upstream_qmd_golden() {
    assert_eq!(embedding_fingerprint("hf:test/embed.gguf"), "2846ff");
    assert_eq!(embedding_fingerprint("hf:Qwen/Qwen3-Embedding-0.6B.gguf"), "8bbf95");
}

#[test]
fn embedding_fingerprint_differs_by_model_and_template_branch() {
    let nomic = embedding_fingerprint("hf:test/embed.gguf");
    let other_nomic = embedding_fingerprint("hf:other/embed.gguf");
    let qwen = embedding_fingerprint("hf:Qwen/Qwen3-Embedding-0.6B.gguf");
    assert_ne!(nomic, other_nomic);
    assert_ne!(nomic, qwen);
}

#[test]
fn embed_results_to_output_preserves_input_order() {
    let raw = vec![
        Ok(vec![Some(vec![1.0]), Some(vec![2.0])]),
        Ok(vec![None, Some(vec![4.0])]),
    ];
    let out = embed_results_to_output(raw, &[2, 2], "test-model");
    assert_eq!(out.len(), 4, "output slot count must match input slot count");
    assert_eq!(out[0].as_ref().unwrap().embedding, vec![1.0]);
    assert_eq!(out[1].as_ref().unwrap().embedding, vec![2.0]);
    assert!(out[2].is_none(), "None slot must survive at index 2");
    assert_eq!(out[3].as_ref().unwrap().embedding, vec![4.0]);
    for slot in out.iter().flatten() {
        assert_eq!(slot.model, "test-model");
    }
}

#[test]
fn embed_results_to_output_pads_failed_chunks_with_none() {
    let raw = vec![
        Ok(vec![Some(vec![1.0]), Some(vec![2.0])]),
        Err(Error::WorkerClosed),
    ];
    let out = embed_results_to_output(raw, &[2, 3], "m");
    assert_eq!(out.len(), 5, "padded output must equal sum of chunk_sizes");
    assert_eq!(out[0].as_ref().unwrap().embedding, vec![1.0]);
    assert_eq!(out[1].as_ref().unwrap().embedding, vec![2.0]);
    assert!(out[2].is_none(), "failed chunk slot 0");
    assert!(out[3].is_none(), "failed chunk slot 1");
    assert!(out[4].is_none(), "failed chunk slot 2");
}

#[test]
fn flatten_with_chunk_fallback_handles_scores() {
    let raw: Vec<Result<Vec<Option<f32>>, Error>> = vec![
        Ok(vec![Some(0.9), Some(0.1)]),
        Err(Error::WorkerClosed),
        Ok(vec![Some(0.5)]),
    ];
    let out = flatten_with_chunk_fallback(raw, &[2, 1, 1]);
    assert_eq!(out, vec![Some(0.9), Some(0.1), None, Some(0.5)]);
}

#[test]
fn user_message_default_prefix_auto_inserts_space() {
    assert_eq!(
        build_expand_query_user_message("foo", None, "/no_think"),
        "/no_think Expand this search query: foo"
    );
}

#[test]
fn user_message_prefix_with_trailing_space_is_idempotent() {
    assert_eq!(
        build_expand_query_user_message("foo", None, "/no_think "),
        "/no_think Expand this search query: foo"
    );
}

#[test]
fn user_message_prefix_ending_in_newline_skips_separator() {
    assert_eq!(
        build_expand_query_user_message("foo", None, "/no_think\n"),
        "/no_think\nExpand this search query: foo"
    );
}

#[test]
fn user_message_prefix_ending_in_tab_skips_separator() {
    assert_eq!(
        build_expand_query_user_message("foo", None, "/no_think\t"),
        "/no_think\tExpand this search query: foo"
    );
}

#[test]
fn user_message_empty_prefix_emits_bare_body() {
    assert_eq!(
        build_expand_query_user_message("foo", None, ""),
        "Expand this search query: foo"
    );
}

#[test]
fn user_message_prefix_ending_in_colon_gets_separator() {
    assert_eq!(
        build_expand_query_user_message("foo", None, "### Task:"),
        "### Task: Expand this search query: foo"
    );
}

#[test]
fn user_message_with_intent_appends_intent_line() {
    assert_eq!(
        build_expand_query_user_message("foo", Some("research"), "/no_think"),
        "/no_think Expand this search query: foo\nQuery intent: research"
    );
}

#[test]
fn fallback_default_template_matches_pre_feature_behaviour() {
    let out = fallback_queryables("日本の首都", true, "Information about {query}");
    let hyde = out.iter().find(|q| q.type_ == QueryType::Hyde).unwrap();
    assert_eq!(hyde.text, "Information about 日本の首都");
    assert!(out.iter().any(|q| q.type_ == QueryType::Lex && q.text == "日本の首都"));
    assert!(out.iter().any(|q| q.type_ == QueryType::Vec && q.text == "日本の首都"));
}

#[test]
fn fallback_japanese_template_produces_coherent_text() {
    let out = fallback_queryables("日本の首都", true, "{query}に関する情報");
    let hyde = out.iter().find(|q| q.type_ == QueryType::Hyde).unwrap();
    assert_eq!(hyde.text, "日本の首都に関する情報");
}

#[test]
fn fallback_excludes_lex_when_not_requested() {
    let out = fallback_queryables("日本の首都", false, "Information about {query}");
    assert!(out.iter().all(|q| q.type_ != QueryType::Lex));
    assert!(out.iter().any(|q| q.type_ == QueryType::Hyde));
    assert!(out.iter().any(|q| q.type_ == QueryType::Vec));
}

#[test]
fn fallback_template_without_placeholder_used_verbatim() {
    let out = fallback_queryables("foo", true, "no placeholder here");
    let hyde = out.iter().find(|q| q.type_ == QueryType::Hyde).unwrap();
    assert_eq!(hyde.text, "no placeholder here");
}

#[test]
fn split_into_chunks_distributes_evenly() {
    let chunks = split_into_chunks(vec![1, 2, 3, 4, 5, 6], 3);
    assert_eq!(chunks, vec![vec![1, 2], vec![3, 4], vec![5, 6]]);
}

#[test]
fn split_into_chunks_remainder_goes_in_last_chunk() {
    let chunks = split_into_chunks(vec![1, 2, 3, 4, 5, 6, 7], 3);
    assert_eq!(chunks, vec![vec![1, 2, 3], vec![4, 5, 6], vec![7]]);
}

#[test]
fn split_into_chunks_clamps_at_input_len() {
    let chunks = split_into_chunks(vec![1, 2], 5);
    assert_eq!(chunks, vec![vec![1], vec![2]]);
}

#[test]
fn split_into_chunks_zero_chunks_is_empty() {
    let chunks: Vec<Vec<i32>> = split_into_chunks(vec![1, 2, 3], 0);
    assert!(chunks.is_empty());
}

#[test]
fn split_into_chunks_empty_input_is_empty() {
    let chunks: Vec<Vec<i32>> = split_into_chunks(vec![], 3);
    assert!(chunks.is_empty());
}

#[test]
fn chunks_hold_everything_in_order() {
    for len in 0..20usize {
        for n in 1..6usize {
            let items: Vec<usize> = (0..len).collect();
            let chunks = split_into_chunks(items.clone(), n);
            assert!(chunks.len() <= n);
            let sizes = chunk_sizes(&chunks);
            assert_eq!(sizes.iter().sum::<usize>(), len);
            let raw: Vec<Result<Vec<Option<usize>>, Error>> = chunks
                .iter()
                .enumerate()
                .map(|(k, c)| {
                    if k == 1 {
                        Err(Error::WorkerClosed)
                    } else {
                        Ok(c.iter().map(|i| Some(*i)).collect())
                    }
                })
                .collect();
            let flat = flatten_with_chunk_fallback(raw, &sizes);
            assert_eq!(flat.len(), len);
            for (i, slot) in flat.iter().enumerate() {
                assert!(slot.is_none() || *slot == Some(i));
            }
        }
    }
}

#[test]
fn qwen_models_are_told_by_their_names() {
    assert!(is_qwen3_embedding_model("hf:Qwen/Qwen3-Embedding-0.6B.gguf"));
    assert!(is_qwen3_embedding_model("EMBED-for-qWEn"));
    assert!(!is_qwen3_embedding_model("hf:test/embed.gguf"));
    assert!(!is_qwen3_embedding_model("qwen3-reranker"));
    assert!(!is_qwen3_embedding_model("qwen\nembed"));
}

#[test]
fn texts_are_put_to_the_model_by_its_kind() {
    assert_eq!(format_query("q", false), "task: search result | query: q");
    assert_eq!(
        format_query("q", true),
        "Instruct: Retrieve relevant documents for the given query\nQuery: q"
    );
    assert_eq!(format_doc("text", Some("Title"), false), "title: Title | text: text");
    assert_eq!(format_doc("text", Some(""), false), "title: none | text: text");
    assert_eq!(format_doc("text", None, true), "text");
    assert_eq!(format_doc("text", Some("T"), true), "T\ntext");
    assert_eq!(format_query_for_embedding("q", "hf:test/embed.gguf"), format_query("q", false));
    assert_eq!(format_doc_for_embedding("t", None, "qwen-embed"), "t");
    assert_eq!(fingerprint_of(&[0xab, 0x01, 0xff, 0x77]), "ab01ff");
}

#[test]
fn inputs_follow_the_options() {
    let query = EmbedOptions { is_query: true, ..Default::default() };
    assert_eq!(format_for_embedding("q", &query, "nomic"), format_query("q", false));
    let doc = EmbedOptions { title: Some("T".to_string()), ..Default::default() };
    assert_eq!(format_for_embedding("d", &doc, "qwen-embed"), "T\nd");
    let texts = vec!["a".to_string(), "b".to_string()];
    assert_eq!(embed_batch_inputs(&texts, &doc, "qwen-embed"), vec!["T\na", "T\nb"]);
    assert_eq!(model_name(&Some("m".to_string()), "c"), "m");
    assert_eq!(model_name(&None, "c"), "c");
}

#[test]
fn a_single_embedding_is_that_of_the_last_slot() {
    let r = embed_result(vec![Some(1u8), Some(2)], "m".to_string()).unwrap();
    assert_eq!((r.embedding, r.model.as_str()), (2, "m"));
    assert!(embed_result(vec![Some(1u8), None], "m".to_string()).is_none());
    assert!(embed_result::<u8>(vec![], "m".to_string()).is_none());
}

#[test]
fn expansions_are_read_line_by_line() {
    let out = parse_expand_query_output("lex: auth tokens\r\n\nVec: x\nvec:  login flow \nhyde: \nnoise\nhyde: An answer");
    let seen: Vec<(QueryType, &str)> = out.iter().map(|q| (q.type_, q.text.as_str())).collect();
    assert!(seen.contains(&(QueryType::Lex, "auth tokens")), "{:?}", seen);
    assert!(seen.contains(&(QueryType::Vec, "login flow")), "{:?}", seen);
    assert!(seen.contains(&(QueryType::Hyde, "An answer")), "{:?}", seen);
}

fn queryable(type_: QueryType, text: &str) -> Queryable {
    Queryable { type_, text: text.to_string() }
}

#[test]
fn queries_that_wander_off_are_dropped() {
    let v = vec![
        queryable(QueryType::Lex, "AUTH token"),
        queryable(QueryType::Vec, "cooking pasta"),
    ];
    let kept = filter_with_query_terms("auth flow", v);
    assert_eq!(kept.len(), 1);
    assert_eq!(kept[0].text, "AUTH token");
    let v = vec![queryable(QueryType::Vec, "anything")];
    assert_eq!(filter_with_query_terms("!?", v).len(), 1);
    assert!(mentions_a_term("the flow", &query_terms("auth-flow")));
    assert!(!mentions_a_term("nothing", &query_terms("auth-flow")));
    let v = vec![queryable(QueryType::Lex, "a"), queryable(QueryType::Hyde, "b")];
    let out = drop_lexical(v);
    assert_eq!((out.len(), out[0].text.as_str()), (1, "b"));
}

#[test]
fn an_expansion_falls_back_where_nothing_fits() {
    let opts = ExpandQueryOptions::default();
    let out = expand_query_result("auth", &opts, "lex: cooking", "About {query}");
    let seen: Vec<(QueryType, &str)> = out.iter().map(|q| (q.type_, q.text.as_str())).collect();
    assert_eq!(
        seen,
        vec![
            (QueryType::Hyde, "About auth"),
            (QueryType::Lex, "auth"),
            (QueryType::Vec, "auth"),
        ]
    );
    let opts = ExpandQueryOptions { include_lexical: Some(false), ..Default::default() };
    let out = expand_query_result("auth", &opts, "lex: auth x\nvec: auth y", "About {query}");
    let seen: Vec<(QueryType, &str)> = out.iter().map(|q| (q.type_, q.text.as_str())).collect();
    assert_eq!(seen, vec![(QueryType::Vec, "auth y")]);
}

#[test]
fn conversations_begin_with_the_system_message() {
    let opts = ExpandQueryOptions { intent: Some("work".to_string()), ..Default::default() };
    let v = expand_query_messages("q", &opts, "/no_think", Some(""));
    assert_eq!(v.len(), 2);
    assert_eq!((v[0].role.as_str(), v[0].text.as_str()), ("system", ""));
    assert_eq!(v[1].text, "/no_think Expand this search query: q\nQuery intent: work");
    let v = chat_messages(None, "hello");
    assert_eq!((v.len(), v[0].role.as_str(), v[0].text.as_str()), (1, "user", "hello"));
}

#[test]
fn rerank_prompts_hold_query_and_document() {
    let p = build_qwen3_rerank_prompt("the query", "the document");
    assert!(p.contains("<Query>: the query\n<Document>: the document"));
    assert!(p.starts_with("<|im_start|>system\nJudge whether"));
    let docs = vec![doc("a"), doc("b")];
    let prompts = rerank_prompts("q", &docs);
    assert_eq!(prompts.len(), 2);
    assert_eq!(prompts[1], build_qwen3_rerank_prompt("q", "text of b"));
}

fn doc(file: &str) -> RerankDocument {
    RerankDocument { file: file.to_string(), text: format!("text of {}", file), title: None }
}

#[test]
fn documents_are_ranked_by_score_and_keep_ties_in_order() {
    let docs = vec![doc("a"), doc("b"), doc("c"), doc("d"), doc("e")];
    let scores: Vec<Option<u32>> = [Some(0.5f32), None, Some(-1.5), Some(0.9), Some(0.5)]
        .iter()
        .map(|s| s.map(f32::to_bits))
        .collect();
    let r = rerank_results(&docs, &scores, "m".to_string());
    let seen: Vec<(&str, usize, f32)> = r
        .results
        .iter()
        .map(|x| (x.file.as_str(), x.index, f32::from_bits(x.score_bits)))
        .collect();
    assert_eq!(seen, vec![("d", 3, 0.9), ("a", 0, 0.5), ("e", 4, 0.5), ("c", 2, -1.5)]);
    assert_eq!(r.model, "m");
    assert!(rerank_results(&[], &[], "m".to_string()).results.is_empty());
}

#[test]
fn a_score_that_is_no_number_loses_no_document() {
    let docs = vec![doc("a"), doc("b"), doc("c")];
    let scores: Vec<Option<u32>> =
        [0.5f32, f32::NAN, 0.9].iter().map(|s| Some(s.to_bits())).collect();
    let r = rerank_results(&docs, &scores, "m".to_string());
    assert_eq!(r.results.len(), 3);
    let numbers: Vec<&str> =
        r.results.iter().filter(|x| x.index != 1).map(|x| x.file.as_str()).collect();
    assert_eq!(numbers, vec!["c", "a"]);
}

#[test]
fn a_shutdown_says_what_it_leaves_behind() {
    assert_eq!(drain_warning(DrainStep::Drained), None);
    assert_eq!(drain_warning(DrainStep::Wait), None);
    assert_eq!(
        drain_warning(DrainStep::GiveUp(2)).as_deref(),
        Some("llm dispose: 2 in-flight op(s) did not drain in 30s; proceeding")
    );
    assert_eq!(pool_warning(PoolKind::Embed, PoolTeardown::Join), None);
    assert_eq!(
        pool_warning(PoolKind::Rerank, PoolTeardown::Leave).as_deref(),
        Some("llm dispose: rerank pool still has Arc holders; workers will be cleaned up by Drop instead of explicit join")
    );
    assert_eq!(worker_warning(PoolKind::Embed, 0, true), None);
    assert_eq!(
        worker_warning(PoolKind::Embed, 3, false).as_deref(),
        Some("llm dispose: embed worker #3 did not join within 2s; leaking the thread")
    );
    assert_eq!(
        chunk_warning(4, "closed"),
        "llm: chunk of 4 input(s) failed and will be reported as None slots: closed"
    );
}

#[test]
fn settings_are_warned_of_in_order() {
    let env = LlmEnv {
        models: ModelEnv { embed: None, generate: None, rerank: None },
        expand_context_size: Some("0"),
        embed_context_size: Some("many"),
        rerank_context_size: Some(" "),
        embed_parallelism: Some("-1"),
        rerank_parallelism: Some("4"),
        serialize_windows_cuda: false,
    };
    let warnings = settings_warnings(&LlamaCppConfig::default(), &env);
    assert_eq!(
        warnings,
        vec![
            format!("invalid RQMD_EXPAND_CONTEXT_SIZE=\"0\", using default {}", DEFAULT_EXPAND_CONTEXT_SIZE),
            "invalid RQMD_EMBED_CONTEXT_SIZE=\"many\", using default 2048".to_string(),
            "invalid RQMD_EMBED_PARALLELISM=\"-1\", using automatic parallelism".to_string(),
        ]
    );
    let configured = LlamaCppConfig {
        expand_context_size: Some(0),
        embed_context_size: Some(1),
        embed_parallelism: Some(1),
        ..LlamaCppConfig::default()
    };
    assert!(settings_warnings(&configured, &env).is_empty());
}

#[test]
fn generation_has_default_limits() {
    assert_eq!(generate_limits(&GenerateOptions::default()), (150, 0.7f32.to_bits()));
    assert_eq!(DEFAULT_TEMPERATURE_BITS, 0.7f32.to_bits());
    let opts = GenerateOptions {
        max_tokens: Some(7),
        temperature_bits: Some(1.0f32.to_bits()),
        ..Default::default()
    };
    assert_eq!(generate_limits(&opts), (7, 1.0f32.to_bits()));
    let r = generate_result("text".to_string(), "m");
    assert_eq!((r.text.as_str(), r.model.as_str(), r.done), ("text", "m", true));
}

#[test]
fn remote_models_count_as_there() {
    let r = model_exists("hf:a/b.gguf", false);
    assert!(r.exists && r.path.is_none());
    let r = model_exists("/models/x.gguf", true);
    assert_eq!(r.path.as_deref(), Some("/models/x.gguf"));
    assert!(!model_exists("/models/x.gguf", false).exists);
}

#[test]
fn a_text_is_generated_token_by_token() {
    let mut d = ChatDecode::start(4, 3).unwrap();
    assert_eq!(d.next_index(), Some(3));
    assert_eq!(d.accept(Sampled::Token(Some("Hel".to_string()))), Some(4));
    assert_eq!(d.next_index(), Some(0));
    assert_eq!(d.accept(Sampled::Token(None)), Some(5));
    assert_eq!(d.accept(Sampled::Token(Some("lo".to_string()))), Some(6));
    assert_eq!(d.next_index(), None);
    assert_eq!(d.finish(), "Hel\u{FFFD}lo");

    let mut d = ChatDecode::start(1, 10).unwrap();
    assert_eq!(d.accept(Sampled::EndOfGeneration), None);
    assert_eq!(d.next_index(), None);
    assert_eq!(d.finish(), "");

    match ChatDecode::start(0, 10) {
        Err(Error::Tokenize(why)) => assert_eq!(why, "empty prompt tokenization"),
        other => panic!("{:?}", other),
    }
    assert_eq!(ChatDecode::start(2, -5).unwrap().next_index(), None);
}

fn env() -> LlmEnv<'static> {
    LlmEnv {
        models: ModelEnv { embed: None, generate: Some("gen"), rerank: None },
        expand_context_size: Some("64"),
        embed_context_size: None,
        rerank_context_size: Some("128"),
        embed_parallelism: Some("4"),
        rerank_parallelism: None,
        serialize_windows_cuda: false,
    }
}

#[test]
fn models_are_set_up_from_configuration_and_environment() {
    let config = LlamaCppConfig {
        rerank_model: Some("rank".to_string()),
        embed_context_size: Some(10),
        rerank_parallelism: Some(0),
        expand_context_size: Some(0),
        ..LlamaCppConfig::from_env(Some("true"))
    };
    let l = LlamaCpp::new(config, &env());
    assert_eq!(l.embed_model_uri(), DEFAULT_EMBED_MODEL);
    assert_eq!(l.generate_model_uri(), "gen");
    assert_eq!(l.rerank_model_uri(), "rank");
    assert_eq!(l.embed_context_size(), 10);
    assert_eq!(l.rerank_context_size(), 128);
    assert_eq!(l.expand_context_size(), 2048);
    assert_eq!(l.embed_parallelism(), 4);
    assert_eq!(l.rerank_parallelism(), 1);
    assert!(l.ci_mode());
    assert!(!LlamaCpp::with_env(Some(""), &env()).ci_mode());
    assert_eq!(LlamaCpp::with_env(None, &env()).expand_context_size(), 64);
    assert_eq!(resolve_pool_parallelism(None, None, 2, true), 1);
}

#[test]
fn operations_are_refused_where_models_may_not_be_loaded() {
    let mut l = LlamaCpp::with_env(Some("1"), &env());
    for op in [
        Operation::EmbedBatch,
        Operation::Generate,
        Operation::ExpandQuery,
        Operation::Rerank,
    ] {
        assert!(matches!(l.begin(op), Err(Error::CiDisabled)));
    }
    assert_eq!(l.in_flight_count(), 0);
    for op in [Operation::Embed, Operation::Tokenize, Operation::Detokenize] {
        assert!(l.begin(op).is_ok());
        l.end();
    }
    assert_eq!(l.in_flight_count(), 0);
}

#[test]
fn a_shutdown_is_final_and_waits_for_what_is_under_way() {
    let mut l = LlamaCpp::with_env(None, &env());
    assert!(l.begin(Operation::Rerank).is_ok());
    assert!(l.begin(Operation::Embed).is_ok());
    assert!(l.confirm().is_ok());
    assert!(l.dispose());
    assert!(!l.dispose());
    assert!(l.is_disposed());
    assert!(matches!(l.begin(Operation::Embed), Err(Error::Disposed)));
    assert_eq!(l.drain_step(30_000), DrainStep::Wait);
    assert_eq!(l.drain_step(30_001), DrainStep::GiveUp(2));
    assert!(matches!(l.confirm(), Err(Error::Disposed)));
    l.end();
    assert_eq!(l.drain_step(0), DrainStep::Drained);
    assert_eq!(pool_teardown(false, true), PoolTeardown::Nothing);
    assert_eq!(pool_teardown(true, true), PoolTeardown::Join);
    assert_eq!(pool_teardown(true, false), PoolTeardown::Leave);
}

#[test]
fn a_model_is_loaded_once_and_under_the_lock() {
    assert_eq!(load_step(false, false), LoadStep::Lock);
    assert_eq!(load_step(false, true), LoadStep::Load);
    assert_eq!(load_step(true, true), LoadStep::Ready);
    assert_eq!(load_step(true, false), LoadStep::Ready);
}

#[test]
fn sessions_end_by_release_or_time() {
    let options = || LlmSessionOptions { max_duration_ms: Some(5), name: Some("s".to_string()) };
    let mut s = LlmSession::new(7u8, options());
    assert!(s.is_valid() && s.check_valid().is_ok());
    assert_eq!((*s.llm(), s.name()), (7, "s"));
    s.release();
    s.release();
    assert!(!s.is_valid());
    assert!(matches!(s.check_valid(), Err(Error::SessionReleased(_))));
    let mut s = LlmSession::new(7u8, options());
    apply_event(&mut s, SessionEvent::Expired);
    assert!(s.cancelled() && !s.is_valid());
    apply_event(&mut s, SessionEvent::Released);
    assert!(!s.is_valid());
    let mut s = LlmSession::new(7u8, options());
    s.elapse(4);
    assert!(s.is_valid());
    s.elapse(5);
    assert!(s.cancelled() && !s.is_valid());
    let mut s = LlmSession::new(7u8, LlmSessionOptions::default());
    s.elapse(u64::MAX);
    assert!(s.is_valid());
}

#[test]
fn workers_take_turns() {
    let mut pool = EmbedPool::new(vec!['a', 'b', 'c']);
    let turns: Vec<usize> = (0..4).map(|_| pool.submit_to_next().unwrap()).collect();
    assert_eq!(turns, vec![0, 1, 2, 0]);
    assert_eq!(pool.scatter(5).unwrap(), vec![0, 1, 2, 0, 1]);
    assert_eq!(pool.worker_count(), 3);
    assert_eq!(*pool.worker(1), 'b');
    assert_eq!(pool.into_workers(), vec!['a', 'b', 'c']);
    let mut none: EmbedPool<u8> = EmbedPool::new(vec![]);
    assert!(matches!(none.submit_to_next(), Err(Error::Llama(_))));
    assert!(matches!(none.scatter(1), Err(Error::Llama(_))));
    let pool = RerankPool::new(vec![1, 2]);
    assert_eq!(pool.scatter(3).unwrap(), vec![0, 1, 0]);
    assert_eq!(pool.worker_count(), 2);
    assert!(matches!(RerankPool::<u8>::new(vec![]).scatter(0), Err(Error::Llama(_))));
}

#[test]
fn batches_report_what_failed() {
    assert_eq!(batch_slots(vec![Ok(1), Err(Error::WorkerClosed), Ok(3)]), vec![Some(1), None, Some(3)]);
    assert!(spawn_outcome(Some(Ok(()))).is_ok());
    assert!(matches!(spawn_outcome(Some(Err(Error::Disposed))), Err(Error::Disposed)));
    assert!(matches!(spawn_outcome(None), Err(Error::WorkerClosed)));
    assert_eq!(batch_capacity(3), 64);
    assert_eq!(batch_capacity(100), 100);
    assert_eq!(non_zero_ctx(0), 1);
    assert!(check_tokens(1).is_ok());
    assert!(matches!(check_tokens(0), Err(Error::Tokenize(_))));
    assert_eq!(first_score(&[5, 6]).unwrap(), 5);
    assert!(matches!(first_score(&[]), Err(Error::Llama(_))));
}

#[test]
fn the_first_shared_models_are_kept() {
    let mut slot = DefaultSlot::empty();
    assert!(slot.get().is_none());
    slot.default_llama_cpp(1);
    slot.default_llama_cpp(2);
    assert_eq!(slot.get(), Some(&1));
    slot.set_default_llama_cpp(Some(3));
    assert_eq!(slot.dispose_default_llama_cpp(), Some(3));
    assert_eq!(slot.dispose_default_llama_cpp(), None);
}
