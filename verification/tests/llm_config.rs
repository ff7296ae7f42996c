use rqmd::env_keys;
use rqmd::llm::config::{
    context_size_warning, expand_top_k_warning, numeric_env_warning,
    resolve_context_size_env, resolve_embed_context_size, resolve_embed_model,
    resolve_expand_context_size, resolve_expand_fallback_hyde_template,
    resolve_expand_system_message, resolve_expand_top_k, resolve_expand_user_message_prefix,
    resolve_generate_model, resolve_models, resolve_numeric_env, resolve_rerank_context_size,
    resolve_rerank_model, ModelEnv, DEFAULT_EMBED_CONTEXT_SIZE, DEFAULT_EMBED_MODEL,
    DEFAULT_EXPAND_FALLBACK_HYDE_TEMPLATE, DEFAULT_EXPAND_TOP_K,
    DEFAULT_EXPAND_USER_MESSAGE_PREFIX, DEFAULT_GENERATE_MODEL, DEFAULT_RERANK_CONTEXT_SIZE,
    DEFAULT_RERANK_MODEL,
};
use rqmd::llm::error::Error;
use rqmd::llm::gpu::{
    gpu_layers, gpu_setting_warning, parallelism_warning, resolve_llama_gpu_mode, resolve_parallelism_override, resolve_safe_parallelism,
    windows_cuda_serialization_required, LlamaGpuMode, ParallelismOptions,
};
use rqmd::llm::types::ModelResolutionConfig;

const DEFAULT_EXPAND_TEMP: f32 = 0.7;
const DEFAULT_EXPAND_TOP_P: f32 = 0.8;

fn resolve_expand_temp(env: Option<&str>) -> f32 {
    resolve_numeric_env(None, env.and_then(|s| s.trim().parse().ok()), DEFAULT_EXPAND_TEMP)
}

fn resolve_expand_top_p(env: Option<&str>) -> f32 {
    resolve_numeric_env(None, env.and_then(|s| s.trim().parse().ok()), DEFAULT_EXPAND_TOP_P)
}

#[test]
fn prefers_env_qmd_embed_model_over_default() {
    assert_eq!(
        resolve_embed_model(None, Some("hf:env/embed-model.gguf")),
        "hf:env/embed-model.gguf"
    );
}

#[test]
fn falls_back_to_default_embed_model_when_unset() {
    assert_eq!(resolve_embed_model(None, None), DEFAULT_EMBED_MODEL);
}

#[test]
fn config_value_takes_priority_over_env_and_default() {
    let cfg = ModelResolutionConfig {
        embed: Some("hf:config/embed-model.gguf".to_string()),
        ..Default::default()
    };
    assert_eq!(
        resolve_embed_model(Some(&cfg), Some("hf:env/embed-model.gguf")),
        "hf:config/embed-model.gguf"
    );
}

#[test]
fn generate_and_rerank_resolve_env_then_default() {
    assert_eq!(resolve_generate_model(None, Some("hf:env/generate.gguf")), "hf:env/generate.gguf");
    assert_eq!(resolve_rerank_model(None, None), DEFAULT_RERANK_MODEL);
}

#[test]
fn expand_user_message_prefix_falls_back_to_default() {
    assert_eq!(
        resolve_expand_user_message_prefix(None, None),
        DEFAULT_EXPAND_USER_MESSAGE_PREFIX
    );
}

#[test]
fn expand_user_message_prefix_env_overrides_default() {
    assert_eq!(resolve_expand_user_message_prefix(None, Some("### Task:")), "### Task:");
}

#[test]
fn expand_user_message_prefix_empty_env_is_honoured() {
    assert_eq!(resolve_expand_user_message_prefix(None, Some("")), "");
}

#[test]
fn expand_user_message_prefix_config_beats_env() {
    assert_eq!(
        resolve_expand_user_message_prefix(Some("from-config"), Some("from-env")),
        "from-config"
    );
}

#[test]
fn expand_user_message_prefix_config_empty_is_honoured() {
    assert_eq!(resolve_expand_user_message_prefix(Some(""), Some("from-env")), "");
}

#[test]
fn expand_system_message_default_is_none() {
    assert_eq!(resolve_expand_system_message(None, None), None);
}

#[test]
fn expand_system_message_env_empty_is_some_empty() {
    assert_eq!(resolve_expand_system_message(None, Some("")), Some(String::new()));
}

#[test]
fn expand_system_message_config_overrides_env() {
    assert_eq!(
        resolve_expand_system_message(Some("from-config"), Some("from-env")),
        Some("from-config".to_string())
    );
}

#[test]
fn expand_fallback_hyde_template_default_is_english() {
    assert_eq!(
        resolve_expand_fallback_hyde_template(None, None),
        DEFAULT_EXPAND_FALLBACK_HYDE_TEMPLATE
    );
}

#[test]
fn expand_fallback_hyde_template_japanese_via_env() {
    assert_eq!(
        resolve_expand_fallback_hyde_template(None, Some("{query}に関する情報")),
        "{query}に関する情報"
    );
}

#[test]
fn expand_temp_default_when_unset() {
    assert!((resolve_expand_temp(None) - DEFAULT_EXPAND_TEMP).abs() < f32::EPSILON);
}

#[test]
fn expand_temp_env_overrides_default() {
    assert!((resolve_expand_temp(Some("0.42")) - 0.42).abs() < f32::EPSILON);
}

#[test]
fn expand_temp_invalid_env_warns_and_falls_back() {
    assert!((resolve_expand_temp(Some("not-a-number")) - DEFAULT_EXPAND_TEMP).abs() < f32::EPSILON);
}

#[test]
fn expand_top_k_config_beats_env() {
    assert_eq!(resolve_expand_top_k(Some(99), Some("50")), 99);
}

#[test]
fn expand_top_p_env_overrides_default() {
    assert!((resolve_expand_top_p(Some("0.95")) - 0.95).abs() < f32::EPSILON);
}

#[test]
fn top_k_reads_the_environment() {
    assert_eq!(resolve_expand_top_k(None, Some(" 50 ")), 50);
    assert_eq!(resolve_expand_top_k(None, Some("-3")), -3);
    assert_eq!(resolve_expand_top_k(None, Some("+7")), 7);
    assert_eq!(resolve_expand_top_k(None, Some("2147483648")), DEFAULT_EXPAND_TOP_K);
    assert_eq!(resolve_expand_top_k(None, Some("x")), DEFAULT_EXPAND_TOP_K);
    assert_eq!(resolve_expand_top_k(None, None), DEFAULT_EXPAND_TOP_K);
}

#[test]
fn empty_values_count_as_none_for_models() {
    let cfg = ModelResolutionConfig { embed: Some(String::new()), ..Default::default() };
    assert_eq!(resolve_embed_model(Some(&cfg), Some("")), DEFAULT_EMBED_MODEL);
    let env = ModelEnv { embed: Some("e"), generate: None, rerank: Some("r") };
    let models = resolve_models(Some(&cfg), &env);
    assert_eq!(models.embed, "e");
    assert_eq!(models.generate, DEFAULT_GENERATE_MODEL);
    assert_eq!(models.rerank, "r");
}

#[test]
fn context_sizes_are_positive() {
    assert_eq!(resolve_embed_context_size(None), DEFAULT_EMBED_CONTEXT_SIZE);
    assert_eq!(resolve_embed_context_size(Some("512")), 512);
    assert_eq!(resolve_embed_context_size(Some("0")), DEFAULT_EMBED_CONTEXT_SIZE);
    assert_eq!(resolve_rerank_context_size(Some("-1")), DEFAULT_RERANK_CONTEXT_SIZE);
    assert_eq!(resolve_context_size_env(Some(" 77 "), 5), 77);
    assert_eq!(resolve_expand_context_size(Some(64), Some("9")).unwrap(), 64);
    assert_eq!(resolve_expand_context_size(None, Some("9")).unwrap(), 9);
    match resolve_expand_context_size(Some(0), None) {
        Err(Error::InvalidEnvVar { var, value, reason }) => {
            assert_eq!(var, "expandContextSize (config)");
            assert_eq!(value, "0");
            assert_eq!(reason, "must be a positive integer");
        }
        other => panic!("{:?}", other),
    }
}

#[test]
fn the_gpu_is_off_where_a_setting_says_so() {
    assert_eq!(resolve_llama_gpu_mode(None, None), LlamaGpuMode::Auto);
    assert_eq!(resolve_llama_gpu_mode(Some("metal"), None), LlamaGpuMode::Auto);
    for off in ["false", "OFF", " none ", "Disable", "disabled", "0"] {
        assert_eq!(resolve_llama_gpu_mode(Some(off), None), LlamaGpuMode::Off, "{}", off);
        assert_eq!(resolve_llama_gpu_mode(None, Some(off)), LlamaGpuMode::Auto, "{}", off);
    }
    assert_eq!(resolve_llama_gpu_mode(Some("cuda"), Some("1")), LlamaGpuMode::Off);
    assert_eq!(gpu_layers(LlamaGpuMode::Off), 0);
    assert_eq!(gpu_layers(LlamaGpuMode::Auto), 1000);
}

#[test]
fn parallelism_is_bounded() {
    assert_eq!(resolve_parallelism_override(None), None);
    assert_eq!(resolve_parallelism_override(Some("")), None);
    assert_eq!(resolve_parallelism_override(Some("3")), Some(3));
    assert_eq!(resolve_parallelism_override(Some("99")), Some(8));
    let opts = |env_value, computed, serialize_windows_cuda| ParallelismOptions {
        env_value,
        computed,
        serialize_windows_cuda,
    };
    assert_eq!(resolve_safe_parallelism(opts(None, 2, false)), 2);
    assert_eq!(resolve_safe_parallelism(opts(None, 0, false)), 1);
    assert_eq!(resolve_safe_parallelism(opts(None, 4, true)), 1);
    assert_eq!(resolve_safe_parallelism(opts(Some("5"), 4, true)), 5);
    assert!(windows_cuda_serialization_required(true, true));
    assert!(!windows_cuda_serialization_required(true, false));
}

#[test]
fn variables_carry_the_prefix_of_the_program() {
    assert_eq!(env_keys::EMBED_MODEL, "RQMD_EMBED_MODEL");
    assert_eq!(env_keys::EXPAND_TOP_K, "RQMD_EXPAND_TOP_K");
}

#[test]
fn gpu_settings_that_do_nothing_are_warned_of() {
    for quiet in [None, Some(""), Some("  "), Some("AUTO"), Some(" off "), Some("0")] {
        assert_eq!(gpu_setting_warning(quiet, None), None);
    }
    assert_eq!(gpu_setting_warning(Some("metal"), Some("1")), None);
    assert_eq!(
        gpu_setting_warning(Some(" CUDA"), Some("off")).as_deref(),
        Some("RQMD_LLAMA_GPU=\" CUDA\" requests runtime backend selection, but llama-cpp-2 chooses backends at compile time. Rebuild with `cargo --features rqmd-core/cuda` instead. Treating this as `auto`.")
    );
    assert!(gpu_setting_warning(Some("vul\u{212A}an"), None).unwrap().contains("rqmd-core/vulkan`"));
    assert_eq!(
        gpu_setting_warning(Some("fast"), None).as_deref(),
        Some("invalid RQMD_LLAMA_GPU=\"fast\"; falling back to auto")
    );
}

#[test]
fn numbers_that_do_not_read_are_warned_of() {
    assert_eq!(parallelism_warning(None), None);
    assert_eq!(parallelism_warning(Some(" ")), None);
    assert_eq!(parallelism_warning(Some("99")), None);
    assert_eq!(
        parallelism_warning(Some("zero")).as_deref(),
        Some("invalid RQMD_EMBED_PARALLELISM=\"zero\", using automatic parallelism")
    );
    assert_eq!(context_size_warning("V", Some(" 7 "), 5), None);
    assert_eq!(context_size_warning("V", Some(""), 5), None);
    assert_eq!(
        context_size_warning("V", Some(" 0"), 5).as_deref(),
        Some("invalid V=\" 0\", using default 5")
    );
    assert_eq!(expand_top_k_warning(Some(1), Some("x")), None);
    assert_eq!(expand_top_k_warning(None, Some("-3")), None);
    assert_eq!(
        expand_top_k_warning(None, Some("x")).as_deref(),
        Some("invalid RQMD_EXPAND_TOP_K=\"x\", using default")
    );
    let parsed: Option<f32> = "warm".parse().ok();
    assert_eq!(
        numeric_env_warning(&None, env_keys::EXPAND_TEMP, Some("warm"), &parsed).as_deref(),
        Some("invalid RQMD_EXPAND_TEMP=\"warm\", using default")
    );
}
