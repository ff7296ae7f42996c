use rqmd::db::{probe_sqlite_vec, register_sqlite_vec, registration, SQLITE_OK};
use rqmd::doctor::{
    adoption_outcome, chunk_at, collect_device_info,
    collect_environment_overrides, collect_legacy_pending, collect_model_cache, device_mode,
    device_probe_skipped, doctor_report, doctor_timeout_secs, env_value_for_display, hash_seq, judge_adoption, lookup,
    model_roles, run_vector_sample_check, sample_failure, sample_gate, Adoption, AdoptionAction,
    AdoptionEvent, ChunkRef, DeviceInfo, DoctorFacts, EnvVar,
    ModelInspection, NearestVector, SampleOutcome, SampleRun, VectorSampleStatus,
    SAMPLE_LIMIT, VECTOR_MATCH_THRESHOLD_BITS,
};
use rqmd::collections::sanitize_index_name;
use rqmd::llm::config::ResolvedModels;
use rqmd::llm::format::embedding_fingerprint;
use rqmd::llm::types::ModelResolutionConfig;
use rqmd::paths::{
    cache_dir, config_dir, config_file_path, default_model_cache_dir, rqmd_homedir, EnvDir,
};
use rqmd::rqmd_store::{
    check_rename, config_source, default_collection_names, new_collection, plan_search,
    select_collections, vector_limit, AddCollectionOptions, ConfigSource, ReindexCounts,
    RqmdStoreOptions, SearchOptions, SearchRequest, StoreCollection, UpdateOptions, UpdateResult,
};
use rqmd::state::{existing_config, llama_config, models_config, IndexState, LocalIndex, Place};
use rqmd::store_ops::{ExpandedQuery, ExpandedQueryType};

fn strings(v: &[&str]) -> Vec<String> {
    v.iter().map(|s| s.to_string()).collect()
}

// The chosen index.

type State = IndexState<String, u8, u16, u32>;

#[test]
fn set_index_name_switches_and_resets_lazy_handles() {
    let mut state: State = IndexState::new(
        None,
        Some(LocalIndex {
            config_path: "/tmp/local.yml".to_string(),
            db_path: "/tmp/local.sqlite".to_string(),
        }),
    );
    assert_eq!(state.index_name(), "index");
    assert!(state.is_local());
    state.keep_store(1);
    state.keep_config(2);

    state.set_index_name("release-notes");

    assert_eq!(state.index_name(), "release-notes");
    assert!(!state.is_local());
    assert!(state.store().is_none());
    assert!(state.config().is_none());
}

#[test]
fn a_named_index_wins_over_a_local_one() {
    let local = LocalIndex { config_path: "c".to_string(), db_path: "d".to_string() };
    let state: State = IndexState::new(Some("work"), Some(local.clone()));
    assert!(matches!(state.db_path(), Place::ByName(n) if n == "work"));
    let state: State = IndexState::new(None, Some(local));
    assert!(matches!(state.db_path(), Place::Given(p) if p == "d"));
    assert!(matches!(state.config_path(), Place::Given(p) if p == "c"));
    let state: State = IndexState::new(None, None);
    assert!(matches!(state.config_path(), Place::ByName(n) if n == "index"));
}

#[test]
fn what_was_opened_is_kept_until_it_is_let_go() {
    let mut state: State = IndexState::new(None, None);
    state.keep_config(1);
    state.keep_config(2);
    assert_eq!(state.config(), Some(&1));
    state.forget_config();
    assert_eq!(state.config(), None);
    state.keep_llama_cpp(5);
    state.keep_llama_cpp(6);
    assert_eq!(state.llama_cpp(), Some(&5));
    state.set_index_name("x");
    assert_eq!(state.close(), Some(5));
    let unused: State = IndexState::new(None, None);
    assert_eq!(unused.close(), None);
    assert_eq!(existing_config("p", true), Some("p"));
    assert_eq!(existing_config("p", false), None);
}

#[test]
fn configured_models_are_handed_on() {
    let m = ModelResolutionConfig { embed: Some("e".to_string()), ..Default::default() };
    let c = llama_config(models_config(Some(&m)), Some("yes"));
    assert_eq!(c.embed_model.as_deref(), Some("e"));
    assert!(c.generate_model.is_none() && c.ci_mode);
    assert!(models_config(None).embed.is_none());
}

// Paths.

fn dir(value: &str) -> Option<EnvDir<&str>> {
    Some(EnvDir { value, empty: value.is_empty() })
}

#[test]
fn directories_are_chosen_in_order() {
    assert_eq!(rqmd_homedir(dir("/h"), dir("/u"), Some("/s"), "/tmp"), "/h");
    assert_eq!(rqmd_homedir(dir(""), dir("/u"), Some("/s"), "/tmp"), "/u");
    assert_eq!(rqmd_homedir(None, dir(""), Some("/s"), "/tmp"), "/s");
    assert_eq!(rqmd_homedir(None, None, None, "/tmp"), "/tmp");
    let d = config_dir(dir("/own"), dir("/xdg"), "/h");
    assert_eq!((d.base, d.names.len()), ("/own", 0));
    let d = config_dir(dir(""), dir("/xdg"), "/h");
    assert_eq!((d.base, d.names), ("/xdg", strings(&["rqmd"])));
    let d = cache_dir(None, None, "/h");
    assert_eq!((d.base, d.names), ("/h", strings(&[".cache", "rqmd"])));
    let d = config_file_path(None, None, "/h", "work");
    assert_eq!(d.names, strings(&[".config", "rqmd", "work.yml"]));
    let d = default_model_cache_dir(dir(""), Some("/c"), Some("/h")).unwrap();
    assert_eq!((d.base, d.names), ("/c", strings(&["qmd", "models"])));
    let d = default_model_cache_dir(None, None, Some("/h")).unwrap();
    assert_eq!((d.base, d.names), ("/h", strings(&[".cache", "qmd", "models"])));
    assert!(default_model_cache_dir::<&str>(None, None, None).is_none());
}

// The store.

fn search() -> SearchOptions {
    SearchOptions {
        query: None,
        queries: None,
        intent: None,
        rerank: None,
        collection: None,
        collections: None,
        limit: Some(4),
        candidate_limit: None,
        min_score_bits: None,
        explain: false,
        chunk_strategy: None,
    }
}

#[test]
fn a_search_needs_a_query() {
    let e = plan_search(search()).unwrap_err();
    assert_eq!(e.message(), "search requires either 'query' or 'queries'");
}

#[test]
fn typed_queries_go_first_and_collections_are_put_together() {
    let o = SearchOptions {
        query: Some("plain".to_string()),
        queries: Some(vec![ExpandedQuery {
            type_: ExpandedQueryType::Lex,
            query: "typed".to_string(),
            line: None,
        }]),
        collection: Some("a".to_string()),
        collections: Some(strings(&["b", "c"])),
        rerank: Some(false),
        ..search()
    };
    match plan_search(o).unwrap() {
        SearchRequest::Structured { queries, collections, limits } => {
            assert_eq!(queries[0].query, "typed");
            assert_eq!(collections.unwrap(), strings(&["a", "b", "c"]));
            assert!(limits.skip_rerank);
            assert_eq!(limits.limit, Some(4));
        }
        other => panic!("{:?}", other),
    }
    let o = SearchOptions {
        query: Some("plain".to_string()),
        collections: Some(strings(&["b", "c"])),
        ..search()
    };
    match plan_search(o).unwrap() {
        SearchRequest::Hybrid { query, collection, limits } => {
            assert_eq!(query, "plain");
            assert_eq!(collection.as_deref(), Some("b"));
            assert!(!limits.skip_rerank);
        }
        other => panic!("{:?}", other),
    }
    assert_eq!(vector_limit(None), 10);
    assert_eq!(vector_limit(Some(3)), 3);
}

#[test]
fn a_configuration_comes_from_one_place() {
    let opts = |config_path: Option<&'static str>, config: Option<u8>| RqmdStoreOptions {
        db_path: "db",
        config_path,
        config,
    };
    let e = config_source(opts(Some("f"), Some(1))).unwrap_err();
    assert_eq!(e.message(), "invalid options: provide either config_path or config, not both");
    assert!(matches!(config_source(opts(Some("f"), None)), Ok(ConfigSource::File("f"))));
    assert!(matches!(config_source(opts(None, Some(1))), Ok(ConfigSource::Inline(1))));
    assert!(matches!(config_source(opts(None, None)), Ok(ConfigSource::Nothing)));
}

fn stored(name: &str, include_by_default: bool) -> StoreCollection {
    StoreCollection {
        name: name.to_string(),
        path: "/p".to_string(),
        pattern: "*".to_string(),
        ignore: None,
        include_by_default,
    }
}

#[test]
fn collections_are_added_renamed_and_chosen() {
    let opts = AddCollectionOptions { path: "/p".to_string(), pattern: None, ignore: None };
    let c = new_collection("n", opts, "**/*.md");
    assert_eq!((c.name.as_str(), c.pattern.as_str()), ("n", "**/*.md"));
    assert!(check_rename("x", false).is_ok());
    assert_eq!(check_rename("x", true).unwrap_err().name, "x");
    let all = vec![stored("a", true), stored("b", false), stored("c", true)];
    assert_eq!(default_collection_names(&all), strings(&["a", "c"]));
    let some = UpdateOptions { collections: Some(strings(&["c", "b", "z"])) };
    let chosen: Vec<String> =
        select_collections(all, &some).into_iter().map(|c| c.name).collect();
    assert_eq!(chosen, strings(&["b", "c"]));
    let all = vec![stored("a", true), stored("b", false)];
    assert_eq!(select_collections(all, &UpdateOptions { collections: None }).len(), 2);
}

#[test]
fn updates_add_up() {
    let mut r = UpdateResult::begin(2);
    r.record(&ReindexCounts { indexed: 1, updated: 2, unchanged: 3, removed: 4 });
    r.record(&ReindexCounts { indexed: 10, updated: 20, unchanged: 30, removed: 40 });
    let r = r.finish(9);
    let counts = [
        ReindexCounts { indexed: 1, updated: 2, unchanged: 3, removed: 4 },
        ReindexCounts { indexed: 10, updated: 20, unchanged: 30, removed: 40 },
    ];
    assert_eq!(UpdateResult::of(&counts, 9), r);
    assert_eq!(
        r,
        UpdateResult {
            collections: 2,
            indexed: 11,
            updated: 22,
            unchanged: 33,
            removed: 44,
            needs_embedding: 9
        }
    );
}

// The database.

#[test]
fn the_vector_extension_has_to_answer() {
    assert!(probe_sqlite_vec(Ok("v0.1".to_string())).is_ok());
    let e = probe_sqlite_vec(Ok(String::new())).unwrap_err();
    assert_eq!(
        e.message(),
        "sqlite-vec extension unavailable: vec_version() returned empty string"
    );
    assert_eq!(probe_sqlite_vec(Err("no such function".to_string())).unwrap_err().reason, "no such function");
    let kept = registration(SQLITE_OK);
    assert!(register_sqlite_vec(&kept).is_ok() && register_sqlite_vec(&kept).is_ok());
    let kept = registration(-7);
    assert_eq!(
        register_sqlite_vec(&kept).unwrap_err().reason,
        "sqlite3_auto_extension returned -7"
    );
}

// The health report.

fn var(name: &str, value: &str) -> EnvVar {
    EnvVar { name: name.to_string(), value: value.to_string() }
}

fn models(embed: &str, generate: &str, rerank: &str) -> ResolvedModels {
    ResolvedModels {
        embed: embed.to_string(),
        generate: generate.to_string(),
        rerank: rerank.to_string(),
    }
}

#[test]
fn set_variables_are_reported_in_order() {
    let env = vec![
        var("CI", "true"),
        var("RQMD_EMBED_MODEL", " other "),
        var("RQMD_GENERATE_MODEL", "gen"),
        var("RQMD_INDEX_PATH", "/idx"),
        var("RQMD_FORCE_CPU", "   "),
        var("UNRELATED", "x"),
    ];
    let configured =
        Some(ModelResolutionConfig { embed: Some("mine".to_string()), ..Default::default() });
    let out = collect_environment_overrides(&models("mine", "gen", "r"), &configured, &env);
    let names: Vec<&str> = out.iter().map(|o| o.name.as_str()).collect();
    assert_eq!(names, vec!["RQMD_INDEX_PATH", "RQMD_EMBED_MODEL", "RQMD_GENERATE_MODEL", "CI"]);
    assert_eq!(out[1].value, "other");
    assert_eq!(
        out[1].consequence,
        "set but ignored because index models.embed is configured as mine"
    );
    assert_eq!(
        out[2].consequence,
        "sets the active generate model to gen; changes embedding/search semantics and may require `rqmd pull` plus `rqmd embed`"
    );
    assert_eq!(lookup(&env, "CI"), Some("true"));
    assert_eq!(lookup(&env, "ci"), None);
}

#[test]
fn long_values_are_cut() {
    let s = "é".repeat(96);
    assert_eq!(env_value_for_display(&s), s);
    assert_eq!(env_value_for_display(&"é".repeat(97)), format!("{}...", "é".repeat(93)));
}

#[test]
fn the_device_mode_is_told() {
    assert_eq!(device_mode(None, None), "auto");
    assert_eq!(device_mode(Some("off"), Some(" cuda ")), "cuda");
    assert_eq!(device_mode(Some("1"), Some("cuda")), "CPU forced (RQMD_FORCE_CPU)");
    for word in ["0", "False", " off ", "no", "SKIP"] {
        assert!(device_probe_skipped(Some(word)), "{}", word);
    }
    assert!(!device_probe_skipped(Some("1")) && !device_probe_skipped(None));
}

fn device(name: &str) -> DeviceInfo {
    DeviceInfo {
        device_type: "gpu".to_string(),
        backend: "b".to_string(),
        name: name.to_string(),
        description: String::new(),
        memory_total: 1,
        memory_free: 1,
    }
}

#[test]
fn devices_are_probed_unless_that_is_skipped() {
    let r = collect_device_info(None, None, Some("off"), Ok(vec![device("x")]));
    assert!(r.device_probe_skipped && r.devices.is_empty());
    let r = collect_device_info(None, None, None, Ok(vec![device("x")]));
    assert_eq!(r.devices[0].name, "x");
    let r = collect_device_info(None, None, None, Err("broken".to_string()));
    assert_eq!(r.device_probe_error.as_deref(), Some("broken"));
}

fn inspection(path: Option<&str>) -> ModelInspection {
    ModelInspection { path: path.map(String::from), invalid: vec![] }
}

#[test]
fn each_model_is_listed_once_with_its_uses() {
    let roles = model_roles(&models("a", "b", "a"));
    assert_eq!(roles.len(), 2);
    assert!(roles[0].used_for_embed && roles[0].used_for_rerank && !roles[0].used_for_generate);
    assert!(roles[1].used_for_generate && !roles[1].used_for_embed);
    assert_eq!(model_roles(&models("a", "a", "a")).len(), 1);
    assert_eq!(model_roles(&models("a", "b", "c")).len(), 3);
    let cache = collect_model_cache(
        &models("a", "b", "a"),
        vec![inspection(Some("/m")), inspection(None)],
    );
    assert_eq!(cache[0].path.as_deref(), Some("/m"));
    assert_eq!(cache[1].model_uri, "b");
}

fn chunk() -> ChunkRef {
    ChunkRef { hash: "h1".to_string(), seq: 0 }
}

fn nearest(name: &str, distance: f64) -> NearestVector {
    NearestVector {
        hash_seq: name.to_string(),
        distance_bits: distance.to_bits(),
        distance: format!("{:.6}", distance),
    }
}

#[test]
fn old_embeddings_are_adopted_where_the_sample_is_reproduced() {
    assert_eq!(VECTOR_MATCH_THRESHOLD_BITS, 0.0001f64.to_bits());
    let v = judge_adoption("h1_0", false, None);
    assert!(!v.adopt && v.reason == "failed to embed legacy sample");
    assert_eq!(f64::from_bits(v.distance_bits), f64::INFINITY);
    let v = judge_adoption("h1_0", true, None);
    assert!(!v.adopt && v.reason == "legacy sample vector not found");
    let v = judge_adoption("h1_0", true, Some(&nearest("h2_0", 0.0)));
    assert!(!v.adopt);
    assert_eq!(
        v.reason,
        "legacy sample differs from current fingerprint (nearest h2_0, distance 0.000000)"
    );
    assert!(!judge_adoption("h1_0", true, Some(&nearest("h1_0", 0.00011))).adopt);
    let v = judge_adoption("h1_0", true, Some(&nearest("h1_0", 0.0001)));
    assert!(v.adopt);
    assert_eq!(v.reason, "sample h1_0 matched current fingerprint at distance 0.000100");
    let o = adoption_outcome("m".into(), "f".into(), "h1_0".into(), v, 5);
    assert!(o.adopted && o.adopted_rows == 5);
    let v = judge_adoption("h1_0", true, Some(&nearest("h1_0", 0.0)));
    assert!(!adoption_outcome("m".into(), "f".into(), "h1_0".into(), v, 0).adopted);
    let v = judge_adoption("h1_0", true, None);
    assert_eq!(adoption_outcome("m".into(), "f".into(), "h1_0".into(), v, 5).adopted_rows, 0);
}

fn adopt(events: Vec<AdoptionEvent>) -> Adoption {
    let mut a = Adoption::begin();
    for e in events {
        a = a.answer(e);
    }
    a
}

#[test]
fn fingerprints_are_written_only_on_a_match() {
    let up_to_the_sample = || {
        vec![
            AdoptionEvent::Legacy(3),
            AdoptionEvent::Vectors(true),
            AdoptionEvent::Model(true),
            AdoptionEvent::Sample(Some(chunk())),
        ]
    };
    assert_eq!(Adoption::begin().action(), AdoptionAction::CountLegacy);
    assert_eq!(adopt(up_to_the_sample()).action(), AdoptionAction::EmbedSample);

    let mut matching = up_to_the_sample();
    matching.push(AdoptionEvent::Embedded(true));
    matching.push(AdoptionEvent::Nearest(Some(nearest("h1_0", 0.0))));
    let a = adopt(matching);
    assert_eq!(a.action(), AdoptionAction::WriteFingerprint);
    let a = a.answer(AdoptionEvent::Written(5));
    assert_eq!(a.action(), AdoptionAction::Report);
    let o = a.outcome("m".into()).unwrap();
    assert!(o.adopted);
    assert_eq!((o.adopted_rows, o.sample_hash_seq.as_str()), (5, "h1_0"));
    assert_eq!(o.fingerprint, embedding_fingerprint("m"));

    let mut other = up_to_the_sample();
    other.push(AdoptionEvent::Embedded(true));
    other.push(AdoptionEvent::Nearest(Some(nearest("h2_0", 0.0))));
    let a = adopt(other);
    assert_eq!(a.action(), AdoptionAction::Report);
    assert!(!a.outcome("m".into()).unwrap().adopted);

    let mut failed = up_to_the_sample();
    failed.push(AdoptionEvent::Embedded(false));
    let o = adopt(failed).outcome("m".into()).unwrap();
    assert_eq!(o.reason, "failed to embed legacy sample");
    assert_eq!(f64::from_bits(o.sample_distance_bits), f64::INFINITY);
}

#[test]
fn nothing_is_adopted_without_old_embeddings_vectors_model_or_sample() {
    let nothing = |events: Vec<AdoptionEvent>| {
        adopt(events).outcome("m".to_string()).is_none()
    };
    assert!(nothing(vec![AdoptionEvent::Legacy(0)]));
    assert!(nothing(vec![AdoptionEvent::Legacy(1), AdoptionEvent::Vectors(false)]));
    assert!(nothing(vec![
        AdoptionEvent::Legacy(1),
        AdoptionEvent::Vectors(true),
        AdoptionEvent::Model(false)
    ]));
    assert!(nothing(vec![
        AdoptionEvent::Legacy(1),
        AdoptionEvent::Vectors(true),
        AdoptionEvent::Model(true),
        AdoptionEvent::Sample(None)
    ]));
}

#[test]
fn stored_embeddings_are_checked_sample_by_sample() {
    let samples = vec![chunk(), ChunkRef { hash: "h2".to_string(), seq: 4 }];
    let outcomes = vec![
        SampleOutcome::Compared { distance_bits: 0, distance: "0.000000".to_string() },
        SampleOutcome::StoredMissing,
    ];
    let c = run_vector_sample_check("m".into(), "f".into(), 1, true, true, &samples, &outcomes);
    assert_eq!(c.threshold_bits, VECTOR_MATCH_THRESHOLD_BITS);
    match c.status {
        VectorSampleStatus::Sampled { sampled, passed, failures } => {
            assert_eq!((sampled, passed, failures.len()), (2, 1, 1));
            assert_eq!(failures[0].hash_seq, "h2_4");
            assert_eq!(failures[0].reason, "stored vector missing");
        }
        other => panic!("{:?}", other),
    }
    let c = run_vector_sample_check("m".into(), "f".into(), 1, true, false, &samples, &outcomes);
    assert!(matches!(c.status, VectorSampleStatus::ModelNotCached));
    let c = run_vector_sample_check("m".into(), "f".into(), 1, true, true, &[], &[]);
    assert!(matches!(c.status, VectorSampleStatus::NoCurrentChunks));
}

#[test]
fn pending_adoptions_are_reported() {
    assert!(collect_legacy_pending("m", 0, None, true, true).is_none());
    let p = collect_legacy_pending("m", 2, Some(&chunk()), true, false).unwrap();
    assert_eq!(p.sample_hash_seq.as_deref(), Some("h1_0"));
    assert!(!p.adoption_possible);
    assert_eq!(hash_seq(&ChunkRef { hash: "x".to_string(), seq: -1 }), "x_-1");
    assert_eq!(chunk_at(&['a', 'b'], 1), Some(&'b'));
    assert_eq!(chunk_at(&['a', 'b'], 2), None);
    assert_eq!(chunk_at(&['a', 'b'], -1), None);
}

#[test]
fn samples_pass_or_tell_why_not() {
    assert!(matches!(sample_gate(0, false, false, 0), Some(VectorSampleStatus::NoActiveDocuments)));
    assert!(matches!(sample_gate(1, false, false, 0), Some(VectorSampleStatus::NoVectorTable)));
    assert!(matches!(sample_gate(1, true, false, 0), Some(VectorSampleStatus::ModelNotCached)));
    assert!(matches!(sample_gate(1, true, true, 0), Some(VectorSampleStatus::NoCurrentChunks)));
    assert!(sample_gate(1, true, true, 1).is_none());
    let compared = |d: f64| SampleOutcome::Compared {
        distance_bits: d.to_bits(),
        distance: format!("{:.6}", d),
    };
    assert_eq!(sample_failure(&compared(0.5)).as_deref(), Some("stored vector distance 0.500000"));
    assert_eq!(sample_failure(&compared(f64::NAN)), None);
    let mut run = SampleRun::new();
    run.record(&chunk(), &compared(0.0));
    run.record(&chunk(), &SampleOutcome::ChunkMissing);
    run.record(&chunk(), &SampleOutcome::EmbedFailed);
    run.record(&chunk(), &SampleOutcome::StoredMissing);
    match run.finish() {
        VectorSampleStatus::Sampled { sampled, passed, failures } => {
            assert_eq!((sampled, passed), (4, 1));
            let why: Vec<&str> = failures.iter().map(|f| f.reason.as_str()).collect();
            assert_eq!(
                why,
                vec!["chunk no longer exists", "embedding failed", "stored vector missing"]
            );
            assert_eq!(failures[0].hash_seq, "h1_0");
        }
        other => panic!("{:?}", other),
    }
}

fn facts(vec_table: bool, cached: bool, active: i64) -> DoctorFacts<u8> {
    DoctorFacts {
        db_path: "/db".to_string(),
        sqlite_version: "3".to_string(),
        vec_version: None,
        collection_count: None,
        configured: None,
        resolved: models("e", "g", "e"),
        inspections: vec![
            inspection(if cached { Some("/m") } else { None }),
            inspection(None),
        ],
        probe: Err("no".to_string()),
        cpu_cores: 4,
        needs_embedding: 5,
        fingerprint_groups: vec![1, 2],
        vec_table,
        legacy: 1,
        legacy_sample: Some(chunk()),
        active_documents: active,
        sampled: VectorSampleStatus::NoCurrentChunks,
    }
}

#[test]
fn the_report_is_put_together() {
    let env = vec![var("RQMD_LLAMA_GPU", "metal"), var("RQMD_DOCTOR_DEVICE_PROBE", "0")];
    let r = doctor_report(facts(true, true, 3), &env);
    assert_eq!(r.collection_count, 0);
    assert_eq!(r.device.device_mode, "metal");
    assert!(r.device.device_probe_skipped && r.device.device_probe_error.is_none());
    assert_eq!(r.model_cache.len(), 2);
    assert_eq!(r.env_overrides.len(), 2);
    assert!(r.legacy_pending.unwrap().adoption_possible);
    assert!(matches!(r.vector_sample.status, VectorSampleStatus::NoCurrentChunks));
    assert_eq!(r.active_embed_model, "e");
    assert_eq!(r.active_embed_fingerprint, embedding_fingerprint("e"));
    assert_eq!(r.vector_sample.fingerprint, embedding_fingerprint("e"));
    let r = doctor_report(facts(false, true, 3), &[]);
    assert!(matches!(r.vector_sample.status, VectorSampleStatus::NoVectorTable));
    assert_eq!(r.device.device_probe_error.as_deref(), Some("no"));
    let r = doctor_report(facts(true, false, 3), &[]);
    assert!(matches!(r.vector_sample.status, VectorSampleStatus::ModelNotCached));
    let r = doctor_report(facts(false, false, 0), &[]);
    assert!(matches!(r.vector_sample.status, VectorSampleStatus::NoActiveDocuments));
}

#[test]
fn set_index_name_sanitizes_path_like_names() {
    let mut state: State = IndexState::new(None, None);
    state.set_index_name("a/b");
    assert!(!state.index_name().contains('/'));
}

#[test]
fn names_without_a_separator_are_kept() {
    assert_eq!(sanitize_index_name("release-notes"), "release-notes");
    assert_eq!(sanitize_index_name(""), "");
    assert_eq!(sanitize_index_name("/a/é"), "_a_é");
}

#[test]
fn every_expansion_setting_is_reported() {
    for (name, value) in [
        ("RQMD_EXPAND_USER_MESSAGE_PREFIX", "Expand:"),
        ("RQMD_EXPAND_SYSTEM_MESSAGE", "Be brief"),
        ("RQMD_EXPAND_FALLBACK_HYDE_TEMPLATE", "About {query}"),
        ("RQMD_EXPAND_TEMP", "0.5"),
        ("RQMD_EXPAND_TOP_K", "10"),
        ("RQMD_EXPAND_TOP_P", "0.9"),
    ] {
        let env = [EnvVar { name: name.to_string(), value: value.to_string() }];
        let out = collect_environment_overrides(&models("e", "g", "r"), &None, &env);
        assert_eq!(out.len(), 1);
        assert_eq!((out[0].name.as_str(), out[0].value.as_str()), (name, value));
        assert!(!out[0].consequence.is_empty());
    }
}

#[test]
fn no_more_than_three_samples_are_looked_at() {
    assert_eq!(SAMPLE_LIMIT, 3);
    let samples = vec![chunk(); 5];
    let outcomes = vec![SampleOutcome::EmbedFailed; 5];
    let c = run_vector_sample_check("m".into(), "f".into(), 1, true, true, &samples, &outcomes);
    match c.status {
        VectorSampleStatus::Sampled { sampled, passed, failures } => {
            assert_eq!((sampled, passed, failures.len()), (3, 0, 3));
        }
        other => panic!("{:?}", other),
    }
}

#[test]
fn the_report_has_ten_minutes_where_nothing_is_said() {
    assert_eq!(doctor_timeout_secs(None), 600);
    assert_eq!(doctor_timeout_secs(Some(5)), 5);
}
