use rqmd::cli::{
    ChunkStrategyArg, EmbedArgs, FormatFlags, McpAction, McpArgs, QueryArgs, SearchArgs,
    SearchFlags, VsearchArgs,
};
use rqmd::collections::Collection;
use rqmd::color::Palette;
use rqmd::commands::cleanup::{cleanup_report, CleanupCounts};
use rqmd::commands::embed::{
    batch_bytes, force_text, head_text, plan_embed, precheck, progress_begin, progress_end,
    progress_text, render_progress_bar, summary_text, unlisted_failures, EmbedArgError,
    EmbedFailure, EmbedProgress, EmbedResult, ProgressCells,
};
use rqmd::commands::get::{
    first_line, lookup_input, not_found_message, show_document, slice_lines, strip_line_suffix,
    PathForm, VirtualPath,
};
use rqmd::commands::ls::{
    check_collection, list_collections, list_files, longest_prefix_match, resolve_collection_arg,
    CollectionListing, FileRow, ListTarget,
};
use rqmd::commands::mcp::{
    already_running_message, daemon_args, mcp_mode, read_pid, running_daemon_pid, start_step,
    started_message, stop_message, stop_step, McpMode, StartStep, StopStep, DEFAULT_HTTP_PORT,
};
use rqmd::commands::pull::{models_to_pull, pull_head, pull_report, PulledModel};
use rqmd::commands::query::{
    expanded_text, explain_summary, plan_query, query_event_text, query_output,
    structured_summary, ExplainSummaryRow, QueryOutput, SearchEvent,
};
use rqmd::commands::search::{link_index, plan_search, select_results};
use rqmd::commands::status::{
    collections_without_context, collections_without_update, context_preview, path_display,
    status_text, CollectionStatus, ContextEntry, GrammarStatus, StatusData,
};
use rqmd::commands::vsearch::{
    plan_vsearch, result_limit, vsearch_event_text, DEFAULT_MIN_SCORE_BITS,
};
use rqmd::llm::config::ResolvedModels;
use rqmd::output::OutputFormat;
use rqmd::store::{DocumentResult, HitScore, SearchResult};
use rqmd::store_ops::{ChunkStrategy, ExpandedQuery, ExpandedQueryType};

const PLAIN: Palette = Palette { enabled: false };
const COLOUR: Palette = Palette { enabled: true };

fn strings(v: &[&str]) -> Vec<String> {
    v.iter().map(|s| s.to_string()).collect()
}

#[test]
fn colours_are_on_only_on_a_terminal_that_wants_them() {
    assert!(Palette::new(false, false, true).enabled);
    assert!(!Palette::new(true, false, true).enabled);
    assert!(!Palette::new(false, true, true).enabled);
    assert!(!Palette::new(false, false, false).enabled);
    assert_eq!(COLOUR.green(), "\x1b[32m");
    assert_eq!(COLOUR.reset(), "\x1b[0m");
    assert_eq!(PLAIN.bold(), "");
}

// get

#[test]
fn a_line_suffix_is_split_off() {
    assert_eq!(strip_line_suffix("a/b.md:12"), ("a/b.md".to_string(), Some(12)));
    assert_eq!(strip_line_suffix("a/b.md:"), ("a/b.md:".to_string(), None));
    assert_eq!(strip_line_suffix("a:b.md"), ("a:b.md".to_string(), None));
    assert_eq!(strip_line_suffix("qmd://c/p.md"), ("qmd://c/p.md".to_string(), None));
    assert_eq!(strip_line_suffix("x:+3"), ("x:+3".to_string(), None));
    assert_eq!(
        strip_line_suffix("x:99999999999999999999999"),
        ("x:99999999999999999999999".to_string(), None)
    );
    assert_eq!(first_line(None, Some(0)), Some(1));
    assert_eq!(first_line(Some(3), Some(9)), Some(3));
    assert_eq!(first_line(None, None), None);
}

#[test]
fn lookups_drop_the_index_of_a_link() {
    let form = PathForm::Virtual(VirtualPath {
        collection: "docs".to_string(),
        path: "a.md".to_string(),
        index_name: Some("work".to_string()),
    });
    assert_eq!(
        lookup_input("qmd://docs/a.md?index=work", &form),
        ("qmd://docs/a.md".to_string(), Some("work".to_string()))
    );
    assert_eq!(lookup_input("docs/a.md", &PathForm::Plain), ("docs/a.md".to_string(), None));
    assert_eq!(lookup_input("qmd://", &PathForm::Malformed), ("qmd://".to_string(), None));
}

#[test]
fn bodies_are_sliced_by_lines() {
    let body = "one\ntwo\nthree\nfour";
    assert_eq!(slice_lines(body, None, None), body);
    assert_eq!(slice_lines(body, Some(2), None), "two\nthree\nfour");
    assert_eq!(slice_lines(body, Some(2), Some(2)), "two\nthree");
    assert_eq!(slice_lines(body, None, Some(1)), "one");
    assert_eq!(slice_lines(body, Some(4), Some(9)), "four");
    assert_eq!(slice_lines(body, Some(5), None), "");
    assert_eq!(slice_lines(body, Some(usize::MAX), Some(usize::MAX)), "");
    assert_eq!(slice_lines(body, Some(1), None), body);
}

fn document(context: Option<&str>) -> DocumentResult {
    DocumentResult {
        filepath: "qmd://docs/a.md".to_string(),
        display_path: "docs/a.md".to_string(),
        title: "A".to_string(),
        context: context.map(String::from),
        hash: "h".to_string(),
        docid: "d".to_string(),
        collection_name: "docs".to_string(),
        modified_at: String::new(),
        body_length: 7,
        body: Some("one\ntwo".to_string()),
    }
}

#[test]
fn a_document_is_shown_with_its_context() {
    assert_eq!(show_document(&document(None), None, None, false), "one\ntwo\n");
    assert_eq!(
        show_document(&document(Some("ctx")), Some(2), None, true),
        "Folder Context: ctx\n---\n\n2: two\n"
    );
    assert_eq!(not_found_message("x", &[], &PLAIN), "Document not found: x");
    assert_eq!(
        not_found_message("x", &strings(&["a", "b"]), &PLAIN),
        "Document not found: x\nDid you mean:\n  a\n  b"
    );
}

// ls

fn known() -> Vec<CollectionListing> {
    vec![
        CollectionListing { name: "docs".to_string(), active_count: 3 },
        CollectionListing { name: "docs/api".to_string(), active_count: 1 },
    ]
}

#[test]
fn the_longest_collection_wins() {
    assert_eq!(longest_prefix_match("docs/api/x", &known()).as_deref(), Some("docs/api"));
    assert_eq!(longest_prefix_match("docs/other", &known()).as_deref(), Some("docs"));
    assert_eq!(longest_prefix_match("docs", &known()).as_deref(), Some("docs"));
    assert_eq!(longest_prefix_match("docsx", &known()), None);
}

#[test]
fn a_listing_names_a_collection_and_a_prefix() {
    let t = resolve_collection_arg("docs/api/v1", &PathForm::Plain, &known()).unwrap();
    assert_eq!((t.collection.as_str(), t.prefix.as_deref()), ("docs", Some("api/v1")));
    let t = resolve_collection_arg("/docs/api/v1/", &PathForm::Plain, &known()).unwrap();
    assert_eq!((t.collection.as_str(), t.prefix.as_deref()), ("docs/api", Some("v1")));
    let t = resolve_collection_arg("/other/x", &PathForm::Plain, &known()).unwrap();
    assert_eq!((t.collection.as_str(), t.prefix.as_deref()), ("other/x", None));
    let t = resolve_collection_arg("docs", &PathForm::Plain, &known()).unwrap();
    assert_eq!((t.collection.as_str(), t.prefix.as_deref()), ("docs", None));
    assert!(check_collection(&t, &known()).is_ok());
    let t = ListTarget { collection: "gone".to_string(), prefix: None };
    assert!(check_collection(&t, &known()).unwrap_err().message().contains("gone"));
    let e = resolve_collection_arg("qmd://", &PathForm::Malformed, &known()).unwrap_err();
    assert!(e.message().contains("qmd://"));
}

#[test]
fn collections_and_files_are_listed() {
    let out = list_collections(&known(), &PLAIN);
    assert_eq!(
        out,
        "Collections:\n\n  qmd://docs/  (3 files)\n  qmd://docs/api/  (1 files)\n"
    );
    assert_eq!(
        list_collections(&[], &PLAIN),
        "No collections found. Run 'rqmd collection add .' to index files.\n"
    );
    let t = ListTarget { collection: "docs".to_string(), prefix: None };
    let rows = vec![FileRow {
        path: "a.md".to_string(),
        size: "10 B".to_string(),
        time: "now".to_string(),
    }];
    let out = list_files(&t, &rows, &PLAIN);
    assert!(out.contains("qmd://docs/a.md") && out.contains("10 B"), "{}", out);
}

// mcp

fn mcp(action: Option<McpAction>, http: bool, port: Option<u16>, daemon: bool) -> McpArgs {
    McpArgs { action, http, port, daemon }
}

#[test]
fn the_server_has_four_modes() {
    assert_eq!(mcp_mode(&mcp(None, false, None, false)), McpMode::Stdio);
    assert_eq!(
        mcp_mode(&mcp(None, true, None, false)),
        McpMode::Http { port: DEFAULT_HTTP_PORT }
    );
    assert_eq!(mcp_mode(&mcp(None, true, Some(9), true)), McpMode::Daemon { port: 9 });
    assert_eq!(mcp_mode(&mcp(Some(McpAction::Stop), true, None, true)), McpMode::Stop);
}

#[test]
fn a_daemon_is_started_once_and_stopped_by_its_process() {
    assert_eq!(read_pid(Some(" 42\n")), Some(42));
    assert_eq!(read_pid(Some("x")), None);
    assert_eq!(read_pid(None), None);
    assert_eq!(start_step(Some(42), true), StartStep::Refuse { pid: 42 });
    assert_eq!(start_step(Some(42), false), StartStep::CleanAndStart);
    assert_eq!(start_step(None, false), StartStep::Start);
    assert_eq!(stop_step(None, false), StopStep::NothingToStop);
    assert_eq!(stop_step(Some(42), true), StopStep::KillAndClean { pid: 42 });
    assert_eq!(stop_step(Some(42), false), StopStep::Clean);
    assert_eq!(running_daemon_pid(Some(42), true), Some(42));
    assert_eq!(running_daemon_pid(Some(42), false), None);
    assert!(already_running_message(42).contains("42"));
    assert!(started_message(8181, 42).contains("8181"));
    assert!(stop_message(StopStep::KillAndClean { pid: 42 }).contains("42"));
    let args = daemon_args("work", 8181);
    assert!(args.contains(&"--http".to_string()) && args.contains(&"8181".to_string()));
}

// cleanup and pull

#[test]
fn a_cleanup_reports_what_was_removed() {
    let c = CleanupCounts { cached_responses: 2, orphaned_vectors: 0, inactive_documents: 0 };
    assert_eq!(
        cleanup_report(&c, &PLAIN),
        "✓ Cleared 2 cached API responses\nNo orphaned embeddings to remove\n✓ Database vacuumed\n"
    );
    let c = CleanupCounts { cached_responses: 0, orphaned_vectors: 5, inactive_documents: 1 };
    let out = cleanup_report(&c, &PLAIN);
    assert!(out.contains("Removed 5 orphaned embedding chunks"));
    assert!(out.contains("Removed 1 inactive document records"));
}

#[test]
fn all_three_models_are_pulled() {
    let uris = ResolvedModels {
        embed: "e".to_string(),
        generate: "g".to_string(),
        rerank: "r".to_string(),
    };
    assert_eq!(models_to_pull(&uris), strings(&["e", "g", "r"]));
    assert_eq!(pull_head(&PLAIN), "Pulling models\n");
    let out = pull_report(
        &[PulledModel {
            model: "m".to_string(),
            path: "/p".to_string(),
            size: "1 B".to_string(),
            refreshed: true,
        }],
        &PLAIN,
    );
    assert_eq!(out, "- m -> /p (1 B, refreshed)\n");
}

// search, vsearch and query

fn flags() -> SearchFlags {
    SearchFlags {
        collection: vec![],
        limit: None,
        all: false,
        min_score_bits: None,
        full: false,
        line_numbers: false,
    }
}

fn found(name: &str, score: f64) -> SearchResult {
    let mut doc = document(None);
    doc.display_path = name.to_string();
    SearchResult {
        doc,
        score: HitScore {
            bits: score.to_bits(),
            percent: (score * 100.0).round() as i64,
            two: format!("{:.2}", score),
            four: format!("{:.4}", score),
        },
        chunk_pos: None,
    }
}

#[test]
fn a_search_keeps_good_results_up_to_the_limit() {
    let results = vec![found("a", 0.9), found("b", 0.5), found("c", 0.49), found("d", 0.8)];
    let out = select_results(results, 0.5f64.to_bits(), 2);
    let names: Vec<&str> = out.iter().map(|r| r.doc.display_path.as_str()).collect();
    assert_eq!(names, vec!["a", "b"]);
    assert_eq!(link_index("index"), None);
    assert_eq!(link_index("work"), Some("work"));
    let mut f = flags();
    f.limit = Some(3);
    let args = SearchArgs { flags: f, format: FormatFlags::default(), query: strings(&["a", "b"]) };
    let plan = plan_search(&args, &strings(&["docs"]));
    assert_eq!(plan.query, "a b");
    assert_eq!(plan.collection.as_deref(), Some("docs"));
    assert_eq!(plan.display_limit, 3);
}

#[test]
fn a_vector_search_has_defaults() {
    assert_eq!(DEFAULT_MIN_SCORE_BITS, 0.3f64.to_bits());
    let args = VsearchArgs {
        flags: flags(),
        format: FormatFlags::default(),
        intent: Some("i".to_string()),
        query: strings(&["x"]),
    };
    let plan = plan_vsearch(&args, &[]);
    assert_eq!(plan.min_score_bits, DEFAULT_MIN_SCORE_BITS);
    assert_eq!(plan.intent.as_deref(), Some("i"));
    assert_eq!(plan.limit, result_limit(&args.flags));
    let mut f = flags();
    f.limit = Some(7);
    assert_eq!(result_limit(&f), 7);
}

fn query_args(query: &str) -> QueryArgs {
    QueryArgs {
        flags: flags(),
        format: FormatFlags::default(),
        intent: None,
        candidate_limit: None,
        no_rerank: true,
        explain: false,
        chunk_strategy: Some(ChunkStrategyArg::Regex),
        query: vec![query.to_string()],
    }
}

#[test]
fn a_query_is_plain_or_structured() {
    let plan = plan_query(&query_args("plain words"), &[]).unwrap();
    assert!(plan.parsed.is_none());
    assert!(plan.skip_rerank);
    assert_eq!(plan.chunk_strategy, Some(ChunkStrategy::Regex));
    let plan = plan_query(&query_args("lex: a\nintent: b"), &[]).unwrap();
    assert_eq!(plan.parsed.unwrap().searches.len(), 1);
    assert_eq!(plan.intent.as_deref(), Some("b"));
    assert!(plan_query(&query_args("intent: b"), &[]).is_err());
    assert_eq!(query_output(OutputFormat::Json, true), QueryOutput::ExplainedJson);
    assert_eq!(
        query_output(OutputFormat::Cli, true),
        QueryOutput::Hits { explain_summary: true }
    );
    assert_eq!(
        query_output(OutputFormat::Md, true),
        QueryOutput::Hits { explain_summary: false }
    );
}

#[test]
fn progress_is_told_only_on_a_terminal() {
    let e = SearchEvent::RerankStart { count: 3 };
    assert!(query_event_text(OutputFormat::Cli, false, &e).unwrap().contains('3'));
    assert!(query_event_text(OutputFormat::Json, false, &e).is_none());
    assert!(query_event_text(OutputFormat::Cli, true, &SearchEvent::ExpandStart).is_none());
    assert!(vsearch_event_text(OutputFormat::Cli, &SearchEvent::ExpandStart).is_none());
    let q = ExpandedQuery { type_: ExpandedQueryType::Lex, query: "tok".to_string(), line: None };
    let e = SearchEvent::Expanded { original: "o".to_string(), queries: vec![q.clone()], ms: 5 };
    assert_eq!(
        vsearch_event_text(OutputFormat::Cli, &e).unwrap(),
        "Expanded \"o\" -> 1 queries (5ms)\n  [Lex] tok\n"
    );
    assert!(vsearch_event_text(OutputFormat::Csv, &e).is_none());
    let out = expanded_text("orig", &vec![q], 12);
    assert!(out.contains("orig") && out.contains("tok"), "{}", out);
    let parsed = plan_query(&query_args("lex: a\nvec: b"), &[]).unwrap().parsed.unwrap();
    let out = structured_summary(&parsed, Some("why"), OutputFormat::Cli, &PLAIN);
    assert!(out.contains("Structured search: 2 queries (lex+vec)"), "{}", out);
    assert_eq!(structured_summary(&parsed, None, OutputFormat::Json, &PLAIN), "");
    let rows = vec![ExplainSummaryRow {
        display_path: "p".to_string(),
        rrf_total: "0.100".to_string(),
        rerank: "0.200".to_string(),
        blended: "0.300".to_string(),
    }];
    assert_eq!(
        explain_summary(&rows, &PLAIN),
        "  p  rrf.total=0.100  rerank=0.200  blended=0.300\n"
    );
}

// embed

fn embed_args(collection: &[&str], docs: Option<usize>, mb: Option<usize>) -> EmbedArgs {
    EmbedArgs {
        force: false,
        max_docs_per_batch: docs,
        max_batch_mb: mb,
        chunk_strategy: None,
        collection: strings(collection),
    }
}

#[test]
fn embedding_refuses_contradictory_arguments() {
    assert!(plan_embed(&embed_args(&["a", "b"], None, Some(usize::MAX))).is_err());
    let e = plan_embed(&embed_args(&["a", "b"], Some(0), Some(0))).unwrap_err();
    assert_eq!(e, EmbedArgError::TooManyCollections(2));
    assert_eq!(e.message(), "embed accepts at most one --collection (got 2)");
    let e = plan_embed(&embed_args(&[], Some(0), Some(0))).unwrap_err();
    assert_eq!(e.message(), "maxDocsPerBatch must be a positive integer");
    let e = plan_embed(&embed_args(&[], None, Some(0))).unwrap_err();
    assert_eq!(e.message(), "maxBatchBytes must be a positive integer");
    let plan = plan_embed(&embed_args(&["a"], Some(5), Some(2))).unwrap();
    assert_eq!(plan.collection.as_deref(), Some("a"));
    assert_eq!(plan.max_batch_bytes, Some(2 * 1024 * 1024));
    assert_eq!(batch_bytes(&plan, 7), 2 * 1024 * 1024);
}

#[test]
fn embedding_tells_what_it_does() {
    assert_eq!(force_text(true, &PLAIN), "Force re-indexing: clearing all vectors...\n");
    assert_eq!(force_text(false, &PLAIN), "");
    assert_eq!(
        precheck(false, 0, &PLAIN).unwrap(),
        "✓ All content hashes already have embeddings.\n"
    );
    assert!(precheck(true, 0, &PLAIN).is_none());
    assert!(precheck(false, 1, &PLAIN).is_none());
    let plan = plan_embed(&embed_args(&[], None, None)).unwrap();
    assert_eq!(head_text(&plan, "m", 64, "64 MB", &PLAIN), "Model: m\n\n");
    let plan = plan_embed(&embed_args(&[], None, Some(1))).unwrap();
    assert_eq!(
        head_text(&plan, "m", 64, "1.0 MB", &PLAIN),
        "Model: m\n\nBatch: 64 docs / 1.0 MB\n\n"
    );
    assert_eq!(progress_begin(false), "\x1b[?25l");
    assert_eq!(progress_begin(true), "\x1b[?25l\x1b]9;4;3\x07");
    assert_eq!(progress_end(true), "\x1b]9;4;0\x07\x1b[?25h");
    assert_eq!(progress_end(false), "\x1b[?25h");
}

#[test]
fn a_bar_keeps_its_width() {
    assert_eq!(render_progress_bar(2, 5), "██░░░");
    assert_eq!(render_progress_bar(9, 3), "███");
    assert_eq!(render_progress_bar(0, 0), "");
}

#[test]
fn progress_is_one_line() {
    let ep = EmbedProgress { chunks_embedded: 4, bytes_processed: 10, total_bytes: 20, errors: 1 };
    let cells = ProgressCells {
        percent: 50,
        filled: 15,
        chunks: "4".to_string(),
        errors: "1".to_string(),
        bytes_processed: "10 B".to_string(),
        total_bytes: "20 B".to_string(),
        rate: None,
        eta: Some("3s".to_string()),
    };
    let bar = format!("{}{}", "█".repeat(15), "░".repeat(15));
    assert_eq!(
        progress_text(&ep, &cells, true, &PLAIN),
        format!(
            "\x1b]9;4;1;50\x07\r{}  50% input 4 chunks 1 err · 10 B/20 B input · .../s · ETA 3s   ",
            bar
        )
    );
    assert_eq!(progress_text(&ep, &cells, false, &PLAIN), "");
    let none = EmbedProgress { total_bytes: 0, ..ep };
    assert_eq!(progress_text(&none, &cells, true, &PLAIN), "");
}

#[test]
fn the_summary_lists_eight_failures() {
    let failures: Vec<EmbedFailure> = (0..10)
        .map(|i| EmbedFailure {
            path: format!("p{}", i),
            seq: i,
            attempts: 3,
            reason: "why".to_string(),
        })
        .collect();
    let r = EmbedResult { docs_processed: 2, chunks_embedded: 5, errors: 10, failures };
    assert_eq!(unlisted_failures(&r), 2);
    let out = summary_text(&r, "4s", "10", "2", &PLAIN);
    assert!(out.starts_with(&format!("\r{} 100%{}\n\n✓ Done!", "█".repeat(30), " ".repeat(36))));
    assert!(out.contains("Embedded 5 chunks from 2 documents in 4s\n"));
    assert!(out.contains("⚠ 10 chunks still failed after retries\n"));
    assert!(out.contains("  p7#7 (3 attempts): why\n"));
    assert!(!out.contains("p8#8"));
    assert!(out.ends_with("  ...and 2 more\n"));
    let r = EmbedResult { docs_processed: 0, chunks_embedded: 0, errors: 0, failures: vec![] };
    assert_eq!(summary_text(&r, "0s", "0", "0", &PLAIN), "✓ No non-empty documents to embed.\n");
}

// status

fn status(name: &str) -> CollectionStatus {
    CollectionStatus {
        name: name.to_string(),
        glob_pattern: "**/*.md".to_string(),
        active_count: 2,
        last_modified: None,
    }
}

fn context(collection: &str, path: &str, text: &str) -> ContextEntry {
    ContextEntry {
        collection: collection.to_string(),
        path: path.to_string(),
        context: text.to_string(),
    }
}

fn configured(name: &str, update: Option<&str>) -> Collection {
    Collection {
        name: name.to_string(),
        include_by_default: true,
        update: update.map(String::from),
    }
}

#[test]
fn paths_and_notes_are_shortened() {
    assert_eq!(path_display(""), "/");
    assert_eq!(path_display("/"), "/");
    assert_eq!(path_display("a/b"), "/a/b");
    assert_eq!(context_preview("short"), "short");
    let sixty = "x".repeat(60);
    assert_eq!(context_preview(&sixty), sixty);
    assert_eq!(context_preview(&"x".repeat(61)), format!("{}...", "x".repeat(57)));
    let wide = format!("{}é{}", "x".repeat(55), "y".repeat(10));
    assert_eq!(context_preview(&wide), format!("{}é...", "x".repeat(55)));
}

#[test]
fn the_status_shows_every_part() {
    let d = StatusData {
        db_path: "/db".to_string(),
        size: "1 KB".to_string(),
        total_docs: 2,
        vector_count: 3,
        updated: Some("1m ago".to_string()),
        collections: vec![status("a"), status("b"), status("c"), status("d"), status("e")],
        contexts: vec![
            context("b", "", "note"),
            context("x", "p", &format!("{}é{}", "x".repeat(56), "y".repeat(10))),
        ],
        grammars: vec![GrammarStatus {
            language: "rust".to_string(),
            available: false,
            error: Some("no".to_string()),
        }],
        configured: vec![configured("a", None), configured("b", Some("git pull"))],
        daemon: Some(7),
    };
    let out = status_text(&d, None, Some(" metal "), None, &PLAIN);
    assert!(out.starts_with("rqmd Status\n\nIndex: /db\nSize:  1 KB\n\nDocuments\n"));
    assert!(out.contains("  Total:    2 files indexed\n  Vectors:  3 embedded\n  Updated:  1m ago\n"));
    assert!(out.contains("\nCollections\n  a (qmd://a/)\n    Pattern:  **/*.md\n    Files:    2 (updated never)\n  b "));
    assert!(out.contains("    Contexts: 1\n      /: note\n"));
    assert!(out.contains("\nAST Grammars\n  ✗ rust\n    no\n"));
    assert!(out.contains("\nDevice\n  Mode:     metal\n  Status:   not probed (set RQMD_STATUS_DEVICE_PROBE=1"));
    assert!(out.contains("\nMCP\n  Daemon:   running (PID 7)\n"));
    assert!(out.contains("better search results: a, c, d +1 more\n"));
    assert!(out.contains("track them with git: a\n    rqmd collection update-cmd"));
    assert_eq!(
        collections_without_context(&d.collections, &d.contexts),
        strings(&["a", "c", "d", "e"])
    );
    assert_eq!(collections_without_update(&d.configured), strings(&["a"]));
    let forced = status_text(&d, Some("1"), None, Some("1"), &PLAIN);
    assert!(forced.contains("CPU forced (RQMD_FORCE_CPU)"));
    assert!(forced.contains("device probe not yet implemented"));
}

#[test]
fn an_empty_index_has_no_tips() {
    let d = StatusData {
        db_path: "/db".to_string(),
        size: "0 B".to_string(),
        total_docs: 0,
        vector_count: 0,
        updated: None,
        collections: vec![],
        contexts: vec![],
        grammars: vec![],
        configured: vec![configured("a", None)],
        daemon: None,
    };
    let out = status_text(&d, None, None, None, &PLAIN);
    assert!(out.contains("No collections. Run 'rqmd collection add .'"));
    assert!(out.contains("Daemon:   not running"));
    assert!(!out.contains("Tips"));
    assert!(out.contains("Mode:     auto"));
}
