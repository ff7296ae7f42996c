use rqmd::bench::score::{hits_within, normalize_path, paths_match, score_results};
use rqmd::bench::types::{BackendResult, BenchmarkQuery};
use rqmd::commands::bench::{
    backends, bench_collection, collect_files, compute_summary, format_report, format_table,
    make_timestamp, new_query_result, num2, num3, pad, plan_backend, record_backend, result_limit,
    score_outcome, unique_files, BackendPlan, MetricCells, SummaryCells,
};

fn strings(v: &[&str]) -> Vec<String> {
    v.iter().map(|s| s.to_string()).collect()
}

#[test]
fn unique_files_dedups_and_caps() {
    let files = strings(&["a", "b", "a", "c"]);
    assert_eq!(unique_files(files.clone(), 2), vec!["a", "b"]);
    assert_eq!(unique_files(files, 10), vec!["a", "b", "c"]);
}

#[test]
fn pad_truncates_and_fills() {
    assert_eq!(pad("abc", 5), "abc  ");
    assert_eq!(pad("abcdef", 3), "abc");
}

#[test]
fn num_formatting_matches_tofixed_padstart() {
    assert_eq!(num2(&format!("{:.2}", 1.0)), " 1.00");
    assert_eq!(num2(&format!("{:.2}", 0.5)), " 0.50");
    assert_eq!(num3(&format!("{:.3}", 1.0)), " 1.000");
    assert_eq!(num3(&format!("{:.3}", 0.333_333)), " 0.333");
}

fn value(r: rqmd::bench::score::Ratio) -> f64 {
    r.num as f64 / r.den as f64
}

#[test]
fn paths_are_compared_without_scheme_case_and_slashes() {
    assert_eq!(normalize_path("qmd://docs/A/B.md"), "a/b.md");
    assert_eq!(normalize_path("qmd://docs"), "docs");
    assert_eq!(normalize_path("/Notes/x.md/"), "notes/x.md");
    assert!(paths_match("qmd://docs/a/b.md", "a/b.md"));
    assert!(paths_match("b.md", "a/b.md"));
    assert!(!paths_match("qmd://docs/a/b.md", "a/c.md"));
}

#[test]
fn results_are_scored_against_the_expected_files() {
    let results = strings(&["qmd://docs/x.md", "qmd://docs/a.md", "qmd://docs/y.md", "b.md"]);
    let expected = strings(&["a.md", "b.md", "c.md"]);
    let m = score_results(&results, &expected, 2);
    assert_eq!(m.hits_at_k, 1);
    assert_eq!(m.matched_files, strings(&["a.md", "b.md"]));
    assert_eq!(m.unmatched_expected_files, strings(&["c.md"]));
    assert_eq!(value(m.precision_at_k), 0.5);
    assert_eq!(value(m.recall), 2.0 / 3.0);
    assert_eq!(value(m.recall_at_1), 0.0);
    assert_eq!(value(m.recall_at_3), 1.0 / 3.0);
    assert_eq!(value(m.recall_at_5), 2.0 / 3.0);
    assert_eq!(value(m.mrr), 0.5);
    let f1 = 2.0 * (0.5 * (2.0 / 3.0)) / (0.5 + 2.0 / 3.0);
    assert!((value(m.f1) - f1).abs() < 1e-12);
    assert_eq!(hits_within(&results, &expected, 4), 2);
}

#[test]
fn nothing_expected_scores_zero() {
    let m = score_results(&strings(&["a.md"]), &[], 3);
    assert_eq!(value(m.precision_at_k), 0.0);
    assert_eq!(value(m.recall), 0.0);
    assert_eq!(value(m.mrr), 0.0);
    assert_eq!(value(m.f1), 0.0);
}

#[test]
fn each_backend_has_its_plan() {
    match plan_backend("bm25", "plain words").unwrap() {
        BackendPlan::Lexical { queries, merge } => {
            assert_eq!(queries, strings(&["plain words"]));
            assert!(!merge);
        }
        other => panic!("{:?}", other),
    }
    match plan_backend("bm25", "lex: a\nlex: b\nvec: c").unwrap() {
        BackendPlan::Lexical { queries, merge } => {
            assert_eq!(queries, strings(&["a", "b"]));
            assert!(merge);
        }
        other => panic!("{:?}", other),
    }
    match plan_backend("vector", "plain").unwrap() {
        BackendPlan::Vector { queries, merge } => {
            assert_eq!(queries, strings(&["plain"]));
            assert!(!merge);
        }
        other => panic!("{:?}", other),
    }
    match plan_backend("hybrid", "plain").unwrap() {
        BackendPlan::Hybrid { skip_rerank } => assert!(skip_rerank),
        other => panic!("{:?}", other),
    }
    match plan_backend("full", "lex: a\nvec: b").unwrap() {
        BackendPlan::Structured { parsed, skip_rerank } => {
            assert_eq!(parsed.searches.len(), 2);
            assert!(!skip_rerank);
        }
        other => panic!("{:?}", other),
    }
    assert!(plan_backend("other", "q").unwrap_err().message().contains("other"));
    assert!(plan_backend("bm25", "intent: x").unwrap_err().message().contains("cannot appear alone"));
}

#[test]
fn lists_of_files_are_merged_or_kept() {
    let found = vec![strings(&["a", "b"]), strings(&["b", "c"])];
    assert_eq!(collect_files(&found, true, 10), strings(&["a", "b", "c"]));
    assert_eq!(collect_files(&found, false, 1), strings(&["a", "b", "b", "c"]));
    assert_eq!(result_limit(3), 10);
    assert_eq!(result_limit(30), 30);
    assert_eq!(bench_collection(None, Some("docs".to_string())).as_deref(), Some("docs"));
    assert_eq!(
        bench_collection(Some("x".to_string()), Some("docs".to_string())).as_deref(),
        Some("x")
    );
}

fn labelled() -> BenchmarkQuery {
    BenchmarkQuery {
        id: "q1".to_string(),
        query: "find a".to_string(),
        kind: "easy".to_string(),
        description: String::new(),
        expected_files: strings(&["a.md"]),
        expected_in_top_k: 1,
    }
}

#[test]
fn a_failed_backend_finds_nothing() {
    let q = labelled();
    let r = score_outcome(&q, None, 7);
    assert_eq!(value(r.recall), 0.0);
    assert_eq!(r.unmatched_expected_files, strings(&["a.md"]));
    let files: Vec<String> = (0..12).map(|i| format!("{}.md", i)).collect();
    let r = score_outcome(&q, Some(files), 7);
    assert_eq!(r.top_files.len(), 10);
    assert_eq!(r.latency_ms, 7);
}

#[test]
fn backends_are_kept_in_the_order_in_which_they_ran() {
    let q = labelled();
    let mut r = new_query_result(&q);
    let names = backends();
    assert_eq!(names, strings(&["bm25", "vector", "hybrid", "full"]));
    for n in names.iter().rev() {
        record_backend(&mut r, n, score_outcome(&q, Some(strings(&["a.md"])), 1));
    }
    record_backend(&mut r, "full", BackendResult::zeroed(1, 9, vec![]));
    let keys: Vec<&str> = r.backends.keys().map(|k| k.as_str()).collect();
    assert_eq!(keys, vec!["full", "hybrid", "vector", "bm25"]);
    assert_eq!(r.backends["full"].latency_ms, 9);
    let mut second = new_query_result(&q);
    record_backend(&mut second, "vector", BackendResult::zeroed(1, 2, vec![]));
    let groups = compute_summary(&[r, second]);
    let seen: Vec<(&str, Vec<usize>)> =
        groups.iter().map(|g| (g.name.as_str(), g.members.clone())).collect();
    assert_eq!(
        seen,
        vec![
            ("full", vec![0]),
            ("hybrid", vec![0]),
            ("vector", vec![0, 1]),
            ("bm25", vec![0]),
        ]
    );
}

fn cells(v: &str) -> MetricCells {
    MetricCells {
        precision_at_k: v.to_string(),
        recall_at_1: v.to_string(),
        recall_at_3: v.to_string(),
        recall_at_5: v.to_string(),
        mrr: v.to_string(),
        f1: v.to_string(),
    }
}

#[test]
fn the_report_has_a_row_for_each_backend_and_a_summary() {
    let q = labelled();
    let mut r = new_query_result(&q);
    record_backend(&mut r, "bm25", score_outcome(&q, Some(strings(&["a.md"])), 12));
    let results = vec![r];
    let table = format_table(&results, &[vec![cells("1.00")]]);
    let lines: Vec<&str> = table.split('\n').collect();
    assert!(lines[0].starts_with("Query                     Backend  P@k    R@1"));
    assert_eq!(lines[1], "-".repeat(88));
    assert_eq!(
        lines[2],
        "q1                        bm25      1.00  1.00  1.00  1.00  1.00  1.00      12ms"
    );
    assert_eq!(lines[3], "");
    let report = format_report(
        &results,
        &[vec![cells("1.00")]],
        &[SummaryCells { name: "bm25".to_string(), cells: cells("1.000"), avg_latency_ms: 12 }],
    );
    assert!(report.contains("\nSummary:\n"));
    assert!(report.contains("  bm25     P@k= 1.000 R@1= 1.000"));
    assert!(report.contains("Avg=12ms"));
}

#[test]
fn a_timestamp_has_no_colons_and_dots() {
    assert_eq!(make_timestamp("2024-01-02T03:04:05.678Z"), "2024-01-02T0304");
}

#[test]
fn a_limit_of_zero_lets_no_file_through() {
    assert!(unique_files(strings(&["a", "b"]), 0).is_empty());
    assert!(collect_files(&vec![strings(&["a"]), strings(&["b"])], true, 0).is_empty());
}
