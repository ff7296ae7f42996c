use rqmd::color::Palette;
use rqmd::output::OutputFormat;
use rqmd::search_view::{
    any_word_in, build_editor_uri, editor_uri_template, encode_path_for_editor_uri,
    fmt_explain_block, fmt_hits, fmt_hits_cli, fmt_hits_csv, fmt_hits_files, fmt_hits_md,
    fmt_hits_xml, format_score, highlight_terms, hybrid_result_to_hit, line_at_byte_offset,
    mcp_results_to_csv, query_type_str, render_content, search_result_to_hit, source_str,
    search_snippet_request, term_link, to_qmd_path, vector_result_to_hit, vector_snippet_request, wrap_ascii_ci, CliLinkCtx, Hit, McpHit,
    DEFAULT_EDITOR_URI_TEMPLATE,
};
use rqmd::store::{
    ContributionText, DocumentResult, ExplainText, HitScore, HybridQueryResult, QueryType,
    SearchResult, SearchSource, SnippetResult, VectorSearchResult,
};

fn score_of(score: f64) -> HitScore {
    HitScore {
        bits: score.to_bits(),
        percent: (score * 100.0).round() as i64,
        two: format!("{:.2}", score),
        four: format!("{:.4}", score),
    }
}

#[test]
fn line_at_byte_offset_basics() {
    assert_eq!(line_at_byte_offset("", 0), 1);
    assert_eq!(line_at_byte_offset("abc\ndef", 0), 1);
    assert_eq!(line_at_byte_offset("abc\ndef", 4), 2);
    assert_eq!(line_at_byte_offset("a\nb\nc", 4), 3);
    assert_eq!(line_at_byte_offset("日本\nabc", 7), 2);
    assert_eq!(line_at_byte_offset("a\nb", 100), 2);
}

#[allow(clippy::too_many_arguments)]
fn hit(
    docid: &str,
    display_path: &str,
    title: &str,
    context: Option<&str>,
    score: f64,
    line: usize,
    snippet: &str,
    body: Option<&str>,
) -> Hit {
    Hit {
        file: display_path.to_string(),
        display_path: display_path.to_string(),
        title: title.to_string(),
        score: score_of(score),
        line,
        context: context.map(String::from),
        snippet: snippet.to_string(),
        body: body.map(String::from),
        docid: docid.to_string(),
        abs_path: None,
        rel_path: None,
        explain: None,
    }
}

#[test]
fn render_content_picks_body_with_start_1_when_full() {
    let h = hit("a", "f", "", None, 0.0, 5, "snip", Some("L1\nL2"));
    assert_eq!(render_content(&h, false), "L1\nL2");
    assert_eq!(render_content(&h, true), "1: L1\n2: L2");
}

#[test]
fn render_content_picks_snippet_with_start_at_hit_line() {
    let h = hit("a", "f", "", None, 0.0, 7, "X\nY", None);
    assert_eq!(render_content(&h, false), "X\nY");
    assert_eq!(render_content(&h, true), "7: X\n8: Y");
}

#[test]
fn csv_header_and_basic_row() {
    let hits = vec![hit("abc123", "docs/x.md", "Title", Some("ctx"), 0.125, 3, "snip", None)];
    let s = fmt_hits_csv(&hits, false);
    let mut lines = s.lines();
    assert_eq!(lines.next(), Some("docid,score,file,title,context,line,snippet"));
    assert_eq!(lines.next(), Some("#abc123,0.1250,docs/x.md,Title,ctx,3,snip"));
    assert_eq!(lines.next(), None);
}

#[test]
fn csv_empty_emits_header_only() {
    let s = fmt_hits_csv(&[], false);
    assert_eq!(s, "docid,score,file,title,context,line,snippet");
}

#[test]
fn csv_escapes_commas_quotes_newlines() {
    let hits = vec![hit("x", "a,b.md", "T\"itle", Some("c\nd"), 0.5, 1, "s,n", None)];
    let s = fmt_hits_csv(&hits, false);
    assert!(s.contains("\"a,b.md\""));
    assert!(s.contains("\"T\"\"itle\""));
    assert!(s.contains("\"c\nd\""));
    assert!(s.contains("\"s,n\""));
}

#[test]
fn files_with_and_without_context() {
    let hits = vec![
        hit("a", "x.md", "T", None, 0.12, 1, "s", None),
        hit("b", "y.md", "T", Some("ctx\"q"), 0.34, 1, "s", None),
    ];
    let s = fmt_hits_files(&hits);
    assert_eq!(s, "#a,0.12,x.md\n#b,0.34,y.md,\"ctx\"\"q\"");
}

#[test]
fn md_with_context_has_blank_line_before_content() {
    let hits = vec![hit("a", "x.md", "Title", Some("ctx"), 0.0, 1, "BODY", None)];
    let s = fmt_hits_md(&hits, false);
    assert_eq!(s, "---\n# Title\n\n**docid:** `#a`\n**context:** ctx\n\nBODY\n");
}

#[test]
fn md_without_context_keeps_same_blank_line_above_content() {
    let hits = vec![hit("a", "x.md", "Title", None, 0.0, 1, "BODY", None)];
    let s = fmt_hits_md(&hits, false);
    assert_eq!(s, "---\n# Title\n\n**docid:** `#a`\n\nBODY\n");
}

#[test]
fn md_falls_back_to_display_path_when_title_empty() {
    let hits = vec![hit("a", "docs/x.md", "", None, 0.0, 1, "B", None)];
    let s = fmt_hits_md(&hits, false);
    assert!(s.starts_with("---\n# docs/x.md\n"));
}

#[test]
fn xml_omits_title_attr_when_title_empty() {
    let hits = vec![hit("a", "x.md", "", None, 0.0, 1, "B", None)];
    let s = fmt_hits_xml(&hits, false);
    assert_eq!(s, "<file docid=\"#a\" name=\"x.md\">\nB\n</file>");
    assert!(!s.contains("title="));
}

#[test]
fn xml_includes_title_and_context_when_present() {
    let hits = vec![hit("a", "x.md", "T<", Some("c&d"), 0.0, 1, "B>", None)];
    let s = fmt_hits_xml(&hits, false);
    assert_eq!(
        s,
        "<file docid=\"#a\" name=\"x.md\" title=\"T&lt;\" context=\"c&amp;d\">\nB&gt;\n</file>"
    );
}

#[test]
fn xml_two_hits_joined_with_blank_line() {
    let hits = vec![
        hit("a", "x.md", "", None, 0.0, 1, "B1", None),
        hit("b", "y.md", "", None, 0.0, 1, "B2", None),
    ];
    let s = fmt_hits_xml(&hits, false);
    assert_eq!(
        s,
        "<file docid=\"#a\" name=\"x.md\">\nB1\n</file>\n\n<file docid=\"#b\" name=\"y.md\">\nB2\n</file>"
    );
}

#[test]
fn full_plus_line_numbers_numbers_from_one() {
    let hits = vec![hit("a", "x.md", "", None, 0.0, 42, "snip", Some("L1\nL2"))];
    let csv_row = fmt_hits_csv(&hits, true);
    assert!(csv_row.contains("1: L1\n2: L2"), "{}", csv_row);
}

#[test]
fn snippet_plus_line_numbers_numbers_from_hit_line() {
    let hits = vec![hit("a", "x.md", "", None, 0.0, 42, "S1\nS2", None)];
    let csv_row = fmt_hits_csv(&hits, true);
    assert!(csv_row.contains("42: S1\n43: S2"), "{}", csv_row);
}

#[test]
fn empty_inputs_produce_minimal_output() {
    assert_eq!(fmt_hits_files(&[]), "");
    assert_eq!(fmt_hits_md(&[], false), "");
    assert_eq!(fmt_hits_xml(&[], false), "");
}

const TEST_CONTEXT: &str = "Internal engineering keynotes from company summit events";

fn ctx_hits() -> Vec<Hit> {
    vec![hit(
        "dc5590",
        "qmd://archive/summit/keynote.md",
        "Summit Keynote",
        Some(TEST_CONTEXT),
        0.84,
        3,
        "This is the keynote content.",
        None,
    )]
}

#[test]
fn format_search_results_csv_includes_context() {
    assert!(fmt_hits_csv(&ctx_hits(), false).contains(TEST_CONTEXT));
}

#[test]
fn format_search_results_files_includes_context() {
    assert!(fmt_hits_files(&ctx_hits()).contains(TEST_CONTEXT));
}

#[test]
fn format_search_results_md_includes_context() {
    assert!(fmt_hits_md(&ctx_hits(), false).contains(TEST_CONTEXT));
}

#[test]
fn format_search_results_xml_includes_context() {
    assert!(fmt_hits_xml(&ctx_hits(), false).contains(TEST_CONTEXT));
}

#[test]
fn mcp_csv_includes_context() {
    let rows = vec![McpHit {
        docid: "dc5590".to_string(),
        file: "qmd://archive/summit/keynote.md".to_string(),
        title: "Summit Keynote".to_string(),
        score: format!("{}", 0.84),
        context: Some(TEST_CONTEXT.to_string()),
        snippet: "This is the keynote content.".to_string(),
    }];
    let out = mcp_results_to_csv(&rows);
    assert!(out.lines().next().unwrap().contains("context"));
    assert!(out.contains(TEST_CONTEXT));
}

#[test]
fn to_qmd_path_default_index_has_no_query() {
    assert_eq!(to_qmd_path("fixtures/test1.md", None), "qmd://fixtures/test1.md");
}

#[test]
fn to_qmd_path_custom_index_appends_query() {
    assert_eq!(
        to_qmd_path("fixtures/a/b.md", Some("release-notes")),
        "qmd://fixtures/a/b.md?index=release-notes"
    );
}

#[test]
fn to_qmd_path_no_slash_is_left_bare() {
    assert_eq!(to_qmd_path("fixtures", Some("x")), "qmd://fixtures");
}

#[test]
fn to_qmd_path_trailing_slash_keeps_bare() {
    assert_eq!(to_qmd_path("fixtures/", Some("x")), "qmd://fixtures/");
}

#[test]
fn to_qmd_path_encodes_index_name() {
    assert_eq!(to_qmd_path("c/p.md", Some("a b")), "qmd://c/p.md?index=a%20b");
}

#[test]
fn term_link_wraps_only_on_tty() {
    assert_eq!(term_link("text", "url", false), "text");
    assert_eq!(term_link("text", "url", true), "\x1b]8;;url\x07text\x1b]8;;\x07");
}

#[test]
fn build_editor_uri_substitutes_placeholders() {
    let s = build_editor_uri("vscode://file/{path}:{line}:{col}", "/a/b.md", 12, 1);
    assert_eq!(s, "vscode://file//a/b.md:12:1");
}

#[test]
fn build_editor_uri_column_alias_and_clamp_and_encode() {
    let s = build_editor_uri("e://{path}#{line},{column}", "/x y.md", 0, 0);
    assert_eq!(s, "e:///x%20y.md#1,1");
}

#[test]
fn highlight_terms_noop_when_color_disabled() {
    let p = Palette { enabled: false };
    assert_eq!(highlight_terms("hello world", "world", &p), "hello world");
}

#[test]
fn highlight_terms_wraps_long_terms_case_insensitively() {
    let p = Palette { enabled: true };
    let out = highlight_terms("Hello WORLD", "world", &p);
    assert_eq!(out, format!("Hello {}{}WORLD{}", p.yellow(), p.bold(), p.reset()));
}

#[test]
fn highlight_terms_skips_short_terms() {
    let p = Palette { enabled: true };
    assert_eq!(highlight_terms("a of b", "of", &p), "a of b");
}

#[test]
fn format_score_plain_when_disabled() {
    let p = Palette { enabled: false };
    assert_eq!(format_score(&score_of(0.842), &p), " 84%");
    assert_eq!(format_score(&score_of(0.05), &p), "  5%");
}

#[test]
fn format_score_colors_by_threshold() {
    let p = Palette { enabled: true };
    assert!(format_score(&score_of(0.8), &p).contains(p.green()));
    assert!(format_score(&score_of(0.5), &p).contains(p.yellow()));
    assert!(format_score(&score_of(0.1), &p).contains(p.dim()));
}

#[test]
fn the_editor_template_comes_from_the_first_that_is_not_blank() {
    assert_eq!(editor_uri_template(Some(" zed://{path} "), Some("x")), "zed://{path}");
    assert_eq!(editor_uri_template(Some("  "), Some("x://{path}")), "x://{path}");
    assert_eq!(editor_uri_template(None, None), DEFAULT_EDITOR_URI_TEMPLATE);
}

#[test]
fn editor_paths_keep_their_slashes() {
    assert_eq!(encode_path_for_editor_uri("/a b/ü#?.md"), "/a%20b/%C3%BC%23%3F.md");
}

#[test]
fn every_occurrence_is_wrapped_in_whatever_case() {
    assert_eq!(wrap_ascii_ci("Foo foo fOO", "foo", "<", ">"), "<Foo> <foo> <fOO>");
    assert_eq!(wrap_ascii_ci("aaa", "aa", "<", ">"), "<aa>a");
    assert_eq!(wrap_ascii_ci("none", "x", "<", ">"), "none");
}

#[test]
fn query_words_are_found_in_a_text() {
    assert!(any_word_in("secure sessions", "sessions x"));
    assert!(!any_word_in("secure sessions", "tokens"));
}

fn document() -> DocumentResult {
    DocumentResult {
        filepath: "qmd://docs/a/b.md".to_string(),
        display_path: "docs/a/b.md".to_string(),
        title: "T".to_string(),
        context: Some("ctx".to_string()),
        hash: "abcdef123456".to_string(),
        docid: "abcdef".to_string(),
        collection_name: "docs".to_string(),
        modified_at: String::new(),
        body_length: 5,
        body: Some("L1\nL2".to_string()),
    }
}

#[test]
fn search_results_become_hits() {
    let r = SearchResult { doc: document(), score: score_of(0.5), chunk_pos: Some(12) };
    let snip = SnippetResult { line: 2, snippet: "L2".to_string() };
    let h = search_result_to_hit(&r, snip, false, Some("work"));
    assert_eq!(h.file, "qmd://docs/a/b.md?index=work");
    assert_eq!((h.line, h.snippet.as_str(), h.body.as_deref()), (2, "L2", None));
    let snip = SnippetResult { line: 2, snippet: "L2".to_string() };
    let h = search_result_to_hit(&r, snip, true, None);
    assert_eq!(h.body.as_deref(), Some("L1\nL2"));
    assert_eq!(h.docid, "abcdef");
    let q = search_snippet_request(&r, "L2", None);
    assert_eq!((q.body.as_str(), q.query.as_str()), ("L1\nL2", "L2"));
    assert_eq!((q.max_len, q.chunk_pos, q.chunk_len, q.intent), (None, Some(12), None, None));
}

#[test]
fn vector_results_become_hits() {
    let r = VectorSearchResult {
        display_path: "docs/x.md".to_string(),
        title: "X".to_string(),
        body: "body".to_string(),
        score: score_of(0.25),
        context: None,
        docid: "123456".to_string(),
    };
    let snip = SnippetResult { line: 1, snippet: "body".to_string() };
    let h = vector_result_to_hit(&r, snip, true, None);
    assert_eq!(h.file, "qmd://docs/x.md");
    assert_eq!(h.body.as_deref(), Some("body"));
    assert_eq!(h.score.four, "0.2500");
    let q = vector_snippet_request(&r, "x", Some("why"));
    assert_eq!((q.body.as_str(), q.query.as_str()), ("body", "x"));
    assert_eq!((q.chunk_pos, q.intent.as_deref()), (None, Some("why")));
}

#[test]
fn hybrid_results_start_at_the_line_of_their_best_chunk() {
    let r = HybridQueryResult {
        display_path: "docs/x.md".to_string(),
        title: "X".to_string(),
        body: "one\ntwo\nthree".to_string(),
        best_chunk: "three".to_string(),
        best_chunk_pos: 8,
        score: score_of(0.25),
        context: None,
        docid: "123456".to_string(),
    };
    let h = hybrid_result_to_hit(&r, false, None, None);
    assert_eq!((h.line, h.snippet.as_str()), (3, "three"));
}

fn link(stdout_tty: bool) -> CliLinkCtx {
    CliLinkCtx { editor_template: "e://{path}:{line}".to_string(), stdout_tty }
}

#[test]
fn hits_on_a_terminal_show_path_title_and_score() {
    let p = Palette { enabled: false };
    let out = fmt_hits_cli(&ctx_hits(), &p, false, "keynote", &link(false));
    assert!(out.contains("Summit Keynote"));
    assert!(out.contains("#dc5590"));
    assert!(out.contains("84%"));
    assert!(out.contains(TEST_CONTEXT));
    assert!(!out.contains('\x1b'));
}

#[test]
fn hits_in_a_format_end_in_a_line_feed_unless_there_are_none() {
    let p = Palette { enabled: false };
    let l = link(false);
    let md = fmt_hits(&ctx_hits(), OutputFormat::Md, &p, false, "q", &l).unwrap();
    assert_eq!(md, fmt_hits_md(&ctx_hits(), false) + "\n");
    assert_eq!(fmt_hits(&[], OutputFormat::Xml, &p, false, "q", &l).unwrap(), "");
    assert_eq!(
        fmt_hits(&[], OutputFormat::Csv, &p, false, "q", &l).unwrap(),
        "docid,score,file,title,context,line,snippet\n"
    );
    assert!(fmt_hits(&[], OutputFormat::Json, &p, false, "q", &l).is_none());
}

#[test]
fn sources_and_types_have_names() {
    assert_eq!(source_str(SearchSource::Fts), "fts");
    assert_eq!(source_str(SearchSource::Vec), "vec");
    assert_eq!(query_type_str(QueryType::Original), "original");
    assert_eq!(query_type_str(QueryType::Lex), "lex");
    assert_eq!(query_type_str(QueryType::Vec), "vec");
    assert_eq!(query_type_str(QueryType::Hyde), "hyde");
}

fn contribution(rank: usize, value: f64) -> ContributionText {
    ContributionText {
        source: SearchSource::Vec,
        query_type: QueryType::Hyde,
        rank,
        contribution: format!("{:.4}", value),
        contribution_bits: value.to_bits(),
    }
}

#[test]
fn an_explanation_names_the_greatest_contributions_first() {
    let e = ExplainText {
        fts_scores: vec!["0.5000".to_string()],
        vector_scores: vec![],
        total_score: "0.0400".to_string(),
        base_score: "0.0300".to_string(),
        top_rank_bonus: "0.0100".to_string(),
        rank: 1,
        weight_percent: 75,
        position_score: "1.0000".to_string(),
        rerank_percent: 25,
        rerank_score: "0.9000".to_string(),
        blended_score: "0.9750".to_string(),
        contributions: vec![contribution(5, 0.01), contribution(1, 0.02)],
    };
    let p = Palette { enabled: false };
    let out = fmt_explain_block(&e, &p);
    assert!(out.contains("0.5000"));
    assert!(out.contains("75%"));
    let first = out.find("0.0200").unwrap();
    let second = out.find("#5").unwrap();
    assert!(first < second, "{}", out);
}

#[test]
fn offsets_within_a_character_have_a_line() {
    assert_eq!(line_at_byte_offset("日本\nabc", 1), 1);
    assert_eq!(line_at_byte_offset("a\n日本", 3), 2);
}

#[test]
fn only_a_path_with_text_is_linked() {
    let p = Palette { enabled: false };
    let mut h = hit("", "qmd://docs/", "T", None, 0.5, 3, "@@ head\nbody", None);
    h.abs_path = Some("/docs".to_string());
    h.rel_path = Some(String::new());
    let out = fmt_hits_cli(&[h], &p, false, "body", &link(true));
    assert!(out.starts_with("qmd://docs/:3\n"));
    let mut h = hit("", "qmd://docs/a.md", "T", None, 0.5, 3, "@@ head\nbody", None);
    h.abs_path = Some("/docs/a.md".to_string());
    h.rel_path = Some("a.md".to_string());
    let out = fmt_hits_cli(&[h], &p, false, "body", &link(true));
    assert!(out.starts_with("\u{1b}]8;;e:///docs/a.md:3"));
    assert!(out.contains("a.md:3"));
}
