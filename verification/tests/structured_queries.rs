use rqmd::commands::bench;
use rqmd::commands::query;
use rqmd::commands::structured::{
    match_prefix, type_label, Dialect, ParsedStructuredQuery, StructuredQueryError,
};
use rqmd::store_ops::ExpandedQueryType;

fn bench_parse(q: &str) -> Result<Option<ParsedStructuredQuery>, StructuredQueryError> {
    bench::parse_structured_query(q)
}

fn parse(q: &str) -> Result<Option<ParsedStructuredQuery>, StructuredQueryError> {
    query::parse_structured_query(q)
}

fn bench_message(q: &str) -> String {
    bench_parse(q).unwrap_err().message(Dialect::Benchmark)
}

fn message(q: &str) -> String {
    parse(q).unwrap_err().message(Dialect::Document)
}

#[test]
fn bench_plain_single_line_is_not_structured() {
    assert!(bench_parse("API versioning").unwrap().is_none());
}

#[test]
fn bench_blank_query_is_not_structured() {
    assert!(bench_parse("   \n  ").unwrap().is_none());
}

#[test]
fn bench_parses_prefixes_and_intent() {
    let parsed = bench_parse("lex: auth\nvec: secure sessions\nintent: security")
        .unwrap()
        .expect("structured");
    assert_eq!(parsed.searches.len(), 2);
    assert_eq!(parsed.searches[0].type_, ExpandedQueryType::Lex);
    assert_eq!(parsed.searches[0].query, "auth");
    assert_eq!(parsed.searches[1].type_, ExpandedQueryType::Vec);
    assert_eq!(parsed.intent.as_deref(), Some("security"));
}

#[test]
fn bench_prefix_is_case_insensitive() {
    let parsed = bench_parse("HYDE: expanded text").unwrap().expect("structured");
    assert_eq!(parsed.searches[0].type_, ExpandedQueryType::Hyde);
    assert_eq!(parsed.searches[0].query, "expanded text");
}

#[test]
fn bench_duplicate_intent_errors() {
    assert!(bench_message("intent: a\nintent: b").contains("only one intent:"));
}

#[test]
fn bench_intent_only_errors() {
    assert!(bench_message("intent: security").contains("intent: cannot appear alone"));
}

#[test]
fn bench_multiline_missing_prefix_errors() {
    assert!(bench_message("lex: auth\nplain line")
        .contains("missing a lex:/vec:/hyde:/intent: prefix"));
}

#[test]
fn bench_empty_prefix_text_errors() {
    assert!(bench_message("lex:   \nvec: x").contains("(lex:) must include text"));
}

#[test]
fn query_plain_single_line_is_not_structured() {
    assert!(parse("CAP theorem").unwrap().is_none());
}

#[test]
fn query_blank_query_is_not_structured() {
    assert!(parse("   \n  ").unwrap().is_none());
}

#[test]
fn single_expand_is_not_structured() {
    assert!(parse("expand: auth stuff").unwrap().is_none());
}

#[test]
fn expand_mixed_with_typed_errors() {
    assert!(message("expand: question\nlex: keywords").contains("cannot mix expand"));
}

#[test]
fn expand_mixed_with_intent_errors() {
    assert!(message("intent: web\nexpand: performance").contains("cannot mix expand"));
}

#[test]
fn empty_expand_errors() {
    assert!(message("expand:   ").contains("expand: query must include text"));
}

#[test]
fn empty_expand_with_typed_reports_mix_first() {
    assert!(message("expand:\nlex: x").contains("cannot mix expand"));
}

#[test]
fn query_parses_prefixes_and_intent() {
    let parsed = parse("lex: auth\nvec: secure sessions\nintent: security")
        .unwrap()
        .expect("structured");
    assert_eq!(parsed.searches.len(), 2);
    assert_eq!(parsed.searches[0].type_, ExpandedQueryType::Lex);
    assert_eq!(parsed.searches[0].query, "auth");
    assert_eq!(parsed.searches[1].type_, ExpandedQueryType::Vec);
    assert_eq!(parsed.searches[1].query, "secure sessions");
    assert_eq!(parsed.intent.as_deref(), Some("security"));
}

#[test]
fn intent_after_typed_lines() {
    let parsed = parse("lex: performance\nintent: web page load times\nvec: latency")
        .unwrap()
        .expect("structured");
    assert_eq!(parsed.searches.len(), 2);
    assert_eq!(parsed.intent.as_deref(), Some("web page load times"));
}

#[test]
fn query_prefix_is_case_insensitive() {
    let parsed = parse("HYDE: expanded text").unwrap().expect("structured");
    assert_eq!(parsed.searches[0].type_, ExpandedQueryType::Hyde);
    assert_eq!(parsed.searches[0].query, "expanded text");
}

#[test]
fn intent_is_case_insensitive() {
    let parsed = parse("Intent: foo\nlex: bar").unwrap().expect("structured");
    assert_eq!(parsed.intent.as_deref(), Some("foo"));
}

#[test]
fn query_duplicate_intent_errors() {
    let msg = message("intent: a\nintent: b");
    assert!(msg.contains("only one intent:"));
    assert!(msg.contains("query document"));
}

#[test]
fn query_intent_only_errors() {
    assert!(message("intent: security").contains("intent: cannot appear alone"));
}

#[test]
fn empty_intent_errors() {
    assert!(message("intent:   \nlex: x").contains("intent: must include text"));
}

#[test]
fn query_multiline_missing_prefix_errors() {
    let msg = message("lex: auth\nplain line");
    assert!(msg.contains("missing a lex:/vec:/hyde:/intent: prefix"));
    assert!(msg.contains("query document"));
}

#[test]
fn query_empty_prefix_text_errors() {
    assert!(message("lex:   \nvec: x").contains("(lex:) must include text"));
}

#[test]
fn blank_lines_are_skipped() {
    let parsed = parse("\nlex: auth\n\nvec: sessions\n").unwrap().expect("structured");
    assert_eq!(parsed.searches.len(), 2);
    assert_eq!(parsed.searches[0].line, Some(2));
    assert_eq!(parsed.searches[1].line, Some(4));
}

#[test]
fn colon_in_text_is_preserved() {
    let parsed = parse("lex: time: 12:30 PM").unwrap().expect("structured");
    assert_eq!(parsed.searches[0].query, "time: 12:30 PM");
}

#[test]
fn surrounding_whitespace_trimmed() {
    let parsed = parse("  lex:   spaced query  ").unwrap().expect("structured");
    assert_eq!(parsed.searches[0].query, "spaced query");
}

#[test]
fn an_expand_line_means_nothing_to_a_benchmark() {
    assert!(bench_parse("expand: auth stuff").unwrap().is_none());
    assert!(bench_message("lex: a\nexpand: b").contains("missing a lex:/vec:/hyde:/intent: prefix"));
}

#[test]
fn types_have_labels_and_prefixes() {
    assert_eq!(type_label(ExpandedQueryType::Lex), "lex");
    assert_eq!(type_label(ExpandedQueryType::Vec), "vec");
    assert_eq!(type_label(ExpandedQueryType::Hyde), "hyde");
    assert_eq!(match_prefix("hyde: x"), Some((ExpandedQueryType::Hyde, "hyde:")));
    assert_eq!(match_prefix("hide: x"), None);
}
