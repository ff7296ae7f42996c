use rqmd::cli::FormatFlags;
use rqmd::output::{
    document_to_json, document_to_md, document_to_xml, escape_csv, escape_xml, fmt_cli, fmt_csv,
    fmt_files, fmt_json, fmt_md, fmt_multi_get, fmt_xml, format_document, skipped_title, title_of,
    truncate_lines, written_or, OutputFormat,
};
use rqmd::store::{DocumentResult, MultiGetResult};
use serde_json::Value;

const TEST_CONTEXT: &str = "Internal engineering keynotes from company summit events";

fn make_doc(context: Option<&str>) -> DocumentResult {
    DocumentResult {
        filepath: "qmd://archive/summit/keynote.md".to_string(),
        display_path: "archive/summit/keynote.md".to_string(),
        title: "Summit Keynote".to_string(),
        context: context.map(String::from),
        hash: "dc5590abcdef".to_string(),
        docid: "dc5590".to_string(),
        collection_name: "archive".to_string(),
        modified_at: "2024-01-01T00:00:00Z".to_string(),
        body_length: 100,
        body: Some("---\ntitle: Summit Keynote\n---\n\nThis is the keynote content.".to_string()),
    }
}

fn make_found(context: Option<&str>) -> MultiGetResult {
    MultiGetResult::Found(make_doc(context))
}

fn skipped() -> MultiGetResult {
    MultiGetResult::Skipped {
        filepath: "qmd://archive/big.md".to_string(),
        display_path: "archive/big.md".to_string(),
        skip_reason: "File too large".to_string(),
    }
}

#[test]
fn multi_get_json_includes_context() {
    let out = fmt_json(&[make_found(Some(TEST_CONTEXT))], None);
    let parsed: Value = serde_json::from_str(&out).unwrap();
    assert_eq!(parsed[0]["context"], TEST_CONTEXT);
}

#[test]
fn multi_get_csv_includes_context() {
    let out = fmt_csv(&[make_found(Some(TEST_CONTEXT))], None);
    assert!(out.lines().next().unwrap().contains("context"));
    assert!(out.contains(TEST_CONTEXT));
}

#[test]
fn multi_get_files_includes_context() {
    let out = fmt_files(&[make_found(Some(TEST_CONTEXT))]);
    assert!(out.contains(TEST_CONTEXT));
}

#[test]
fn multi_get_md_includes_context() {
    let out = fmt_md(&[make_found(Some(TEST_CONTEXT))], None);
    assert!(out.contains(TEST_CONTEXT));
}

#[test]
fn multi_get_xml_includes_context() {
    let out = fmt_xml(&[make_found(Some(TEST_CONTEXT))], None);
    assert!(out.contains(TEST_CONTEXT));
}

#[test]
fn format_documents_json_includes_context() {
    let out = fmt_multi_get(&[make_found(Some(TEST_CONTEXT))], None, OutputFormat::Json);
    let parsed: Value = serde_json::from_str(&out).unwrap();
    assert_eq!(parsed[0]["context"], TEST_CONTEXT);
}

#[test]
fn format_documents_md_includes_context() {
    let out = fmt_multi_get(&[make_found(Some(TEST_CONTEXT))], None, OutputFormat::Md);
    assert!(out.contains(TEST_CONTEXT));
}

#[test]
fn format_documents_xml_includes_context() {
    let out = fmt_multi_get(&[make_found(Some(TEST_CONTEXT))], None, OutputFormat::Xml);
    assert!(out.contains(TEST_CONTEXT));
}

#[test]
fn single_doc_json_includes_context() {
    let out = document_to_json(&make_doc(Some(TEST_CONTEXT)));
    let parsed: Value = serde_json::from_str(&out).unwrap();
    assert_eq!(parsed["context"], TEST_CONTEXT);
}

#[test]
fn single_doc_md_includes_context() {
    assert!(document_to_md(&make_doc(Some(TEST_CONTEXT))).contains(TEST_CONTEXT));
}

#[test]
fn single_doc_xml_includes_context() {
    assert!(document_to_xml(&make_doc(Some(TEST_CONTEXT))).contains(TEST_CONTEXT));
}

#[test]
fn format_document_json_includes_context() {
    let out = format_document(&make_doc(Some(TEST_CONTEXT)), OutputFormat::Json);
    let parsed: Value = serde_json::from_str(&out).unwrap();
    assert_eq!(parsed["context"], TEST_CONTEXT);
}

#[test]
fn format_document_md_includes_context() {
    let out = format_document(&make_doc(Some(TEST_CONTEXT)), OutputFormat::Md);
    assert!(out.contains(TEST_CONTEXT));
}

#[test]
fn format_document_xml_includes_context() {
    let out = format_document(&make_doc(Some(TEST_CONTEXT)), OutputFormat::Xml);
    assert!(out.contains(TEST_CONTEXT));
}

#[test]
fn single_doc_json_omits_context_when_none() {
    let out = document_to_json(&make_doc(None));
    let parsed: Value = serde_json::from_str(&out).unwrap();
    assert!(parsed.get("context").is_none());
}

#[test]
fn single_doc_md_omits_context_line_when_none() {
    assert!(!document_to_md(&make_doc(None)).contains("Context:"));
}

#[test]
fn single_doc_xml_omits_context_element_when_none() {
    assert!(!document_to_xml(&make_doc(None)).contains("<context>"));
}

#[test]
fn single_doc_json_uses_camel_case_keys() {
    let out = document_to_json(&make_doc(Some(TEST_CONTEXT)));
    let parsed: Value = serde_json::from_str(&out).unwrap();
    assert!(parsed.get("modifiedAt").is_some());
    assert!(parsed.get("bodyLength").is_some());
}

#[test]
fn single_doc_md_heading_falls_back_to_display_path_when_title_empty() {
    let mut doc = make_doc(Some(TEST_CONTEXT));
    doc.title = String::new();
    assert!(document_to_md(&doc).starts_with("# archive/summit/keynote.md\n"));
}

#[test]
fn json_lists_are_indented_and_keep_the_order_of_keys() {
    let out = fmt_json(&[skipped()], None);
    let parsed: Value = serde_json::from_str(&out).unwrap();
    assert_eq!(parsed[0]["file"], "qmd://archive/big.md");
    assert_eq!(parsed[0]["skipped"], true);
    assert_eq!(parsed[0]["reason"], "File too large");
    assert!(out.starts_with("[\n  {\n    \"file\": "));
    assert!(out.ends_with("]\n"));
    assert_eq!(fmt_json(&[], None), "[]\n");
}

#[test]
fn a_document_is_written_as_one_json_object() {
    let out = document_to_json(&make_doc(None));
    let parsed: Value = serde_json::from_str(&out).unwrap();
    assert_eq!(parsed["file"], "archive/summit/keynote.md");
    assert_eq!(parsed["bodyLength"], 100);
    assert_eq!(parsed["hash"], "dc5590abcdef");
    assert!(out.starts_with("{\n  \"file\""));
}

#[test]
fn csv_fields_are_quoted_where_needed() {
    assert_eq!(escape_csv("plain"), "plain");
    assert_eq!(escape_csv("a,b"), "\"a,b\"");
    assert_eq!(escape_csv("say \"hi\""), "\"say \"\"hi\"\"\"");
    assert_eq!(escape_csv("two\nlines"), "\"two\nlines\"");
}

#[test]
fn xml_markup_is_escaped() {
    assert_eq!(escape_xml("a<b>&\"c\"'d'"), "a&lt;b&gt;&amp;&quot;c&quot;&apos;d&apos;");
    assert_eq!(escape_xml("&amp;"), "&amp;amp;");
}

#[test]
fn long_bodies_are_cut_with_a_note() {
    assert_eq!(truncate_lines("a\nb\nc", None), "a\nb\nc");
    assert_eq!(truncate_lines("a\nb\nc", Some(3)), "a\nb\nc");
    assert_eq!(truncate_lines("a\nb\nc", Some(2)), "a\nb\n\n[... truncated 1 more lines]");
}

#[test]
fn titles_fall_back_to_the_file_name() {
    let mut doc = make_doc(None);
    assert_eq!(title_of(&doc), "Summit Keynote");
    doc.title = String::new();
    assert_eq!(title_of(&doc), "keynote.md");
    assert_eq!(skipped_title("archive/big.md"), "big.md");
    assert_eq!(skipped_title("big.md"), "big.md");
}

#[test]
fn skipped_documents_are_named_in_every_format() {
    for format in [
        OutputFormat::Cli,
        OutputFormat::Json,
        OutputFormat::Csv,
        OutputFormat::Md,
        OutputFormat::Xml,
    ] {
        let out = fmt_multi_get(&[skipped()], None, format);
        assert!(out.contains("File too large"), "{:?}: {}", format, out);
    }
    assert!(fmt_multi_get(&[skipped()], None, OutputFormat::Files).contains("archive/big.md"));
    assert!(fmt_cli(&[make_found(None)], Some(1)).contains("---"));
}

#[test]
fn xml_documents_stand_in_one_element() {
    let out = fmt_xml(&[], None);
    assert!(out.ends_with("</documents>\n"));
    assert_eq!(fmt_csv(&[], None).lines().count(), 1);
}

#[test]
fn what_could_not_be_written_is_replaced() {
    assert_eq!(written_or(Some("{}".to_string()), "[]"), "{}");
    assert_eq!(written_or(None, "[]"), "[]");
}

#[test]
fn the_first_flag_decides_the_format() {
    let none = FormatFlags::default();
    assert_eq!(OutputFormat::from(&none), OutputFormat::Cli);
    assert_eq!(OutputFormat::default(), OutputFormat::Cli);
    assert_eq!(OutputFormat::from(&FormatFlags { json: true, ..none }), OutputFormat::Json);
    assert_eq!(OutputFormat::from(&FormatFlags { csv: true, ..none }), OutputFormat::Csv);
    assert_eq!(OutputFormat::from(&FormatFlags { md: true, ..none }), OutputFormat::Md);
    assert_eq!(OutputFormat::from(&FormatFlags { xml: true, ..none }), OutputFormat::Xml);
    assert_eq!(OutputFormat::from(&FormatFlags { files: true, ..none }), OutputFormat::Files);
}
