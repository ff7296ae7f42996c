//! How documents are written, by `get` and `multi-get`.
use vstd::prelude::*;

use crate::cli::FormatFlags;
use crate::json;
use crate::json::{count_field, flag_field, text_field, write_json, JsonDocument, JsonField};
use crate::store::{DocumentResult, MultiGetResult};
use crate::text::{chars, number, search};
use crate::text::chars::{chars_of, concatenate, join, repeat_char, same_text, str_or_empty};
use crate::text::number::decimal_of;
use crate::text::search::{contains_char, replace_char, split_char, tail_after};

verus! {

/// How results are written.
#[derive(Clone, Copy, Debug, PartialEq, Eq, Structural)]
pub enum OutputFormat {
    Cli,
    Json,
    Csv,
    Md,
    Xml,
    Files,
}

impl Default for OutputFormat {
    fn default() -> (r: OutputFormat)
        ensures
            r == OutputFormat::Cli,
    {
        OutputFormat::Cli
    }
}

/// The format that the flags ask for. Where more than one is set, the first of JSON, CSV,
/// Markdown, XML and files counts.
pub open spec fn format_of(f: FormatFlags) -> OutputFormat {
    if f.json {
        OutputFormat::Json
    } else if f.csv {
        OutputFormat::Csv
    } else if f.md {
        OutputFormat::Md
    } else if f.xml {
        OutputFormat::Xml
    } else if f.files {
        OutputFormat::Files
    } else {
        OutputFormat::Cli
    }
}

impl From<&FormatFlags> for OutputFormat {
    fn from(f: &FormatFlags) -> (r: OutputFormat) {
        if f.json {
            OutputFormat::Json
        } else if f.csv {
            OutputFormat::Csv
        } else if f.md {
            OutputFormat::Md
        } else if f.xml {
            OutputFormat::Xml
        } else if f.files {
            OutputFormat::Files
        } else {
            OutputFormat::Cli
        }
    }
}

impl vstd::std_specs::convert::FromSpecImpl<&FormatFlags> for OutputFormat {
    open spec fn obeys_from_spec() -> bool {
        true
    }

    open spec fn from_spec(f: &FormatFlags) -> OutputFormat {
        format_of(*f)
    }
}

/// `s` with each double quote doubled.
pub open spec fn doubled_quotes(s: Seq<char>) -> Seq<char> {
    search::replaced_char(s, '"', "\"\""@)
}

/// A field of a CSV line: in double quotes, and those in it doubled, where it holds a comma, a
/// double quote or a line feed.
pub open spec fn csv_field(s: Seq<char>) -> Seq<char> {
    if s.contains(',') || s.contains('"') || s.contains('\n') {
        "\""@ + doubled_quotes(s) + "\""@
    } else {
        s
    }
}

/// A field of a CSV line.
pub fn escape_csv(value: &str) -> (r: String)
    ensures
        r@ == csv_field(value@),
{
    if contains_char(value, ',') || contains_char(value, '"') || contains_char(value, '\n') {
        let mut r: String = "\"".to_owned();
        r.append(replace_char(value, '"', "\"\"").as_str());
        r.append("\"");
        r
    } else {
        value.to_owned()
    }
}

/// How XML writes a character in text and in attributes.
pub open spec fn xml_char(c: char) -> Seq<char> {
    if c == '&' {
        "&amp;"@
    } else if c == '<' {
        "&lt;"@
    } else if c == '>' {
        "&gt;"@
    } else if c == '"' {
        "&quot;"@
    } else if c == '\'' {
        "&apos;"@
    } else {
        seq![c]
    }
}

/// How XML writes a text.
pub open spec fn xml_text(s: Seq<char>) -> Seq<char>
    decreases s.len(),
{
    if s.len() == 0 {
        Seq::empty()
    } else {
        xml_text(s.drop_last()) + xml_char(s.last())
    }
}

/// How XML writes a text.
pub fn escape_xml(s: &str) -> (r: String)
    ensures
        r@ == xml_text(s@),
{
    let v: Vec<char> = chars_of(s);
    let mut r: String = String::new();
    assert(v@.take(0) =~= Seq::empty());
    for i in 0..v.len()
        invariant
            r@ =~= xml_text(v@.take(i as int)),
    {
        assert(v@.take(i + 1).drop_last() =~= v@.take(i as int));
        let c: char = v[i];
        if c == '&' {
            r.append("&amp;");
        } else if c == '<' {
            r.append("&lt;");
        } else if c == '>' {
            r.append("&gt;");
        } else if c == '"' {
            r.append("&quot;");
        } else if c == '\'' {
            r.append("&apos;");
        } else {
            r.push(c);
        }
    }
    assert(v@.take(v@.len() as int) =~= v@);
    r
}

/// `body` cut to `max` lines, with a note on how many lines are left out.
pub open spec fn truncated(body: Seq<char>, max: Option<usize>) -> Seq<char> {
    let lines = search::split_on(body, '\n');
    match max {
        Some(m) if lines.len() > m => chars::joined(lines.take(m as int), "\n"@)
            + "\n\n[... truncated "@ + number::decimal((lines.len() - m) as nat)
            + " more lines]"@,
        _ => body,
    }
}

/// `body` cut to `max_lines` lines, with a note on how many lines are left out.
pub fn truncate_lines(body: &str, max_lines: Option<usize>) -> (r: String)
    ensures
        r@ == truncated(body@, max_lines),
{
    match max_lines {
        None => body.to_owned(),
        Some(max) => {
            let lines: Vec<String> = split_char(body, '\n');
            let n: usize = lines.len();
            if n <= max {
                return body.to_owned();
            }
            let kept: &[String] = vstd::slice::slice_subrange(lines.as_slice(), 0, max);
            assert(chars::texts(kept@) =~= chars::texts(lines@).take(max as int));
            let mut r: String = join(kept, "\n");
            r.append("\n\n[... truncated ");
            r.append(decimal_of((n - max) as u128).as_str());
            r.append(" more lines]");
            r
        },
    }
}

/// The title of a document, or the last part of its path.
pub open spec fn title(doc: DocumentResult) -> Seq<char> {
    if doc.title@.len() > 0 {
        doc.title@
    } else {
        search::after_last(doc.display_path@, '/')
    }
}

/// The title of a document, or the last part of its path.
pub fn title_of(doc: &DocumentResult) -> (r: String)
    ensures
        r@ == title(*doc),
{
    if !doc.title.as_str().is_empty() {
        doc.title.clone()
    } else {
        tail_after(doc.display_path.as_str(), '/')
    }
}

/// The last part of a path.
pub fn skipped_title(display_path: &str) -> (r: String)
    ensures
        r@ == search::after_last(display_path@, '/'),
{
    tail_after(display_path, '/')
}

/// The body of a document, or no text.
pub open spec fn body_of(doc: DocumentResult) -> Seq<char> {
    chars::text_or_empty(doc.body)
}

/// The members of the JSON object for a document of a batch.
pub open spec fn multi_get_object(r: MultiGetResult, max: Option<usize>) -> Seq<
    (Seq<char>, json::JsonModel),
> {
    match r {
        MultiGetResult::Found(doc) => {
            let base = seq![
                ("file"@, json::JsonModel::Text(doc.filepath@)),
                ("title"@, json::JsonModel::Text(title(doc))),
                ("body"@, json::JsonModel::Text(truncated(body_of(doc), max))),
            ];
            match doc.context {
                Some(c) => base.push(("context"@, json::JsonModel::Text(c@))),
                None => base,
            }
        },
        MultiGetResult::Skipped { filepath, display_path, skip_reason } => seq![
            ("file"@, json::JsonModel::Text(filepath@)),
            ("title"@, json::JsonModel::Text(search::after_last(display_path@, '/'))),
            ("skipped"@, json::JsonModel::Flag(true)),
            ("reason"@, json::JsonModel::Text(skip_reason@)),
        ],
    }
}

/// The objects for the documents of a batch.
pub open spec fn multi_get_objects(results: Seq<MultiGetResult>, max: Option<usize>) -> Seq<
    Seq<(Seq<char>, json::JsonModel)>,
> {
    Seq::new(results.len(), |i: int| multi_get_object(results[i], max))
}

/// The members of the JSON object for a document of a batch.
pub fn multi_get_row(r: &MultiGetResult, max_lines: Option<usize>) -> (row: Vec<JsonField>)
    ensures
        json::object_model(row@) == multi_get_object(*r, max_lines),
{
    let mut row: Vec<JsonField> = Vec::new();
    match r {
        MultiGetResult::Found(doc) => {
            row.push(text_field("file", doc.filepath.as_str()));
            row.push(text_field("title", title_of(doc).as_str()));
            row.push(
                text_field("body", truncate_lines(str_or_empty(&doc.body), max_lines).as_str()),
            );
            match &doc.context {
                Some(c) => {
                    row.push(text_field("context", c.as_str()));
                },
                None => {},
            }
        },
        MultiGetResult::Skipped { filepath, display_path, skip_reason } => {
            row.push(text_field("file", filepath.as_str()));
            row.push(text_field("title", skipped_title(display_path.as_str()).as_str()));
            row.push(flag_field("skipped", true));
            row.push(text_field("reason", skip_reason.as_str()));
        },
    }
    assert(json::object_model(row@) =~= multi_get_object(*r, max_lines));
    row
}

/// The documents of a batch as JSON.
pub fn fmt_json(results: &[MultiGetResult], max_lines: Option<usize>) -> (s: String)
    ensures
        s@ == json_or(
            json::pretty(json::DocumentModel::List(multi_get_objects(results@, max_lines))),
            "[]"@,
        ) + "\n"@,
{
    let mut rows: Vec<Vec<JsonField>> = Vec::new();
    for i in 0..results.len()
        invariant
            rows@.len() == i,
            forall|k: int|
                0 <= k < i ==> json::object_model((#[trigger] rows@[k])@) == multi_get_object(
                    results@[k],
                    max_lines,
                ),
    {
        rows.push(multi_get_row(&results[i], max_lines));
    }
    assert(json::list_model(rows@) =~= multi_get_objects(results@, max_lines));
    let mut s: String = written_or(write_json(&JsonDocument::List(rows)), "[]");
    s.append("\n");
    s
}

/// What was written, or `otherwise` where nothing was.
pub open spec fn json_or(written: Option<Seq<char>>, otherwise: Seq<char>) -> Seq<char> {
    match written {
        Some(s) => s,
        None => otherwise,
    }
}

/// What was written, or `otherwise` where nothing was.
pub fn written_or(written: Option<String>, otherwise: &str) -> (s: String)
    ensures
        s@ == json_or(chars::opt_string(written), otherwise@),
{
    match written {
        Some(s) => s,
        None => otherwise.to_owned(),
    }
}

/// The CSV line of a document of a batch.
pub open spec fn csv_line(r: MultiGetResult, max: Option<usize>) -> Seq<char> {
    match r {
        MultiGetResult::Found(doc) => csv_field(doc.filepath@) + ","@ + csv_field(title(doc)) + ","@
            + csv_field(chars::text_or_empty(doc.context)) + ",false,"@ + csv_field(
            truncated(body_of(doc), max),
        ) + "\n"@,
        MultiGetResult::Skipped { filepath, display_path, skip_reason } => csv_field(filepath@)
            + ","@ + csv_field(search::after_last(display_path@, '/')) + ",,true,"@ + csv_field(
            skip_reason@,
        ) + "\n"@,
    }
}

/// The CSV lines of the documents of a batch.
pub open spec fn csv_lines(results: Seq<MultiGetResult>, max: Option<usize>) -> Seq<Seq<char>> {
    Seq::new(results.len(), |i: int| csv_line(results[i], max))
}

fn write_csv_line(r: &MultiGetResult, max_lines: Option<usize>) -> (s: String)
    ensures
        s@ == csv_line(*r, max_lines),
{
    match r {
        MultiGetResult::Found(doc) => {
            let mut s: String = escape_csv(doc.filepath.as_str());
            s.append(",");
            s.append(escape_csv(title_of(doc).as_str()).as_str());
            s.append(",");
            s.append(escape_csv(str_or_empty(&doc.context)).as_str());
            s.append(",false,");
            s.append(
                escape_csv(truncate_lines(str_or_empty(&doc.body), max_lines).as_str()).as_str(),
            );
            s.append("\n");
            s
        },
        MultiGetResult::Skipped { filepath, display_path, skip_reason } => {
            let mut s: String = escape_csv(filepath.as_str());
            s.append(",");
            s.append(escape_csv(skipped_title(display_path.as_str()).as_str()).as_str());
            s.append(",,true,");
            s.append(escape_csv(skip_reason.as_str()).as_str());
            s.append("\n");
            s
        },
    }
}

/// The documents of a batch as CSV, with a head line.
pub fn fmt_csv(results: &[MultiGetResult], max_lines: Option<usize>) -> (s: String)
    ensures
        s@ == "file,title,context,skipped,body\n"@ + chars::concatenated(
            csv_lines(results@, max_lines),
        ),
{
    let mut parts: Vec<String> = Vec::new();
    for i in 0..results.len()
        invariant
            parts@.len() == i,
            forall|k: int| 0 <= k < i ==> (#[trigger] parts@[k])@ == csv_line(results@[k], max_lines),
    {
        parts.push(write_csv_line(&results[i], max_lines));
    }
    assert(chars::texts(parts@) =~= csv_lines(results@, max_lines));
    let mut s: String = "file,title,context,skipped,body\n".to_owned();
    s.append(concatenate(parts.as_slice()).as_str());
    s
}

/// The line of a document of a batch in a list of files.
pub open spec fn files_line(r: MultiGetResult) -> Seq<char> {
    match r {
        MultiGetResult::Found(doc) => match doc.context {
            Some(c) => doc.filepath@ + ",\""@ + doubled_quotes(c@) + "\"\n"@,
            None => doc.filepath@ + "\n"@,
        },
        MultiGetResult::Skipped { filepath, .. } => filepath@ + ",[SKIPPED]\n"@,
    }
}

/// The lines of the documents of a batch in a list of files.
pub open spec fn files_lines(results: Seq<MultiGetResult>) -> Seq<Seq<char>> {
    Seq::new(results.len(), |i: int| files_line(results[i]))
}

fn write_files_line(r: &MultiGetResult) -> (s: String)
    ensures
        s@ == files_line(*r),
{
    match r {
        MultiGetResult::Found(doc) => {
            let mut s: String = doc.filepath.clone();
            match &doc.context {
                Some(c) => {
                    s.append(",\"");
                    s.append(replace_char(c.as_str(), '"', "\"\"").as_str());
                    s.append("\"\n");
                },
                None => {
                    s.append("\n");
                },
            }
            s
        },
        MultiGetResult::Skipped { filepath, .. } => {
            let mut s: String = filepath.clone();
            s.append(",[SKIPPED]\n");
            s
        },
    }
}

/// The documents of a batch as a list of files with their contexts.
pub fn fmt_files(results: &[MultiGetResult]) -> (s: String)
    ensures
        s@ == chars::concatenated(files_lines(results@)),
{
    let mut parts: Vec<String> = Vec::new();
    for i in 0..results.len()
        invariant
            parts@.len() == i,
            forall|k: int| 0 <= k < i ==> (#[trigger] parts@[k])@ == files_line(results@[k]),
    {
        parts.push(write_files_line(&results[i]));
    }
    assert(chars::texts(parts@) =~= files_lines(results@));
    concatenate(parts.as_slice())
}

/// The Markdown section of a document of a batch.
pub open spec fn md_section(r: MultiGetResult, max: Option<usize>) -> Seq<char> {
    match r {
        MultiGetResult::Found(doc) => "## "@ + doc.filepath@ + "\n\n"@ + (if title(doc)
            != doc.filepath@ {
            "**Title:** "@ + title(doc) + "\n\n"@
        } else {
            ""@
        }) + (match doc.context {
            Some(c) => "**Context:** "@ + c@ + "\n\n"@,
            None => ""@,
        }) + "```\n"@ + truncated(body_of(doc), max) + "\n```\n\n"@,
        MultiGetResult::Skipped { filepath, skip_reason, .. } => "## "@ + filepath@ + "\n\n> "@
            + skip_reason@ + "\n\n"@,
    }
}

/// The Markdown sections of the documents of a batch.
pub open spec fn md_sections(results: Seq<MultiGetResult>, max: Option<usize>) -> Seq<Seq<char>> {
    Seq::new(results.len(), |i: int| md_section(results[i], max))
}

/// `before`, the text and `after`, or nothing where there is no text.
pub open spec fn wrapped(before: Seq<char>, o: Option<String>, after: Seq<char>) -> Seq<char> {
    match o {
        Some(s) => before + s@ + after,
        None => ""@,
    }
}

/// `before`, the text and `after`, or nothing where there is no text.
pub fn wrap(before: &str, o: &Option<String>, after: &str) -> (r: String)
    ensures
        r@ == wrapped(before@, *o, after@),
{
    match o {
        Some(s) => {
            let mut r: String = before.to_owned();
            r.append(s.as_str());
            r.append(after);
            r
        },
        None => "".to_owned(),
    }
}

fn write_md_section(r: &MultiGetResult, max_lines: Option<usize>) -> (s: String)
    ensures
        s@ == md_section(*r, max_lines),
{
    match r {
        MultiGetResult::Found(doc) => {
            let heading: String = title_of(doc);
            let title_line: String = if !same_text(heading.as_str(), doc.filepath.as_str()) {
                let mut t: String = "**Title:** ".to_owned();
                t.append(heading.as_str());
                t.append("\n\n");
                t
            } else {
                "".to_owned()
            };
            let mut s: String = "## ".to_owned();
            s.append(doc.filepath.as_str());
            s.append("\n\n");
            s.append(title_line.as_str());
            s.append(wrap("**Context:** ", &doc.context, "\n\n").as_str());
            s.append("```\n");
            s.append(truncate_lines(str_or_empty(&doc.body), max_lines).as_str());
            s.append("\n```\n\n");
            s
        },
        MultiGetResult::Skipped { filepath, skip_reason, .. } => {
            let mut s: String = "## ".to_owned();
            s.append(filepath.as_str());
            s.append("\n\n> ");
            s.append(skip_reason.as_str());
            s.append("\n\n");
            s
        },
    }
}

/// The documents of a batch as Markdown.
pub fn fmt_md(results: &[MultiGetResult], max_lines: Option<usize>) -> (s: String)
    ensures
        s@ == chars::concatenated(md_sections(results@, max_lines)),
{
    let mut parts: Vec<String> = Vec::new();
    for i in 0..results.len()
        invariant
            parts@.len() == i,
            forall|k: int|
                0 <= k < i ==> (#[trigger] parts@[k])@ == md_section(results@[k], max_lines),
    {
        parts.push(write_md_section(&results[i], max_lines));
    }
    assert(chars::texts(parts@) =~= md_sections(results@, max_lines));
    concatenate(parts.as_slice())
}

/// An XML element with a text, indented.
pub open spec fn xml_element(open: Seq<char>, text: Seq<char>, close: Seq<char>) -> Seq<char> {
    open + xml_text(text) + close
}

fn write_element(open: &str, text: &str, close: &str) -> (s: String)
    ensures
        s@ == xml_element(open@, text@, close@),
{
    let mut s: String = open.to_owned();
    s.append(escape_xml(text).as_str());
    s.append(close);
    s
}

/// An XML element with a text, or nothing where there is no text.
pub open spec fn xml_optional(open: Seq<char>, o: Option<String>, close: Seq<char>) -> Seq<char> {
    match o {
        Some(s) => xml_element(open, s@, close),
        None => ""@,
    }
}

fn write_optional(open: &str, o: &Option<String>, close: &str) -> (s: String)
    ensures
        s@ == xml_optional(open@, *o, close@),
{
    match o {
        Some(t) => write_element(open, t.as_str(), close),
        None => "".to_owned(),
    }
}

/// The XML element of a document of a batch.
pub open spec fn xml_document(r: MultiGetResult, max: Option<usize>) -> Seq<char> {
    match r {
        MultiGetResult::Found(doc) => "  <document>\n"@ + xml_element(
            "    <file>"@,
            doc.filepath@,
            "</file>\n"@,
        ) + xml_element("    <title>"@, title(doc), "</title>\n"@) + xml_optional(
            "    <context>"@,
            doc.context,
            "</context>\n"@,
        ) + xml_element("    <body>"@, truncated(body_of(doc), max), "</body>\n"@)
            + "  </document>\n"@,
        MultiGetResult::Skipped { filepath, skip_reason, .. } => "  <document>\n"@ + xml_element(
            "    <file>"@,
            filepath@,
            "</file>\n"@,
        ) + "    <skipped>true</skipped>\n"@ + xml_element(
            "    <reason>"@,
            skip_reason@,
            "</reason>\n"@,
        ) + "  </document>\n"@,
    }
}

/// The XML elements of the documents of a batch.
pub open spec fn xml_documents(results: Seq<MultiGetResult>, max: Option<usize>) -> Seq<Seq<char>> {
    Seq::new(results.len(), |i: int| xml_document(results[i], max))
}

fn write_xml_document(r: &MultiGetResult, max_lines: Option<usize>) -> (s: String)
    ensures
        s@ == xml_document(*r, max_lines),
{
    let mut s: String = "  <document>\n".to_owned();
    match r {
        MultiGetResult::Found(doc) => {
            s.append(
                write_element("    <file>", doc.filepath.as_str(), "</file>\n").as_str(),
            );
            s.append(
                write_element("    <title>", title_of(doc).as_str(), "</title>\n").as_str(),
            );
            s.append(
                write_optional("    <context>", &doc.context, "</context>\n").as_str(),
            );
            s.append(
                write_element(
                    "    <body>",
                    truncate_lines(str_or_empty(&doc.body), max_lines).as_str(),
                    "</body>\n",
                ).as_str(),
            );
        },
        MultiGetResult::Skipped { filepath, skip_reason, .. } => {
            s.append(write_element("    <file>", filepath.as_str(), "</file>\n").as_str());
            s.append("    <skipped>true</skipped>\n");
            s.append(
                write_element("    <reason>", skip_reason.as_str(), "</reason>\n").as_str(),
            );
        },
    }
    s.append("  </document>\n");
    s
}

/// The documents of a batch as XML.
pub fn fmt_xml(results: &[MultiGetResult], max_lines: Option<usize>) -> (s: String)
    ensures
        s@ == "<?xml version=\"1.0\" encoding=\"UTF-8\"?>\n<documents>\n"@ + chars::concatenated(
            xml_documents(results@, max_lines),
        ) + "</documents>\n"@,
{
    let mut parts: Vec<String> = Vec::new();
    for i in 0..results.len()
        invariant
            parts@.len() == i,
            forall|k: int|
                0 <= k < i ==> (#[trigger] parts@[k])@ == xml_document(results@[k], max_lines),
    {
        parts.push(write_xml_document(&results[i], max_lines));
    }
    assert(chars::texts(parts@) =~= xml_documents(results@, max_lines));
    let mut s: String = "<?xml version=\"1.0\" encoding=\"UTF-8\"?>\n<documents>\n".to_owned();
    s.append(concatenate(parts.as_slice()).as_str());
    s.append("</documents>\n");
    s
}

/// The rule above and below the name of a file.
pub open spec fn file_rule() -> Seq<char> {
    chars::repeated('=', 60)
}

/// A document of a batch as a terminal shows it.
pub open spec fn cli_section(r: MultiGetResult, max: Option<usize>) -> Seq<char> {
    match r {
        MultiGetResult::Found(doc) => "\n"@ + file_rule() + "\nFile: "@ + doc.filepath@ + "\n"@
            + file_rule() + "\n\n"@ + wrapped("Folder Context: "@, doc.context, "\n---\n\n"@)
            + truncated(body_of(doc), max) + "\n"@,
        MultiGetResult::Skipped { filepath, skip_reason, .. } => "\n"@ + file_rule() + "\nFile: "@
            + filepath@ + "\n"@ + file_rule() + "\n\n[SKIPPED: "@ + skip_reason@ + "]\n"@,
    }
}

/// The documents of a batch as a terminal shows them.
pub open spec fn cli_sections(results: Seq<MultiGetResult>, max: Option<usize>) -> Seq<Seq<char>> {
    Seq::new(results.len(), |i: int| cli_section(results[i], max))
}

fn write_cli_section(r: &MultiGetResult, max_lines: Option<usize>) -> (s: String)
    ensures
        s@ == cli_section(*r, max_lines),
{
    let bar: String = repeat_char('=', 60);
    let mut s: String = "\n".to_owned();
    s.append(bar.as_str());
    s.append("\nFile: ");
    match r {
        MultiGetResult::Found(doc) => {
            s.append(doc.filepath.as_str());
            s.append("\n");
            s.append(bar.as_str());
            s.append("\n\n");
            s.append(wrap("Folder Context: ", &doc.context, "\n---\n\n").as_str());
            s.append(truncate_lines(str_or_empty(&doc.body), max_lines).as_str());
            s.append("\n");
        },
        MultiGetResult::Skipped { filepath, skip_reason, .. } => {
            s.append(filepath.as_str());
            s.append("\n");
            s.append(bar.as_str());
            s.append("\n\n[SKIPPED: ");
            s.append(skip_reason.as_str());
            s.append("]\n");
        },
    }
    s
}

/// The documents of a batch as a terminal shows them.
pub fn fmt_cli(results: &[MultiGetResult], max_lines: Option<usize>) -> (s: String)
    ensures
        s@ == chars::concatenated(cli_sections(results@, max_lines)),
{
    let mut parts: Vec<String> = Vec::new();
    for i in 0..results.len()
        invariant
            parts@.len() == i,
            forall|k: int|
                0 <= k < i ==> (#[trigger] parts@[k])@ == cli_section(results@[k], max_lines),
    {
        parts.push(write_cli_section(&results[i], max_lines));
    }
    assert(chars::texts(parts@) =~= cli_sections(results@, max_lines));
    concatenate(parts.as_slice())
}

/// The documents of a batch in a format.
pub open spec fn multi_get_text(
    results: Seq<MultiGetResult>,
    max: Option<usize>,
    format: OutputFormat,
) -> Seq<char> {
    match format {
        OutputFormat::Json => json_or(
            json::pretty(json::DocumentModel::List(multi_get_objects(results, max))),
            "[]"@,
        ) + "\n"@,
        OutputFormat::Csv => "file,title,context,skipped,body\n"@ + chars::concatenated(
            csv_lines(results, max),
        ),
        OutputFormat::Files => chars::concatenated(files_lines(results)),
        OutputFormat::Md => chars::concatenated(md_sections(results, max)),
        OutputFormat::Xml => "<?xml version=\"1.0\" encoding=\"UTF-8\"?>\n<documents>\n"@
            + chars::concatenated(xml_documents(results, max)) + "</documents>\n"@,
        OutputFormat::Cli => chars::concatenated(cli_sections(results, max)),
    }
}

/// The documents of a batch in a format.
pub fn fmt_multi_get(
    results: &[MultiGetResult],
    max_lines: Option<usize>,
    format: OutputFormat,
) -> (s: String)
    ensures
        s@ == multi_get_text(results@, max_lines, format),
{
    match format {
        OutputFormat::Json => fmt_json(results, max_lines),
        OutputFormat::Csv => fmt_csv(results, max_lines),
        OutputFormat::Files => fmt_files(results),
        OutputFormat::Md => fmt_md(results, max_lines),
        OutputFormat::Xml => fmt_xml(results, max_lines),
        OutputFormat::Cli => fmt_cli(results, max_lines),
    }
}

/// The members of the JSON object for a document.
pub open spec fn document_object(doc: DocumentResult) -> Seq<(Seq<char>, json::JsonModel)> {
    let base = seq![
        ("file"@, json::JsonModel::Text(doc.display_path@)),
        ("title"@, json::JsonModel::Text(doc.title@)),
        ("hash"@, json::JsonModel::Text(doc.hash@)),
        ("modifiedAt"@, json::JsonModel::Text(doc.modified_at@)),
        ("bodyLength"@, json::JsonModel::Count(doc.body_length as u64)),
    ];
    let with_context = match doc.context {
        Some(c) => base.push(("context"@, json::JsonModel::Text(c@))),
        None => base,
    };
    match doc.body {
        Some(b) => with_context.push(("body"@, json::JsonModel::Text(b@))),
        None => with_context,
    }
}

/// The members of the JSON object for a document.
pub fn document_row(doc: &DocumentResult) -> (row: Vec<JsonField>)
    ensures
        json::object_model(row@) == document_object(*doc),
{
    let mut row: Vec<JsonField> = Vec::new();
    row.push(text_field("file", doc.display_path.as_str()));
    row.push(text_field("title", doc.title.as_str()));
    row.push(text_field("hash", doc.hash.as_str()));
    row.push(text_field("modifiedAt", doc.modified_at.as_str()));
    row.push(count_field("bodyLength", doc.body_length as u64));
    match &doc.context {
        Some(c) => {
            row.push(text_field("context", c.as_str()));
        },
        None => {},
    }
    match &doc.body {
        Some(b) => {
            row.push(text_field("body", b.as_str()));
        },
        None => {},
    }
    assert(json::object_model(row@) =~= document_object(*doc));
    row
}

/// A document as JSON.
pub fn document_to_json(doc: &DocumentResult) -> (s: String)
    ensures
        s@ == json_or(json::pretty(json::DocumentModel::Object(document_object(*doc))), "{}"@),
{
    let row: Vec<JsonField> = document_row(doc);
    written_or(write_json(&JsonDocument::Object(row)), "{}")
}

/// A document as Markdown.
pub open spec fn document_md(doc: DocumentResult) -> Seq<char> {
    "# "@ + (if doc.title@.len() == 0 {
        doc.display_path@
    } else {
        doc.title@
    }) + "\n\n"@ + wrapped("**Context:** "@, doc.context, "\n\n"@) + "**File:** "@
        + doc.display_path@ + "\n**Modified:** "@ + doc.modified_at@ + "\n\n"@ + wrapped(
        "---\n\n"@,
        doc.body,
        "\n"@,
    )
}

/// A document as Markdown.
pub fn document_to_md(doc: &DocumentResult) -> (s: String)
    ensures
        s@ == document_md(*doc),
{
    let mut s: String = "# ".to_owned();
    if doc.title.as_str().is_empty() {
        s.append(doc.display_path.as_str());
    } else {
        s.append(doc.title.as_str());
    }
    s.append("\n\n");
    s.append(wrap("**Context:** ", &doc.context, "\n\n").as_str());
    s.append("**File:** ");
    s.append(doc.display_path.as_str());
    s.append("\n**Modified:** ");
    s.append(doc.modified_at.as_str());
    s.append("\n\n");
    s.append(wrap("---\n\n", &doc.body, "\n").as_str());
    s
}

/// A document as XML.
pub open spec fn document_xml(doc: DocumentResult) -> Seq<char> {
    "<?xml version=\"1.0\" encoding=\"UTF-8\"?>\n<document>\n"@ + xml_element(
        "  <file>"@,
        doc.display_path@,
        "</file>\n"@,
    ) + xml_element("  <title>"@, doc.title@, "</title>\n"@) + xml_optional(
        "  <context>"@,
        doc.context,
        "</context>\n"@,
    ) + xml_element("  <hash>"@, doc.hash@, "</hash>\n"@) + xml_element(
        "  <modifiedAt>"@,
        doc.modified_at@,
        "</modifiedAt>\n"@,
    ) + "  <bodyLength>"@ + number::decimal(doc.body_length as nat) + "</bodyLength>\n"@
        + xml_optional("  <body>"@, doc.body, "</body>\n"@) + "</document>"@
}

/// A document as XML.
pub fn document_to_xml(doc: &DocumentResult) -> (s: String)
    ensures
        s@ == document_xml(*doc),
{
    let mut s: String = "<?xml version=\"1.0\" encoding=\"UTF-8\"?>\n<document>\n".to_owned();
    s.append(write_element("  <file>", doc.display_path.as_str(), "</file>\n").as_str());
    s.append(write_element("  <title>", doc.title.as_str(), "</title>\n").as_str());
    s.append(write_optional("  <context>", &doc.context, "</context>\n").as_str());
    s.append(write_element("  <hash>", doc.hash.as_str(), "</hash>\n").as_str());
    s.append(
        write_element("  <modifiedAt>", doc.modified_at.as_str(), "</modifiedAt>\n").as_str(),
    );
    s.append("  <bodyLength>");
    s.append(decimal_of(doc.body_length as u128).as_str());
    s.append("</bodyLength>\n");
    s.append(write_optional("  <body>", &doc.body, "</body>\n").as_str());
    s.append("</document>");
    s
}

/// A document in a format: JSON and XML as such, any other as Markdown.
pub fn format_document(doc: &DocumentResult, format: OutputFormat) -> (s: String)
    ensures
        s@ == match format {
            OutputFormat::Json => json_or(json::pretty(json::DocumentModel::Object(document_object(*doc))), "{}"@),
            OutputFormat::Xml => document_xml(*doc),
            _ => document_md(*doc),
        },
{
    match format {
        OutputFormat::Json => document_to_json(doc),
        OutputFormat::Xml => document_to_xml(doc),
        _ => document_to_md(doc),
    }
}

// Laws.

/// What a reader of CSV takes from the inside of a quoted field: each pair of double quotes is
/// one.
pub open spec fn undoubled(s: Seq<char>) -> Seq<char>
    decreases s.len(),
{
    if s.len() == 0 {
        Seq::empty()
    } else if s.len() >= 2 && s.last() == '"' && s[s.len() - 2] == '"' {
        undoubled(s.take(s.len() - 2)).push('"')
    } else {
        undoubled(s.drop_last()).push(s.last())
    }
}

/// What a reader of CSV takes from a field.
pub open spec fn csv_value(field: Seq<char>) -> Seq<char> {
    if field.len() >= 2 && field[0] == '"' {
        undoubled(field.subrange(1, field.len() - 1))
    } else {
        field
    }
}

proof fn lemma_undoubled(s: Seq<char>)
    ensures
        undoubled(doubled_quotes(s)) == s,
    decreases s.len(),
{
    reveal_strlit("\"\"");
    if s.len() > 0 {
        let before = s.drop_last();
        lemma_undoubled(before);
        let d = doubled_quotes(before);
        assert(s =~= before.push(s.last()));
        if s.last() == '"' {
            let e = d + "\"\""@;
            assert(e.take(e.len() - 2) =~= d);
            assert(e.last() == '"' && e[e.len() - 2] == '"');
        } else {
            let e = d.push(s.last());
            assert(e.drop_last() =~= d);
        }
    }
}

/// A CSV field keeps its value: a reader gets back the text that was written.
pub proof fn law_csv_keeps_the_value(s: Seq<char>)
    ensures
        csv_value(csv_field(s)) == s,
{
    reveal_strlit("\"");
    let f = csv_field(s);
    if s.contains(',') || s.contains('"') || s.contains('\n') {
        lemma_undoubled(s);
        assert(f.subrange(1, f.len() - 1) =~= doubled_quotes(s));
    } else if s.len() >= 2 {
        assert(s[0] != '"') by {
            if s[0] == '"' {
                assert(s.contains('"'));
            }
        }
    }
}

/// Escaped text holds no character that ends an element or an attribute.
pub proof fn law_escaped_xml_has_no_markup(s: Seq<char>)
    ensures
        forall|i: int|
            0 <= i < xml_text(s).len() ==> (#[trigger] xml_text(s)[i]) != '<' && xml_text(s)[i]
                != '>' && xml_text(s)[i] != '"' && xml_text(s)[i] != '\'',
    decreases s.len(),
{
    reveal_strlit("&amp;");
    reveal_strlit("&lt;");
    reveal_strlit("&gt;");
    reveal_strlit("&quot;");
    reveal_strlit("&apos;");
    if s.len() > 0 {
        law_escaped_xml_has_no_markup(s.drop_last());
        let before = xml_text(s.drop_last());
        let last = xml_char(s.last());
        assert forall|i: int| 0 <= i < last.len() implies (#[trigger] last[i]) != '<' && last[i]
            != '>' && last[i] != '"' && last[i] != '\'' by {}
        assert forall|i: int| 0 <= i < xml_text(s).len() implies (#[trigger] xml_text(s)[i]) != '<'
            && xml_text(s)[i] != '>' && xml_text(s)[i] != '"' && xml_text(s)[i] != '\'' by {
            if i < before.len() {
                assert(xml_text(s)[i] == before[i]);
            } else {
                assert(xml_text(s)[i] == last[i - before.len()]);
            }
        }
    }
}

/// A body that has no more lines than allowed is written whole.
pub proof fn law_short_bodies_are_whole(body: Seq<char>, max: Option<usize>)
    requires
        max is None || search::split_on(body, '\n').len() <= max->0,
    ensures
        truncated(body, max) == body,
{
}

/// The note on lines that are left out.
pub open spec fn lines_left_out(n: nat) -> Seq<char> {
    "[... truncated "@ + number::decimal(n) + " more lines]"@
}

/// A body with more lines than allowed is shown as its first lines, then an empty line, then a
/// note with the number of the other lines. Nothing else of it is shown.
pub proof fn law_long_bodies_are_cut(body: Seq<char>, max: usize)
    requires
        0 < max < search::split_on(body, '\n').len(),
    ensures
        search::split_on(truncated(body, Some(max)), '\n') == search::split_on(body, '\n').take(
            max as int,
        ).push(Seq::empty()).push(
            lines_left_out((search::split_on(body, '\n').len() - max) as nat),
        ),
{
    reveal_strlit("\n");
    reveal_strlit("\n\n[... truncated ");
    reveal_strlit("[... truncated ");
    reveal_strlit(" more lines]");
    let lines = search::split_on(body, '\n');
    let left = (lines.len() - max) as nat;
    let first = lines.take(max as int);
    let with_empty = first.push(Seq::empty());
    let parts = with_empty.push(lines_left_out(left));
    assert("\n"@ =~= seq!['\n']);
    search::law_pieces_hold_no_separator(body, '\n');
    number::law_numeral_stands_for_its_number(left);
    let note = lines_left_out(left);
    let d = number::decimal(left);
    assert(!note.contains('\n')) by {
        if note.contains('\n') {
            let k = choose|k: int| 0 <= k < note.len() && note[k] == '\n';
            let (a, b) = ("[... truncated "@, " more lines]"@);
            if k < a.len() {
                assert(a[k] == '\n');
            } else if k < a.len() + d.len() {
                assert(d[k - a.len()] == '\n');
                assert(number::is_digit(d[k - a.len()]));
            } else {
                assert(b[k - a.len() - d.len()] == '\n');
            }
        }
    }
    assert forall|i: int| 0 <= i < parts.len() implies !(#[trigger] parts[i]).contains('\n') by {
        if i < first.len() {
            assert(parts[i] == lines[i]);
        }
    }
    search::law_split_undoes_join(parts, '\n', "\n"@);
    assert(parts.drop_last() =~= with_empty);
    assert(with_empty.drop_last() =~= first);
    reveal_with_fuel(chars::joined, 3);
    assert(chars::joined(parts, "\n"@) == chars::joined(first, "\n"@) + "\n"@ + Seq::<char>::empty()
        + "\n"@ + note);
    assert("\n\n[... truncated "@ =~= "\n"@ + "\n"@ + "[... truncated "@);
    assert(truncated(body, Some(max)) =~= chars::joined(parts, "\n"@));
}

/// Where no line is allowed, the note alone is shown.
pub proof fn law_no_line_allowed_shows_the_note(body: Seq<char>)
    ensures
        truncated(body, Some(0)) == "\n\n"@ + lines_left_out(search::split_on(body, '\n').len()),
{
    reveal_strlit("\n\n");
    reveal_strlit("\n\n[... truncated ");
    reveal_strlit("[... truncated ");
    search::lemma_split_nonempty(body, '\n');
    assert("\n\n[... truncated "@ =~= "\n\n"@ + "[... truncated "@);
    let lines = search::split_on(body, '\n');
    assert(lines.take(0).len() == 0);
    assert(truncated(body, Some(0)) =~= "\n\n"@ + lines_left_out(lines.len()));
}

/// The text that stands for a body of which `max` lines are allowed: the body where it has no
/// more, and else its first lines and the note on the others.
pub open spec fn is_cut(shown: Seq<char>, body: Seq<char>, max: usize) -> bool {
    let lines = search::split_on(body, '\n');
    if lines.len() <= max {
        shown == body
    } else {
        shown == chars::joined(lines.take(max as int), "\n"@) + "\n\n"@ + lines_left_out(
            (lines.len() - max) as nat,
        )
    }
}

/// Whether `b` is the document `a` with a body that is cut to `max` lines.
pub open spec fn is_document_cut(b: MultiGetResult, a: MultiGetResult, max: usize) -> bool {
    match (b, a) {
        (MultiGetResult::Found(d), MultiGetResult::Found(e)) => {
            &&& d.filepath@ == e.filepath@
            &&& d.display_path@ == e.display_path@
            &&& d.title@ == e.title@
            &&& chars::opt_string(d.context) == chars::opt_string(e.context)
            &&& is_cut(chars::text_or_empty(d.body), chars::text_or_empty(e.body), max)
        },
        (MultiGetResult::Skipped { .. }, MultiGetResult::Skipped { .. }) => b == a,
        _ => false,
    }
}

proof fn lemma_cut_body(shown: Seq<char>, body: Seq<char>, max: usize)
    requires
        is_cut(shown, body, max),
    ensures
        shown == truncated(body, Some(max)),
        shown == truncated(shown, None),
{
    reveal_strlit("\n\n");
    reveal_strlit("\n\n[... truncated ");
    reveal_strlit("[... truncated ");
    assert("\n\n[... truncated "@ =~= "\n\n"@ + "[... truncated "@);
    assert(shown =~= truncated(body, Some(max)));
}

proof fn lemma_cut_object(b: MultiGetResult, a: MultiGetResult, max: usize)
    requires
        is_document_cut(b, a, max),
    ensures
        multi_get_object(b, None) == multi_get_object(a, Some(max)),
{
    match (b, a) {
        (MultiGetResult::Found(d), MultiGetResult::Found(e)) => {
            lemma_cut_body(body_of(d), body_of(e), max);
            assert(title(d) == title(e));
        },
        _ => {},
    }
}

proof fn lemma_cut_lines(b: MultiGetResult, a: MultiGetResult, max: usize)
    requires
        is_document_cut(b, a, max),
    ensures
        csv_line(b, None) == csv_line(a, Some(max)),
        files_line(b) == files_line(a),
{
    match (b, a) {
        (MultiGetResult::Found(d), MultiGetResult::Found(e)) => {
            lemma_cut_body(body_of(d), body_of(e), max);
            assert(title(d) == title(e));
        },
        _ => {},
    }
}

proof fn lemma_cut_md(b: MultiGetResult, a: MultiGetResult, max: usize)
    requires
        is_document_cut(b, a, max),
    ensures
        md_section(b, None) == md_section(a, Some(max)),
{
    match (b, a) {
        (MultiGetResult::Found(d), MultiGetResult::Found(e)) => {
            lemma_cut_body(body_of(d), body_of(e), max);
            assert(title(d) == title(e));
        },
        _ => {},
    }
}

proof fn lemma_cut_xml(b: MultiGetResult, a: MultiGetResult, max: usize)
    requires
        is_document_cut(b, a, max),
    ensures
        xml_document(b, None) == xml_document(a, Some(max)),
{
    match (b, a) {
        (MultiGetResult::Found(d), MultiGetResult::Found(e)) => {
            lemma_cut_body(body_of(d), body_of(e), max);
            assert(title(d) == title(e));
        },
        _ => {},
    }
}

proof fn lemma_cut_cli(b: MultiGetResult, a: MultiGetResult, max: usize)
    requires
        is_document_cut(b, a, max),
    ensures
        cli_section(b, None) == cli_section(a, Some(max)),
{
    match (b, a) {
        (MultiGetResult::Found(d), MultiGetResult::Found(e)) => {
            lemma_cut_body(body_of(d), body_of(e), max);
            assert(title(d) == title(e));
        },
        _ => {},
    }
}

/// In every format, the terminal's with the others, a limit on the lines shows what documents
/// with bodies cut to that many lines show without a limit.
pub proof fn law_limit_cuts_bodies_in_every_format(
    results: Seq<MultiGetResult>,
    cut: Seq<MultiGetResult>,
    max: usize,
    format: OutputFormat,
)
    requires
        cut.len() == results.len(),
        forall|i: int| 0 <= i < cut.len() ==> is_document_cut(#[trigger] cut[i], results[i], max),
    ensures
        multi_get_text(results, Some(max), format) == multi_get_text(cut, None, format),
{
    assert forall|i: int| 0 <= i < cut.len() implies #[trigger] multi_get_object(cut[i], None)
        == multi_get_object(results[i], Some(max)) by {
        lemma_cut_object(cut[i], results[i], max);
    }
    assert forall|i: int| 0 <= i < cut.len() implies #[trigger] csv_line(cut[i], None) == csv_line(
        results[i],
        Some(max),
    ) by {
        lemma_cut_lines(cut[i], results[i], max);
    }
    assert forall|i: int| 0 <= i < cut.len() implies #[trigger] md_section(cut[i], None)
        == md_section(results[i], Some(max)) by {
        lemma_cut_md(cut[i], results[i], max);
    }
    assert forall|i: int| 0 <= i < cut.len() implies #[trigger] xml_document(cut[i], None)
        == xml_document(results[i], Some(max)) by {
        lemma_cut_xml(cut[i], results[i], max);
    }
    assert forall|i: int| 0 <= i < cut.len() implies #[trigger] cli_section(cut[i], None)
        == cli_section(results[i], Some(max)) by {
        lemma_cut_cli(cut[i], results[i], max);
    }
    assert forall|i: int| 0 <= i < cut.len() implies #[trigger] files_line(cut[i]) == files_line(
        results[i],
    ) by {
        lemma_cut_lines(cut[i], results[i], max);
    }
    assert(multi_get_objects(results, Some(max)) =~= multi_get_objects(cut, None));
    assert(csv_lines(results, Some(max)) =~= csv_lines(cut, None));
    assert(md_sections(results, Some(max)) =~= md_sections(cut, None));
    assert(xml_documents(results, Some(max)) =~= xml_documents(cut, None));
    assert(cli_sections(results, Some(max)) =~= cli_sections(cut, None));
    assert(files_lines(results) =~= files_lines(cut));
}

/// A batch is written document by document: what is written for two batches one after the other
/// is what is written for each, one after the other, behind one head.
pub proof fn law_batches_are_written_in_order(
    a: Seq<MultiGetResult>,
    b: Seq<MultiGetResult>,
    max: Option<usize>,
    format: OutputFormat,
)
    requires
        format is Cli || format is Md || format is Files || format is Csv,
    ensures
        multi_get_text(a + b, max, format) == multi_get_text(a, max, format) + multi_get_text(
            b,
            max,
            format,
        ).skip(multi_get_text(Seq::empty(), max, format).len() as int),
{
    let none = Seq::<MultiGetResult>::empty();
    assert(cli_sections(a + b, max) =~= cli_sections(a, max) + cli_sections(b, max));
    chars::lemma_concatenated_add(cli_sections(a, max), cli_sections(b, max));
    assert(md_sections(a + b, max) =~= md_sections(a, max) + md_sections(b, max));
    chars::lemma_concatenated_add(md_sections(a, max), md_sections(b, max));
    assert(files_lines(a + b) =~= files_lines(a) + files_lines(b));
    chars::lemma_concatenated_add(files_lines(a), files_lines(b));
    assert(csv_lines(a + b, max) =~= csv_lines(a, max) + csv_lines(b, max));
    chars::lemma_concatenated_add(csv_lines(a, max), csv_lines(b, max));
    assert(cli_sections(none, max).len() == 0);
    assert(md_sections(none, max).len() == 0);
    assert(files_lines(none).len() == 0);
    assert(csv_lines(none, max).len() == 0);
    let s = multi_get_text(b, max, format);
    let head = multi_get_text(none, max, format);
    match format {
        OutputFormat::Csv => {
            let lines = chars::concatenated(csv_lines(b, max));
            assert(head =~= "file,title,context,skipped,body\n"@);
            assert(s.skip(head.len() as int) =~= lines);
        },
        _ => {
            assert(head.len() == 0);
            assert(s.skip(0) =~= s);
        },
    }
    assert(multi_get_text(a + b, max, format) =~= multi_get_text(a, max, format) + s.skip(
        head.len() as int,
    ));
}

proof fn lemma_cli_name(filepath: Seq<char>)
    ensures
        search::holds_text(
            "\n"@ + file_rule() + "\nFile: "@ + filepath + "\n"@,
            "File: "@ + filepath + "\n"@,
        ),
{
    reveal_strlit("\nFile: ");
    reveal_strlit("File: ");
    let feed = seq!['\n'];
    assert("\nFile: "@ =~= feed + "File: "@);
    let none = Seq::<char>::empty();
    let name = "File: "@ + filepath + "\n"@;
    let before = "\n"@ + file_rule() + feed;
    assert("\n"@ + file_rule() + "\nFile: "@ + filepath + "\n"@ =~= before + name + none);
    search::lemma_holds_between(before, name, none);
}

proof fn lemma_cli_found(doc: DocumentResult, max: Option<usize>)
    ensures
        search::holds_text(
            cli_section(MultiGetResult::Found(doc), max),
            "File: "@ + doc.filepath@ + "\n"@,
        ),
        search::holds_text(
            cli_section(MultiGetResult::Found(doc), max),
            truncated(body_of(doc), max),
        ),
        doc.context matches Some(c) ==> search::holds_text(
            cli_section(MultiGetResult::Found(doc), max),
            c@,
        ),
{
    let name = "File: "@ + doc.filepath@ + "\n"@;
    let top = "\n"@ + file_rule() + "\nFile: "@ + doc.filepath@ + "\n"@;
    let rule = top + file_rule() + "\n\n"@;
    let context = wrapped("Folder Context: "@, doc.context, "\n---\n\n"@);
    let body = truncated(body_of(doc), max);
    lemma_cli_name(doc.filepath@);
    search::lemma_holds_longer(top, file_rule(), name);
    search::lemma_holds_longer(top + file_rule(), "\n\n"@, name);
    search::lemma_holds_longer(rule, context, name);
    search::lemma_holds_longer(rule + context, body, name);
    search::lemma_holds_longer(rule + context + body, "\n"@, name);
    search::lemma_holds_between(rule + context, body, "\n"@);
    if let Some(c) = doc.context {
        search::lemma_holds_between("Folder Context: "@, c@, "\n---\n\n"@);
        search::lemma_holds_between(rule, context, body);
        search::lemma_holds_through(rule + context + body, context, c@);
        search::lemma_holds_longer(rule + context + body, "\n"@, c@);
    }
}

/// A terminal shows of each document that was found its path, its context and, where lines are
/// not limited, its body; of each that was left out its path and the reason.
pub proof fn law_terminal_shows_every_document(
    results: Seq<MultiGetResult>,
    i: int,
    max: Option<usize>,
)
    requires
        0 <= i < results.len(),
    ensures
        results[i] matches MultiGetResult::Found(doc) ==> {
            let s = multi_get_text(results, max, OutputFormat::Cli);
            &&& search::holds_text(s, "File: "@ + doc.filepath@ + "\n"@)
            &&& doc.context matches Some(c) ==> search::holds_text(s, c@)
            &&& max is None ==> search::holds_text(s, chars::text_or_empty(doc.body))
        },
        results[i] matches MultiGetResult::Skipped { filepath, skip_reason, .. } ==> {
            let s = multi_get_text(results, max, OutputFormat::Cli);
            &&& search::holds_text(s, "File: "@ + filepath@ + "\n"@)
            &&& search::holds_text(s, skip_reason@)
        },
{
    let s = multi_get_text(results, max, OutputFormat::Cli);
    let part = cli_section(results[i], max);
    search::lemma_concatenated_holds(cli_sections(results, max), i);
    assert(cli_sections(results, max)[i] == part);
    match results[i] {
        MultiGetResult::Found(doc) => {
            lemma_cli_found(doc, max);
            search::lemma_holds_through(s, part, "File: "@ + doc.filepath@ + "\n"@);
            search::lemma_holds_through(s, part, truncated(body_of(doc), max));
            if let Some(c) = doc.context {
                search::lemma_holds_through(s, part, c@);
            }
        },
        MultiGetResult::Skipped { filepath, display_path, skip_reason } => {
            let top = "\n"@ + file_rule() + "\nFile: "@ + filepath@ + "\n"@;
            let reason = top + file_rule() + "\n\n[SKIPPED: "@;
            let name = "File: "@ + filepath@ + "\n"@;
            lemma_cli_name(filepath@);
            search::lemma_holds_longer(top, file_rule(), name);
            search::lemma_holds_longer(top + file_rule(), "\n\n[SKIPPED: "@, name);
            search::lemma_holds_longer(reason, skip_reason@, name);
            search::lemma_holds_longer(reason + skip_reason@, "]\n"@, name);
            search::lemma_holds_between(reason, skip_reason@, "]\n"@);
            search::lemma_holds_through(s, part, name);
            search::lemma_holds_through(s, part, skip_reason@);
        },
    }
}

proof fn lemma_md_found(doc: DocumentResult, max: Option<usize>)
    ensures
        search::holds_text(
            md_section(MultiGetResult::Found(doc), max),
            "## "@ + doc.filepath@ + "\n\n"@,
        ),
        search::holds_text(md_section(MultiGetResult::Found(doc), max), truncated(body_of(doc), max)),
        title(doc) != doc.filepath@ ==> search::holds_text(
            md_section(MultiGetResult::Found(doc), max),
            title(doc),
        ),
        doc.context matches Some(c) ==> search::holds_text(
            md_section(MultiGetResult::Found(doc), max),
            c@,
        ),
{
    let none = Seq::<char>::empty();
    let top = "## "@ + doc.filepath@ + "\n\n"@;
    let heading = if title(doc) != doc.filepath@ {
        "**Title:** "@ + title(doc) + "\n\n"@
    } else {
        ""@
    };
    let context = match doc.context {
        Some(c) => "**Context:** "@ + c@ + "\n\n"@,
        None => ""@,
    };
    let body = truncated(body_of(doc), max);
    let end = "\n```\n\n"@;
    let fence = top + heading + context + "```\n"@;
    assert(top =~= none + top + none);
    search::lemma_holds_between(none, top, none);
    search::lemma_holds_longer(top, heading, top);
    search::lemma_holds_longer(top + heading, context, top);
    search::lemma_holds_longer(top + heading + context, "```\n"@, top);
    search::lemma_holds_longer(fence, body, top);
    search::lemma_holds_longer(fence + body, end, top);
    search::lemma_holds_between(fence, body, end);
    if title(doc) != doc.filepath@ {
        search::lemma_holds_between("**Title:** "@, title(doc), "\n\n"@);
        search::lemma_holds_between(top, heading, context);
        search::lemma_holds_through(top + heading + context, heading, title(doc));
        search::lemma_holds_longer(top + heading + context, "```\n"@, title(doc));
        search::lemma_holds_longer(fence, body, title(doc));
        search::lemma_holds_longer(fence + body, end, title(doc));
    }
    if let Some(c) = doc.context {
        search::lemma_holds_between("**Context:** "@, c@, "\n\n"@);
        search::lemma_holds_between(top + heading, context, "```\n"@);
        search::lemma_holds_through(fence, context, c@);
        search::lemma_holds_longer(fence, body, c@);
        search::lemma_holds_longer(fence + body, end, c@);
    }
}

/// Markdown shows of each document that was found its path, its context and, where lines are
/// not limited, its body; of each that was left out its path and the reason.
pub proof fn law_markdown_shows_every_document(
    results: Seq<MultiGetResult>,
    i: int,
    max: Option<usize>,
)
    requires
        0 <= i < results.len(),
    ensures
        results[i] matches MultiGetResult::Found(doc) ==> {
            let s = multi_get_text(results, max, OutputFormat::Md);
            &&& search::holds_text(s, "## "@ + doc.filepath@ + "\n\n"@)
            &&& title(doc) != doc.filepath@ ==> search::holds_text(s, title(doc))
            &&& doc.context matches Some(c) ==> search::holds_text(s, c@)
            &&& max is None ==> search::holds_text(s, chars::text_or_empty(doc.body))
        },
        results[i] matches MultiGetResult::Skipped { filepath, skip_reason, .. } ==> {
            let s = multi_get_text(results, max, OutputFormat::Md);
            &&& search::holds_text(s, "## "@ + filepath@ + "\n\n"@)
            &&& search::holds_text(s, skip_reason@)
        },
{
    let s = multi_get_text(results, max, OutputFormat::Md);
    let part = md_section(results[i], max);
    search::lemma_concatenated_holds(md_sections(results, max), i);
    assert(md_sections(results, max)[i] == part);
    match results[i] {
        MultiGetResult::Found(doc) => {
            lemma_md_found(doc, max);
            search::lemma_holds_through(s, part, "## "@ + doc.filepath@ + "\n\n"@);
            search::lemma_holds_through(s, part, truncated(body_of(doc), max));
            if title(doc) != doc.filepath@ {
                search::lemma_holds_through(s, part, title(doc));
            }
            if let Some(c) = doc.context {
                search::lemma_holds_through(s, part, c@);
            }
        },
        MultiGetResult::Skipped { filepath, display_path, skip_reason } => {
            reveal_strlit("\n\n> ");
            reveal_strlit("\n\n");
            reveal_strlit("> ");
            assert("\n\n> "@ =~= "\n\n"@ + "> "@);
            let top = "## "@ + filepath@ + "\n\n"@;
            let none = Seq::<char>::empty();
            assert("## "@ + filepath@ + "\n\n> "@ =~= none + top + "> "@);
            search::lemma_holds_between(none, top, "> "@);
            search::lemma_holds_longer("## "@ + filepath@ + "\n\n> "@, skip_reason@, top);
            search::lemma_holds_longer(
                "## "@ + filepath@ + "\n\n> "@ + skip_reason@,
                "\n\n"@,
                top,
            );
            search::lemma_holds_between(
                "## "@ + filepath@ + "\n\n> "@,
                skip_reason@,
                "\n\n"@,
            );
            search::lemma_holds_through(s, part, top);
            search::lemma_holds_through(s, part, skip_reason@);
        },
    }
}

proof fn lemma_xml_found(doc: DocumentResult, max: Option<usize>)
    ensures
        ({
            let s = xml_document(MultiGetResult::Found(doc), max);
            &&& search::holds_text(s, "    <file>"@ + xml_text(doc.filepath@) + "</file>\n"@)
            &&& search::holds_text(s, "    <title>"@ + xml_text(title(doc)) + "</title>\n"@)
            &&& doc.context matches Some(c) ==> search::holds_text(
                s,
                "    <context>"@ + xml_text(c@) + "</context>\n"@,
            )
            &&& search::holds_text(
                s,
                "    <body>"@ + xml_text(truncated(body_of(doc), max)) + "</body>\n"@,
            )
        }),
{
    let file = xml_element("    <file>"@, doc.filepath@, "</file>\n"@);
    let heading = xml_element("    <title>"@, title(doc), "</title>\n"@);
    let context = xml_optional("    <context>"@, doc.context, "</context>\n"@);
    let body = xml_element("    <body>"@, truncated(body_of(doc), max), "</body>\n"@);
    let end = "  </document>\n"@;
    let a = "  <document>\n"@;
    search::lemma_holds_between(a, file, heading);
    search::lemma_holds_longer(a + file + heading, context, file);
    search::lemma_holds_longer(a + file + heading + context, body, file);
    search::lemma_holds_longer(a + file + heading + context + body, end, file);
    search::lemma_holds_between(a + file, heading, context);
    search::lemma_holds_longer(a + file + heading + context, body, heading);
    search::lemma_holds_longer(a + file + heading + context + body, end, heading);
    search::lemma_holds_between(a + file + heading, context, body);
    search::lemma_holds_longer(a + file + heading + context + body, end, context);
    search::lemma_holds_between(a + file + heading + context, body, end);
}

proof fn lemma_xml_skipped(r: MultiGetResult, max: Option<usize>)
    ensures
        r matches MultiGetResult::Skipped { filepath, skip_reason, .. } ==> {
            let s = xml_document(r, max);
            &&& search::holds_text(s, "    <file>"@ + xml_text(filepath@) + "</file>\n"@)
            &&& search::holds_text(s, "    <reason>"@ + xml_text(skip_reason@) + "</reason>\n"@)
        },
{
    if let MultiGetResult::Skipped { filepath, display_path, skip_reason } = r {
        let file = xml_element("    <file>"@, filepath@, "</file>\n"@);
        let flag = "    <skipped>true</skipped>\n"@;
        let reason = xml_element("    <reason>"@, skip_reason@, "</reason>\n"@);
        let end = "  </document>\n"@;
        let a = "  <document>\n"@;
        search::lemma_holds_between(a, file, flag);
        search::lemma_holds_longer(a + file + flag, reason, file);
        search::lemma_holds_longer(a + file + flag + reason, end, file);
        search::lemma_holds_between(a + file + flag, reason, end);
    }
}

/// XML holds, for each document that was found, elements with its path, its title, its context
/// and, where lines are not limited, its body; for each that was left out elements with its path
/// and the reason.
pub proof fn law_xml_holds_every_document(
    results: Seq<MultiGetResult>,
    i: int,
    max: Option<usize>,
)
    requires
        0 <= i < results.len(),
    ensures
        results[i] matches MultiGetResult::Found(doc) ==> {
            let s = multi_get_text(results, max, OutputFormat::Xml);
            &&& search::holds_text(s, "    <file>"@ + xml_text(doc.filepath@) + "</file>\n"@)
            &&& search::holds_text(s, "    <title>"@ + xml_text(title(doc)) + "</title>\n"@)
            &&& doc.context matches Some(c) ==> search::holds_text(
                s,
                "    <context>"@ + xml_text(c@) + "</context>\n"@,
            )
            &&& max is None ==> search::holds_text(
                s,
                "    <body>"@ + xml_text(chars::text_or_empty(doc.body)) + "</body>\n"@,
            )
        },
        results[i] matches MultiGetResult::Skipped { filepath, skip_reason, .. } ==> {
            let s = multi_get_text(results, max, OutputFormat::Xml);
            &&& search::holds_text(s, "    <file>"@ + xml_text(filepath@) + "</file>\n"@)
            &&& search::holds_text(s, "    <reason>"@ + xml_text(skip_reason@) + "</reason>\n"@)
        },
{
    let s = multi_get_text(results, max, OutputFormat::Xml);
    let inner = chars::concatenated(xml_documents(results, max));
    let part = xml_document(results[i], max);
    search::lemma_concatenated_holds(xml_documents(results, max), i);
    assert(xml_documents(results, max)[i] == part);
    search::lemma_holds_between(
        "<?xml version=\"1.0\" encoding=\"UTF-8\"?>\n<documents>\n"@,
        inner,
        "</documents>\n"@,
    );
    search::lemma_holds_through(s, inner, part);
    match results[i] {
        MultiGetResult::Found(doc) => {
            lemma_xml_found(doc, max);
            search::lemma_holds_through(
                s,
                part,
                "    <file>"@ + xml_text(doc.filepath@) + "</file>\n"@,
            );
            search::lemma_holds_through(
                s,
                part,
                "    <title>"@ + xml_text(title(doc)) + "</title>\n"@,
            );
            search::lemma_holds_through(
                s,
                part,
                "    <body>"@ + xml_text(truncated(body_of(doc), max)) + "</body>\n"@,
            );
            if let Some(c) = doc.context {
                search::lemma_holds_through(
                    s,
                    part,
                    "    <context>"@ + xml_text(c@) + "</context>\n"@,
                );
            }
        },
        MultiGetResult::Skipped { filepath, display_path, skip_reason } => {
            lemma_xml_skipped(results[i], max);
            search::lemma_holds_through(
                s,
                part,
                "    <file>"@ + xml_text(filepath@) + "</file>\n"@,
            );
            search::lemma_holds_through(
                s,
                part,
                "    <reason>"@ + xml_text(skip_reason@) + "</reason>\n"@,
            );
        },
    }
}

/// CSV has a line for each document: for one that was found its path, its title, its context and,
/// where lines are not limited, its body, each so that a reader gets it back; for one that was
/// left out its path and the reason.
pub proof fn law_csv_line_holds_the_document(r: MultiGetResult, max: Option<usize>)
    ensures
        r matches MultiGetResult::Found(doc) ==> exists|fields: Seq<Seq<char>>|
            {
                &&& csv_line(r, max) == #[trigger] chars::joined(fields, ","@) + "\n"@
                &&& fields.len() == 5
                &&& csv_value(fields[0]) == doc.filepath@
                &&& csv_value(fields[1]) == title(doc)
                &&& csv_value(fields[2]) == chars::text_or_empty(doc.context)
                &&& fields[3] == "false"@
                &&& max is None ==> csv_value(fields[4]) == chars::text_or_empty(doc.body)
            },
        r matches MultiGetResult::Skipped { filepath, display_path, skip_reason } ==> exists|
            fields: Seq<Seq<char>>,
        |
            {
                &&& csv_line(r, max) == #[trigger] chars::joined(fields, ","@) + "\n"@
                &&& fields.len() == 5
                &&& csv_value(fields[0]) == filepath@
                &&& csv_value(fields[1]) == search::after_last(display_path@, '/')
                &&& fields[2] == ""@
                &&& fields[3] == "true"@
                &&& csv_value(fields[4]) == skip_reason@
            },
{
    reveal_strlit(",");
    match r {
        MultiGetResult::Found(doc) => {
            let fields = seq![
                csv_field(doc.filepath@),
                csv_field(title(doc)),
                csv_field(chars::text_or_empty(doc.context)),
                "false"@,
                csv_field(truncated(body_of(doc), max)),
            ];
            law_csv_keeps_the_value(doc.filepath@);
            law_csv_keeps_the_value(title(doc));
            law_csv_keeps_the_value(chars::text_or_empty(doc.context));
            law_csv_keeps_the_value(truncated(body_of(doc), max));
            reveal_strlit(",false,");
            reveal_strlit("false");
            assert(",false,"@ =~= ","@ + "false"@ + ","@);
            lemma_joined_five(fields);
            assert(csv_line(r, max) =~= chars::joined(fields, ","@) + "\n"@);
        },
        MultiGetResult::Skipped { filepath, display_path, skip_reason } => {
            let fields = seq![
                csv_field(filepath@),
                csv_field(search::after_last(display_path@, '/')),
                ""@,
                "true"@,
                csv_field(skip_reason@),
            ];
            law_csv_keeps_the_value(filepath@);
            law_csv_keeps_the_value(search::after_last(display_path@, '/'));
            law_csv_keeps_the_value(skip_reason@);
            reveal_strlit(",,true,");
            reveal_strlit("true");
            reveal_strlit("");
            assert(",,true,"@ =~= ","@ + ""@ + ","@ + "true"@ + ","@);
            lemma_joined_five(fields);
            assert(csv_line(r, max) =~= chars::joined(fields, ","@) + "\n"@);
        },
    }
}

proof fn lemma_joined_five(f: Seq<Seq<char>>)
    requires
        f.len() == 5,
    ensures
        chars::joined(f, ","@) == f[0] + ","@ + f[1] + ","@ + f[2] + ","@ + f[3] + ","@ + f[4],
{
    reveal_with_fuel(chars::joined, 5);
}

/// What a reader of XML takes from a text: each entity is the character that it names.
pub open spec fn xml_read(s: Seq<char>) -> Seq<char>
    decreases s.len(),
{
    if s.len() == 0 {
        Seq::empty()
    } else if s.len() >= 5 && search::begins_with(s, "&amp;"@) {
        seq!['&'] + xml_read(s.skip(5))
    } else if s.len() >= 4 && search::begins_with(s, "&lt;"@) {
        seq!['<'] + xml_read(s.skip(4))
    } else if s.len() >= 4 && search::begins_with(s, "&gt;"@) {
        seq!['>'] + xml_read(s.skip(4))
    } else if s.len() >= 6 && search::begins_with(s, "&quot;"@) {
        seq!['"'] + xml_read(s.skip(6))
    } else if s.len() >= 6 && search::begins_with(s, "&apos;"@) {
        seq!['\''] + xml_read(s.skip(6))
    } else {
        seq![s[0]] + xml_read(s.skip(1))
    }
}

proof fn lemma_xml_first(s: Seq<char>)
    requires
        s.len() > 0,
    ensures
        xml_text(s) == xml_char(s[0]) + xml_text(s.skip(1)),
    decreases s.len(),
{
    if s.len() == 1 {
        assert(s.drop_last() =~= Seq::empty());
        assert(s.skip(1) =~= Seq::empty());
        assert(xml_text(s) =~= xml_char(s[0]) + xml_text(s.skip(1)));
    } else {
        lemma_xml_first(s.drop_last());
        assert(s.drop_last().skip(1) =~= s.skip(1).drop_last());
        assert(xml_text(s) =~= xml_char(s[0]) + xml_text(s.skip(1)));
    }
}

proof fn lemma_entity_read(c: char, entity: Seq<char>, rest: Seq<char>)
    requires
        (c, entity) == ('&', "&amp;"@) || (c, entity) == ('<', "&lt;"@) || (c, entity) == (
            '>',
            "&gt;"@,
        ) || (c, entity) == ('"', "&quot;"@) || (c, entity) == ('\'', "&apos;"@),
    ensures
        xml_read(entity + rest) == seq![c] + xml_read(rest),
{
    reveal_strlit("&amp;");
    reveal_strlit("&lt;");
    reveal_strlit("&gt;");
    reveal_strlit("&quot;");
    reveal_strlit("&apos;");
    let s = entity + rest;
    let n = entity.len() as int;
    assert(s.skip(n) =~= rest);
    assert(s.subrange(0, n) =~= entity);
    assert(s[1] == entity[1] && s[2] == entity[2]);
    assert(search::begins_with(s, "&amp;"@) ==> s.subrange(0, 5)[1] == 'a' && s.subrange(0, 5)[2]
        == 'm');
    assert(search::begins_with(s, "&lt;"@) ==> s.subrange(0, 4)[1] == 'l');
    assert(search::begins_with(s, "&gt;"@) ==> s.subrange(0, 4)[1] == 'g');
    assert(search::begins_with(s, "&quot;"@) ==> s.subrange(0, 6)[1] == 'q');
}

/// XML keeps the text: a reader gets back what was written.
pub proof fn law_xml_keeps_the_text(s: Seq<char>)
    ensures
        xml_read(xml_text(s)) == s,
    decreases s.len(),
{
    if s.len() > 0 {
        let c = s[0];
        let rest = xml_text(s.skip(1));
        lemma_xml_first(s);
        law_xml_keeps_the_text(s.skip(1));
        if c == '&' || c == '<' || c == '>' || c == '"' || c == '\'' {
            lemma_entity_read(c, xml_char(c), rest);
        } else {
            reveal_strlit("&amp;");
            reveal_strlit("&lt;");
            reveal_strlit("&gt;");
            reveal_strlit("&quot;");
            reveal_strlit("&apos;");
            let t = seq![c] + rest;
            assert(t.skip(1) =~= rest);
            assert(t[0] == c);
            assert(search::begins_with(t, "&amp;"@) ==> t.subrange(0, 5)[0] == '&');
            assert(search::begins_with(t, "&lt;"@) ==> t.subrange(0, 4)[0] == '&');
            assert(search::begins_with(t, "&gt;"@) ==> t.subrange(0, 4)[0] == '&');
            assert(search::begins_with(t, "&quot;"@) ==> t.subrange(0, 6)[0] == '&');
            assert(search::begins_with(t, "&apos;"@) ==> t.subrange(0, 6)[0] == '&');
        }
        assert(seq![c] + s.skip(1) =~= s);
    } else {
        assert(s =~= Seq::empty());
    }
}

/// JSON has an object for each document, in order, with its path; for one that was found also
/// its title, its context and, where lines are not limited, its body.
pub proof fn law_json_holds_every_document(
    results: Seq<MultiGetResult>,
    i: int,
    max: Option<usize>,
)
    requires
        0 <= i < results.len(),
    ensures
        multi_get_objects(results, max).len() == results.len(),
        results[i] matches MultiGetResult::Found(doc) ==> {
            let o = multi_get_objects(results, max)[i];
            &&& o.contains(("file"@, json::JsonModel::Text(doc.filepath@)))
            &&& doc.title@.len() > 0 ==> o.contains(("title"@, json::JsonModel::Text(doc.title@)))
            &&& doc.context matches Some(c) ==> o.contains(
                ("context"@, json::JsonModel::Text(c@)),
            )
            &&& max is None ==> o.contains(
                ("body"@, json::JsonModel::Text(chars::text_or_empty(doc.body))),
            )
        },
        results[i] matches MultiGetResult::Skipped { filepath, skip_reason, .. } ==> {
            let o = multi_get_objects(results, max)[i];
            &&& o.contains(("file"@, json::JsonModel::Text(filepath@)))
            &&& o.contains(("skipped"@, json::JsonModel::Flag(true)))
            &&& o.contains(("reason"@, json::JsonModel::Text(skip_reason@)))
        },
{
    let o = multi_get_objects(results, max)[i];
    assert(o == multi_get_object(results[i], max));
    match results[i] {
        MultiGetResult::Found(doc) => {
            assert(o[0] == ("file"@, json::JsonModel::Text(doc.filepath@)));
            assert(o[1] == ("title"@, json::JsonModel::Text(title(doc))));
            assert(o[2] == ("body"@, json::JsonModel::Text(truncated(body_of(doc), max))));
            if let Some(c) = doc.context {
                assert(o[3] == ("context"@, json::JsonModel::Text(c@)));
            }
        },
        MultiGetResult::Skipped { filepath, display_path, skip_reason } => {
            assert(o[0] == ("file"@, json::JsonModel::Text(filepath@)));
            assert(o[2] == ("skipped"@, json::JsonModel::Flag(true)));
            assert(o[3] == ("reason"@, json::JsonModel::Text(skip_reason@)));
        },
    }
}

/// A document without a title is shown by the last part of its path.
pub proof fn law_untitled_document_is_shown_by_its_name(doc: DocumentResult)
    ensures
        doc.title@.len() > 0 ==> title(doc) == doc.title@,
        doc.title@.len() == 0 ==> !title(doc).contains('/') && search::ends_in(
            doc.display_path@,
            title(doc),
        ),
        doc.title@.len() == 0 && !doc.display_path@.contains('/') ==> title(doc)
            == doc.display_path@,
{
    search::law_after_last_is_the_last_part(doc.display_path@, '/');
}

/// A format is used where its flag is set and none that goes before it, and the terminal's where
/// no flag is set.
pub proof fn law_first_flag_counts(f: FormatFlags)
    ensures
        format_of(f) is Json <==> f.json,
        format_of(f) is Csv <==> f.csv && !f.json,
        format_of(f) is Md <==> f.md && !f.csv && !f.json,
        format_of(f) is Xml <==> f.xml && !f.md && !f.csv && !f.json,
        format_of(f) is Files <==> f.files && !f.xml && !f.md && !f.csv && !f.json,
        format_of(f) is Cli <==> !f.files && !f.xml && !f.md && !f.csv && !f.json,
{
}

/// JSON holds of a document its path, its title, its hash, its date and its length, and its
/// context and its body where it has them, each under a name of its own, and nothing else.
pub proof fn law_document_object_holds_every_field(doc: DocumentResult)
    ensures
        document_object(doc).contains(("file"@, json::JsonModel::Text(doc.display_path@))),
        document_object(doc).contains(("title"@, json::JsonModel::Text(doc.title@))),
        document_object(doc).contains(("hash"@, json::JsonModel::Text(doc.hash@))),
        document_object(doc).contains(("modifiedAt"@, json::JsonModel::Text(doc.modified_at@))),
        document_object(doc).contains(
            ("bodyLength"@, json::JsonModel::Count(doc.body_length as u64)),
        ),
        doc.context matches Some(c) ==> document_object(doc).contains(
            ("context"@, json::JsonModel::Text(c@)),
        ),
        doc.body matches Some(b) ==> document_object(doc).contains(
            ("body"@, json::JsonModel::Text(b@)),
        ),
        document_object(doc).len() == 5 + (if doc.context is Some {
            1int
        } else {
            0
        }) + (if doc.body is Some {
            1int
        } else {
            0
        }),
{
    let o = document_object(doc);
    assert(o[0] == ("file"@, json::JsonModel::Text(doc.display_path@)));
    assert(o[1] == ("title"@, json::JsonModel::Text(doc.title@)));
    assert(o[2] == ("hash"@, json::JsonModel::Text(doc.hash@)));
    assert(o[3] == ("modifiedAt"@, json::JsonModel::Text(doc.modified_at@)));
    assert(o[4] == ("bodyLength"@, json::JsonModel::Count(doc.body_length as u64)));
    if let Some(c) = doc.context {
        assert(o[5] == ("context"@, json::JsonModel::Text(c@)));
    }
    if let Some(b) = doc.body {
        assert(o[o.len() - 1] == ("body"@, json::JsonModel::Text(b@)));
    }
}

/// Markdown is headed by the title, or by the path where there is none, and holds the path, the
/// date, and the context and the body where there are any.
pub proof fn law_document_markdown_holds_every_field(doc: DocumentResult)
    ensures
        doc.title@.len() > 0 ==> search::begins_with(document_md(doc), "# "@ + doc.title@ + "\n\n"@),
        doc.title@.len() == 0 ==> search::begins_with(
            document_md(doc),
            "# "@ + doc.display_path@ + "\n\n"@,
        ),
        search::holds_text(document_md(doc), "**File:** "@ + doc.display_path@),
        search::holds_text(document_md(doc), "\n**Modified:** "@ + doc.modified_at@ + "\n\n"@),
        doc.context matches Some(c) ==> search::holds_text(
            document_md(doc),
            "**Context:** "@ + c@ + "\n\n"@,
        ),
        doc.body matches Some(b) ==> search::holds_text(
            document_md(doc),
            "---\n\n"@ + b@ + "\n"@,
        ),
{
    let head = if doc.title@.len() == 0 {
        doc.display_path@
    } else {
        doc.title@
    };
    let context = wrapped("**Context:** "@, doc.context, "\n\n"@);
    let body = wrapped("---\n\n"@, doc.body, "\n"@);
    let c0 = "# "@;
    let c1 = c0 + head;
    let c2 = c1 + "\n\n"@;
    let c3 = c2 + context;
    let c4 = c3 + "**File:** "@;
    let c5 = c4 + doc.display_path@;
    let c6 = c5 + "\n**Modified:** "@;
    let c7 = c6 + doc.modified_at@;
    let c8 = c7 + "\n\n"@;
    let c9 = c8 + body;
    search::lemma_holds_behind(c2, context);
    search::lemma_holds_longer(c3, "**File:** "@, context);
    search::lemma_holds_longer(c4, doc.display_path@, context);
    search::lemma_holds_longer(c5, "\n**Modified:** "@, context);
    search::lemma_holds_longer(c6, doc.modified_at@, context);
    search::lemma_holds_longer(c7, "\n\n"@, context);
    search::lemma_holds_longer(c8, body, context);
    search::lemma_holds_two(c3, "**File:** "@, doc.display_path@);
    search::lemma_holds_longer(c5, "\n**Modified:** "@, "**File:** "@ + doc.display_path@);
    search::lemma_holds_longer(c6, doc.modified_at@, "**File:** "@ + doc.display_path@);
    search::lemma_holds_longer(c7, "\n\n"@, "**File:** "@ + doc.display_path@);
    search::lemma_holds_longer(c8, body, "**File:** "@ + doc.display_path@);
    search::lemma_holds_three(c5, "\n**Modified:** "@, doc.modified_at@, "\n\n"@);
    search::lemma_holds_longer(c8, body, "\n**Modified:** "@ + doc.modified_at@ + "\n\n"@);
    search::lemma_holds_behind(c8, body);
    search::lemma_begins_longer(c2, context, c2);
    search::lemma_begins_longer(c3, "**File:** "@, c2);
    search::lemma_begins_longer(c4, doc.display_path@, c2);
    search::lemma_begins_longer(c5, "\n**Modified:** "@, c2);
    search::lemma_begins_longer(c6, doc.modified_at@, c2);
    search::lemma_begins_longer(c7, "\n\n"@, c2);
    search::lemma_begins_longer(c8, body, c2);
}

/// XML holds of a document its path, its title, its hash, its date and its length, and its context
/// and its body where it has them, each in an element of its own.
pub proof fn law_document_xml_holds_every_field(doc: DocumentResult)
    ensures
        search::holds_text(
            document_xml(doc),
            "  <file>"@ + xml_text(doc.display_path@) + "</file>\n"@,
        ),
        search::holds_text(
            document_xml(doc),
            "  <title>"@ + xml_text(doc.title@) + "</title>\n"@,
        ),
        search::holds_text(document_xml(doc), "  <hash>"@ + xml_text(doc.hash@) + "</hash>\n"@),
        search::holds_text(
            document_xml(doc),
            "  <modifiedAt>"@ + xml_text(doc.modified_at@) + "</modifiedAt>\n"@,
        ),
        search::holds_text(
            document_xml(doc),
            "  <bodyLength>"@ + number::decimal(doc.body_length as nat) + "</bodyLength>\n"@,
        ),
        doc.context matches Some(c) ==> search::holds_text(
            document_xml(doc),
            "  <context>"@ + xml_text(c@) + "</context>\n"@,
        ),
        doc.body matches Some(b) ==> search::holds_text(
            document_xml(doc),
            "  <body>"@ + xml_text(b@) + "</body>\n"@,
        ),
{
    let file = xml_element("  <file>"@, doc.display_path@, "</file>\n"@);
    let title = xml_element("  <title>"@, doc.title@, "</title>\n"@);
    let context = xml_optional("  <context>"@, doc.context, "</context>\n"@);
    let hash = xml_element("  <hash>"@, doc.hash@, "</hash>\n"@);
    let modified = xml_element("  <modifiedAt>"@, doc.modified_at@, "</modifiedAt>\n"@);
    let length = number::decimal(doc.body_length as nat);
    let body = xml_optional("  <body>"@, doc.body, "</body>\n"@);
    let c0 = "<?xml version=\"1.0\" encoding=\"UTF-8\"?>\n<document>\n"@;
    let c1 = c0 + file;
    let c2 = c1 + title;
    let c3 = c2 + context;
    let c4 = c3 + hash;
    let c5 = c4 + modified;
    let c6 = c5 + "  <bodyLength>"@;
    let c7 = c6 + length;
    let c8 = c7 + "</bodyLength>\n"@;
    let c9 = c8 + body;
    let c10 = c9 + "</document>"@;
    search::lemma_holds_behind(c0, file);
    search::lemma_holds_longer(c1, title, file);
    search::lemma_holds_longer(c2, context, file);
    search::lemma_holds_longer(c3, hash, file);
    search::lemma_holds_longer(c4, modified, file);
    search::lemma_holds_longer(c5, "  <bodyLength>"@, file);
    search::lemma_holds_longer(c6, length, file);
    search::lemma_holds_longer(c7, "</bodyLength>\n"@, file);
    search::lemma_holds_longer(c8, body, file);
    search::lemma_holds_longer(c9, "</document>"@, file);
    search::lemma_holds_behind(c1, title);
    search::lemma_holds_longer(c2, context, title);
    search::lemma_holds_longer(c3, hash, title);
    search::lemma_holds_longer(c4, modified, title);
    search::lemma_holds_longer(c5, "  <bodyLength>"@, title);
    search::lemma_holds_longer(c6, length, title);
    search::lemma_holds_longer(c7, "</bodyLength>\n"@, title);
    search::lemma_holds_longer(c8, body, title);
    search::lemma_holds_longer(c9, "</document>"@, title);
    search::lemma_holds_behind(c2, context);
    search::lemma_holds_longer(c3, hash, context);
    search::lemma_holds_longer(c4, modified, context);
    search::lemma_holds_longer(c5, "  <bodyLength>"@, context);
    search::lemma_holds_longer(c6, length, context);
    search::lemma_holds_longer(c7, "</bodyLength>\n"@, context);
    search::lemma_holds_longer(c8, body, context);
    search::lemma_holds_longer(c9, "</document>"@, context);
    search::lemma_holds_behind(c3, hash);
    search::lemma_holds_longer(c4, modified, hash);
    search::lemma_holds_longer(c5, "  <bodyLength>"@, hash);
    search::lemma_holds_longer(c6, length, hash);
    search::lemma_holds_longer(c7, "</bodyLength>\n"@, hash);
    search::lemma_holds_longer(c8, body, hash);
    search::lemma_holds_longer(c9, "</document>"@, hash);
    search::lemma_holds_behind(c4, modified);
    search::lemma_holds_longer(c5, "  <bodyLength>"@, modified);
    search::lemma_holds_longer(c6, length, modified);
    search::lemma_holds_longer(c7, "</bodyLength>\n"@, modified);
    search::lemma_holds_longer(c8, body, modified);
    search::lemma_holds_longer(c9, "</document>"@, modified);
    search::lemma_holds_three(c5, "  <bodyLength>"@, length, "</bodyLength>\n"@);
    search::lemma_holds_longer(c8, body, "  <bodyLength>"@ + length + "</bodyLength>\n"@);
    search::lemma_holds_longer(c9, "</document>"@, "  <bodyLength>"@ + length + "</bodyLength>\n"@);
    search::lemma_holds_behind(c8, body);
    search::lemma_holds_longer(c9, "</document>"@, body);
}

/// The name of a file stands between rules of sixty equals signs.
pub proof fn law_rules_are_sixty_wide(i: int)
    requires
        0 <= i < 60,
    ensures
        file_rule().len() == 60,
        file_rule()[i] == '=',
{
}

} // verus!
