//! How search results are shown.
use vstd::prelude::*;

use crate::color::Palette;
use crate::float_order;
use crate::float_order::{ge, key_of};
use crate::output;
use crate::output::{escape_csv, escape_xml, OutputFormat};
use crate::ranking;
use crate::ranking::rank_descending;
use crate::snippet;
use crate::snippet::add_line_numbers;
use crate::store::{
    ContributionText, ExplainText, HitScore, HybridQueryResult, QueryType, SearchResult,
    SearchSource, SnippetRequest, SnippetResult, VectorSearchResult,
};
use crate::text::{chars, hex, number, search};
use crate::text::chars::{
    ascii_lower_chars, chars_of, concatenate, join, pad_start, str_or_empty, string_between,
    trimmed_non_blank,
};
use crate::text::hex::{percent_encode, UriPart};
use crate::text::number::{decimal_of, signed_decimal_of};
use crate::text::search::{contains, find_after, replace, replace_char, split_words};
use crate::virtual_path;
use crate::virtual_path::build_virtual_path;

verus! {

/// The `qmd://` path for a path of the form `collection/path`. A path that lacks one of the
/// two parts is kept as it is.
pub open spec fn qmd_path(display_path: Seq<char>, index: Option<&str>) -> Seq<char> {
    match search::after_first(display_path, '/') {
        Some(rest) if rest.len() > 0 && display_path.len() - rest.len() > 1 =>
            virtual_path::virtual_path(
                display_path.take(display_path.len() - rest.len() - 1),
                rest,
                index,
            ),
        _ => "qmd://"@ + display_path,
    }
}

/// The `qmd://` path for a path of the form `collection/path`.
pub fn to_qmd_path(display_path: &str, index_name: Option<&str>) -> (s: String)
    ensures
        s@ == qmd_path(display_path@, index_name),
{
    let v: Vec<char> = chars_of(display_path);
    assert(v@.skip(0) =~= v@);
    match find_after(v.as_slice(), '/', 0) {
        Some(i) => {
            if i > 1 && i < v.len() {
                let collection: String = string_between(v.as_slice(), 0, i - 1);
                let rest: String = string_between(v.as_slice(), i, v.len());
                assert(collection@ =~= v@.take(v@.len() - rest@.len() - 1));
                assert(rest@ =~= v@.skip(i as int));
                return build_virtual_path(collection.as_str(), rest.as_str(), index_name);
            }
        },
        None => {},
    }
    let mut s: String = "qmd://".to_owned();
    s.append(display_path);
    s
}

/// The template of the links to an editor, where none is configured.
pub const DEFAULT_EDITOR_URI_TEMPLATE: &'static str = "vscode://file/{path}:{line}:{col}";

/// The template of the links to an editor: the first that is not blank of the variable
/// `RQMD_EDITOR_URI` and the configuration, else the default.
pub fn editor_uri_template(
    rqmd_editor_uri: Option<&str>,
    config_editor_uri: Option<&str>,
) -> (s: String)
    ensures
        s@ == match chars::non_blank(chars::opt_text(rqmd_editor_uri)) {
            Some(t) => t,
            None => match chars::non_blank(chars::opt_text(config_editor_uri)) {
                Some(t) => t,
                None => DEFAULT_EDITOR_URI_TEMPLATE@,
            },
        },
{
    match trimmed_non_blank(rqmd_editor_uri) {
        Some(t) => t,
        None => match trimmed_non_blank(config_editor_uri) {
            Some(t) => t,
            None => DEFAULT_EDITOR_URI_TEMPLATE.to_owned(),
        },
    }
}

/// A path as it stands in the URI of an editor.
pub fn encode_path_for_editor_uri(abs_path: &str) -> (s: String)
    ensures
        s@ == hex::percent_encoded(vstd::utf8::encode_utf8(abs_path@), UriPart::Path),
{
    percent_encode(abs_path, UriPart::Path)
}

/// The number, but at least one.
pub open spec fn from_one(n: usize) -> nat {
    if n == 0 {
        1
    } else {
        n as nat
    }
}

/// The template with the path, the line and the column in the place of their marks.
pub open spec fn editor_uri(
    template: Seq<char>,
    abs_path: Seq<char>,
    line: usize,
    col: usize,
) -> Seq<char> {
    let path = hex::percent_encoded(vstd::utf8::encode_utf8(abs_path), UriPart::Path);
    let l = number::decimal(from_one(line));
    let c = number::decimal(from_one(col));
    search::replaced(
        search::replaced(
            search::replaced(search::replaced(template, "{path}"@, path), "{line}"@, l),
            "{col}"@,
            c,
        ),
        "{column}"@,
        c,
    )
}

/// The template with the path, the line and the column in the place of their marks. Lines and
/// columns count from one.
pub fn build_editor_uri(template: &str, abs_path: &str, line: usize, col: usize) -> (s: String)
    ensures
        s@ == editor_uri(template@, abs_path@, line, col),
{
    proof {
        reveal_strlit("{path}");
        reveal_strlit("{line}");
        reveal_strlit("{col}");
        reveal_strlit("{column}");
    }
    let safe_line: usize = if line == 0 {
        1
    } else {
        line
    };
    let safe_col: usize = if col == 0 {
        1
    } else {
        col
    };
    let encoded: String = encode_path_for_editor_uri(abs_path);
    let l: String = decimal_of(safe_line as u128);
    let c: String = decimal_of(safe_col as u128);
    let s: String = replace(template, "{path}", encoded.as_str());
    let s: String = replace(s.as_str(), "{line}", l.as_str());
    let s: String = replace(s.as_str(), "{col}", c.as_str());
    replace(s.as_str(), "{column}", c.as_str())
}

/// `text` as a link to `url` on a terminal, else `text` itself.
pub open spec fn linked(text: Seq<char>, url: Seq<char>, is_tty: bool) -> Seq<char> {
    if is_tty {
        "\x1b]8;;"@ + url + "\x07"@ + text + "\x1b]8;;\x07"@
    } else {
        text
    }
}

/// `text` as a link to `url` on a terminal, else `text` itself.
pub fn term_link(text: &str, url: &str, is_tty: bool) -> (s: String)
    ensures
        s@ == linked(text@, url@, is_tty),
{
    if !is_tty {
        return text.to_owned();
    }
    let mut s: String = "\x1b]8;;".to_owned();
    s.append(url);
    s.append("\x07");
    s.append(text);
    s.append("\x1b]8;;\x07");
    s
}

/// `s` with `pre` and `post` around each occurrence of `needle`, from left to right; `needle`
/// is in lower case, and ASCII capitals of `s` count as small letters.
pub open spec fn wrapped_ci(
    s: Seq<char>,
    needle: Seq<char>,
    pre: Seq<char>,
    post: Seq<char>,
) -> Seq<char>
    decreases s.len(),
{
    if needle.len() == 0 || s.len() == 0 {
        s
    } else if search::begins_with(chars::ascii_lowered(s), needle) {
        pre + s.take(needle.len() as int) + post + wrapped_ci(
            s.skip(needle.len() as int),
            needle,
            pre,
            post,
        )
    } else {
        seq![s[0]] + wrapped_ci(s.skip(1), needle, pre, post)
    }
}

/// `haystack` with `pre` and `post` around each occurrence of `needle`, in whatever ASCII case.
pub fn wrap_ascii_ci(haystack: &str, needle: &str, pre: &str, post: &str) -> (r: String)
    ensures
        r@ == wrapped_ci(haystack@, chars::ascii_lowered(needle@), pre@, post@),
{
    let v: Vec<char> = chars_of(haystack);
    let q: Vec<char> = chars_of(needle);
    if q.len() == 0 {
        return haystack.to_owned();
    }
    let low: Vec<char> = ascii_lower_chars(v.as_slice());
    let want: Vec<char> = ascii_lower_chars(q.as_slice());
    let ghost n = want@;
    let mut r: String = String::new();
    let mut i: usize = 0;
    assert(v@.skip(0) =~= v@);
    assert(r@ + wrapped_ci(v@, n, pre@, post@) =~= wrapped_ci(v@, n, pre@, post@));
    while i < v.len()
        invariant
            n == want@,
            n.len() > 0,
            low@ == chars::ascii_lowered(v@),
            i <= v@.len(),
            r@ + wrapped_ci(v@.skip(i as int), n, pre@, post@) == wrapped_ci(v@, n, pre@, post@),
        decreases v@.len() - i,
    {
        let ghost rest = v@.skip(i as int);
        let ghost r0 = r@;
        assert(chars::ascii_lowered(rest) =~= low@.skip(i as int));
        let here: bool = crate::text::search::matches_at(low.as_slice(), want.as_slice(), i);
        proof {
            if i + n.len() <= v@.len() {
                assert(low@.skip(i as int).subrange(0, n.len() as int) =~= low@.subrange(
                    i as int,
                    i + n.len(),
                ));
            }
        }
        if here {
            r.append(pre);
            let found: String = string_between(v.as_slice(), i, i + want.len());
            r.append(found.as_str());
            r.append(post);
            i = i + want.len();
            assert(found@ =~= rest.take(n.len() as int));
            assert(rest.skip(n.len() as int) =~= v@.skip(i as int));
            assert(r@ + wrapped_ci(v@.skip(i as int), n, pre@, post@) =~= r0 + wrapped_ci(
                rest,
                n,
                pre@,
                post@,
            ));
        } else {
            r.push(v[i]);
            i = i + 1;
            assert(rest.skip(1) =~= v@.skip(i as int));
            assert(r@ + wrapped_ci(v@.skip(i as int), n, pre@, post@) =~= r0 + wrapped_ci(
                rest,
                n,
                pre@,
                post@,
            ));
        }
    }
    assert(v@.skip(i as int) =~= Seq::empty());
    assert(r@ + wrapped_ci(v@.skip(i as int), n, pre@, post@) =~= r@);
    r
}

/// `text` with the words of three characters or more highlighted, one word after the other.
pub open spec fn highlighted(text: Seq<char>, words: Seq<Seq<char>>, p: Palette) -> Seq<char>
    decreases words.len(),
{
    if words.len() == 0 {
        text
    } else {
        let before = highlighted(text, words.drop_last(), p);
        if words.last().len() >= 3 {
            wrapped_ci(
                before,
                chars::ascii_lowered(words.last()),
                p.yellow_code() + p.bold_code(),
                p.reset_code(),
            )
        } else {
            before
        }
    }
}

/// `text` as it is shown for `query`: with the query's words highlighted where colours are on.
pub open spec fn shown_for(text: Seq<char>, query: Seq<char>, p: Palette) -> Seq<char> {
    if p.enabled {
        highlighted(text, search::words(query), p)
    } else {
        text
    }
}

/// `text` with the words of `query` that have three characters or more highlighted.
pub fn highlight_terms(text: &str, query: &str, p: &Palette) -> (s: String)
    ensures
        s@ == shown_for(text@, query@, *p),
{
    if !p.enabled {
        return text.to_owned();
    }
    let mut pre: String = p.yellow().to_owned();
    pre.append(p.bold());
    let post: &str = p.reset();
    let terms: Vec<String> = split_words(query);
    let ghost all = search::words(query@);
    let mut s: String = text.to_owned();
    assert(all.take(0) =~= Seq::empty());
    for i in 0..terms.len()
        invariant
            chars::texts(terms@) == all,
            pre@ == p.yellow_code() + p.bold_code(),
            post@ == p.reset_code(),
            s@ == highlighted(text@, all.take(i as int), *p),
    {
        assert(all.take(i + 1).drop_last() =~= all.take(i as int));
        assert(all[i as int] == terms@[i as int]@);
        if terms[i].as_str().unicode_len() >= 3 {
            s = wrap_ascii_ci(s.as_str(), terms[i].as_str(), pre.as_str(), post);
        }
    }
    assert(all.take(all.len() as int) =~= all);
    s
}

/// A score as a percentage, in three columns; green from 0.7 on, yellow from 0.4 on, dim below.
pub open spec fn score_text(score: HitScore, p: Palette) -> Seq<char> {
    let percent = chars::padded_start(number::signed_decimal(score.percent as int), 3);
    if !p.enabled {
        percent + "%"@
    } else {
        (if float_order::at_least(score.bits, SEVEN_TENTHS) {
            p.green_code()
        } else if float_order::at_least(score.bits, FOUR_TENTHS) {
            p.yellow_code()
        } else {
            p.dim_code()
        }) + percent + "%"@ + p.reset_code()
    }
}

/// The bits of 0.7.
pub const SEVEN_TENTHS: u64 = 0x3fe6_6666_6666_6666;

/// The bits of 0.4.
pub const FOUR_TENTHS: u64 = 0x3fd9_9999_9999_999a;

/// A score as a percentage, in three columns, in the colour of its height.
pub fn format_score(score: &HitScore, p: &Palette) -> (s: String)
    ensures
        s@ == score_text(*score, *p),
{
    let percent: String = pad_start(signed_decimal_of(score.percent).as_str(), 3);
    if !p.enabled {
        let mut s: String = percent;
        s.append("%");
        return s;
    }
    let mut s: String = if ge(score.bits, SEVEN_TENTHS) {
        p.green().to_owned()
    } else if ge(score.bits, FOUR_TENTHS) {
        p.yellow().to_owned()
    } else {
        p.dim().to_owned()
    };
    s.append(percent.as_str());
    s.append("%");
    s.append(p.reset());
    s
}

/// What the links of the terminal output need.
#[derive(Debug)]
pub struct CliLinkCtx {
    /// The template of the links to an editor.
    pub editor_template: String,
    /// Whether the output goes to a terminal.
    pub stdout_tty: bool,
}

/// A search result, as it is shown.
#[derive(Debug)]
pub struct Hit {
    /// The `qmd://` path.
    pub file: String,
    pub display_path: String,
    pub title: String,
    pub score: HitScore,
    /// The line of the body at which the snippet starts, counted from one.
    pub line: usize,
    pub context: Option<String>,
    pub snippet: String,
    /// The whole body, where it was asked for.
    pub body: Option<String>,
    pub docid: String,
    /// The path in the file system, where it is known.
    pub abs_path: Option<String>,
    /// The path within the collection that `file` names; an empty one counts as none.
    pub rel_path: Option<String>,
    /// How the score came about, where that was asked for.
    pub explain: Option<ExplainText>,
}

/// The body, where it is asked for.
pub open spec fn body_if(full: bool, body: Seq<char>) -> Option<Seq<char>> {
    if full {
        Some(body)
    } else {
        None
    }
}

fn body_when(full: bool, body: &str) -> (r: Option<String>)
    ensures
        chars::opt_string(r) == body_if(full, body@),
{
    if full {
        Some(body.to_owned())
    } else {
        None
    }
}

fn copy_option(o: &Option<String>) -> (r: Option<String>)
    ensures
        chars::opt_string(r) == chars::opt_string(*o),
{
    match o {
        Some(s) => Some(s.clone()),
        None => None,
    }
}

/// What the snippet of a full-text search result is asked for: the body, and the chunk that was
/// found in it.
pub fn search_snippet_request(r: &SearchResult, query: &str, intent: Option<&str>) -> (q:
    SnippetRequest)
    ensures
        q.body@ == chars::text_or_empty(r.doc.body),
        q.query@ == query@,
        q.max_len is None,
        q.chunk_pos == (match r.chunk_pos {
            Some(p) => Some(p as usize),
            None => None,
        }),
        q.chunk_len is None,
        chars::opt_string(q.intent) == chars::opt_text(intent),
{
    SnippetRequest {
        body: str_or_empty(&r.doc.body).to_owned(),
        query: query.to_owned(),
        max_len: None,
        chunk_pos: match r.chunk_pos {
            Some(p) => Some(p as usize),
            None => None,
        },
        chunk_len: None,
        intent: own_option(intent),
    }
}

/// What the snippet of a vector search result is asked for: the body as a whole.
pub fn vector_snippet_request(r: &VectorSearchResult, query: &str, intent: Option<&str>) -> (q:
    SnippetRequest)
    ensures
        q.body@ == r.body@,
        q.query@ == query@,
        q.max_len is None,
        q.chunk_pos is None,
        q.chunk_len is None,
        chars::opt_string(q.intent) == chars::opt_text(intent),
{
    SnippetRequest {
        body: r.body.clone(),
        query: query.to_owned(),
        max_len: None,
        chunk_pos: None,
        chunk_len: None,
        intent: own_option(intent),
    }
}

fn own_option(o: Option<&str>) -> (r: Option<String>)
    ensures
        chars::opt_string(r) == chars::opt_text(o),
{
    match o {
        Some(s) => Some(s.to_owned()),
        None => None,
    }
}

/// A full-text search result with its snippet, as it is shown.
pub fn search_result_to_hit(
    r: &SearchResult,
    snip: SnippetResult,
    full: bool,
    index_name: Option<&str>,
) -> (h: Hit)
    ensures
        h.file@ == qmd_path(r.doc.display_path@, index_name),
        h.display_path@ == r.doc.display_path@,
        h.title@ == r.doc.title@,
        h.score == r.score,
        h.line == snip.line,
        chars::opt_string(h.context) == chars::opt_string(r.doc.context),
        h.snippet == snip.snippet,
        chars::opt_string(h.body) == body_if(full, chars::text_or_empty(r.doc.body)),
        h.docid@ == r.doc.docid@,
        h.abs_path is None,
        h.rel_path is None,
        h.explain is None,
{
    Hit {
        file: to_qmd_path(r.doc.display_path.as_str(), index_name),
        display_path: r.doc.display_path.clone(),
        title: r.doc.title.clone(),
        score: r.score.clone(),
        line: snip.line,
        context: copy_option(&r.doc.context),
        snippet: snip.snippet,
        body: body_when(full, str_or_empty(&r.doc.body)),
        docid: r.doc.docid.clone(),
        abs_path: None,
        rel_path: None,
        explain: None,
    }
}

/// A vector search result with its snippet, as it is shown.
pub fn vector_result_to_hit(
    r: &VectorSearchResult,
    snip: SnippetResult,
    full: bool,
    index_name: Option<&str>,
) -> (h: Hit)
    ensures
        h.file@ == qmd_path(r.display_path@, index_name),
        h.display_path@ == r.display_path@,
        h.title@ == r.title@,
        h.score == r.score,
        h.line == snip.line,
        chars::opt_string(h.context) == chars::opt_string(r.context),
        h.snippet == snip.snippet,
        chars::opt_string(h.body) == body_if(full, r.body@),
        h.docid@ == r.docid@,
        h.abs_path is None,
        h.rel_path is None,
        h.explain is None,
{
    Hit {
        file: to_qmd_path(r.display_path.as_str(), index_name),
        display_path: r.display_path.clone(),
        title: r.title.clone(),
        score: r.score.clone(),
        line: snip.line,
        context: copy_option(&r.context),
        snippet: snip.snippet,
        body: body_when(full, r.body.as_str()),
        docid: r.docid.clone(),
        abs_path: None,
        rel_path: None,
        explain: None,
    }
}

/// How many of the bytes are line feeds.
pub open spec fn line_feeds(bytes: Seq<u8>) -> nat
    decreases bytes.len(),
{
    if bytes.len() == 0 {
        0
    } else {
        line_feeds(bytes.drop_last()) + (if bytes.last() == 10 {
            1nat
        } else {
            0nat
        })
    }
}

/// `n`, but no more than `max`.
pub open spec fn at_most(n: nat, max: nat) -> nat {
    if n <= max {
        n
    } else {
        max
    }
}

/// The line, counted from one, of the byte at `pos` in a text; a position behind the end counts
/// as the end.
pub open spec fn line_at(bytes: Seq<u8>, pos: nat) -> nat {
    line_feeds(bytes.take(at_most(pos, bytes.len()) as int)) + 1
}

/// Whether the lines of a text can be counted by a machine number.
pub open spec fn countable(body: Seq<char>) -> bool {
    vstd::utf8::encode_utf8(body).len() < usize::MAX
}

/// The line, counted from one, of the byte at `byte_pos` in `body`, which may lie within a
/// character.
pub fn line_at_byte_offset(body: &str, byte_pos: usize) -> (line: usize)
    requires
        countable(body@),
    ensures
        line == line_at(vstd::utf8::encode_utf8(body@), byte_pos as nat),
{
    let bytes: &[u8] = body.as_bytes();
    let clamp: usize = if byte_pos <= bytes.len() {
        byte_pos
    } else {
        bytes.len()
    };
    let mut n: usize = 0;
    assert(bytes@.take(0) =~= Seq::empty());
    for i in 0..clamp
        invariant
            clamp <= bytes@.len(),
            n <= i,
            n == line_feeds(bytes@.take(i as int)),
    {
        assert(bytes@.take(i + 1).drop_last() =~= bytes@.take(i as int));
        if bytes[i] == 10 {
            n = n + 1;
        }
    }
    n + 1
}

/// A hybrid search result, as it is shown; its snippet is the best chunk.
pub fn hybrid_result_to_hit(
    r: &HybridQueryResult,
    full: bool,
    index_name: Option<&str>,
    explain: Option<ExplainText>,
) -> (h: Hit)
    requires
        countable(r.body@),
    ensures
        h.file@ == qmd_path(r.display_path@, index_name),
        h.display_path@ == r.display_path@,
        h.title@ == r.title@,
        h.score == r.score,
        h.line == line_at(vstd::utf8::encode_utf8(r.body@), r.best_chunk_pos as nat),
        chars::opt_string(h.context) == chars::opt_string(r.context),
        h.snippet@ == r.best_chunk@,
        chars::opt_string(h.body) == body_if(full, r.body@),
        h.docid@ == r.docid@,
        h.abs_path is None,
        h.rel_path is None,
        h.explain == explain,
{
    Hit {
        file: to_qmd_path(r.display_path.as_str(), index_name),
        display_path: r.display_path.clone(),
        title: r.title.clone(),
        score: r.score.clone(),
        line: line_at_byte_offset(r.body.as_str(), r.best_chunk_pos),
        context: copy_option(&r.context),
        snippet: r.best_chunk.clone(),
        body: body_when(full, r.body.as_str()),
        docid: r.docid.clone(),
        abs_path: None,
        rel_path: None,
        explain,
    }
}

/// What is shown of a document: its body or its snippet, with line numbers where they are asked
/// for. A body counts from one, a snippet from its line.
pub open spec fn content(h: Hit, line_numbers: bool) -> Seq<char> {
    let (text, start) = match h.body {
        Some(b) => (b@, 1nat),
        None => (h.snippet@, h.line as nat),
    };
    if line_numbers {
        snippet::with_line_numbers(text, start)
    } else {
        text
    }
}

/// What is shown of a document.
pub fn render_content(h: &Hit, line_numbers: bool) -> (s: String)
    ensures
        s@ == content(*h, line_numbers),
{
    let (text, start): (&str, usize) = match &h.body {
        Some(b) => (b.as_str(), 1),
        None => (h.snippet.as_str(), h.line),
    };
    if line_numbers {
        add_line_numbers(text, Some(start))
    } else {
        text.to_owned()
    }
}

/// What follows the first line of `s`.
pub open spec fn below_first_line(s: Seq<char>) -> Seq<char> {
    match search::after_first(s, '\n') {
        Some(rest) => rest,
        None => ""@,
    }
}

fn without_first_line(s: &str) -> (r: String)
    ensures
        r@ == below_first_line(s@),
{
    let v: Vec<char> = chars_of(s);
    assert(v@.skip(0) =~= v@);
    match find_after(v.as_slice(), '\n', 0) {
        Some(i) => {
            assert(v@.subrange(i as int, v@.len() as int) =~= v@.skip(i as int));
            string_between(v.as_slice(), i, v.len())
        },
        None => "".to_owned(),
    }
}

/// Whether one of the words of `query` stands in `text`.
pub open spec fn holds_a_word(text: Seq<char>, query: Seq<char>) -> bool {
    exists|i: int|
        0 <= i < search::words(query).len() && search::holds_text(
            text,
            #[trigger] search::words(query)[i],
        )
}

/// Whether one of the words of `query` stands in `text`.
pub fn any_word_in(text: &str, query: &str) -> (r: bool)
    ensures
        r == holds_a_word(text@, query@),
{
    let terms: Vec<String> = split_words(query);
    let ghost all = search::words(query@);
    for i in 0..terms.len()
        invariant
            chars::texts(terms@) == all,
            all == search::words(query@),
            forall|k: int| 0 <= k < i ==> !search::holds_text(text@, #[trigger] all[k]),
    {
        assert(all[i as int] == terms@[i as int]@);
        if contains(text, terms[i].as_str()) {
            return true;
        }
    }
    false
}

/// Whether a word of the query stands in the snippet below its head line; case does not count.
pub open spec fn snippet_matches(h: Hit, query: Seq<char>) -> bool {
    holds_a_word(chars::lowercase(below_first_line(h.snippet@)), chars::lowercase(query))
}

/// The first line of a result.
pub open spec fn path_line(h: Hit, p: Palette, matched: bool, link: CliLinkCtx) -> Seq<char> {
    let line_info = if matched {
        ":"@ + number::decimal(h.line as nat)
    } else {
        ""@
    };
    let docid = if h.docid@.len() == 0 {
        ""@
    } else {
        " "@ + p.dim_code() + "#"@ + h.docid@ + p.reset_code()
    };
    match (link.stdout_tty, h.abs_path, h.rel_path) {
        (true, Some(abs), Some(rel)) if rel@.len() > 0 => p.cyan_code() + linked(
            rel@ + line_info,
            editor_uri(link.editor_template@, abs@, if matched { h.line } else { 1 }, 1),
            true,
        ) + p.reset_code() + docid,
        _ => p.cyan_code() + h.file@ + p.dim_code() + line_info + p.reset_code() + docid,
    }
}

fn write_path_line(h: &Hit, p: &Palette, matched: bool, link: &CliLinkCtx) -> (s: String)
    ensures
        s@ == path_line(*h, *p, matched, *link),
{
    let line_info: String = if matched {
        let mut t: String = ":".to_owned();
        t.append(decimal_of(h.line as u128).as_str());
        t
    } else {
        "".to_owned()
    };
    let docid: String = if h.docid.as_str().is_empty() {
        "".to_owned()
    } else {
        let mut t: String = " ".to_owned();
        t.append(p.dim());
        t.append("#");
        t.append(h.docid.as_str());
        t.append(p.reset());
        t
    };
    let mut s: String = p.cyan().to_owned();
    match (link.stdout_tty, &h.abs_path, &h.rel_path) {
        (true, Some(abs), Some(rel)) if !rel.as_str().is_empty() => {
            let line: usize = if matched {
                h.line
            } else {
                1
            };
            let target: String = build_editor_uri(
                link.editor_template.as_str(),
                abs.as_str(),
                line,
                1,
            );
            let mut shown: String = rel.clone();
            shown.append(line_info.as_str());
            s.append(term_link(shown.as_str(), target.as_str(), true).as_str());
            s.append(p.reset());
        },
        _ => {
            s.append(h.file.as_str());
            s.append(p.dim());
            s.append(line_info.as_str());
            s.append(p.reset());
        },
    }
    s.append(docid.as_str());
    s
}

/// The scores with commas between them, or `none`.
pub open spec fn score_list(scores: Seq<String>) -> Seq<char> {
    if scores.len() == 0 {
        "none"@
    } else {
        chars::joined(chars::texts(scores), ", "@)
    }
}

fn write_score_list(scores: &Vec<String>) -> (s: String)
    ensures
        s@ == score_list(scores@),
{
    if scores.len() == 0 {
        "none".to_owned()
    } else {
        join(scores.as_slice(), ", ")
    }
}

/// The name of a source.
pub open spec fn source_text(s: SearchSource) -> Seq<char> {
    match s {
        SearchSource::Fts => "fts"@,
        SearchSource::Vec => "vec"@,
    }
}

/// The name of a source.
pub fn source_str(s: SearchSource) -> (r: &'static str)
    ensures
        r@ == source_text(s),
{
    match s {
        SearchSource::Fts => "fts",
        SearchSource::Vec => "vec",
    }
}

/// The name of a query type.
pub open spec fn query_type_text(t: QueryType) -> Seq<char> {
    match t {
        QueryType::Original => "original"@,
        QueryType::Lex => "lex"@,
        QueryType::Vec => "vec"@,
        QueryType::Hyde => "hyde"@,
    }
}

/// The name of a query type.
pub fn query_type_str(t: QueryType) -> (r: &'static str)
    ensures
        r@ == query_type_text(t),
{
    match t {
        QueryType::Original => "original",
        QueryType::Lex => "lex",
        QueryType::Vec => "vec",
        QueryType::Hyde => "hyde",
    }
}

/// The keys by which contributions are ordered.
pub open spec fn contribution_keys(v: Seq<ContributionText>) -> Seq<i64> {
    Seq::new(v.len(), |i: int| float_order::key(v[i].contribution_bits) as i64)
}

/// A contribution, as it is shown.
pub open spec fn contribution_text(c: ContributionText) -> Seq<char> {
    source_text(c.source) + "/"@ + query_type_text(c.query_type) + "#"@ + number::decimal(
        c.rank as nat,
    ) + ":"@ + c.contribution@
}

fn write_contribution(c: &ContributionText) -> (s: String)
    ensures
        s@ == contribution_text(*c),
{
    let mut s: String = source_str(c.source).to_owned();
    s.append("/");
    s.append(query_type_str(c.query_type));
    s.append("#");
    s.append(decimal_of(c.rank as u128).as_str());
    s.append(":");
    s.append(c.contribution.as_str());
    s
}

/// The greatest contributions, at most three, in descending order.
pub open spec fn top_contributions(v: Seq<ContributionText>) -> Seq<Seq<char>> {
    let order = ranking::descending(contribution_keys(v), v.len());
    Seq::new(
        at_most(3, v.len()),
        |i: int| contribution_text(v[order[i] as int]),
    )
}

fn write_top_contributions(v: &Vec<ContributionText>) -> (s: String)
    ensures
        s@ == chars::joined(top_contributions(v@), " | "@),
{
    let mut keys: Vec<i64> = Vec::new();
    for i in 0..v.len()
        invariant
            keys@ =~= contribution_keys(v@).take(i as int),
    {
        keys.push(key_of(v[i].contribution_bits));
    }
    assert(keys@ =~= contribution_keys(v@));
    let order: Vec<usize> = rank_descending(keys.as_slice());
    proof {
        ranking::law_descending_is_stable(keys@, keys@.len());
    }
    let n: usize = if v.len() > 3 {
        3
    } else {
        v.len()
    };
    let mut parts: Vec<String> = Vec::new();
    for i in 0..n
        invariant
            n == at_most(3, v@.len()),
            keys@.len() == v@.len(),
            order@.len() == v@.len(),
            order@ == ranking::descending(contribution_keys(v@), v@.len()),
            forall|k: int| 0 <= k < order@.len() ==> #[trigger] order@[k] < keys@.len(),
            parts@.len() == i,
            forall|k: int|
                0 <= k < i ==> (#[trigger] parts@[k])@ == contribution_text(
                    v@[order@[k] as int],
                ),
    {
        parts.push(write_contribution(&v[order[i]]));
    }
    assert(chars::texts(parts@) =~= top_contributions(v@));
    join(parts.as_slice(), " | ")
}

/// How a score came about, in lines.
pub open spec fn explain_block(e: ExplainText, p: Palette) -> Seq<char> {
    let top = chars::joined(top_contributions(e.contributions@), " | "@);
    p.dim_code() + "Explain: fts=["@ + score_list(e.fts_scores@) + "] vec=["@ + score_list(
        e.vector_scores@,
    ) + "]"@ + p.reset_code() + "\n"@ + p.dim_code() + "  RRF: total="@ + e.total_score@
        + " base="@ + e.base_score@ + " bonus="@ + e.top_rank_bonus@ + " rank="@ + number::decimal(
        e.rank as nat,
    ) + p.reset_code() + "\n"@ + p.dim_code() + "  Blend: "@ + number::signed_decimal(
        e.weight_percent as int,
    ) + "%*"@ + e.position_score@ + " + "@ + number::signed_decimal(e.rerank_percent as int)
        + "%*"@ + e.rerank_score@ + " = "@ + e.blended_score@ + p.reset_code() + "\n"@ + (
    if top.len() > 0 {
        p.dim_code() + "  Top RRF contributions: "@ + top + p.reset_code() + "\n"@
    } else {
        ""@
    })
}

/// How a score came about, in lines: the scores of the searches, the fused rank, the blend with
/// the reranker, and the greatest contributions.
pub fn fmt_explain_block(e: &ExplainText, p: &Palette) -> (s: String)
    ensures
        s@ == explain_block(*e, *p),
{
    let top: String = write_top_contributions(&e.contributions);
    let top_line: String = if !top.as_str().is_empty() {
        let mut t: String = p.dim().to_owned();
        t.append("  Top RRF contributions: ");
        t.append(top.as_str());
        t.append(p.reset());
        t.append("\n");
        t
    } else {
        "".to_owned()
    };
    let mut s: String = p.dim().to_owned();
    s.append("Explain: fts=[");
    s.append(write_score_list(&e.fts_scores).as_str());
    s.append("] vec=[");
    s.append(write_score_list(&e.vector_scores).as_str());
    s.append("]");
    s.append(p.reset());
    s.append("\n");
    s.append(p.dim());
    s.append("  RRF: total=");
    s.append(e.total_score.as_str());
    s.append(" base=");
    s.append(e.base_score.as_str());
    s.append(" bonus=");
    s.append(e.top_rank_bonus.as_str());
    s.append(" rank=");
    s.append(decimal_of(e.rank as u128).as_str());
    s.append(p.reset());
    s.append("\n");
    s.append(p.dim());
    s.append("  Blend: ");
    s.append(signed_decimal_of(e.weight_percent).as_str());
    s.append("%*");
    s.append(e.position_score.as_str());
    s.append(" + ");
    s.append(signed_decimal_of(e.rerank_percent).as_str());
    s.append("%*");
    s.append(e.rerank_score.as_str());
    s.append(" = ");
    s.append(e.blended_score.as_str());
    s.append(p.reset());
    s.append("\n");
    s.append(top_line.as_str());
    s
}

/// A result on a terminal.
pub open spec fn cli_hit(
    h: Hit,
    p: Palette,
    line_numbers: bool,
    query: Seq<char>,
    matched: bool,
    link: CliLinkCtx,
) -> Seq<char> {
    path_line(h, p, matched, link) + "\n"@ + (if h.title@.len() > 0 {
        p.bold_code() + "Title: "@ + h.title@ + p.reset_code() + "\n"@
    } else {
        ""@
    }) + (match h.context {
        Some(c) => p.dim_code() + "Context: "@ + c@ + p.reset_code() + "\n"@,
        None => ""@,
    }) + "Score: "@ + p.bold_code() + score_text(h.score, p) + p.reset_code() + "\n"@ + (
    match h.explain {
        Some(e) => explain_block(e, p),
        None => ""@,
    }) + "\n"@ + shown_for(content(h, line_numbers), query, p) + "\n"@
}

/// A result on a terminal: its path, with the line where the snippet matched; its title, its
/// context, its score and how that came about; and its content.
pub fn fmt_hit_cli(
    h: &Hit,
    p: &Palette,
    line_numbers: bool,
    query: &str,
    matched: bool,
    link: &CliLinkCtx,
) -> (s: String)
    ensures
        s@ == cli_hit(*h, *p, line_numbers, query@, matched, *link),
{
    let title: String = if !h.title.as_str().is_empty() {
        let mut t: String = p.bold().to_owned();
        t.append("Title: ");
        t.append(h.title.as_str());
        t.append(p.reset());
        t.append("\n");
        t
    } else {
        "".to_owned()
    };
    let context: String = match &h.context {
        Some(c) => {
            let mut t: String = p.dim().to_owned();
            t.append("Context: ");
            t.append(c.as_str());
            t.append(p.reset());
            t.append("\n");
            t
        },
        None => "".to_owned(),
    };
    let explain: String = match &h.explain {
        Some(e) => fmt_explain_block(e, p),
        None => "".to_owned(),
    };
    let mut s: String = write_path_line(h, p, matched, link);
    s.append("\n");
    s.append(title.as_str());
    s.append(context.as_str());
    s.append("Score: ");
    s.append(p.bold());
    s.append(format_score(&h.score, p).as_str());
    s.append(p.reset());
    s.append("\n");
    s.append(explain.as_str());
    s.append("\n");
    s.append(highlight_terms(render_content(h, line_numbers).as_str(), query, p).as_str());
    s.append("\n");
    s
}

/// The results on a terminal, one by one.
pub open spec fn cli_hits(
    hits: Seq<Hit>,
    p: Palette,
    line_numbers: bool,
    query: Seq<char>,
    link: CliLinkCtx,
) -> Seq<Seq<char>> {
    Seq::new(
        hits.len(),
        |i: int|
            cli_hit(hits[i], p, line_numbers, query, snippet_matches(hits[i], query), link),
    )
}

/// The results on a terminal, with blank lines between them.
pub open spec fn cli_text(
    hits: Seq<Hit>,
    p: Palette,
    line_numbers: bool,
    query: Seq<char>,
    link: CliLinkCtx,
) -> Seq<char> {
    if hits.len() == 0 {
        "No results found.\n"@
    } else {
        chars::joined(cli_hits(hits, p, line_numbers, query, link), "\n\n"@)
    }
}

/// The results on a terminal.
pub fn fmt_hits_cli(
    hits: &[Hit],
    p: &Palette,
    line_numbers: bool,
    query: &str,
    link: &CliLinkCtx,
) -> (s: String)
    ensures
        s@ == cli_text(hits@, *p, line_numbers, query@, *link),
{
    if hits.len() == 0 {
        return "No results found.\n".to_owned();
    }
    let query_lc: String = query.to_lowercase();
    let mut parts: Vec<String> = Vec::new();
    for i in 0..hits.len()
        invariant
            query_lc@ == chars::lowercase(query@),
            parts@.len() == i,
            forall|k: int|
                0 <= k < i ==> (#[trigger] parts@[k])@ == cli_hit(
                    hits@[k],
                    *p,
                    line_numbers,
                    query@,
                    snippet_matches(hits@[k], query@),
                    *link,
                ),
    {
        let below: String = without_first_line(hits[i].snippet.as_str());
        let lower: String = below.as_str().to_lowercase();
        let matched: bool = any_word_in(lower.as_str(), query_lc.as_str());
        parts.push(fmt_hit_cli(&hits[i], p, line_numbers, query, matched, link));
    }
    assert(chars::texts(parts@) =~= cli_hits(hits@, *p, line_numbers, query@, *link));
    join(parts.as_slice(), "\n\n")
}

/// The CSV line of a result, with a line feed in front.
pub open spec fn hit_csv(h: Hit, line_numbers: bool) -> Seq<char> {
    "\n#"@ + h.docid@ + ","@ + h.score.four@ + ","@ + output::csv_field(h.file@) + ","@
        + output::csv_field(h.title@) + ","@ + output::csv_field(chars::text_or_empty(h.context))
        + ","@ + number::decimal(h.line as nat) + ","@ + output::csv_field(
        content(h, line_numbers),
    )
}

/// The CSV lines of the results.
pub open spec fn hits_csv(hits: Seq<Hit>, line_numbers: bool) -> Seq<Seq<char>> {
    Seq::new(hits.len(), |i: int| hit_csv(hits[i], line_numbers))
}

fn write_hit_csv(h: &Hit, line_numbers: bool) -> (s: String)
    ensures
        s@ == hit_csv(*h, line_numbers),
{
    let mut s: String = "\n#".to_owned();
    s.append(h.docid.as_str());
    s.append(",");
    s.append(h.score.four.as_str());
    s.append(",");
    s.append(escape_csv(h.file.as_str()).as_str());
    s.append(",");
    s.append(escape_csv(h.title.as_str()).as_str());
    s.append(",");
    s.append(escape_csv(str_or_empty(&h.context)).as_str());
    s.append(",");
    s.append(decimal_of(h.line as u128).as_str());
    s.append(",");
    s.append(escape_csv(render_content(h, line_numbers).as_str()).as_str());
    s
}

/// The results as CSV, with a head line.
pub fn fmt_hits_csv(hits: &[Hit], line_numbers: bool) -> (s: String)
    ensures
        s@ == "docid,score,file,title,context,line,snippet"@ + chars::concatenated(
            hits_csv(hits@, line_numbers),
        ),
{
    let mut parts: Vec<String> = Vec::new();
    for i in 0..hits.len()
        invariant
            parts@.len() == i,
            forall|k: int| 0 <= k < i ==> (#[trigger] parts@[k])@ == hit_csv(hits@[k], line_numbers),
    {
        parts.push(write_hit_csv(&hits[i], line_numbers));
    }
    assert(chars::texts(parts@) =~= hits_csv(hits@, line_numbers));
    let mut s: String = "docid,score,file,title,context,line,snippet".to_owned();
    s.append(concatenate(parts.as_slice()).as_str());
    s
}

/// The line of a result in a list of files.
pub open spec fn hit_file(h: Hit) -> Seq<char> {
    "#"@ + h.docid@ + ","@ + h.score.two@ + ","@ + h.file@ + (match h.context {
        Some(c) => ",\""@ + output::doubled_quotes(c@) + "\""@,
        None => ""@,
    })
}

/// The lines of the results in a list of files.
pub open spec fn hit_files(hits: Seq<Hit>) -> Seq<Seq<char>> {
    Seq::new(hits.len(), |i: int| hit_file(hits[i]))
}

fn write_hit_file(h: &Hit) -> (s: String)
    ensures
        s@ == hit_file(*h),
{
    let context: String = match &h.context {
        Some(c) => {
            let mut t: String = ",\"".to_owned();
            t.append(replace_char(c.as_str(), '"', "\"\"").as_str());
            t.append("\"");
            t
        },
        None => "".to_owned(),
    };
    let mut s: String = "#".to_owned();
    s.append(h.docid.as_str());
    s.append(",");
    s.append(h.score.two.as_str());
    s.append(",");
    s.append(h.file.as_str());
    s.append(context.as_str());
    s
}

/// The results as a list of files. Paths are written as they are.
pub fn fmt_hits_files(hits: &[Hit]) -> (s: String)
    ensures
        s@ == chars::joined(hit_files(hits@), "\n"@),
{
    let mut parts: Vec<String> = Vec::new();
    for i in 0..hits.len()
        invariant
            parts@.len() == i,
            forall|k: int| 0 <= k < i ==> (#[trigger] parts@[k])@ == hit_file(hits@[k]),
    {
        parts.push(write_hit_file(&hits[i]));
    }
    assert(chars::texts(parts@) =~= hit_files(hits@));
    join(parts.as_slice(), "\n")
}

/// The Markdown section of a result.
pub open spec fn hit_md(h: Hit, line_numbers: bool) -> Seq<char> {
    "---\n# "@ + (if h.title@.len() > 0 {
        h.title@
    } else {
        h.display_path@
    }) + "\n\n**docid:** `#"@ + h.docid@ + "`\n"@ + output::wrapped(
        "**context:** "@,
        h.context,
        "\n"@,
    ) + "\n"@ + content(h, line_numbers) + "\n"@
}

/// The Markdown sections of the results.
pub open spec fn hits_md(hits: Seq<Hit>, line_numbers: bool) -> Seq<Seq<char>> {
    Seq::new(hits.len(), |i: int| hit_md(hits[i], line_numbers))
}

fn write_hit_md(h: &Hit, line_numbers: bool) -> (s: String)
    ensures
        s@ == hit_md(*h, line_numbers),
{
    let mut s: String = "---\n# ".to_owned();
    if !h.title.as_str().is_empty() {
        s.append(h.title.as_str());
    } else {
        s.append(h.display_path.as_str());
    }
    s.append("\n\n**docid:** `#");
    s.append(h.docid.as_str());
    s.append("`\n");
    s.append(crate::output::wrap("**context:** ", &h.context, "\n").as_str());
    s.append("\n");
    s.append(render_content(h, line_numbers).as_str());
    s.append("\n");
    s
}

/// The results as Markdown.
pub fn fmt_hits_md(hits: &[Hit], line_numbers: bool) -> (s: String)
    ensures
        s@ == chars::joined(hits_md(hits@, line_numbers), "\n"@),
{
    let mut parts: Vec<String> = Vec::new();
    for i in 0..hits.len()
        invariant
            parts@.len() == i,
            forall|k: int| 0 <= k < i ==> (#[trigger] parts@[k])@ == hit_md(hits@[k], line_numbers),
    {
        parts.push(write_hit_md(&hits[i], line_numbers));
    }
    assert(chars::texts(parts@) =~= hits_md(hits@, line_numbers));
    join(parts.as_slice(), "\n")
}

/// The XML element of a result.
pub open spec fn hit_xml(h: Hit, line_numbers: bool) -> Seq<char> {
    "<file docid=\"#"@ + h.docid@ + "\" name=\""@ + output::xml_text(h.file@) + "\""@ + (
    if h.title@.len() > 0 {
        " title=\""@ + output::xml_text(h.title@) + "\""@
    } else {
        ""@
    }) + (match h.context {
        Some(c) => " context=\""@ + output::xml_text(c@) + "\""@,
        None => ""@,
    }) + ">\n"@ + output::xml_text(content(h, line_numbers)) + "\n</file>"@
}

/// The XML elements of the results.
pub open spec fn hits_xml(hits: Seq<Hit>, line_numbers: bool) -> Seq<Seq<char>> {
    Seq::new(hits.len(), |i: int| hit_xml(hits[i], line_numbers))
}

fn write_hit_xml(h: &Hit, line_numbers: bool) -> (s: String)
    ensures
        s@ == hit_xml(*h, line_numbers),
{
    let title: String = if !h.title.as_str().is_empty() {
        let mut t: String = " title=\"".to_owned();
        t.append(escape_xml(h.title.as_str()).as_str());
        t.append("\"");
        t
    } else {
        "".to_owned()
    };
    let context: String = match &h.context {
        Some(c) => {
            let mut t: String = " context=\"".to_owned();
            t.append(escape_xml(c.as_str()).as_str());
            t.append("\"");
            t
        },
        None => "".to_owned(),
    };
    let mut s: String = "<file docid=\"#".to_owned();
    s.append(h.docid.as_str());
    s.append("\" name=\"");
    s.append(escape_xml(h.file.as_str()).as_str());
    s.append("\"");
    s.append(title.as_str());
    s.append(context.as_str());
    s.append(">\n");
    s.append(escape_xml(render_content(h, line_numbers).as_str()).as_str());
    s.append("\n</file>");
    s
}

/// The results as XML elements.
pub fn fmt_hits_xml(hits: &[Hit], line_numbers: bool) -> (s: String)
    ensures
        s@ == chars::joined(hits_xml(hits@, line_numbers), "\n\n"@),
{
    let mut parts: Vec<String> = Vec::new();
    for i in 0..hits.len()
        invariant
            parts@.len() == i,
            forall|k: int| 0 <= k < i ==> (#[trigger] parts@[k])@ == hit_xml(hits@[k], line_numbers),
    {
        parts.push(write_hit_xml(&hits[i], line_numbers));
    }
    assert(chars::texts(parts@) =~= hits_xml(hits@, line_numbers));
    join(parts.as_slice(), "\n\n")
}

/// `s` and a line feed, or nothing where `s` is empty.
pub open spec fn line_unless_empty(s: Seq<char>) -> Seq<char> {
    if s.len() == 0 {
        s
    } else {
        s + "\n"@
    }
}

fn end_line_unless_empty(s: String) -> (r: String)
    ensures
        r@ == line_unless_empty(s@),
{
    let mut r: String = s;
    if !r.as_str().is_empty() {
        r.append("\n");
    }
    r
}

/// What is printed of the results, in each format but JSON.
pub open spec fn printed(
    hits: Seq<Hit>,
    format: OutputFormat,
    p: Palette,
    line_numbers: bool,
    query: Seq<char>,
    link: CliLinkCtx,
) -> Option<Seq<char>> {
    match format {
        OutputFormat::Cli => Some(cli_text(hits, p, line_numbers, query, link)),
        OutputFormat::Json => None,
        OutputFormat::Csv => Some(
            "docid,score,file,title,context,line,snippet"@ + chars::concatenated(
                hits_csv(hits, line_numbers),
            ) + "\n"@,
        ),
        OutputFormat::Md => Some(
            line_unless_empty(chars::joined(hits_md(hits, line_numbers), "\n"@)),
        ),
        OutputFormat::Xml => Some(
            line_unless_empty(chars::joined(hits_xml(hits, line_numbers), "\n\n"@)),
        ),
        OutputFormat::Files => Some(line_unless_empty(chars::joined(hit_files(hits), "\n"@))),
    }
}

/// What is printed of the results. JSON is left to the caller, whose scores are numbers.
pub fn fmt_hits(
    hits: &[Hit],
    format: OutputFormat,
    p: &Palette,
    line_numbers: bool,
    query: &str,
    link: &CliLinkCtx,
) -> (r: Option<String>)
    ensures
        chars::opt_string(r) == printed(hits@, format, *p, line_numbers, query@, *link),
{
    match format {
        OutputFormat::Cli => Some(fmt_hits_cli(hits, p, line_numbers, query, link)),
        OutputFormat::Json => None,
        OutputFormat::Csv => {
            let mut s: String = fmt_hits_csv(hits, line_numbers);
            s.append("\n");
            Some(s)
        },
        OutputFormat::Md => Some(end_line_unless_empty(fmt_hits_md(hits, line_numbers))),
        OutputFormat::Xml => Some(end_line_unless_empty(fmt_hits_xml(hits, line_numbers))),
        OutputFormat::Files => Some(end_line_unless_empty(fmt_hits_files(hits))),
    }
}

/// A search result for a protocol client; the score as it is written.
#[derive(Clone, Debug)]
pub struct McpHit {
    pub docid: String,
    pub file: String,
    pub title: String,
    pub score: String,
    pub context: Option<String>,
    pub snippet: String,
}

/// The CSV line of a protocol hit, with a line feed in front.
pub open spec fn mcp_line(r: McpHit) -> Seq<char> {
    "\n"@ + output::csv_field("#"@ + r.docid@) + ","@ + output::csv_field(r.file@) + ","@
        + output::csv_field(r.title@) + ","@ + output::csv_field(r.score@) + ","@
        + output::csv_field(chars::text_or_empty(r.context)) + ","@ + output::csv_field(r.snippet@)
}

/// The CSV lines of protocol hits.
pub open spec fn mcp_lines(rows: Seq<McpHit>) -> Seq<Seq<char>> {
    Seq::new(rows.len(), |i: int| mcp_line(rows[i]))
}

fn write_mcp_line(r: &McpHit) -> (s: String)
    ensures
        s@ == mcp_line(*r),
{
    let mut docid: String = "#".to_owned();
    docid.append(r.docid.as_str());
    let mut s: String = "\n".to_owned();
    s.append(escape_csv(docid.as_str()).as_str());
    s.append(",");
    s.append(escape_csv(r.file.as_str()).as_str());
    s.append(",");
    s.append(escape_csv(r.title.as_str()).as_str());
    s.append(",");
    s.append(escape_csv(r.score.as_str()).as_str());
    s.append(",");
    s.append(escape_csv(str_or_empty(&r.context)).as_str());
    s.append(",");
    s.append(escape_csv(r.snippet.as_str()).as_str());
    s
}

/// Protocol hits as CSV, with a head line.
pub fn mcp_results_to_csv(rows: &[McpHit]) -> (s: String)
    ensures
        s@ == "docid,file,title,score,context,snippet"@ + chars::concatenated(mcp_lines(rows@)),
{
    let mut parts: Vec<String> = Vec::new();
    for i in 0..rows.len()
        invariant
            parts@.len() == i,
            forall|k: int| 0 <= k < i ==> (#[trigger] parts@[k])@ == mcp_line(rows@[k]),
    {
        parts.push(write_mcp_line(&rows[i]));
    }
    assert(chars::texts(parts@) =~= mcp_lines(rows@));
    let mut s: String = "docid,file,title,score,context,snippet".to_owned();
    s.append(concatenate(parts.as_slice()).as_str());
    s
}

// Laws.

/// With colours off nothing is highlighted.
pub proof fn law_no_highlight_without_colour(text: Seq<char>, query: Seq<char>, p: Palette)
    requires
        !p.enabled,
    ensures
        shown_for(text, query, p) == text,
{
}

/// Off a terminal nothing is linked.
pub proof fn law_no_link_off_a_terminal(text: Seq<char>, url: Seq<char>)
    ensures
        linked(text, url, false) == text,
{
}

/// Words shorter than three characters are not highlighted.
pub proof fn law_short_words_are_not_highlighted(
    text: Seq<char>,
    words: Seq<Seq<char>>,
    p: Palette,
)
    requires
        forall|i: int| 0 <= i < words.len() ==> (#[trigger] words[i]).len() < 3,
    ensures
        highlighted(text, words, p) == text,
    decreases words.len(),
{
    if words.len() > 0 {
        assert forall|i: int| 0 <= i < words.drop_last().len() implies (#[trigger] words.drop_last()[i]).len()
            < 3 by {
            assert(words.drop_last()[i] == words[i]);
        }
        law_short_words_are_not_highlighted(text, words.drop_last(), p);
        assert(words[words.len() - 1] == words.last());
    }
}

/// A later byte lies on no earlier line, and the first byte lies on the first line.
pub proof fn law_lines_grow(bytes: Seq<u8>, a: nat, b: nat)
    requires
        a <= b,
    ensures
        line_at(bytes, 0) == 1,
        line_at(bytes, a) <= line_at(bytes, b),
    decreases b - a,
{
    assert(bytes.take(0) =~= Seq::empty());
    if a < b {
        law_lines_grow(bytes, a, (b - 1) as nat);
        if b <= bytes.len() {
            assert(bytes.take(b as int).drop_last() =~= bytes.take(b - 1));
        }
    }
}

proof fn lemma_line_feeds_add(a: Seq<u8>, b: Seq<u8>)
    ensures
        line_feeds(a + b) == line_feeds(a) + line_feeds(b),
    decreases b.len(),
{
    if b.len() == 0 {
        assert(a + b =~= a);
    } else {
        assert((a + b).drop_last() =~= a + b.drop_last());
        lemma_line_feeds_add(a, b.drop_last());
    }
}

proof fn lemma_no_line_feeds(bytes: Seq<u8>)
    requires
        forall|i: int| 0 <= i < bytes.len() ==> bytes[i] != 10,
    ensures
        line_feeds(bytes) == 0,
    decreases bytes.len(),
{
    if bytes.len() > 0 {
        lemma_no_line_feeds(bytes.drop_last());
    }
}

/// The bytes of two texts one behind the other are the bytes of each.
pub proof fn lemma_encode_add(a: Seq<char>, b: Seq<char>)
    ensures
        vstd::utf8::encode_utf8(a + b) == vstd::utf8::encode_utf8(a) + vstd::utf8::encode_utf8(b),
    decreases a.len(),
{
    if a.len() == 0 {
        assert(a + b =~= b);
        assert(vstd::utf8::encode_utf8(a) + vstd::utf8::encode_utf8(b)
            =~= vstd::utf8::encode_utf8(b));
    } else {
        assert((a + b).drop_first() =~= a.drop_first() + b);
        lemma_encode_add(a.drop_first(), b);
        assert(vstd::utf8::encode_utf8(a + b) =~= vstd::utf8::encode_utf8(a)
            + vstd::utf8::encode_utf8(b));
    }
}

/// A line feed is one byte, and no byte of another character is a line feed.
proof fn lemma_line_feed_is_one_byte(v: u32)
    ensures
        v == 10 ==> vstd::utf8::encode_scalar(v) == seq![10u8],
        v != 10 ==> forall|i: int|
            0 <= i < vstd::utf8::encode_scalar(v).len() ==> vstd::utf8::encode_scalar(v)[i] != 10,
{
    assert(v <= 0x7f ==> (v & 0x7f) as u8 == v) by (bit_vector);
    assert(0xc0 | ((v >> 6) & 0x1f) as u8 != 10) by (bit_vector);
    assert(0xe0 | ((v >> 12) & 0x0f) as u8 != 10) by (bit_vector);
    assert(0xf0 | ((v >> 18) & 0x7) as u8 != 10) by (bit_vector);
    assert(0x80 | (v & 0x3f) as u8 != 10) by (bit_vector);
    assert(0x80 | ((v >> 6) & 0x3f) as u8 != 10) by (bit_vector);
    assert(0x80 | ((v >> 12) & 0x3f) as u8 != 10) by (bit_vector);
}

/// How many line feeds a text has.
pub open spec fn newlines(s: Seq<char>) -> nat
    decreases s.len(),
{
    if s.len() == 0 {
        0
    } else {
        newlines(s.drop_first()) + (if s[0] == '\n' {
            1nat
        } else {
            0nat
        })
    }
}

proof fn lemma_newlines(s: Seq<char>)
    ensures
        line_feeds(vstd::utf8::encode_utf8(s)) == newlines(s),
    decreases s.len(),
{
    if s.len() > 0 {
        let first = vstd::utf8::encode_scalar(s[0] as u32);
        lemma_newlines(s.drop_first());
        lemma_line_feeds_add(first, vstd::utf8::encode_utf8(s.drop_first()));
        lemma_line_feed_is_one_byte(s[0] as u32);
        vstd::utf8::char_u32_cast(s[0], s[0] as u32);
        if s[0] == '\n' {
            assert(first.drop_last() =~= Seq::empty());
            assert(line_feeds(first) == 1) by {
                reveal_with_fuel(line_feeds, 2);
            }
        } else {
            lemma_no_line_feeds(first);
        }
    }
}

/// Each byte of a character lies on the line of that character: one more than there are line
/// feeds before it.
pub proof fn law_lines_are_those_of_characters(
    before: Seq<char>,
    c: char,
    after: Seq<char>,
    d: nat,
)
    requires
        d < vstd::utf8::encode_scalar(c as u32).len(),
    ensures
        line_at(
            vstd::utf8::encode_utf8(before.push(c) + after),
            vstd::utf8::encode_utf8(before).len() + d,
        ) == newlines(before) + 1,
{
    let a = vstd::utf8::encode_utf8(before);
    let b = vstd::utf8::encode_scalar(c as u32);
    let rest = seq![c] + after;
    assert(before.push(c) + after =~= before + rest);
    lemma_encode_add(before, rest);
    assert(rest.drop_first() =~= after);
    let all = vstd::utf8::encode_utf8(before.push(c) + after);
    assert(all.take((a.len() + d) as int) =~= a + b.take(d as int));
    lemma_line_feeds_add(a, b.take(d as int));
    lemma_newlines(before);
    lemma_line_feed_is_one_byte(c as u32);
    lemma_no_line_feeds(b.take(d as int));
}

/// The `qmd://` path of a result is its path behind `qmd://`, with the index, where one is named
/// and the path has a collection and a file, behind that as a reader of the URI gets it back.
pub proof fn law_paths_stand_behind_the_scheme(
    collection: Seq<char>,
    path: Seq<char>,
    any: Seq<char>,
    name: &str,
)
    requires
        !collection.contains('/'),
        collection.len() > 0,
        path.len() > 0,
    ensures
        qmd_path(any, None) == "qmd://"@ + any,
        ({
            let display = collection + "/"@ + path;
            let encoded = qmd_path(display, Some(name)).skip(
                ("qmd://"@ + display + "?index="@).len() as int,
            );
            &&& search::begins_with(qmd_path(display, Some(name)), "qmd://"@ + display + "?index="@)
            &&& hex::percent_read(encoded) == vstd::utf8::encode_utf8(name@)
        }),
{
    reveal_strlit("/");
    reveal_strlit("qmd://");
    let display = collection + "/"@ + path;
    assert("/"@ =~= seq!['/']);
    search::law_after_first_is_what_follows(collection, '/', path);
    assert(display.take(display.len() - path.len() - 1) =~= collection);
    let bytes = vstd::utf8::encode_utf8(name@);
    let code = hex::percent_encoded(bytes, UriPart::Value);
    hex::law_percent_encoding_keeps_the_bytes(bytes, UriPart::Value);
    let head = "qmd://"@ + display + "?index="@;
    let whole = qmd_path(display, Some(name));
    assert(whole =~= head + code);
    assert(whole.subrange(0, head.len() as int) =~= head);
    assert(whole.skip(head.len() as int) =~= code);
    lemma_plain_path(any);
}

proof fn lemma_plain_path(display: Seq<char>)
    ensures
        qmd_path(display, None) == "qmd://"@ + display,
{
    reveal_strlit("/");
    match search::after_first(display, '/') {
        Some(rest) => {
            lemma_after_first_ends(display, '/');
            let before = display.take(display.len() - rest.len() - 1);
            assert(display =~= before + "/"@ + rest);
            assert("qmd://"@ + before + "/"@ + rest =~= "qmd://"@ + display);
        },
        None => {},
    }
}

proof fn lemma_after_first_ends(s: Seq<char>, c: char)
    requires
        search::after_first(s, c) is Some,
    ensures
        ({
            let rest = search::after_first(s, c)->0;
            &&& rest.len() < s.len()
            &&& s[s.len() - rest.len() - 1] == c
            &&& s.skip(s.len() - rest.len()) == rest
        }),
    decreases s.len(),
{
    if s[0] != c {
        lemma_after_first_ends(s.skip(1), c);
        let rest = search::after_first(s, c)->0;
        assert(s.skip(1).skip(s.skip(1).len() - rest.len()) =~= s.skip(s.len() - rest.len()));
    }
}

/// Marks around words change nothing else: without the marks the text is what it was.
pub proof fn law_highlighting_only_adds_marks(s: Seq<char>, needle: Seq<char>)
    ensures
        wrapped_ci(s, needle, Seq::empty(), Seq::empty()) == s,
    decreases s.len(),
{
    let none = Seq::<char>::empty();
    if needle.len() == 0 || s.len() == 0 {
    } else if search::begins_with(chars::ascii_lowered(s), needle) {
        let n = needle.len() as int;
        law_highlighting_only_adds_marks(s.skip(n), needle);
        assert(none + s.take(n) + none + s.skip(n) =~= s);
    } else {
        law_highlighting_only_adds_marks(s.skip(1), needle);
        assert(seq![s[0]] + s.skip(1) =~= s);
    }
}

/// The first occurrence of a word, in whatever case, stands between the marks, what is before it
/// is as it was, and what is behind it is treated in the same way.
pub proof fn law_each_occurrence_is_marked(
    before: Seq<char>,
    found: Seq<char>,
    after: Seq<char>,
    needle: Seq<char>,
    pre: Seq<char>,
    post: Seq<char>,
)
    requires
        found.len() > 0,
        chars::ascii_lowered(found) == needle,
        forall|i: int|
            0 <= i < before.len() ==> !search::occurs_at(
                chars::ascii_lowered(before + found + after),
                needle,
                i,
            ),
    ensures
        wrapped_ci(before + found + after, needle, pre, post) == before + pre + found + post
            + wrapped_ci(after, needle, pre, post),
    decreases before.len(),
{
    let s = before + found + after;
    let low = chars::ascii_lowered(s);
    let n = needle.len() as int;
    if before.len() == 0 {
        assert(low.subrange(0, n) =~= needle);
        assert(s.take(n) =~= found);
        assert(s.skip(n) =~= after);
        assert(pre + found + post + wrapped_ci(after, needle, pre, post) =~= before + pre + found
            + post + wrapped_ci(after, needle, pre, post));
    } else {
        assert(!search::occurs_at(low, needle, 0));
        let b = before.skip(1);
        let t = b + found + after;
        assert(s.skip(1) =~= t);
        let lt = chars::ascii_lowered(t);
        assert forall|i: int| 0 <= i < b.len() implies !search::occurs_at(lt, needle, i) by {
            if search::occurs_at(lt, needle, i) {
                assert(low.subrange(i + 1, i + 1 + n) =~= lt.subrange(i, i + n));
                assert(search::occurs_at(low, needle, i + 1));
            }
        }
        law_each_occurrence_is_marked(b, found, after, needle, pre, post);
        assert(seq![s[0]] + (b + pre + found + post + wrapped_ci(after, needle, pre, post))
            =~= before + pre + found + post + wrapped_ci(after, needle, pre, post));
    }
}

/// A word of three characters or more is marked in the text as the words before it leave it.
pub proof fn law_longer_words_are_highlighted(
    text: Seq<char>,
    words: Seq<Seq<char>>,
    word: Seq<char>,
    p: Palette,
)
    requires
        word.len() >= 3,
    ensures
        highlighted(text, words.push(word), p) == wrapped_ci(
            highlighted(text, words, p),
            chars::ascii_lowered(word),
            p.yellow_code() + p.bold_code(),
            p.reset_code(),
        ),
        highlighted(text, Seq::empty(), p) == text,
{
    assert(words.push(word).drop_last() =~= words);
}

/// A score is shown by its percentage, and with colours a high score is green, a middling one
/// yellow and a low one dim.
pub proof fn law_scores_are_shown_by_their_height(score: HitScore, p: Palette)
    ensures
        search::holds_text(
            score_text(score, p),
            chars::padded_start(number::signed_decimal(score.percent as int), 3) + "%"@,
        ),
        p.enabled && float_order::at_least(score.bits, 0x3fe6_6666_6666_6666)
            ==> search::begins_with(score_text(score, p), p.green_code()),
        p.enabled && float_order::at_least(score.bits, 0x3fd9_9999_9999_999a)
            && !float_order::at_least(score.bits, 0x3fe6_6666_6666_6666) ==> search::begins_with(
            score_text(score, p),
            p.yellow_code(),
        ),
        p.enabled && !float_order::at_least(score.bits, 0x3fd9_9999_9999_999a)
            ==> search::begins_with(score_text(score, p), p.dim_code()),
        !p.enabled ==> score_text(score, p) == chars::padded_start(
            number::signed_decimal(score.percent as int),
            3,
        ) + "%"@,
{
    float_order::law_numbers_compare(0x3fd9_9999_9999_999a, 0x3fe6_6666_6666_6666);
    let percent = chars::padded_start(number::signed_decimal(score.percent as int), 3);
    if p.enabled {
        let code = if float_order::at_least(score.bits, SEVEN_TENTHS) {
            p.green_code()
        } else if float_order::at_least(score.bits, FOUR_TENTHS) {
            p.yellow_code()
        } else {
            p.dim_code()
        };
        search::lemma_holds_two(code, percent, "%"@);
        search::lemma_holds_longer(code + percent + "%"@, p.reset_code(), percent + "%"@);
        search::lemma_begins_longer(code, percent, code);
        search::lemma_begins_longer(code + percent, "%"@, code);
        search::lemma_begins_longer(code + percent + "%"@, p.reset_code(), code);
    } else {
        search::lemma_holds_itself(percent + "%"@);
    }
}

/// What is shown of a document is its body where that was asked for, else its snippet; with line
/// numbers a body counts from one and a snippet from the line where it stands.
pub proof fn law_content_is_the_body_or_the_snippet(h: Hit)
    ensures
        h.body matches Some(b) ==> content(h, false) == b@ && content(h, true)
            == snippet::with_line_numbers(b@, 1),
        h.body is None ==> content(h, false) == h.snippet@ && content(h, true)
            == snippet::with_line_numbers(h.snippet@, h.line as nat),
{
}

/// What is below the first line is all that follows the first line feed.
pub proof fn law_below_the_first_line_is_the_rest(first: Seq<char>, rest: Seq<char>)
    requires
        !first.contains('\n'),
    ensures
        below_first_line(first + "\n"@ + rest) == rest,
        below_first_line(first).len() == 0,
{
    reveal_strlit("\n");
    reveal_strlit("");
    assert("\n"@ =~= seq!['\n']);
    search::law_after_first_is_what_follows(first, '\n', rest);
}

/// The line of a result is shown exactly where its snippet matched: without a match the line of
/// the result changes nothing, and with one it stands behind the path.
pub proof fn law_line_is_shown_on_a_match(h: Hit, other: Hit, p: Palette, link: CliLinkCtx)
    requires
        h.file == other.file,
        h.docid == other.docid,
        h.abs_path == other.abs_path,
        h.rel_path == other.rel_path,
    ensures
        path_line(h, p, false, link) == path_line(other, p, false, link),
        search::holds_text(path_line(h, p, true, link), ":"@ + number::decimal(h.line as nat)),
        !link.stdout_tty ==> search::begins_with(
            path_line(h, p, true, link),
            p.cyan_code() + h.file@,
        ),
        link.stdout_tty && (h.abs_path is Some) && (h.rel_path matches Some(rel) && rel@.len() > 0)
            ==> search::holds_text(
            path_line(h, p, true, link),
            h.rel_path->0@ + (":"@ + number::decimal(h.line as nat)),
        ),
        h.docid@.len() > 0 ==> search::holds_text(
            path_line(h, p, true, link),
            " "@ + p.dim_code() + "#"@ + h.docid@ + p.reset_code(),
        ),
{
    let line_info = ":"@ + number::decimal(h.line as nat);
    let docid = if h.docid@.len() == 0 {
        ""@
    } else {
        " "@ + p.dim_code() + "#"@ + h.docid@ + p.reset_code()
    };
    match (link.stdout_tty, h.abs_path, h.rel_path) {
        (true, Some(abs), Some(rel)) if rel@.len() > 0 => {
            let url = editor_uri(link.editor_template@, abs@, h.line, 1);
            let text = rel@ + line_info;
            let l = linked(text, url, true);
            search::lemma_holds_behind("\x1b]8;;"@ + url + "\x07"@, text);
            search::lemma_holds_longer(
                "\x1b]8;;"@ + url + "\x07"@ + text,
                "\x1b]8;;\x07"@,
                text,
            );
            search::lemma_holds_between(p.cyan_code(), l, p.reset_code());
            search::lemma_holds_through(p.cyan_code() + l + p.reset_code(), l, text);
            search::lemma_holds_longer(p.cyan_code() + l + p.reset_code(), docid, text);
            search::lemma_holds_behind(rel@, line_info);
            search::lemma_holds_through(path_line(h, p, true, link), text, line_info);
            search::lemma_holds_behind(p.cyan_code() + l + p.reset_code(), docid);
        },
        _ => {
            let a = p.cyan_code() + h.file@;
            let b = a + p.dim_code();
            search::lemma_holds_between(b, line_info, p.reset_code());
            search::lemma_holds_longer(b + line_info + p.reset_code(), docid, line_info);
            search::lemma_begins_longer(a, p.dim_code(), a);
            search::lemma_begins_longer(b, line_info, a);
            search::lemma_begins_longer(b + line_info, p.reset_code(), a);
            search::lemma_begins_longer(b + line_info + p.reset_code(), docid, a);
            search::lemma_holds_behind(b + line_info + p.reset_code(), docid);
        },
    }
}

/// The contributions that are shown are the greatest, at most three, the greater first and equal
/// ones in the order in which they came; none that is left out is greater.
pub proof fn law_greatest_contributions_are_shown(v: Seq<ContributionText>)
    requires
        v.len() <= usize::MAX,
    ensures
        top_contributions(v).len() == (if v.len() < 3 {
            v.len() as int
        } else {
            3
        }),
        exists|order: Seq<usize>|
            {
                &&& #[trigger] ranking::is_stable_order(order, contribution_keys(v), v.len())
                &&& forall|i: int|
                    0 <= i < top_contributions(v).len() ==> #[trigger] top_contributions(v)[i]
                        == contribution_text(v[order[i] as int])
            },
{
    let keys = contribution_keys(v);
    ranking::law_descending_is_stable(keys, v.len());
    let order = ranking::descending(keys, v.len());
    assert(ranking::is_stable_order(order, keys, v.len()));
}

/// What a terminal shows of a result: its path, its title, its context, its score, how that came
/// about, and its content.
pub proof fn law_terminal_shows_the_result(
    h: Hit,
    p: Palette,
    line_numbers: bool,
    query: Seq<char>,
    matched: bool,
    link: CliLinkCtx,
)
    ensures
        ({
            let s = cli_hit(h, p, line_numbers, query, matched, link);
            &&& search::begins_with(s, path_line(h, p, matched, link))
            &&& h.title@.len() > 0 ==> search::holds_text(s, "Title: "@ + h.title@)
            &&& h.context matches Some(c) ==> search::holds_text(s, "Context: "@ + c@)
            &&& search::holds_text(s, "Score: "@ + p.bold_code() + score_text(h.score, p))
            &&& h.explain matches Some(e) ==> search::holds_text(s, explain_block(e, p))
            &&& search::holds_text(s, shown_for(content(h, line_numbers), query, p))
        }),
{
    let heading = if h.title@.len() > 0 {
        p.bold_code() + "Title: "@ + h.title@ + p.reset_code() + "\n"@
    } else {
        ""@
    };
    let context = match h.context {
        Some(c) => p.dim_code() + "Context: "@ + c@ + p.reset_code() + "\n"@,
        None => ""@,
    };
    let explain = match h.explain {
        Some(e) => explain_block(e, p),
        None => ""@,
    };
    lemma_cli_parts(
        path_line(h, p, matched, link),
        heading,
        context,
        p.bold_code(),
        score_text(h.score, p),
        p.reset_code(),
        explain,
        shown_for(content(h, line_numbers), query, p),
    );
    let s = cli_hit(h, p, line_numbers, query, matched, link);
    if h.title@.len() > 0 {
        let t = "Title: "@ + h.title@;
        search::lemma_holds_two(p.bold_code(), "Title: "@, h.title@);
        search::lemma_holds_longer(p.bold_code() + "Title: "@ + h.title@, p.reset_code(), t);
        search::lemma_holds_longer(
            p.bold_code() + "Title: "@ + h.title@ + p.reset_code(),
            "\n"@,
            t,
        );
        search::lemma_holds_through(s, heading, t);
    }
    if let Some(c) = h.context {
        let t = "Context: "@ + c@;
        search::lemma_holds_two(p.dim_code(), "Context: "@, c@);
        search::lemma_holds_longer(p.dim_code() + "Context: "@ + c@, p.reset_code(), t);
        search::lemma_holds_longer(p.dim_code() + "Context: "@ + c@ + p.reset_code(), "\n"@, t);
        search::lemma_holds_through(s, context, t);
    }
}

proof fn lemma_cli_parts(
    path: Seq<char>,
    heading: Seq<char>,
    context: Seq<char>,
    bold: Seq<char>,
    score: Seq<char>,
    reset: Seq<char>,
    explain: Seq<char>,
    text: Seq<char>,
)
    ensures
        ({
            let s = path + "\n"@ + heading + context + "Score: "@ + bold + score + reset + "\n"@
                + explain + "\n"@ + text + "\n"@;
            &&& search::begins_with(s, path)
            &&& search::holds_text(s, heading)
            &&& search::holds_text(s, context)
            &&& search::holds_text(s, "Score: "@ + bold + score)
            &&& search::holds_text(s, explain)
            &&& search::holds_text(s, text)
        }),
{
    let c0 = path;
    let c1 = c0 + "\n"@;
    let c2 = c1 + heading;
    let c3 = c2 + context;
    let c4 = c3 + "Score: "@;
    let c5 = c4 + bold;
    let c6 = c5 + score;
    let c7 = c6 + reset;
    let c8 = c7 + "\n"@;
    let c9 = c8 + explain;
    let c10 = c9 + "\n"@;
    let c11 = c10 + text;
    let c12 = c11 + "\n"@;
    search::lemma_holds_behind(c1, heading);
    search::lemma_holds_longer(c2, context, heading);
    search::lemma_holds_longer(c3, "Score: "@, heading);
    search::lemma_holds_longer(c4, bold, heading);
    search::lemma_holds_longer(c5, score, heading);
    search::lemma_holds_longer(c6, reset, heading);
    search::lemma_holds_longer(c7, "\n"@, heading);
    search::lemma_holds_longer(c8, explain, heading);
    search::lemma_holds_longer(c9, "\n"@, heading);
    search::lemma_holds_longer(c10, text, heading);
    search::lemma_holds_longer(c11, "\n"@, heading);
    search::lemma_holds_behind(c2, context);
    search::lemma_holds_longer(c3, "Score: "@, context);
    search::lemma_holds_longer(c4, bold, context);
    search::lemma_holds_longer(c5, score, context);
    search::lemma_holds_longer(c6, reset, context);
    search::lemma_holds_longer(c7, "\n"@, context);
    search::lemma_holds_longer(c8, explain, context);
    search::lemma_holds_longer(c9, "\n"@, context);
    search::lemma_holds_longer(c10, text, context);
    search::lemma_holds_longer(c11, "\n"@, context);
    search::lemma_holds_three(c3, "Score: "@, bold, score);
    search::lemma_holds_longer(c6, reset, "Score: "@ + bold + score);
    search::lemma_holds_longer(c7, "\n"@, "Score: "@ + bold + score);
    search::lemma_holds_longer(c8, explain, "Score: "@ + bold + score);
    search::lemma_holds_longer(c9, "\n"@, "Score: "@ + bold + score);
    search::lemma_holds_longer(c10, text, "Score: "@ + bold + score);
    search::lemma_holds_longer(c11, "\n"@, "Score: "@ + bold + score);
    search::lemma_holds_behind(c8, explain);
    search::lemma_holds_longer(c9, "\n"@, explain);
    search::lemma_holds_longer(c10, text, explain);
    search::lemma_holds_longer(c11, "\n"@, explain);
    search::lemma_holds_behind(c10, text);
    search::lemma_holds_longer(c11, "\n"@, text);
    search::lemma_begins_longer(c0, "\n"@, path);
    search::lemma_begins_longer(c1, heading, path);
    search::lemma_begins_longer(c2, context, path);
    search::lemma_begins_longer(c3, "Score: "@, path);
    search::lemma_begins_longer(c4, bold, path);
    search::lemma_begins_longer(c5, score, path);
    search::lemma_begins_longer(c6, reset, path);
    search::lemma_begins_longer(c7, "\n"@, path);
    search::lemma_begins_longer(c8, explain, path);
    search::lemma_begins_longer(c9, "\n"@, path);
    search::lemma_begins_longer(c10, text, path);
    search::lemma_begins_longer(c11, "\n"@, path);
}

/// A terminal shows every result, each as it is shown alone.
pub proof fn law_terminal_shows_every_result(
    hits: Seq<Hit>,
    p: Palette,
    line_numbers: bool,
    query: Seq<char>,
    link: CliLinkCtx,
    i: int,
)
    requires
        0 <= i < hits.len(),
    ensures
        search::holds_text(
            cli_text(hits, p, line_numbers, query, link),
            cli_hit(hits[i], p, line_numbers, query, snippet_matches(hits[i], query), link),
        ),
{
    let parts = cli_hits(hits, p, line_numbers, query, link);
    search::lemma_joined_holds(parts, "\n\n"@, i);
}

/// The snippet of a result matches where a word of the query, in whatever case, stands in it below
/// its first line; what stands in the first line does not count.
pub proof fn law_snippets_match_below_their_first_line(h: Hit, query: Seq<char>, i: int)
    requires
        0 <= i < search::words(chars::lowercase(query)).len(),
    ensures
        search::holds_text(
            chars::lowercase(below_first_line(h.snippet@)),
            search::words(chars::lowercase(query))[i],
        ) ==> snippet_matches(h, query),
        (forall|k: int|
            0 <= k < search::words(chars::lowercase(query)).len() ==> !search::holds_text(
                chars::lowercase(below_first_line(h.snippet@)),
                #[trigger] search::words(chars::lowercase(query))[k],
            )) ==> !snippet_matches(h, query),
{
}

/// A CSV line holds the result, each field so that a reader gets it back: its identifier, score,
/// path, title, context, line and content.
pub proof fn law_csv_line_holds_the_result(h: Hit, line_numbers: bool)
    ensures
        exists|fields: Seq<Seq<char>>|
            {
                &&& hit_csv(h, line_numbers) == "\n"@ + #[trigger] chars::joined(fields, ","@)
                &&& fields.len() == 7
                &&& fields[0] == "#"@ + h.docid@
                &&& fields[1] == h.score.four@
                &&& output::csv_value(fields[2]) == h.file@
                &&& output::csv_value(fields[3]) == h.title@
                &&& output::csv_value(fields[4]) == chars::text_or_empty(h.context)
                &&& fields[5] == number::decimal(h.line as nat)
                &&& output::csv_value(fields[6]) == content(h, line_numbers)
            },
{
    let fields = seq![
        "#"@ + h.docid@,
        h.score.four@,
        output::csv_field(h.file@),
        output::csv_field(h.title@),
        output::csv_field(chars::text_or_empty(h.context)),
        number::decimal(h.line as nat),
        output::csv_field(content(h, line_numbers)),
    ];
    output::law_csv_keeps_the_value(h.file@);
    output::law_csv_keeps_the_value(h.title@);
    output::law_csv_keeps_the_value(chars::text_or_empty(h.context));
    output::law_csv_keeps_the_value(content(h, line_numbers));
    reveal_strlit("\n#");
    reveal_strlit("\n");
    reveal_strlit("#");
    assert("\n#"@ =~= "\n"@ + "#"@);
    lemma_joined_seven(fields);
    search::lemma_appended("\n"@, "#"@, h.docid@);
    let g0 = fields[0];
    let g1 = g0 + ","@;
    let g2 = g1 + fields[1];
    let g3 = g2 + ","@;
    let g4 = g3 + fields[2];
    let g5 = g4 + ","@;
    let g6 = g5 + fields[3];
    let g7 = g6 + ","@;
    let g8 = g7 + fields[4];
    let g9 = g8 + ","@;
    let g10 = g9 + fields[5];
    let g11 = g10 + ","@;
    let g12 = g11 + fields[6];
    search::lemma_appended("\n"@, g11, fields[6]);
    search::lemma_appended("\n"@, g10, ","@);
    search::lemma_appended("\n"@, g9, fields[5]);
    search::lemma_appended("\n"@, g8, ","@);
    search::lemma_appended("\n"@, g7, fields[4]);
    search::lemma_appended("\n"@, g6, ","@);
    search::lemma_appended("\n"@, g5, fields[3]);
    search::lemma_appended("\n"@, g4, ","@);
    search::lemma_appended("\n"@, g3, fields[2]);
    search::lemma_appended("\n"@, g2, ","@);
    search::lemma_appended("\n"@, g1, fields[1]);
    search::lemma_appended("\n"@, g0, ","@);
}

proof fn lemma_joined_seven(f: Seq<Seq<char>>)
    requires
        f.len() == 7,
    ensures
        chars::joined(f, ","@) == f[0] + ","@ + f[1] + ","@ + f[2] + ","@ + f[3] + ","@ + f[4]
            + ","@ + f[5] + ","@ + f[6],
{
    reveal_with_fuel(chars::joined, 7);
}

/// A CSV line for a protocol client holds the result, each field so that a reader gets it back.
pub proof fn law_protocol_line_holds_the_result(r: McpHit)
    ensures
        exists|fields: Seq<Seq<char>>|
            {
                &&& mcp_line(r) == "\n"@ + #[trigger] chars::joined(fields, ","@)
                &&& fields.len() == 6
                &&& output::csv_value(fields[0]) == "#"@ + r.docid@
                &&& output::csv_value(fields[1]) == r.file@
                &&& output::csv_value(fields[2]) == r.title@
                &&& output::csv_value(fields[3]) == r.score@
                &&& output::csv_value(fields[4]) == chars::text_or_empty(r.context)
                &&& output::csv_value(fields[5]) == r.snippet@
            },
{
    let fields = seq![
        output::csv_field("#"@ + r.docid@),
        output::csv_field(r.file@),
        output::csv_field(r.title@),
        output::csv_field(r.score@),
        output::csv_field(chars::text_or_empty(r.context)),
        output::csv_field(r.snippet@),
    ];
    output::law_csv_keeps_the_value("#"@ + r.docid@);
    output::law_csv_keeps_the_value(r.file@);
    output::law_csv_keeps_the_value(r.title@);
    output::law_csv_keeps_the_value(r.score@);
    output::law_csv_keeps_the_value(chars::text_or_empty(r.context));
    output::law_csv_keeps_the_value(r.snippet@);
    lemma_joined_six(fields);
    let g0 = fields[0];
    let g1 = g0 + ","@;
    let g2 = g1 + fields[1];
    let g3 = g2 + ","@;
    let g4 = g3 + fields[2];
    let g5 = g4 + ","@;
    let g6 = g5 + fields[3];
    let g7 = g6 + ","@;
    let g8 = g7 + fields[4];
    let g9 = g8 + ","@;
    let g10 = g9 + fields[5];
    search::lemma_appended("\n"@, g9, fields[5]);
    search::lemma_appended("\n"@, g8, ","@);
    search::lemma_appended("\n"@, g7, fields[4]);
    search::lemma_appended("\n"@, g6, ","@);
    search::lemma_appended("\n"@, g5, fields[3]);
    search::lemma_appended("\n"@, g4, ","@);
    search::lemma_appended("\n"@, g3, fields[2]);
    search::lemma_appended("\n"@, g2, ","@);
    search::lemma_appended("\n"@, g1, fields[1]);
    search::lemma_appended("\n"@, g0, ","@);
}

proof fn lemma_joined_six(f: Seq<Seq<char>>)
    requires
        f.len() == 6,
    ensures
        chars::joined(f, ","@) == f[0] + ","@ + f[1] + ","@ + f[2] + ","@ + f[3] + ","@ + f[4]
            + ","@ + f[5],
{
    reveal_with_fuel(chars::joined, 6);
}

/// Markdown shows of a result its title, or its path where it has none, its identifier, its
/// context and its content.
pub proof fn law_markdown_shows_the_result(h: Hit, line_numbers: bool)
    ensures
        ({
            let s = hit_md(h, line_numbers);
            &&& h.title@.len() > 0 ==> search::begins_with(s, "---\n# "@ + h.title@)
            &&& h.title@.len() == 0 ==> search::begins_with(s, "---\n# "@ + h.display_path@)
            &&& search::holds_text(s, "`#"@ + h.docid@ + "`\n"@)
            &&& h.context matches Some(c) ==> search::holds_text(s, "**context:** "@ + c@ + "\n"@)
            &&& search::holds_text(s, content(h, line_numbers))
        }),
{
    let name = if h.title@.len() > 0 {
        h.title@
    } else {
        h.display_path@
    };
    let context = output::wrapped("**context:** "@, h.context, "\n"@);
    let c0 = "---\n# "@;
    let c1 = c0 + name;
    let c2 = c1 + "\n\n**docid:** `#"@;
    let c3 = c2 + h.docid@;
    let c4 = c3 + "`\n"@;
    let c5 = c4 + context;
    let c6 = c5 + "\n"@;
    let c7 = c6 + content(h, line_numbers);
    let c8 = c7 + "\n"@;
    search::lemma_holds_behind(c4, context);
    search::lemma_holds_longer(c5, "\n"@, context);
    search::lemma_holds_longer(c6, content(h, line_numbers), context);
    search::lemma_holds_longer(c7, "\n"@, context);
    search::lemma_holds_behind(c6, content(h, line_numbers));
    search::lemma_holds_longer(c7, "\n"@, content(h, line_numbers));
    search::lemma_begins_longer(c1, "\n\n**docid:** `#"@, c1);
    search::lemma_begins_longer(c2, h.docid@, c1);
    search::lemma_begins_longer(c3, "`\n"@, c1);
    search::lemma_begins_longer(c4, context, c1);
    search::lemma_begins_longer(c5, "\n"@, c1);
    search::lemma_begins_longer(c6, content(h, line_numbers), c1);
    search::lemma_begins_longer(c7, "\n"@, c1);
    reveal_strlit("\n\n**docid:** `#");
    reveal_strlit("\n\n**docid:** ");
    reveal_strlit("`#");
    let start = "\n\n**docid:** "@;
    assert("\n\n**docid:** `#"@ =~= start + "`#"@);
    let id = "`#"@ + h.docid@ + "`\n"@;
    assert(c4 =~= (c1 + start) + id);
    search::lemma_holds_behind(c1 + start, id);
    search::lemma_holds_longer(c4, context, id);
    search::lemma_holds_longer(c5, "\n"@, id);
    search::lemma_holds_longer(c6, content(h, line_numbers), id);
    search::lemma_holds_longer(c7, "\n"@, id);
}

/// XML gives of a result its identifier, its path, its title, its context and its content.
pub proof fn law_xml_gives_the_result(h: Hit, line_numbers: bool)
    ensures
        ({
            let s = hit_xml(h, line_numbers);
            &&& search::begins_with(s, "<file docid=\"#"@ + h.docid@)
            &&& search::holds_text(s, "\" name=\""@ + output::xml_text(h.file@) + "\""@)
            &&& h.title@.len() > 0 ==> search::holds_text(
                s,
                " title=\""@ + output::xml_text(h.title@) + "\""@,
            )
            &&& h.context matches Some(c) ==> search::holds_text(
                s,
                " context=\""@ + output::xml_text(c@) + "\""@,
            )
            &&& search::holds_text(s, output::xml_text(content(h, line_numbers)))
        }),
{
    let heading = if h.title@.len() > 0 {
        " title=\""@ + output::xml_text(h.title@) + "\""@
    } else {
        ""@
    };
    let context = match h.context {
        Some(c) => " context=\""@ + output::xml_text(c@) + "\""@,
        None => ""@,
    };
    let c0 = "<file docid=\"#"@;
    let c1 = c0 + h.docid@;
    let c2 = c1 + "\" name=\""@;
    let c3 = c2 + output::xml_text(h.file@);
    let c4 = c3 + "\""@;
    let c5 = c4 + heading;
    let c6 = c5 + context;
    let c7 = c6 + ">\n"@;
    let c8 = c7 + output::xml_text(content(h, line_numbers));
    let c9 = c8 + "\n</file>"@;
    search::lemma_holds_three(c1, "\" name=\""@, output::xml_text(h.file@), "\""@);
    search::lemma_holds_longer(c4, heading, "\" name=\""@ + output::xml_text(h.file@) + "\""@);
    search::lemma_holds_longer(c5, context, "\" name=\""@ + output::xml_text(h.file@) + "\""@);
    search::lemma_holds_longer(c6, ">\n"@, "\" name=\""@ + output::xml_text(h.file@) + "\""@);
    search::lemma_holds_longer(c7, output::xml_text(content(h, line_numbers)), "\" name=\""@ + output::xml_text(h.file@) + "\""@);
    search::lemma_holds_longer(c8, "\n</file>"@, "\" name=\""@ + output::xml_text(h.file@) + "\""@);
    search::lemma_holds_behind(c4, heading);
    search::lemma_holds_longer(c5, context, heading);
    search::lemma_holds_longer(c6, ">\n"@, heading);
    search::lemma_holds_longer(c7, output::xml_text(content(h, line_numbers)), heading);
    search::lemma_holds_longer(c8, "\n</file>"@, heading);
    search::lemma_holds_behind(c5, context);
    search::lemma_holds_longer(c6, ">\n"@, context);
    search::lemma_holds_longer(c7, output::xml_text(content(h, line_numbers)), context);
    search::lemma_holds_longer(c8, "\n</file>"@, context);
    search::lemma_holds_behind(c7, output::xml_text(content(h, line_numbers)));
    search::lemma_holds_longer(c8, "\n</file>"@, output::xml_text(content(h, line_numbers)));
    search::lemma_begins_longer(c1, "\" name=\""@, c1);
    search::lemma_begins_longer(c2, output::xml_text(h.file@), c1);
    search::lemma_begins_longer(c3, "\""@, c1);
    search::lemma_begins_longer(c4, heading, c1);
    search::lemma_begins_longer(c5, context, c1);
    search::lemma_begins_longer(c6, ">\n"@, c1);
    search::lemma_begins_longer(c7, output::xml_text(content(h, line_numbers)), c1);
    search::lemma_begins_longer(c8, "\n</file>"@, c1);
}

/// The line of a result in a list of files gives its identifier, its score, its path and its
/// context.
pub proof fn law_list_of_files_gives_the_result(h: Hit)
    ensures
        search::begins_with(
            hit_file(h),
            "#"@ + h.docid@ + ","@ + h.score.two@ + ","@ + h.file@,
        ),
        h.context matches Some(c) ==> search::ends_in(
            hit_file(h),
            ",\""@ + output::doubled_quotes(c@) + "\""@,
        ),
        h.context is None ==> hit_file(h) == "#"@ + h.docid@ + ","@ + h.score.two@ + ","@ + h.file@,
{
    reveal_strlit("");
    let context = match h.context {
        Some(c) => ",\""@ + output::doubled_quotes(c@) + "\""@,
        None => ""@,
    };
    let a = "#"@ + h.docid@ + ","@ + h.score.two@ + ","@ + h.file@;
    search::lemma_begins_longer(a, context, a);
    let s = a + context;
    assert(s.subrange(s.len() - context.len(), s.len() as int) =~= context);
    if h.context is None {
        assert(s =~= a);
    }
}

/// In every format but JSON each result stands in what is printed, as it stands there alone.
pub proof fn law_every_result_is_printed(
    hits: Seq<Hit>,
    format: OutputFormat,
    p: Palette,
    line_numbers: bool,
    query: Seq<char>,
    link: CliLinkCtx,
    i: int,
)
    requires
        0 <= i < hits.len(),
    ensures
        format is Json <==> printed(hits, format, p, line_numbers, query, link) is None,
        printed(hits, format, p, line_numbers, query, link) matches Some(s) ==> {
            &&& format is Cli ==> search::holds_text(
                s,
                cli_hit(hits[i], p, line_numbers, query, snippet_matches(hits[i], query), link),
            )
            &&& format is Csv ==> search::holds_text(s, hit_csv(hits[i], line_numbers))
            &&& format is Md ==> search::holds_text(s, hit_md(hits[i], line_numbers))
            &&& format is Xml ==> search::holds_text(s, hit_xml(hits[i], line_numbers))
            &&& format is Files ==> search::holds_text(s, hit_file(hits[i]))
        },
{
    match format {
        OutputFormat::Cli => {
            law_terminal_shows_every_result(hits, p, line_numbers, query, link, i);
        },
        OutputFormat::Json => {},
        OutputFormat::Csv => {
            let lines = hits_csv(hits, line_numbers);
            let head = "docid,score,file,title,context,line,snippet"@;
            let all = chars::concatenated(lines);
            assert(lines[i] == hit_csv(hits[i], line_numbers));
            search::lemma_concatenated_holds(lines, i);
            search::lemma_holds_between(head, all, "\n"@);
            search::lemma_holds_through(head + all + "\n"@, all, lines[i]);
        },
        OutputFormat::Md => {
            let parts = hits_md(hits, line_numbers);
            assert(parts[i] == hit_md(hits[i], line_numbers));
            lemma_line_holds(parts, "\n"@, i);
        },
        OutputFormat::Xml => {
            let parts = hits_xml(hits, line_numbers);
            assert(parts[i] == hit_xml(hits[i], line_numbers));
            lemma_line_holds(parts, "\n\n"@, i);
        },
        OutputFormat::Files => {
            let parts = hit_files(hits);
            assert(parts[i] == hit_file(hits[i]));
            lemma_line_holds(parts, "\n"@, i);
        },
    }
}

proof fn lemma_line_holds(parts: Seq<Seq<char>>, sep: Seq<char>, i: int)
    requires
        0 <= i < parts.len(),
    ensures
        search::holds_text(line_unless_empty(chars::joined(parts, sep)), parts[i]),
{
    search::lemma_joined_holds(parts, sep, i);
    search::lemma_holds_longer(chars::joined(parts, sep), "\n"@, parts[i]);
}

/// The lines on how a score came about hold the scores of both searches, the fused score with its
/// parts and its rank, both weights of the blend with what they weigh, and the result, each behind
/// its label.
#[verifier::spinoff_prover]
#[verifier::rlimit(60)]
pub proof fn law_explanation_holds_every_score(e: ExplainText, p: Palette)
    ensures
        search::holds_text(
            explain_block(e, p),
            "Explain: fts=["@ + score_list(e.fts_scores@) + "] vec=["@,
        ),
        search::holds_text(
            explain_block(e, p),
            "] vec=["@ + score_list(e.vector_scores@) + "]"@,
        ),
        search::holds_text(
            explain_block(e, p),
            "  RRF: total="@ + e.total_score@ + " base="@,
        ),
        search::holds_text(
            explain_block(e, p),
            " base="@ + e.base_score@,
        ),
        search::holds_text(
            explain_block(e, p),
            " bonus="@ + e.top_rank_bonus@,
        ),
        search::holds_text(
            explain_block(e, p),
            " rank="@ + number::decimal(e.rank as nat),
        ),
        search::holds_text(
            explain_block(e, p),
            "  Blend: "@ + number::signed_decimal(e.weight_percent as int) + "%*"@ + e.position_score@,
        ),
        search::holds_text(
            explain_block(e, p),
            " + "@ + number::signed_decimal(e.rerank_percent as int) + "%*"@ + e.rerank_score@,
        ),
        search::holds_text(
            explain_block(e, p),
            " = "@ + e.blended_score@,
        ),
{
    let top = chars::joined(top_contributions(e.contributions@), " | "@);
    let tail = if top.len() > 0 {
        p.dim_code() + "  Top RRF contributions: "@ + top + p.reset_code() + "\n"@
    } else {
        ""@
    };
    let c0 = p.dim_code();
    let c1 = c0 + "Explain: fts=["@;
    let c2 = c1 + score_list(e.fts_scores@);
    let c3 = c2 + "] vec=["@;
    let c4 = c3 + score_list(e.vector_scores@);
    let c5 = c4 + "]"@;
    let c6 = c5 + p.reset_code();
    let c7 = c6 + "\n"@;
    let c8 = c7 + p.dim_code();
    let c9 = c8 + "  RRF: total="@;
    let c10 = c9 + e.total_score@;
    let c11 = c10 + " base="@;
    let c12 = c11 + e.base_score@;
    let c13 = c12 + " bonus="@;
    let c14 = c13 + e.top_rank_bonus@;
    let c15 = c14 + " rank="@;
    let c16 = c15 + number::decimal(e.rank as nat);
    let c17 = c16 + p.reset_code();
    let c18 = c17 + "\n"@;
    let c19 = c18 + p.dim_code();
    let c20 = c19 + "  Blend: "@;
    let c21 = c20 + number::signed_decimal(e.weight_percent as int);
    let c22 = c21 + "%*"@;
    let c23 = c22 + e.position_score@;
    let c24 = c23 + " + "@;
    let c25 = c24 + number::signed_decimal(e.rerank_percent as int);
    let c26 = c25 + "%*"@;
    let c27 = c26 + e.rerank_score@;
    let c28 = c27 + " = "@;
    let c29 = c28 + e.blended_score@;
    let c30 = c29 + p.reset_code();
    let c31 = c30 + "\n"@;
    let c32 = c31 + tail;
    search::lemma_holds_three(c0, "Explain: fts=["@, score_list(e.fts_scores@), "] vec=["@);
    search::lemma_holds_longer(c3, score_list(e.vector_scores@), "Explain: fts=["@ + score_list(e.fts_scores@) + "] vec=["@);
    search::lemma_holds_longer(c4, "]"@, "Explain: fts=["@ + score_list(e.fts_scores@) + "] vec=["@);
    search::lemma_holds_longer(c5, p.reset_code(), "Explain: fts=["@ + score_list(e.fts_scores@) + "] vec=["@);
    search::lemma_holds_longer(c6, "\n"@, "Explain: fts=["@ + score_list(e.fts_scores@) + "] vec=["@);
    search::lemma_holds_longer(c7, p.dim_code(), "Explain: fts=["@ + score_list(e.fts_scores@) + "] vec=["@);
    search::lemma_holds_longer(c8, "  RRF: total="@, "Explain: fts=["@ + score_list(e.fts_scores@) + "] vec=["@);
    search::lemma_holds_longer(c9, e.total_score@, "Explain: fts=["@ + score_list(e.fts_scores@) + "] vec=["@);
    search::lemma_holds_longer(c10, " base="@, "Explain: fts=["@ + score_list(e.fts_scores@) + "] vec=["@);
    search::lemma_holds_longer(c11, e.base_score@, "Explain: fts=["@ + score_list(e.fts_scores@) + "] vec=["@);
    search::lemma_holds_longer(c12, " bonus="@, "Explain: fts=["@ + score_list(e.fts_scores@) + "] vec=["@);
    search::lemma_holds_longer(c13, e.top_rank_bonus@, "Explain: fts=["@ + score_list(e.fts_scores@) + "] vec=["@);
    search::lemma_holds_longer(c14, " rank="@, "Explain: fts=["@ + score_list(e.fts_scores@) + "] vec=["@);
    search::lemma_holds_longer(c15, number::decimal(e.rank as nat), "Explain: fts=["@ + score_list(e.fts_scores@) + "] vec=["@);
    search::lemma_holds_longer(c16, p.reset_code(), "Explain: fts=["@ + score_list(e.fts_scores@) + "] vec=["@);
    search::lemma_holds_longer(c17, "\n"@, "Explain: fts=["@ + score_list(e.fts_scores@) + "] vec=["@);
    search::lemma_holds_longer(c18, p.dim_code(), "Explain: fts=["@ + score_list(e.fts_scores@) + "] vec=["@);
    search::lemma_holds_longer(c19, "  Blend: "@, "Explain: fts=["@ + score_list(e.fts_scores@) + "] vec=["@);
    search::lemma_holds_longer(c20, number::signed_decimal(e.weight_percent as int), "Explain: fts=["@ + score_list(e.fts_scores@) + "] vec=["@);
    search::lemma_holds_longer(c21, "%*"@, "Explain: fts=["@ + score_list(e.fts_scores@) + "] vec=["@);
    search::lemma_holds_longer(c22, e.position_score@, "Explain: fts=["@ + score_list(e.fts_scores@) + "] vec=["@);
    search::lemma_holds_longer(c23, " + "@, "Explain: fts=["@ + score_list(e.fts_scores@) + "] vec=["@);
    search::lemma_holds_longer(c24, number::signed_decimal(e.rerank_percent as int), "Explain: fts=["@ + score_list(e.fts_scores@) + "] vec=["@);
    search::lemma_holds_longer(c25, "%*"@, "Explain: fts=["@ + score_list(e.fts_scores@) + "] vec=["@);
    search::lemma_holds_longer(c26, e.rerank_score@, "Explain: fts=["@ + score_list(e.fts_scores@) + "] vec=["@);
    search::lemma_holds_longer(c27, " = "@, "Explain: fts=["@ + score_list(e.fts_scores@) + "] vec=["@);
    search::lemma_holds_longer(c28, e.blended_score@, "Explain: fts=["@ + score_list(e.fts_scores@) + "] vec=["@);
    search::lemma_holds_longer(c29, p.reset_code(), "Explain: fts=["@ + score_list(e.fts_scores@) + "] vec=["@);
    search::lemma_holds_longer(c30, "\n"@, "Explain: fts=["@ + score_list(e.fts_scores@) + "] vec=["@);
    search::lemma_holds_longer(c31, tail, "Explain: fts=["@ + score_list(e.fts_scores@) + "] vec=["@);
    search::lemma_holds_three(c2, "] vec=["@, score_list(e.vector_scores@), "]"@);
    search::lemma_holds_longer(c5, p.reset_code(), "] vec=["@ + score_list(e.vector_scores@) + "]"@);
    search::lemma_holds_longer(c6, "\n"@, "] vec=["@ + score_list(e.vector_scores@) + "]"@);
    search::lemma_holds_longer(c7, p.dim_code(), "] vec=["@ + score_list(e.vector_scores@) + "]"@);
    search::lemma_holds_longer(c8, "  RRF: total="@, "] vec=["@ + score_list(e.vector_scores@) + "]"@);
    search::lemma_holds_longer(c9, e.total_score@, "] vec=["@ + score_list(e.vector_scores@) + "]"@);
    search::lemma_holds_longer(c10, " base="@, "] vec=["@ + score_list(e.vector_scores@) + "]"@);
    search::lemma_holds_longer(c11, e.base_score@, "] vec=["@ + score_list(e.vector_scores@) + "]"@);
    search::lemma_holds_longer(c12, " bonus="@, "] vec=["@ + score_list(e.vector_scores@) + "]"@);
    search::lemma_holds_longer(c13, e.top_rank_bonus@, "] vec=["@ + score_list(e.vector_scores@) + "]"@);
    search::lemma_holds_longer(c14, " rank="@, "] vec=["@ + score_list(e.vector_scores@) + "]"@);
    search::lemma_holds_longer(c15, number::decimal(e.rank as nat), "] vec=["@ + score_list(e.vector_scores@) + "]"@);
    search::lemma_holds_longer(c16, p.reset_code(), "] vec=["@ + score_list(e.vector_scores@) + "]"@);
    search::lemma_holds_longer(c17, "\n"@, "] vec=["@ + score_list(e.vector_scores@) + "]"@);
    search::lemma_holds_longer(c18, p.dim_code(), "] vec=["@ + score_list(e.vector_scores@) + "]"@);
    search::lemma_holds_longer(c19, "  Blend: "@, "] vec=["@ + score_list(e.vector_scores@) + "]"@);
    search::lemma_holds_longer(c20, number::signed_decimal(e.weight_percent as int), "] vec=["@ + score_list(e.vector_scores@) + "]"@);
    search::lemma_holds_longer(c21, "%*"@, "] vec=["@ + score_list(e.vector_scores@) + "]"@);
    search::lemma_holds_longer(c22, e.position_score@, "] vec=["@ + score_list(e.vector_scores@) + "]"@);
    search::lemma_holds_longer(c23, " + "@, "] vec=["@ + score_list(e.vector_scores@) + "]"@);
    search::lemma_holds_longer(c24, number::signed_decimal(e.rerank_percent as int), "] vec=["@ + score_list(e.vector_scores@) + "]"@);
    search::lemma_holds_longer(c25, "%*"@, "] vec=["@ + score_list(e.vector_scores@) + "]"@);
    search::lemma_holds_longer(c26, e.rerank_score@, "] vec=["@ + score_list(e.vector_scores@) + "]"@);
    search::lemma_holds_longer(c27, " = "@, "] vec=["@ + score_list(e.vector_scores@) + "]"@);
    search::lemma_holds_longer(c28, e.blended_score@, "] vec=["@ + score_list(e.vector_scores@) + "]"@);
    search::lemma_holds_longer(c29, p.reset_code(), "] vec=["@ + score_list(e.vector_scores@) + "]"@);
    search::lemma_holds_longer(c30, "\n"@, "] vec=["@ + score_list(e.vector_scores@) + "]"@);
    search::lemma_holds_longer(c31, tail, "] vec=["@ + score_list(e.vector_scores@) + "]"@);
    search::lemma_holds_three(c8, "  RRF: total="@, e.total_score@, " base="@);
    search::lemma_holds_longer(c11, e.base_score@, "  RRF: total="@ + e.total_score@ + " base="@);
    search::lemma_holds_longer(c12, " bonus="@, "  RRF: total="@ + e.total_score@ + " base="@);
    search::lemma_holds_longer(c13, e.top_rank_bonus@, "  RRF: total="@ + e.total_score@ + " base="@);
    search::lemma_holds_longer(c14, " rank="@, "  RRF: total="@ + e.total_score@ + " base="@);
    search::lemma_holds_longer(c15, number::decimal(e.rank as nat), "  RRF: total="@ + e.total_score@ + " base="@);
    search::lemma_holds_longer(c16, p.reset_code(), "  RRF: total="@ + e.total_score@ + " base="@);
    search::lemma_holds_longer(c17, "\n"@, "  RRF: total="@ + e.total_score@ + " base="@);
    search::lemma_holds_longer(c18, p.dim_code(), "  RRF: total="@ + e.total_score@ + " base="@);
    search::lemma_holds_longer(c19, "  Blend: "@, "  RRF: total="@ + e.total_score@ + " base="@);
    search::lemma_holds_longer(c20, number::signed_decimal(e.weight_percent as int), "  RRF: total="@ + e.total_score@ + " base="@);
    search::lemma_holds_longer(c21, "%*"@, "  RRF: total="@ + e.total_score@ + " base="@);
    search::lemma_holds_longer(c22, e.position_score@, "  RRF: total="@ + e.total_score@ + " base="@);
    search::lemma_holds_longer(c23, " + "@, "  RRF: total="@ + e.total_score@ + " base="@);
    search::lemma_holds_longer(c24, number::signed_decimal(e.rerank_percent as int), "  RRF: total="@ + e.total_score@ + " base="@);
    search::lemma_holds_longer(c25, "%*"@, "  RRF: total="@ + e.total_score@ + " base="@);
    search::lemma_holds_longer(c26, e.rerank_score@, "  RRF: total="@ + e.total_score@ + " base="@);
    search::lemma_holds_longer(c27, " = "@, "  RRF: total="@ + e.total_score@ + " base="@);
    search::lemma_holds_longer(c28, e.blended_score@, "  RRF: total="@ + e.total_score@ + " base="@);
    search::lemma_holds_longer(c29, p.reset_code(), "  RRF: total="@ + e.total_score@ + " base="@);
    search::lemma_holds_longer(c30, "\n"@, "  RRF: total="@ + e.total_score@ + " base="@);
    search::lemma_holds_longer(c31, tail, "  RRF: total="@ + e.total_score@ + " base="@);
    search::lemma_holds_two(c10, " base="@, e.base_score@);
    search::lemma_holds_longer(c12, " bonus="@, " base="@ + e.base_score@);
    search::lemma_holds_longer(c13, e.top_rank_bonus@, " base="@ + e.base_score@);
    search::lemma_holds_longer(c14, " rank="@, " base="@ + e.base_score@);
    search::lemma_holds_longer(c15, number::decimal(e.rank as nat), " base="@ + e.base_score@);
    search::lemma_holds_longer(c16, p.reset_code(), " base="@ + e.base_score@);
    search::lemma_holds_longer(c17, "\n"@, " base="@ + e.base_score@);
    search::lemma_holds_longer(c18, p.dim_code(), " base="@ + e.base_score@);
    search::lemma_holds_longer(c19, "  Blend: "@, " base="@ + e.base_score@);
    search::lemma_holds_longer(c20, number::signed_decimal(e.weight_percent as int), " base="@ + e.base_score@);
    search::lemma_holds_longer(c21, "%*"@, " base="@ + e.base_score@);
    search::lemma_holds_longer(c22, e.position_score@, " base="@ + e.base_score@);
    search::lemma_holds_longer(c23, " + "@, " base="@ + e.base_score@);
    search::lemma_holds_longer(c24, number::signed_decimal(e.rerank_percent as int), " base="@ + e.base_score@);
    search::lemma_holds_longer(c25, "%*"@, " base="@ + e.base_score@);
    search::lemma_holds_longer(c26, e.rerank_score@, " base="@ + e.base_score@);
    search::lemma_holds_longer(c27, " = "@, " base="@ + e.base_score@);
    search::lemma_holds_longer(c28, e.blended_score@, " base="@ + e.base_score@);
    search::lemma_holds_longer(c29, p.reset_code(), " base="@ + e.base_score@);
    search::lemma_holds_longer(c30, "\n"@, " base="@ + e.base_score@);
    search::lemma_holds_longer(c31, tail, " base="@ + e.base_score@);
    search::lemma_holds_two(c12, " bonus="@, e.top_rank_bonus@);
    search::lemma_holds_longer(c14, " rank="@, " bonus="@ + e.top_rank_bonus@);
    search::lemma_holds_longer(c15, number::decimal(e.rank as nat), " bonus="@ + e.top_rank_bonus@);
    search::lemma_holds_longer(c16, p.reset_code(), " bonus="@ + e.top_rank_bonus@);
    search::lemma_holds_longer(c17, "\n"@, " bonus="@ + e.top_rank_bonus@);
    search::lemma_holds_longer(c18, p.dim_code(), " bonus="@ + e.top_rank_bonus@);
    search::lemma_holds_longer(c19, "  Blend: "@, " bonus="@ + e.top_rank_bonus@);
    search::lemma_holds_longer(c20, number::signed_decimal(e.weight_percent as int), " bonus="@ + e.top_rank_bonus@);
    search::lemma_holds_longer(c21, "%*"@, " bonus="@ + e.top_rank_bonus@);
    search::lemma_holds_longer(c22, e.position_score@, " bonus="@ + e.top_rank_bonus@);
    search::lemma_holds_longer(c23, " + "@, " bonus="@ + e.top_rank_bonus@);
    search::lemma_holds_longer(c24, number::signed_decimal(e.rerank_percent as int), " bonus="@ + e.top_rank_bonus@);
    search::lemma_holds_longer(c25, "%*"@, " bonus="@ + e.top_rank_bonus@);
    search::lemma_holds_longer(c26, e.rerank_score@, " bonus="@ + e.top_rank_bonus@);
    search::lemma_holds_longer(c27, " = "@, " bonus="@ + e.top_rank_bonus@);
    search::lemma_holds_longer(c28, e.blended_score@, " bonus="@ + e.top_rank_bonus@);
    search::lemma_holds_longer(c29, p.reset_code(), " bonus="@ + e.top_rank_bonus@);
    search::lemma_holds_longer(c30, "\n"@, " bonus="@ + e.top_rank_bonus@);
    search::lemma_holds_longer(c31, tail, " bonus="@ + e.top_rank_bonus@);
    search::lemma_holds_two(c14, " rank="@, number::decimal(e.rank as nat));
    search::lemma_holds_longer(c16, p.reset_code(), " rank="@ + number::decimal(e.rank as nat));
    search::lemma_holds_longer(c17, "\n"@, " rank="@ + number::decimal(e.rank as nat));
    search::lemma_holds_longer(c18, p.dim_code(), " rank="@ + number::decimal(e.rank as nat));
    search::lemma_holds_longer(c19, "  Blend: "@, " rank="@ + number::decimal(e.rank as nat));
    search::lemma_holds_longer(c20, number::signed_decimal(e.weight_percent as int), " rank="@ + number::decimal(e.rank as nat));
    search::lemma_holds_longer(c21, "%*"@, " rank="@ + number::decimal(e.rank as nat));
    search::lemma_holds_longer(c22, e.position_score@, " rank="@ + number::decimal(e.rank as nat));
    search::lemma_holds_longer(c23, " + "@, " rank="@ + number::decimal(e.rank as nat));
    search::lemma_holds_longer(c24, number::signed_decimal(e.rerank_percent as int), " rank="@ + number::decimal(e.rank as nat));
    search::lemma_holds_longer(c25, "%*"@, " rank="@ + number::decimal(e.rank as nat));
    search::lemma_holds_longer(c26, e.rerank_score@, " rank="@ + number::decimal(e.rank as nat));
    search::lemma_holds_longer(c27, " = "@, " rank="@ + number::decimal(e.rank as nat));
    search::lemma_holds_longer(c28, e.blended_score@, " rank="@ + number::decimal(e.rank as nat));
    search::lemma_holds_longer(c29, p.reset_code(), " rank="@ + number::decimal(e.rank as nat));
    search::lemma_holds_longer(c30, "\n"@, " rank="@ + number::decimal(e.rank as nat));
    search::lemma_holds_longer(c31, tail, " rank="@ + number::decimal(e.rank as nat));
    search::lemma_holds_four(c19, "  Blend: "@, number::signed_decimal(e.weight_percent as int), "%*"@, e.position_score@);
    search::lemma_holds_longer(c23, " + "@, "  Blend: "@ + number::signed_decimal(e.weight_percent as int) + "%*"@ + e.position_score@);
    search::lemma_holds_longer(c24, number::signed_decimal(e.rerank_percent as int), "  Blend: "@ + number::signed_decimal(e.weight_percent as int) + "%*"@ + e.position_score@);
    search::lemma_holds_longer(c25, "%*"@, "  Blend: "@ + number::signed_decimal(e.weight_percent as int) + "%*"@ + e.position_score@);
    search::lemma_holds_longer(c26, e.rerank_score@, "  Blend: "@ + number::signed_decimal(e.weight_percent as int) + "%*"@ + e.position_score@);
    search::lemma_holds_longer(c27, " = "@, "  Blend: "@ + number::signed_decimal(e.weight_percent as int) + "%*"@ + e.position_score@);
    search::lemma_holds_longer(c28, e.blended_score@, "  Blend: "@ + number::signed_decimal(e.weight_percent as int) + "%*"@ + e.position_score@);
    search::lemma_holds_longer(c29, p.reset_code(), "  Blend: "@ + number::signed_decimal(e.weight_percent as int) + "%*"@ + e.position_score@);
    search::lemma_holds_longer(c30, "\n"@, "  Blend: "@ + number::signed_decimal(e.weight_percent as int) + "%*"@ + e.position_score@);
    search::lemma_holds_longer(c31, tail, "  Blend: "@ + number::signed_decimal(e.weight_percent as int) + "%*"@ + e.position_score@);
    search::lemma_holds_four(c23, " + "@, number::signed_decimal(e.rerank_percent as int), "%*"@, e.rerank_score@);
    search::lemma_holds_longer(c27, " = "@, " + "@ + number::signed_decimal(e.rerank_percent as int) + "%*"@ + e.rerank_score@);
    search::lemma_holds_longer(c28, e.blended_score@, " + "@ + number::signed_decimal(e.rerank_percent as int) + "%*"@ + e.rerank_score@);
    search::lemma_holds_longer(c29, p.reset_code(), " + "@ + number::signed_decimal(e.rerank_percent as int) + "%*"@ + e.rerank_score@);
    search::lemma_holds_longer(c30, "\n"@, " + "@ + number::signed_decimal(e.rerank_percent as int) + "%*"@ + e.rerank_score@);
    search::lemma_holds_longer(c31, tail, " + "@ + number::signed_decimal(e.rerank_percent as int) + "%*"@ + e.rerank_score@);
    search::lemma_holds_two(c27, " = "@, e.blended_score@);
    search::lemma_holds_longer(c29, p.reset_code(), " = "@ + e.blended_score@);
    search::lemma_holds_longer(c30, "\n"@, " = "@ + e.blended_score@);
    search::lemma_holds_longer(c31, tail, " = "@ + e.blended_score@);
}

/// In a link to an editor there is no line and no column before the first.
pub proof fn law_lines_and_columns_count_from_one(
    template: Seq<char>,
    path: Seq<char>,
    line: usize,
    col: usize,
)
    ensures
        editor_uri(template, path, 0, col) == editor_uri(template, path, 1, col),
        editor_uri(template, path, line, 0) == editor_uri(template, path, line, 1),
{
}

/// Whether a text is a mark of a template: a brace, and others behind it.
pub open spec fn is_mark(m: Seq<char>) -> bool {
    m.len() > 0 && m[0] == '{'
}

proof fn lemma_no_brace_no_mark(s: Seq<char>, m: Seq<char>, with: Seq<char>)
    requires
        !s.contains('{'),
        is_mark(m),
    ensures
        search::replaced(s, m, with) == s,
{
    assert forall|i: int| !search::occurs_at(s, m, i) by {
        if search::occurs_at(s, m, i) {
            assert(s.subrange(i, i + m.len())[0] == s[i]);
            assert(s.contains('{'));
        }
    }
    search::law_nothing_is_replaced(s, m, with);
}

proof fn lemma_only_mark(a: Seq<char>, m: Seq<char>, b: Seq<char>, with: Seq<char>)
    requires
        !a.contains('{'),
        !b.contains('{'),
        is_mark(m),
    ensures
        search::replaced(a + m + b, m, with) == a + with + b,
{
    let s = a + m + b;
    assert forall|i: int| 0 <= i < a.len() implies !search::occurs_at(s, m, i) by {
        if search::occurs_at(s, m, i) {
            assert(s.subrange(i, i + m.len())[0] == s[i]);
            assert(a[i] == '{');
        }
    }
    assert forall|i: int| !search::occurs_at(b, m, i) by {
        if search::occurs_at(b, m, i) {
            assert(b.subrange(i, i + m.len())[0] == b[i]);
            assert(b.contains('{'));
        }
    }
    search::law_replaced_once(a, m, b, with);
}

proof fn lemma_other_mark(
    a: Seq<char>,
    m: Seq<char>,
    b: Seq<char>,
    other: Seq<char>,
    k: int,
    with: Seq<char>,
)
    requires
        !a.contains('{'),
        !b.contains('{'),
        is_mark(m),
        is_mark(other),
        forall|i: int| 0 < i < m.len() ==> #[trigger] m[i] != '{',
        0 < k < m.len(),
        k < other.len(),
        m[k] != other[k],
    ensures
        search::replaced(a + m + b, other, with) == a + m + b,
{
    let s = a + m + b;
    assert forall|i: int| !search::occurs_at(s, other, i) by {
        if search::occurs_at(s, other, i) {
            let t = s.subrange(i, i + other.len());
            assert(t[0] == s[i]);
            if i < a.len() {
                assert(a[i] == '{');
            } else if i == a.len() {
                assert(t[k] == s[i + k]);
                assert(s[i + k] == m[k]);
            } else if i < a.len() + m.len() {
                assert(s[i] == m[i - a.len()]);
            } else {
                assert(s[i] == b[i - a.len() - m.len()]);
            }
        }
    }
    search::law_nothing_is_replaced(s, other, with);
}

proof fn lemma_without_brace(a: Seq<char>, m: Seq<char>, b: Seq<char>)
    requires
        !a.contains('{'),
        !m.contains('{'),
        !b.contains('{'),
    ensures
        !(a + m + b).contains('{'),
{
    let s = a + m + b;
    assert forall|i: int| 0 <= i < s.len() implies s[i] != '{' by {
        if i < a.len() {
            assert(s[i] == a[i]);
        } else if i < a.len() + m.len() {
            assert(s[i] == m[i - a.len()]);
        } else {
            assert(s[i] == b[i - a.len() - m.len()]);
        }
    }
}

proof fn lemma_numbers_have_no_brace(n: nat)
    ensures
        !number::decimal(n).contains('{'),
{
    number::law_numeral_stands_for_its_number(n);
}

proof fn lemma_paths_have_no_brace(bytes: Seq<u8>)
    ensures
        !hex::percent_encoded(bytes, UriPart::Path).contains('{'),
{
    hex::law_percent_encoding_is_safe(bytes, UriPart::Path);
}

/// Each mark of a template gives way to what it stands for: the path to the encoded path, the line
/// to its number, and both names of the column to its number. What stands around it stays.
pub proof fn law_marks_give_way_to_what_they_stand_for(
    a: Seq<char>,
    b: Seq<char>,
    path: Seq<char>,
    line: usize,
    col: usize,
)
    requires
        !a.contains('{'),
        !b.contains('{'),
        line > 0,
        col > 0,
    ensures
        editor_uri(a + "{path}"@ + b, path, line, col) == a + hex::percent_encoded(
            vstd::utf8::encode_utf8(path),
            UriPart::Path,
        ) + b,
        editor_uri(a + "{line}"@ + b, path, line, col) == a + number::decimal(line as nat) + b,
        editor_uri(a + "{col}"@ + b, path, line, col) == a + number::decimal(col as nat) + b,
        editor_uri(a + "{column}"@ + b, path, line, col) == a + number::decimal(col as nat) + b,
{
    reveal_strlit("{path}");
    reveal_strlit("{line}");
    reveal_strlit("{col}");
    reveal_strlit("{column}");
    let encoded = hex::percent_encoded(vstd::utf8::encode_utf8(path), UriPart::Path);
    let l = number::decimal(line as nat);
    let c = number::decimal(col as nat);
    lemma_paths_have_no_brace(vstd::utf8::encode_utf8(path));
    lemma_numbers_have_no_brace(line as nat);
    lemma_numbers_have_no_brace(col as nat);
    lemma_without_brace(a, encoded, b);
    lemma_without_brace(a, l, b);
    lemma_without_brace(a, c, b);
    lemma_only_mark(a, "{path}"@, b, encoded);
    lemma_no_brace_no_mark(a + encoded + b, "{line}"@, l);
    lemma_no_brace_no_mark(a + encoded + b, "{col}"@, c);
    lemma_no_brace_no_mark(a + encoded + b, "{column}"@, c);
    lemma_other_mark(a, "{line}"@, b, "{path}"@, 1, encoded);
    lemma_only_mark(a, "{line}"@, b, l);
    lemma_no_brace_no_mark(a + l + b, "{col}"@, c);
    lemma_no_brace_no_mark(a + l + b, "{column}"@, c);
    lemma_other_mark(a, "{col}"@, b, "{path}"@, 1, encoded);
    lemma_other_mark(a, "{col}"@, b, "{line}"@, 1, l);
    lemma_only_mark(a, "{col}"@, b, c);
    lemma_no_brace_no_mark(a + c + b, "{column}"@, c);
    lemma_other_mark(a, "{column}"@, b, "{path}"@, 1, encoded);
    lemma_other_mark(a, "{column}"@, b, "{line}"@, 1, l);
    lemma_other_mark(a, "{column}"@, b, "{col}"@, 4, c);
    lemma_only_mark(a, "{column}"@, b, c);
}

/// Each kind of search and of query has a name of its own.
pub proof fn law_searches_have_names_of_their_own(
    a: SearchSource,
    b: SearchSource,
    c: QueryType,
    d: QueryType,
)
    ensures
        source_text(a) == source_text(b) <==> a == b,
        query_type_text(c) == query_type_text(d) <==> c == d,
        source_text(SearchSource::Vec) == query_type_text(QueryType::Vec),
        query_type_text(QueryType::Original)[0] == 'o',
        query_type_text(QueryType::Hyde)[0] == 'h',
        query_type_text(QueryType::Lex)[0] == 'l',
        source_text(SearchSource::Fts)[0] == 'f',
{
    reveal_strlit("fts");
    reveal_strlit("vec");
    reveal_strlit("original");
    reveal_strlit("lex");
    reveal_strlit("hyde");
    assert("fts"@[0] == 'f' && "vec"@[0] == 'v' && "original"@[0] == 'o' && "lex"@[0] == 'l'
        && "hyde"@[0] == 'h');
}

} // verus!
