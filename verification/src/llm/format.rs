//! How texts are put to the embedding model, and the fingerprint of all that decides it.
use sha2::Digest;
use vstd::prelude::*;

use crate::text::{chars, hex, number, search};
use crate::text::chars::join;
use crate::text::hex::hex_of;
use crate::text::number::decimal_of;

verus! {

/// How many tokens a chunk has.
pub const CHUNK_SIZE_TOKENS: usize = 900;

/// How many tokens two neighbouring chunks have in common.
pub const CHUNK_OVERLAP_TOKENS: usize = 135;

/// Whether a word is made of small ASCII letters that no character but their own capitals turns
/// into: all but `k` and `s`. The word is short.
pub open spec fn is_plain_word(w: Seq<char>) -> bool {
    0 < w.len() <= 16 && forall|i: int|
        0 <= i < w.len() ==> 'a' <= #[trigger] w[i] <= 'z' && w[i] != 'k' && w[i] != 's'
}

/// The pattern for two words, the second behind the first on one line, in whatever case.
pub open spec fn two_word_pattern(a: Seq<char>, b: Seq<char>) -> Seq<char> {
    "(?i)"@ + a + ".*"@ + b
}

/// Whether `a` stands in `text` and `b` behind it, in whatever ASCII case, with no line feed in
/// between.
pub open spec fn in_order(text: Seq<char>, a: Seq<char>, b: Seq<char>) -> bool {
    let lower = chars::ascii_lowered(text);
    exists|i: int, j: int|
        #![trigger search::occurs_at(lower, a, i), search::occurs_at(lower, b, j)]
        search::occurs_at(lower, a, i) && search::occurs_at(lower, b, j) && i + a.len() <= j
            && forall|k: int| i + a.len() <= k < j ==> text[k] != '\n'
}

/// `regex::Regex::is_match`, on a pattern for two words: whether the text holds the first and,
/// on the same line, behind it the second, in whatever case. `.` matches any character but a
/// line feed, and `(?i)` lets an ASCII letter other than `k` and `s` match its capital and
/// itself alone.
#[verifier::external_body]
fn regex_is_match(pattern: &str, text: &str) -> (r: bool)
    requires
        pattern@.len() <= 32,
        exists|a: Seq<char>, b: Seq<char>|
            is_plain_word(a) && is_plain_word(b) && pattern@ == #[trigger] two_word_pattern(a, b),
    ensures
        forall|a: Seq<char>, b: Seq<char>|
            is_plain_word(a) && is_plain_word(b) && pattern@ == #[trigger] two_word_pattern(a, b)
                ==> r == in_order(text@, a, b),
{
    regex::Regex::new(pattern).map(|re| re.is_match(text)).unwrap_or(false)
}

/// Whether a model is a Qwen embedding model: its name has both words, in either order.
pub open spec fn is_qwen(model_uri: Seq<char>) -> bool {
    in_order(model_uri, "qwen"@, "embed"@) || in_order(model_uri, "embed"@, "qwen"@)
}

/// Whether a model is a Qwen embedding model.
pub fn is_qwen3_embedding_model(model_uri: &str) -> (r: bool)
    ensures
        r == is_qwen(model_uri@),
{
    proof {
        reveal_strlit("qwen");
        reveal_strlit("embed");
        reveal_strlit("(?i)");
        reveal_strlit(".*");
        reveal_strlit("(?i)qwen.*embed");
        reveal_strlit("(?i)embed.*qwen");
        assert(is_plain_word("qwen"@));
        assert(is_plain_word("embed"@));
        assert("(?i)qwen.*embed"@ =~= two_word_pattern("qwen"@, "embed"@));
        assert("(?i)embed.*qwen"@ =~= two_word_pattern("embed"@, "qwen"@));
    }
    regex_is_match("(?i)qwen.*embed", model_uri) || regex_is_match("(?i)embed.*qwen", model_uri)
}

/// How a query is put to a model.
pub open spec fn query_input(query: Seq<char>, qwen: bool) -> Seq<char> {
    if qwen {
        "Instruct: Retrieve relevant documents for the given query\nQuery: "@ + query
    } else {
        "task: search result | query: "@ + query
    }
}

/// How a query is put to a Qwen embedding model, or to another.
pub fn format_query(query: &str, qwen: bool) -> (s: String)
    ensures
        s@ == query_input(query@, qwen),
{
    let mut s: String = if qwen {
        "Instruct: Retrieve relevant documents for the given query\nQuery: ".to_owned()
    } else {
        "task: search result | query: ".to_owned()
    };
    s.append(query);
    s
}

/// How a query is put to the embedding model.
pub fn format_query_for_embedding(query: &str, model_uri: &str) -> (s: String)
    ensures
        s@ == query_input(query@, is_qwen(model_uri@)),
{
    format_query(query, is_qwen3_embedding_model(model_uri))
}

/// How a document is put to a model. An empty title counts as none.
pub open spec fn doc_input(text: Seq<char>, title: Option<Seq<char>>, qwen: bool) -> Seq<char> {
    let given = match title {
        Some(t) => t.len() > 0,
        None => false,
    };
    if qwen {
        if given {
            title->0 + "\n"@ + text
        } else {
            text
        }
    } else {
        "title: "@ + (if given {
            title->0
        } else {
            "none"@
        }) + " | text: "@ + text
    }
}

/// How a document is put to a Qwen embedding model, or to another.
pub fn format_doc(text: &str, title: Option<&str>, qwen: bool) -> (s: String)
    ensures
        s@ == doc_input(text@, chars::opt_text(title), qwen),
{
    let title: Option<&str> = match title {
        Some(t) => if t.is_empty() {
            None
        } else {
            Some(t)
        },
        None => None,
    };
    if qwen {
        match title {
            Some(t) => {
                let mut s: String = t.to_owned();
                s.append("\n");
                s.append(text);
                s
            },
            None => text.to_owned(),
        }
    } else {
        let t: &str = match title {
            Some(t) => t,
            None => "none",
        };
        let mut s: String = "title: ".to_owned();
        s.append(t);
        s.append(" | text: ");
        s.append(text);
        s
    }
}

/// How a document is put to the embedding model.
pub fn format_doc_for_embedding(text: &str, title: Option<&str>, model_uri: &str) -> (s: String)
    ensures
        s@ == doc_input(text@, chars::opt_text(title), is_qwen(model_uri@)),
{
    format_doc(text, title, is_qwen3_embedding_model(model_uri))
}

/// The query that stands for all queries in the fingerprint.
pub const EMBED_FINGERPRINT_PROBE_QUERY: &'static str = "__qmd_embedding_query_probe__";

/// The title that stands for all titles in the fingerprint.
pub const EMBED_FINGERPRINT_PROBE_TITLE: &'static str = "__qmd_embedding_title_probe__";

/// The document that stands for all documents in the fingerprint.
pub const EMBED_FINGERPRINT_PROBE_DOC: &'static str = "__qmd_embedding_document_probe__";

/// All that decides what an embedding is: the model, how queries and documents are put to it,
/// and how documents are cut.
pub open spec fn significant(model: Seq<char>, qwen: bool) -> Seq<char> {
    chars::joined(
        seq![
            "model:"@ + model,
            "query:"@ + query_input(EMBED_FINGERPRINT_PROBE_QUERY@, qwen),
            "doc:"@ + doc_input(
                EMBED_FINGERPRINT_PROBE_DOC@,
                Some(EMBED_FINGERPRINT_PROBE_TITLE@),
                qwen,
            ),
            "chunk_tokens:"@ + number::decimal(CHUNK_SIZE_TOKENS as nat),
            "chunk_overlap_tokens:"@ + number::decimal(CHUNK_OVERLAP_TOKENS as nat),
        ],
        "\n"@,
    )
}

fn labelled(label: &str, text: &str) -> (s: String)
    ensures
        s@ == label@ + text@,
{
    let mut s: String = label.to_owned();
    s.append(text);
    s
}

/// All that decides what an embedding is.
pub fn significant_text(model: &str, qwen: bool) -> (s: String)
    ensures
        s@ == significant(model@, qwen),
{
    let mut lines: Vec<String> = Vec::new();
    lines.push(labelled("model:", model));
    lines.push(labelled("query:", format_query(EMBED_FINGERPRINT_PROBE_QUERY, qwen).as_str()));
    lines.push(
        labelled(
            "doc:",
            format_doc(
                EMBED_FINGERPRINT_PROBE_DOC,
                Some(EMBED_FINGERPRINT_PROBE_TITLE),
                qwen,
            ).as_str(),
        ),
    );
    lines.push(labelled("chunk_tokens:", decimal_of(CHUNK_SIZE_TOKENS as u128).as_str()));
    lines.push(
        labelled("chunk_overlap_tokens:", decimal_of(CHUNK_OVERLAP_TOKENS as u128).as_str()),
    );
    assert(chars::texts(lines@) =~= seq![
        "model:"@ + model@,
        "query:"@ + query_input(EMBED_FINGERPRINT_PROBE_QUERY@, qwen),
        "doc:"@ + doc_input(
            EMBED_FINGERPRINT_PROBE_DOC@,
            Some(EMBED_FINGERPRINT_PROBE_TITLE@),
            qwen,
        ),
        "chunk_tokens:"@ + number::decimal(CHUNK_SIZE_TOKENS as nat),
        "chunk_overlap_tokens:"@ + number::decimal(CHUNK_OVERLAP_TOKENS as nat),
    ]);
    join(lines.as_slice(), "\n")
}

/// The SHA-256 digest of the bytes.
pub uninterp spec fn sha256(bytes: Seq<u8>) -> Seq<u8>;

/// `sha2::Sha256::digest`: the SHA-256 digest of the bytes, a function of the bytes alone, of
/// thirty-two bytes.
#[verifier::external_body]
fn sha256_of(bytes: &[u8]) -> (d: Vec<u8>)
    ensures
        d@ == sha256(bytes@),
        d@.len() == 32,
{
    sha2::Sha256::digest(bytes).to_vec()
}

/// The fingerprint that a digest gives: its first three bytes in hexadecimal digits.
pub open spec fn fingerprint(digest: Seq<u8>) -> Seq<char> {
    hex::hex_text(digest.take(3))
}

/// The fingerprint that a digest gives.
pub fn fingerprint_of(digest: &[u8]) -> (s: String)
    requires
        digest@.len() >= 3,
    ensures
        s@ == fingerprint(digest@),
{
    let first: &[u8] = vstd::slice::slice_subrange(digest, 0, 3);
    assert(first@ =~= digest@.take(3));
    hex_of(first)
}

/// The fingerprint of all that decides what an embedding of a model is.
pub open spec fn model_fingerprint(model: Seq<char>) -> Seq<char> {
    fingerprint(sha256(vstd::utf8::encode_utf8(significant(model, is_qwen(model)))))
}

/// The fingerprint of all that decides what an embedding is. Where it changes, the embeddings
/// that are stored no longer fit.
pub fn embedding_fingerprint(model: &str) -> (s: String)
    ensures
        s@ == model_fingerprint(model@),
{
    let text: String = significant_text(model, is_qwen3_embedding_model(model));
    let digest: Vec<u8> = sha256_of(text.as_str().as_bytes());
    fingerprint_of(digest.as_slice())
}

// Laws.

/// Whether a character is a hexadecimal digit in small letters.
pub open spec fn is_hex_digit(c: char) -> bool {
    '0' <= c <= '9' || 'a' <= c <= 'f'
}

proof fn lemma_hex_text(bytes: Seq<u8>)
    ensures
        hex::hex_text(bytes).len() == 2 * bytes.len(),
        forall|i: int|
            0 <= i < hex::hex_text(bytes).len() ==> is_hex_digit(
                #[trigger] hex::hex_text(bytes)[i],
            ),
    decreases bytes.len(),
{
    if bytes.len() > 0 {
        let before = bytes.drop_last();
        lemma_hex_text(before);
        let pair = hex::hex_pair(bytes.last(), false);
        assert forall|i: int| 0 <= i < hex::hex_text(bytes).len() implies is_hex_digit(
            #[trigger] hex::hex_text(bytes)[i],
        ) by {
            if i < hex::hex_text(before).len() {
                assert(hex::hex_text(bytes)[i] == hex::hex_text(before)[i]);
            } else {
                assert(hex::hex_text(bytes)[i] == pair[i - hex::hex_text(before).len()]);
            }
        }
    }
}

/// A fingerprint has six hexadecimal digits in small letters.
pub proof fn law_fingerprints_have_six_hex_digits(digest: Seq<u8>)
    requires
        digest.len() >= 3,
    ensures
        fingerprint(digest).len() == 6,
        forall|i: int| 0 <= i < 6 ==> is_hex_digit(#[trigger] fingerprint(digest)[i]),
{
    lemma_hex_text(digest.take(3));
}

/// An empty title is put to a model as no title is.
pub proof fn law_empty_title_is_no_title(text: Seq<char>, qwen: bool)
    ensures
        doc_input(text, Some(Seq::empty()), qwen) == doc_input(text, None, qwen),
{
}

/// A model whose name has "qwen" and "embed" on one line, in whatever case and order, is a Qwen
/// embedding model.
pub proof fn law_qwen_models_are_told_by_their_name(
    a: Seq<char>,
    x: Seq<char>,
    b: Seq<char>,
    y: Seq<char>,
    c: Seq<char>,
)
    requires
        chars::ascii_lowered(x) == "qwen"@,
        chars::ascii_lowered(y) == "embed"@,
        !b.contains('\n'),
    ensures
        is_qwen(a + x + b + y + c),
        is_qwen(a + y + b + x + c),
{
    lemma_words_in_order(a, x, b, y, c);
    lemma_words_in_order(a, y, b, x, c);
}

proof fn lemma_words_in_order(
    a: Seq<char>,
    x: Seq<char>,
    b: Seq<char>,
    y: Seq<char>,
    c: Seq<char>,
)
    requires
        !b.contains('\n'),
    ensures
        in_order(a + x + b + y + c, chars::ascii_lowered(x), chars::ascii_lowered(y)),
{
    let text = a + x + b + y + c;
    let lower = chars::ascii_lowered(text);
    let (p, q) = (chars::ascii_lowered(x), chars::ascii_lowered(y));
    let i = a.len() as int;
    let j = i + x.len() + b.len();
    assert(lower.subrange(i, i + p.len()) =~= p);
    assert(lower.subrange(j, j + q.len()) =~= q);
    assert(search::occurs_at(lower, p, i));
    assert(search::occurs_at(lower, q, j));
    assert forall|k: int| i + p.len() <= k < j implies text[k] != '\n' by {
        assert(text[k] == b[k - i - x.len()]);
        assert(b.contains(b[k - i - x.len()]));
    }
}

/// A model whose name lacks one of the two words is none.
pub proof fn law_other_models_are_not_qwen(model: Seq<char>)
    requires
        !search::holds_text(chars::ascii_lowered(model), "qwen"@) || !search::holds_text(
            chars::ascii_lowered(model),
            "embed"@,
        ),
    ensures
        !is_qwen(model),
{
}

/// A query stands at the end of what is put to a model, behind words that do not depend on it; so
/// does the text of a document, with its title before it, where it has one.
pub proof fn law_inputs_end_with_the_text(
    text: Seq<char>,
    other: Seq<char>,
    title: Seq<char>,
    qwen: bool,
)
    ensures
        search::ends_in(query_input(text, qwen), text),
        query_input(text, qwen).take(query_input(text, qwen).len() - text.len()) == query_input(
            other,
            qwen,
        ).take(query_input(other, qwen).len() - other.len()),
        search::ends_in(doc_input(text, Some(title), qwen), text),
        search::ends_in(doc_input(text, None, qwen), text),
        title.len() > 0 ==> search::holds_text(doc_input(text, Some(title), qwen), title),
        doc_input(text, None, true) == text,
        query_input(text, true) != query_input(text, false),
{
    reveal_strlit("Instruct: Retrieve relevant documents for the given query\nQuery: ");
    reveal_strlit("task: search result | query: ");
    let head = if qwen {
        "Instruct: Retrieve relevant documents for the given query\nQuery: "@
    } else {
        "task: search result | query: "@
    };
    let s = query_input(text, qwen);
    assert(s == head + text);
    assert(s.subrange(s.len() - text.len(), s.len() as int) =~= text);
    assert(s.take(s.len() - text.len()) =~= head);
    let o = query_input(other, qwen);
    assert(o.take(o.len() - other.len()) =~= head);
    assert(query_input(text, true)[0] == 'I');
    assert(query_input(text, false)[0] == 't');
    let d = doc_input(text, Some(title), qwen);
    assert(d.subrange(d.len() - text.len(), d.len() as int) =~= text);
    let e = doc_input(text, None, qwen);
    assert(e.subrange(e.len() - text.len(), e.len() as int) =~= text);
    if title.len() > 0 {
        if qwen {
            search::lemma_holds_itself(title);
            search::lemma_holds_longer(title, "\n"@, title);
            search::lemma_holds_longer(title + "\n"@, text, title);
        } else {
            search::lemma_holds_behind("title: "@, title);
            search::lemma_holds_longer("title: "@ + title, " | text: "@, title);
            search::lemma_holds_longer("title: "@ + title + " | text: "@, text, title);
        }
    }
}

/// What decides an embedding tells models apart, and holds how queries and documents are put to
/// them and how documents are cut.
pub proof fn law_embeddings_of_models_are_told_apart(a: Seq<char>, b: Seq<char>, qwen: bool)
    ensures
        significant(a, qwen) == significant(b, qwen) ==> a == b,
        search::holds_text(
            significant(a, qwen),
            query_input(EMBED_FINGERPRINT_PROBE_QUERY@, qwen),
        ),
        search::holds_text(
            significant(a, qwen),
            doc_input(
                EMBED_FINGERPRINT_PROBE_DOC@,
                Some(EMBED_FINGERPRINT_PROBE_TITLE@),
                qwen,
            ),
        ),
        search::holds_text(significant(a, qwen), "chunk_tokens:"@ + number::decimal(900)),
        search::holds_text(significant(a, qwen), "chunk_overlap_tokens:"@ + number::decimal(135)),
{
    let q = query_input(EMBED_FINGERPRINT_PROBE_QUERY@, qwen);
    let d = doc_input(EMBED_FINGERPRINT_PROBE_DOC@, Some(EMBED_FINGERPRINT_PROBE_TITLE@), qwen);
    let parts = seq![
        "model:"@ + a,
        "query:"@ + q,
        "doc:"@ + d,
        "chunk_tokens:"@ + number::decimal(900),
        "chunk_overlap_tokens:"@ + number::decimal(135),
    ];
    let s = significant(a, qwen);
    search::lemma_joined_holds(parts, "\n"@, 1);
    search::lemma_joined_holds(parts, "\n"@, 2);
    search::lemma_joined_holds(parts, "\n"@, 3);
    search::lemma_joined_holds(parts, "\n"@, 4);
    search::lemma_holds_behind("query:"@, q);
    search::lemma_holds_behind("doc:"@, d);
    search::lemma_holds_through(s, "query:"@ + q, q);
    search::lemma_holds_through(s, "doc:"@ + d, d);
    lemma_significant(a, qwen);
    lemma_significant(b, qwen);
    let tail = significant_tail(qwen);
    if significant(a, qwen) == significant(b, qwen) {
        let n = "model:"@.len() as int;
        assert(a.len() == b.len());
        assert(s.subrange(n, n + a.len()) =~= a);
        assert(significant(b, qwen).subrange(n, n + b.len()) =~= b);
    }
}

/// What decides an embedding but for the model.
pub open spec fn significant_tail(qwen: bool) -> Seq<char> {
    "\n"@ + ("query:"@ + query_input(EMBED_FINGERPRINT_PROBE_QUERY@, qwen)) + "\n"@ + ("doc:"@
        + doc_input(EMBED_FINGERPRINT_PROBE_DOC@, Some(EMBED_FINGERPRINT_PROBE_TITLE@), qwen))
        + "\n"@ + ("chunk_tokens:"@ + number::decimal(900)) + "\n"@ + ("chunk_overlap_tokens:"@
        + number::decimal(135))
}

proof fn lemma_significant(model: Seq<char>, qwen: bool)
    ensures
        significant(model, qwen) == "model:"@ + model + significant_tail(qwen),
{
    let parts = seq![
        "model:"@ + model,
        "query:"@ + query_input(EMBED_FINGERPRINT_PROBE_QUERY@, qwen),
        "doc:"@ + doc_input(
            EMBED_FINGERPRINT_PROBE_DOC@,
            Some(EMBED_FINGERPRINT_PROBE_TITLE@),
            qwen,
        ),
        "chunk_tokens:"@ + number::decimal(900),
        "chunk_overlap_tokens:"@ + number::decimal(135),
    ];
    lemma_joined_lines(parts);
    assert(significant(model, qwen) =~= "model:"@ + model + significant_tail(qwen));
}

proof fn lemma_joined_lines(f: Seq<Seq<char>>)
    requires
        f.len() == 5,
    ensures
        chars::joined(f, "\n"@) == f[0] + "\n"@ + f[1] + "\n"@ + f[2] + "\n"@ + f[3] + "\n"@ + f[4],
{
    reveal_with_fuel(chars::joined, 5);
}

/// A fingerprint gives the first three bytes of the digest, by two digits each.
pub proof fn law_fingerprints_give_the_first_bytes(digest: Seq<u8>, i: int)
    requires
        digest.len() >= 3,
        0 <= i < 3,
    ensures
        hex::digit_value(fingerprint(digest)[2 * i]) * 16 + hex::digit_value(
            fingerprint(digest)[2 * i + 1],
        ) == digest[i],
{
    hex::law_hex_digits_give_the_bytes(digest.take(3));
    assert(digest.take(3)[i] == digest[i]);
}

} // verus!
