//! What the models are asked, and how their answers are read.
use vstd::prelude::*;

use crate::lists;
use crate::llm::types;
use crate::llm::types::{QueryType, Queryable};
use crate::text::{chars, search};
use crate::text::chars::{chars_of, string_between, string_of, trim, trim_start, white_space};
use crate::text::search::{contains, replace, split_char, split_words, starts_with};

verus! {

/// What the reranker is told to judge.
pub const QWEN3_RERANKER_INSTRUCT: &'static str =
    "Given a web search query, retrieve relevant passages that answer the query";

/// The prompt for the reranker up to its instruction.
pub const RERANK_PROMPT_HEAD: &'static str =
    "<|im_start|>system\nJudge whether the Document meets the requirements based on the Query and the Instruct provided. Note that the answer can only be \"yes\" or \"no\".<|im_end|>\n<|im_start|>user\n<Instruct>: ";

/// The prompt for the reranker behind the document.
pub const RERANK_PROMPT_TAIL: &'static str =
    "<|im_end|>\n<|im_start|>assistant\n<think>\n\n</think>\n\n";

/// The prompt for the reranker on a query and a document.
pub open spec fn rerank_prompt(query: Seq<char>, document: Seq<char>) -> Seq<char> {
    RERANK_PROMPT_HEAD@ + QWEN3_RERANKER_INSTRUCT@ + "\n<Query>: "@ + query + "\n<Document>: "@
        + document + RERANK_PROMPT_TAIL@
}

/// The prompt for the reranker on a query and a document.
pub fn build_qwen3_rerank_prompt(query: &str, document: &str) -> (s: String)
    ensures
        s@ == rerank_prompt(query@, document@),
{
    let mut s: String = RERANK_PROMPT_HEAD.to_owned();
    s.append(QWEN3_RERANKER_INSTRUCT);
    s.append("\n<Query>: ");
    s.append(query);
    s.append("\n<Document>: ");
    s.append(document);
    s.append(RERANK_PROMPT_TAIL);
    s
}

/// What stands between a prefix and what follows it: a space, unless the prefix is empty or ends
/// in white space.
pub open spec fn separator(prefix: Seq<char>) -> Seq<char> {
    if prefix.len() == 0 || chars::is_white_space(prefix.last()) {
        ""@
    } else {
        " "@
    }
}

/// The message that asks for the expansion of a query.
pub open spec fn expand_message(
    query: Seq<char>,
    intent: Option<Seq<char>>,
    prefix: Seq<char>,
) -> Seq<char> {
    prefix + separator(prefix) + "Expand this search query: "@ + query + (match intent {
        Some(i) => "\nQuery intent: "@ + i,
        None => ""@,
    })
}

/// The message that asks for the expansion of a query.
pub fn build_expand_query_user_message(query: &str, intent: Option<&str>, prefix: &str) -> (s:
    String)
    ensures
        s@ == expand_message(query@, chars::opt_text(intent), prefix@),
{
    let v: Vec<char> = chars_of(prefix);
    let sep: &str = if v.len() == 0 || white_space(v[v.len() - 1]) {
        ""
    } else {
        " "
    };
    let tail: String = match intent {
        Some(i) => {
            let mut t: String = "\nQuery intent: ".to_owned();
            t.append(i);
            t
        },
        None => "".to_owned(),
    };
    let mut s: String = prefix.to_owned();
    s.append(sep);
    s.append("Expand this search query: ");
    s.append(query);
    s.append(tail.as_str());
    s
}

/// The grammar of an expansion: lines of a type, a colon, a space and a text.
pub const EXPAND_QUERY_GRAMMAR: &'static str =
    "root ::= line+\nline ::= type \": \" content \"\\n\"\ntype ::= \"lex\" | \"vec\" | \"hyde\"\ncontent ::= [^\\n]+\n";

/// The type of query that a line names, and how many characters name it.
pub open spec fn line_type(line: Seq<char>) -> Option<(QueryType, nat)> {
    if search::begins_with(line, "lex:"@) {
        Some((QueryType::Lex, "lex:"@.len()))
    } else if search::begins_with(line, "vec:"@) {
        Some((QueryType::Vec, "vec:"@.len()))
    } else if search::begins_with(line, "hyde:"@) {
        Some((QueryType::Hyde, "hyde:"@.len()))
    } else {
        None
    }
}

/// The query of a line, where it names a type: the trimmed text behind the colon.
pub open spec fn line_query(line: Seq<char>) -> Option<(QueryType, Seq<char>)> {
    let l = chars::trimmed_start(line);
    match line_type(l) {
        Some((t, n)) => Some((t, chars::trimmed(l.skip(n as int)))),
        None => None,
    }
}

/// The queries of the lines that name a type, in order.
pub open spec fn queries_in(lines: Seq<Seq<char>>) -> Seq<(QueryType, Seq<char>)>
    decreases lines.len(),
{
    if lines.len() == 0 {
        Seq::empty()
    } else {
        let before = queries_in(lines.drop_last());
        match line_query(lines.last()) {
            Some(q) => before.push(q),
            None => before,
        }
    }
}

fn make_queryable(type_: QueryType, line: &str, prefix: &str) -> (q: Queryable)
    requires
        prefix@.len() <= line@.len(),
    ensures
        q@ == (type_, chars::trimmed(line@.skip(prefix@.len() as int))),
{
    let v: Vec<char> = chars_of(line);
    let n: usize = chars_of(prefix).len();
    let rest: String = string_between(v.as_slice(), n, v.len());
    assert(rest@ =~= line@.skip(prefix@.len() as int));
    Queryable { type_, text: trim(rest.as_str()) }
}

fn read_line(line: &str) -> (r: Option<Queryable>)
    ensures
        match r {
            Some(q) => line_query(line@) == Some(q@),
            None => line_query(line@) is None,
        },
{
    let l: String = trim_start(line);
    if starts_with(l.as_str(), "lex:") {
        Some(make_queryable(QueryType::Lex, l.as_str(), "lex:"))
    } else if starts_with(l.as_str(), "vec:") {
        Some(make_queryable(QueryType::Vec, l.as_str(), "vec:"))
    } else if starts_with(l.as_str(), "hyde:") {
        Some(make_queryable(QueryType::Hyde, l.as_str(), "hyde:"))
    } else {
        None
    }
}

/// The queries of an expansion, as a model wrote it. Lines that name no type are passed over.
pub fn parse_expand_query_output(raw: &str) -> (out: Vec<Queryable>)
    ensures
        types::queryable_views(out@) == queries_in(search::split_on(raw@, '\n')),
{
    let lines: Vec<String> = split_char(raw, '\n');
    let ghost all = search::split_on(raw@, '\n');
    let mut out: Vec<Queryable> = Vec::new();
    assert(all.take(0) =~= Seq::empty());
    for i in 0..lines.len()
        invariant
            chars::texts(lines@) == all,
            types::queryable_views(out@) =~= queries_in(all.take(i as int)),
    {
        assert(all.take(i + 1).drop_last() =~= all.take(i as int));
        assert(all[i as int] == lines@[i as int]@);
        let ghost o0 = out@;
        match read_line(lines[i].as_str()) {
            Some(q) => {
                out.push(q);
                assert(types::queryable_views(out@) =~= types::queryable_views(o0).push(q@));
            },
            None => {},
        }
    }
    assert(all.take(all.len() as int) =~= all);
    out
}

/// Whether a character is an ASCII letter or digit.
pub open spec fn is_ascii_alphanumeric(c: char) -> bool {
    '0' <= c <= '9' || 'A' <= c <= 'Z' || 'a' <= c <= 'z'
}

/// A text with a space in the place of each character that is no ASCII letter or digit.
pub open spec fn blanked(s: Seq<char>) -> Seq<char> {
    Seq::new(
        s.len(),
        |i: int|
            if is_ascii_alphanumeric(s[i]) {
                s[i]
            } else {
                ' '
            },
    )
}

/// The terms of a query in lower case: its runs of ASCII letters and digits.
pub open spec fn terms_of(lower: Seq<char>) -> Seq<Seq<char>> {
    search::words(blanked(lower))
}

/// The terms of a query in lower case.
pub fn query_terms(lower: &str) -> (r: Vec<String>)
    ensures
        chars::texts(r@) == terms_of(lower@),
{
    let v: Vec<char> = chars_of(lower);
    let mut w: Vec<char> = Vec::new();
    for i in 0..v.len()
        invariant
            w@ =~= blanked(v@.take(i as int)),
    {
        let c: char = v[i];
        if ('0' <= c && c <= '9') || ('A' <= c && c <= 'Z') || ('a' <= c && c <= 'z') {
            w.push(c);
        } else {
            w.push(' ');
        }
    }
    assert(v@.take(v@.len() as int) =~= v@);
    split_words(string_of(w.as_slice()).as_str())
}

/// Whether one of the terms stands in a text.
pub open spec fn holds_a_term(text: Seq<char>, terms: Seq<Seq<char>>) -> bool {
    exists|i: int| 0 <= i < terms.len() && search::holds_text(text, #[trigger] terms[i])
}

/// Whether one of the terms stands in a text.
pub fn mentions_a_term(text: &str, terms: &Vec<String>) -> (r: bool)
    ensures
        r == holds_a_term(text@, chars::texts(terms@)),
{
    let ghost all = chars::texts(terms@);
    for i in 0..terms.len()
        invariant
            all == chars::texts(terms@),
            forall|k: int| 0 <= k < i ==> !search::holds_text(text@, #[trigger] all[k]),
    {
        assert(all[i as int] == terms@[i as int]@);
        if contains(text, terms[i].as_str()) {
            return true;
        }
    }
    false
}

/// The queries that hold one of the terms; case does not count.
pub open spec fn on_topic(candidates: Seq<(QueryType, Seq<char>)>, terms: Seq<Seq<char>>) -> Seq<
    (QueryType, Seq<char>),
>
    decreases candidates.len(),
{
    if candidates.len() == 0 {
        Seq::empty()
    } else {
        let before = on_topic(candidates.drop_last(), terms);
        if holds_a_term(chars::lowercase(candidates.last().1), terms) {
            before.push(candidates.last())
        } else {
            before
        }
    }
}

/// The queries that hold a term of the query; all of them where it has none.
pub open spec fn filtered(query: Seq<char>, candidates: Seq<(QueryType, Seq<char>)>) -> Seq<
    (QueryType, Seq<char>),
> {
    let terms = terms_of(chars::lowercase(query));
    if terms.len() == 0 {
        candidates
    } else {
        on_topic(candidates, terms)
    }
}

/// The queries that hold a term of the query, so that none wanders off.
pub fn filter_with_query_terms(query: &str, candidates: Vec<Queryable>) -> (out: Vec<Queryable>)
    ensures
        types::queryable_views(out@) == filtered(query@, types::queryable_views(candidates@)),
{
    let terms: Vec<String> = query_terms(query.to_lowercase().as_str());
    if terms.len() == 0 {
        return candidates;
    }
    let ghost given = candidates@;
    let ghost all = types::queryable_views(given);
    let ghost t = chars::texts(terms@);
    let mut out: Vec<Queryable> = Vec::new();
    assert(all.take(0) =~= Seq::empty());
    for q in it: candidates
        invariant
            it.seq() == given,
            all == types::queryable_views(given),
            t == chars::texts(terms@),
            types::queryable_views(out@) =~= on_topic(all.take(it.index()), t),
    {
        assert(all.take(it.index() + 1).drop_last() =~= all.take(it.index()));
        let lower: String = q.text.as_str().to_lowercase();
        let ghost before = out@;
        if mentions_a_term(lower.as_str(), &terms) {
            out.push(q);
            assert(types::queryable_views(out@) =~= types::queryable_views(before).push(q@));
        }
    }
    assert(all.take(all.len() as int) =~= all);
    out
}

/// The queries where an expansion gives nothing of use: a hypothetical answer and the query
/// itself.
pub open spec fn fallback(query: Seq<char>, include_lexical: bool, template: Seq<char>) -> Seq<
    (QueryType, Seq<char>),
> {
    let hyde = (QueryType::Hyde, search::replaced(template, "{query}"@, query));
    if include_lexical {
        seq![hyde, (QueryType::Lex, query), (QueryType::Vec, query)]
    } else {
        seq![hyde, (QueryType::Vec, query)]
    }
}

/// The queries where an expansion gives nothing of use. The query stands in the place of
/// `{query}` in the template.
pub fn fallback_queryables(query: &str, include_lexical: bool, hyde_template: &str) -> (out: Vec<
    Queryable,
>)
    ensures
        types::queryable_views(out@) == fallback(query@, include_lexical, hyde_template@),
{
    proof {
        reveal_strlit("{query}");
    }
    let mut out: Vec<Queryable> = Vec::new();
    out.push(Queryable { type_: QueryType::Hyde, text: replace(hyde_template, "{query}", query) });
    if include_lexical {
        out.push(Queryable { type_: QueryType::Lex, text: query.to_owned() });
    }
    out.push(Queryable { type_: QueryType::Vec, text: query.to_owned() });
    assert(types::queryable_views(out@) =~= fallback(query@, include_lexical, hyde_template@));
    out
}

/// The queries that are not lexical, in order.
pub open spec fn without_lexical(v: Seq<(QueryType, Seq<char>)>) -> Seq<(QueryType, Seq<char>)>
    decreases v.len(),
{
    if v.len() == 0 {
        Seq::empty()
    } else {
        let before = without_lexical(v.drop_last());
        if v.last().0 == QueryType::Lex {
            before
        } else {
            before.push(v.last())
        }
    }
}

/// The queries that are not lexical.
pub fn drop_lexical(v: Vec<Queryable>) -> (out: Vec<Queryable>)
    ensures
        types::queryable_views(out@) == without_lexical(types::queryable_views(v@)),
{
    let ghost given = v@;
    let ghost all = types::queryable_views(given);
    let mut out: Vec<Queryable> = Vec::new();
    assert(all.take(0) =~= Seq::empty());
    for q in it: v
        invariant
            it.seq() == given,
            all == types::queryable_views(given),
            types::queryable_views(out@) =~= without_lexical(all.take(it.index())),
    {
        assert(all.take(it.index() + 1).drop_last() =~= all.take(it.index()));
        let ghost before = out@;
        if q.type_ != QueryType::Lex {
            out.push(q);
            assert(types::queryable_views(out@) =~= types::queryable_views(before).push(q@));
        }
    }
    assert(all.take(all.len() as int) =~= all);
    out
}

/// The queries that an expansion of `query` gives, as a model wrote it.
pub open spec fn expansion(
    query: Seq<char>,
    raw: Seq<char>,
    include_lexical: bool,
    template: Seq<char>,
) -> Seq<(QueryType, Seq<char>)> {
    let kept = filtered(query, queries_in(search::split_on(raw, '\n')));
    if kept.len() == 0 {
        fallback(query, include_lexical, template)
    } else if include_lexical {
        kept
    } else {
        without_lexical(kept)
    }
}

/// The queries that an expansion of `query` gives, as a model wrote it: those that keep to the
/// topic, without the lexical ones where they are not wanted; the fallback where none keeps to
/// it.
pub fn finish_expansion(
    query: &str,
    raw: &str,
    include_lexical: bool,
    hyde_template: &str,
) -> (out: Vec<Queryable>)
    ensures
        types::queryable_views(out@) == expansion(query@, raw@, include_lexical, hyde_template@),
{
    let parsed: Vec<Queryable> = parse_expand_query_output(raw);
    let kept: Vec<Queryable> = filter_with_query_terms(query, parsed);
    assert(types::queryable_views(kept@).len() == kept@.len());
    if kept.len() == 0 {
        fallback_queryables(query, include_lexical, hyde_template)
    } else if include_lexical {
        kept
    } else {
        drop_lexical(kept)
    }
}

// Laws.

/// A message for the expansion of a query never has two spaces where the prefix ends in one.
pub proof fn law_separator_is_not_doubled(prefix: Seq<char>)
    requires
        prefix.len() > 0,
        prefix.last() == ' ',
    ensures
        prefix + separator(prefix) == prefix,
{
    reveal_strlit("");
    assert(prefix + ""@ =~= prefix);
}

/// A template without the mark is used as it stands.
pub proof fn law_template_without_mark_is_verbatim(template: Seq<char>, p: Seq<char>, with: Seq<char>)
    requires
        p.len() > 0,
        !search::holds_text(template, p),
    ensures
        search::replaced(template, p, with) == template,
    decreases template.len(),
{
    if template.len() >= p.len() {
        assert(!search::occurs_at(template, p, 0));
        let rest = template.skip(1);
        assert(!search::holds_text(rest, p)) by {
            if search::holds_text(rest, p) {
                let i = choose|i: int| search::occurs_at(rest, p, i);
                assert(rest.subrange(i, i + p.len()) =~= template.subrange(i + 1, i + 1 + p.len()));
                assert(search::occurs_at(template, p, i + 1));
            }
        }
        law_template_without_mark_is_verbatim(rest, p, with);
        assert(seq![template[0]] + rest =~= template);
    }
}

/// An expansion never leaves a search without a query: where nothing keeps to the topic there
/// are two queries or three.
pub proof fn law_fallback_is_never_empty(
    query: Seq<char>,
    include_lexical: bool,
    template: Seq<char>,
)
    ensures
        fallback(query, include_lexical, template).len() >= 2,
        !include_lexical ==> forall|i: int|
            0 <= i < fallback(query, include_lexical, template).len() ==> (#[trigger] fallback(
                query,
                include_lexical,
                template,
            )[i]).0 != QueryType::Lex,
{
}

/// Where lexical queries are not wanted, an expansion has none.
pub proof fn law_unwanted_lexical_queries_are_dropped(
    query: Seq<char>,
    raw: Seq<char>,
    template: Seq<char>,
    i: int,
)
    requires
        0 <= i < expansion(query, raw, false, template).len(),
    ensures
        expansion(query, raw, false, template)[i].0 != QueryType::Lex,
{
    lemma_without_lexical(filtered(query, queries_in(search::split_on(raw, '\n'))));
}

proof fn lemma_without_lexical(v: Seq<(QueryType, Seq<char>)>)
    ensures
        forall|i: int|
            0 <= i < without_lexical(v).len() ==> (#[trigger] without_lexical(v)[i]).0
                != QueryType::Lex,
    decreases v.len(),
{
    if v.len() > 0 {
        lemma_without_lexical(v.drop_last());
    }
}

/// Whether a character can stand in a term.
pub open spec fn in_a_term(c: char) -> bool {
    ||| '0' <= c <= '9'
    ||| 'a' <= c <= 'z'
    ||| 'A' <= c <= 'Z'
}

/// Whether a stretch of a query is a term: ASCII letters and digits, and none next to them.
pub open spec fn is_term(s: Seq<char>, i: int, j: int) -> bool {
    &&& 0 <= i < j <= s.len()
    &&& forall|k: int| i <= k < j ==> in_a_term(#[trigger] s[k])
    &&& i == 0 || !in_a_term(s[i - 1])
    &&& j == s.len() || !in_a_term(s[j])
}

/// Whether a query keeps to the topic: it holds one of the terms that the asked query has, in
/// whatever case, or that has none.
pub open spec fn keeps_to_topic(query: Seq<char>, text: Seq<char>) -> bool {
    let lower = chars::lowercase(query);
    ||| forall|i: int| 0 <= i < lower.len() ==> !in_a_term(#[trigger] lower[i])
    ||| exists|i: int, j: int| #[trigger]
        is_term(lower, i, j) && search::holds_text(chars::lowercase(text), lower.subrange(i, j))
}

proof fn lemma_term_is_run(s: Seq<char>, i: int, j: int)
    ensures
        is_term(s, i, j) == search::is_run(blanked(s), i, j),
        is_term(s, i, j) ==> blanked(s).subrange(i, j) == s.subrange(i, j),
{
    let b = blanked(s);
    if is_term(s, i, j) {
        assert forall|k: int| i <= k < j implies !chars::is_white_space(#[trigger] b[k]) by {
            assert(in_a_term(s[k]));
        }
        assert forall|k: int| i <= k < j implies b[k] == s[k] by {
            assert(in_a_term(s[k]));
        }
        assert(b.subrange(i, j) =~= s.subrange(i, j));
    }
    if search::is_run(b, i, j) {
        assert forall|k: int| i <= k < j implies in_a_term(#[trigger] s[k]) by {
            assert(!chars::is_white_space(b[k]));
        }
    }
}

/// Whether a line of an expansion is a query that is wanted.
pub open spec fn is_wanted(query: Seq<char>, line: Seq<char>, include_lexical: bool) -> bool {
    line_query(line) matches Some(q) && keeps_to_topic(query, q.1) && (include_lexical || q.0
        != QueryType::Lex)
}

/// Which lines of an expansion are queries that are wanted.
pub open spec fn wanted_lines(query: Seq<char>, raw: Seq<char>, include_lexical: bool) -> Seq<bool> {
    let lines = search::split_on(raw, '\n');
    Seq::new(lines.len(), |i: int| is_wanted(query, lines[i], include_lexical))
}

#[verifier::rlimit(30)]
proof fn lemma_terms(query: Seq<char>, text: Seq<char>)
    ensures
        keeps_to_topic(query, text) == (terms_of(chars::lowercase(query)).len() == 0
            || holds_a_term(chars::lowercase(text), terms_of(chars::lowercase(query)))),
{
    let lower = blanked(chars::lowercase(query));
    let terms = terms_of(chars::lowercase(query));
    let t = chars::lowercase(text);
    search::law_words_are_runs(lower);
    let at = choose|at: Seq<(int, int)>| #[trigger]
        search::all_runs(lower, at) && terms.len() == at.len() && forall|k: int|
            0 <= k < at.len() ==> (#[trigger] terms[k]) == lower.subrange(at[k].0, at[k].1);
    let l = chars::lowercase(query);
    if terms.len() == 0 {
        assert forall|i: int| 0 <= i < l.len() implies !in_a_term(#[trigger] l[i]) by {
            if in_a_term(l[i]) {
                assert(lower[i] == l[i]);
                let (a, b) = lemma_run_around(lower, i);
                assert(at.contains((a, b)));
            }
        }
    } else {
        assert(search::is_run(lower, at[0].0, at[0].1));
        assert(!chars::is_white_space(lower[at[0].0]));
        assert(in_a_term(l[at[0].0]));
        if holds_a_term(t, terms) {
            let k = choose|k: int| 0 <= k < terms.len() && search::holds_text(t, #[trigger] terms[k]);
            assert(search::is_run(lower, at[k].0, at[k].1));
            lemma_term_is_run(l, at[k].0, at[k].1);
            assert(is_term(l, at[k].0, at[k].1));
        }
        if exists|i: int, j: int| #[trigger]
            is_term(l, i, j) && search::holds_text(t, l.subrange(i, j)) {
            let (i, j) = choose|i: int, j: int| #[trigger]
                is_term(l, i, j) && search::holds_text(t, l.subrange(i, j));
            lemma_term_is_run(l, i, j);
            assert(at.contains((i, j)));
            let k = choose|k: int| 0 <= k < at.len() && at[k] == (i, j);
            assert(terms[k] == lower.subrange(i, j));
        }
    }
}

/// A character that is no white space lies in a run.
proof fn lemma_run_around(s: Seq<char>, i: int) -> (r: (int, int))
    requires
        0 <= i < s.len(),
        !chars::is_white_space(s[i]),
    ensures
        search::is_run(s, r.0, r.1),
{
    let a = lemma_run_start(s, i, i);
    let b = lemma_run_end(s, a, i + 1);
    (a, b)
}

proof fn lemma_run_start(s: Seq<char>, a: int, i: int) -> (r: int)
    requires
        0 <= a <= i < s.len(),
        forall|k: int| a <= k <= i ==> !chars::is_white_space(#[trigger] s[k]),
    ensures
        0 <= r <= i,
        forall|k: int| r <= k <= i ==> !chars::is_white_space(#[trigger] s[k]),
        r == 0 || chars::is_white_space(s[r - 1]),
    decreases a,
{
    if a == 0 || chars::is_white_space(s[a - 1]) {
        a
    } else {
        lemma_run_start(s, a - 1, i)
    }
}

proof fn lemma_run_end(s: Seq<char>, a: int, b: int) -> (r: int)
    requires
        0 <= a < b <= s.len(),
        forall|k: int| a <= k < b ==> !chars::is_white_space(#[trigger] s[k]),
    ensures
        b <= r <= s.len(),
        forall|k: int| a <= k < r ==> !chars::is_white_space(#[trigger] s[k]),
        r == s.len() || chars::is_white_space(s[r]),
    decreases s.len() - b,
{
    if b == s.len() || chars::is_white_space(s[b]) {
        b
    } else {
        lemma_run_end(s, a, b + 1)
    }
}

/// Which of the places of `at` hold a query that is wanted.
proof fn lemma_queries_in(query: Seq<char>, lines: Seq<Seq<char>>, include_lexical: bool) -> (at:
    Seq<int>)
    ensures
        lists::picks(
            at,
            Seq::new(lines.len(), |i: int| is_wanted(query, lines[i], include_lexical)),
        ),
        ({
            let all = queries_in(lines);
            let kept = filtered(query, all);
            let shown = if include_lexical {
                kept
            } else {
                without_lexical(kept)
            };
            &&& shown.len() == at.len()
            &&& forall|k: int|
                0 <= k < at.len() ==> line_query(lines[#[trigger] at[k]]) == Some(shown[k])
        }),
    decreases lines.len(),
{
    let keep = Seq::new(lines.len(), |i: int| is_wanted(query, lines[i], include_lexical));
    if lines.len() == 0 {
        return Seq::empty();
    }
    let before = lines.drop_last();
    let at0 = lemma_queries_in(query, before, include_lexical);
    let keep0 = Seq::new(before.len(), |i: int| is_wanted(query, before[i], include_lexical));
    assert(keep0 =~= keep.drop_last());
    lists::lemma_picks_step(at0, keep);
    let at = if keep.last() {
        at0.push(keep.len() - 1)
    } else {
        at0
    };
    let all = queries_in(lines);
    let terms = terms_of(chars::lowercase(query));
    let kept0 = filtered(query, queries_in(before));
    let kept = filtered(query, all);
    match line_query(lines.last()) {
        Some(q) => {
            lemma_terms(query, q.1);
            assert(all.drop_last() =~= queries_in(before));
            if keeps_to_topic(query, q.1) {
                assert(kept =~= kept0.push(q));
                assert(kept.drop_last() =~= kept0);
            } else {
                assert(kept =~= kept0);
            }
        },
        None => {
            assert(kept =~= kept0);
        },
    }
    let shown = if include_lexical {
        kept
    } else {
        without_lexical(kept)
    };
    assert forall|k: int| 0 <= k < at.len() implies line_query(lines[#[trigger] at[k]]) == Some(
        shown[k],
    ) by {
        if k < at0.len() {
            assert(at[k] == at0[k]);
            assert(before[at0[k]] == lines[at0[k]]);
        }
    }
    at
}

/// An expansion is made of the lines that name a type and keep to the topic, all of them and in
/// order; without the lexical ones where those are not wanted. That is so where at least one line
/// keeps to the topic.
pub proof fn law_an_expansion_is_its_wanted_lines(
    query: Seq<char>,
    raw: Seq<char>,
    include_lexical: bool,
    template: Seq<char>,
)
    requires
        wanted_lines(query, raw, true).contains(true),
    ensures
        exists|at: Seq<int>| #[trigger]
            lists::picks(at, wanted_lines(query, raw, include_lexical)) && expansion(
                query,
                raw,
                include_lexical,
                template,
            ).len() == at.len() && forall|k: int|
                0 <= k < at.len() ==> line_query(search::split_on(raw, '\n')[#[trigger] at[k]])
                    == Some(expansion(query, raw, include_lexical, template)[k]),
{
    let lines = search::split_on(raw, '\n');
    let keep = wanted_lines(query, raw, true);
    let all = lemma_queries_in(query, lines, true);
    let i = choose|i: int| 0 <= i < keep.len() && keep[i];
    assert(all.contains(i));
    let at = lemma_queries_in(query, lines, include_lexical);
    assert(Seq::new(lines.len(), |i: int| is_wanted(query, lines[i], include_lexical))
        =~= wanted_lines(query, raw, include_lexical));
    assert(lists::picks(at, wanted_lines(query, raw, include_lexical)));
}

/// A line that names a type and keeps to the topic stands in the expansion, whatever its type,
/// where lexical queries are wanted; and it does so where they are not, if it is not lexical.
pub proof fn law_no_wanted_query_is_lost(
    query: Seq<char>,
    raw: Seq<char>,
    include_lexical: bool,
    template: Seq<char>,
    i: int,
)
    requires
        0 <= i < search::split_on(raw, '\n').len(),
        is_wanted(query, search::split_on(raw, '\n')[i], include_lexical),
    ensures
        expansion(query, raw, include_lexical, template).contains(
            line_query(search::split_on(raw, '\n')[i])->0,
        ),
{
    let e = expansion(query, raw, include_lexical, template);
    assert(wanted_lines(query, raw, true)[i]);
    law_an_expansion_is_its_wanted_lines(query, raw, include_lexical, template);
    let at = choose|at: Seq<int>| #[trigger]
        lists::picks(at, wanted_lines(query, raw, include_lexical)) && e.len() == at.len()
            && forall|k: int|
            0 <= k < at.len() ==> line_query(search::split_on(raw, '\n')[#[trigger] at[k]]) == Some(
                e[k],
            );
    assert(wanted_lines(query, raw, include_lexical)[i]);
    let k = choose|k: int| 0 <= k < at.len() && at[k] == i;
    assert(e[k] == line_query(search::split_on(raw, '\n')[i])->0);
}

/// Where no line keeps to the topic the query itself is searched for: by its meaning, by its words
/// if and only if lexical queries are wanted, and by a hypothetical answer.
pub proof fn law_without_a_wanted_line_the_query_is_searched(
    query: Seq<char>,
    raw: Seq<char>,
    include_lexical: bool,
    template: Seq<char>,
)
    requires
        !wanted_lines(query, raw, true).contains(true),
    ensures
        expansion(query, raw, include_lexical, template).contains((QueryType::Vec, query)),
        expansion(query, raw, include_lexical, template).contains((QueryType::Lex, query))
            == include_lexical,
        expansion(query, raw, include_lexical, template).len() == if include_lexical {
            3nat
        } else {
            2nat
        },
        expansion(query, raw, include_lexical, template)[0].0 == QueryType::Hyde,
{
    let e = expansion(query, raw, include_lexical, template);
    let lines = search::split_on(raw, '\n');
    let at = lemma_queries_in(query, lines, true);
    let keep = wanted_lines(query, raw, true);
    assert(Seq::new(lines.len(), |i: int| is_wanted(query, lines[i], true)) =~= keep);
    if at.len() > 0 {
        assert(keep[at[0]]);
    }
    assert(e == fallback(query, include_lexical, template));
    if include_lexical {
        assert(e[1] == (QueryType::Lex, query));
        assert(e[2] == (QueryType::Vec, query));
    } else {
        assert(e[1] == (QueryType::Vec, query));
    }
}

/// The hypothetical answer has the query in the place of the mark, where the template has the mark
/// once.
pub proof fn law_the_hypothetical_answer_holds_the_query(
    query: Seq<char>,
    include_lexical: bool,
    before: Seq<char>,
    after: Seq<char>,
)
    requires
        !search::holds_text(after, "{query}"@),
        forall|i: int|
            0 <= i < before.len() ==> !search::occurs_at(before + "{query}"@ + after, "{query}"@, i),
    ensures
        fallback(query, include_lexical, before + "{query}"@ + after)[0] == (
            QueryType::Hyde,
            before + query + after,
        ),
{
    reveal_strlit("{query}");
    search::law_replaced_once(before, "{query}"@, after, query);
}

/// A line that begins with a type and a colon, behind white space or not, is a query of that type:
/// what follows without white space at its ends.
pub proof fn law_lines_are_read_by_their_type(indent: Seq<char>, text: Seq<char>)
    requires
        forall|i: int| 0 <= i < indent.len() ==> chars::is_white_space(#[trigger] indent[i]),
    ensures
        line_query(indent + "lex:"@ + text) == Some((QueryType::Lex, chars::trimmed(text))),
        line_query(indent + "vec:"@ + text) == Some((QueryType::Vec, chars::trimmed(text))),
        line_query(indent + "hyde:"@ + text) == Some((QueryType::Hyde, chars::trimmed(text))),
{
    reveal_strlit("lex:");
    reveal_strlit("vec:");
    reveal_strlit("hyde:");
    let lex = "lex:"@ + text;
    let vec = "vec:"@ + text;
    let hyde = "hyde:"@ + text;
    assert(indent + "lex:"@ + text =~= indent + lex);
    assert(indent + "vec:"@ + text =~= indent + vec);
    assert(indent + "hyde:"@ + text =~= indent + hyde);
    chars::lemma_trimmed_start(indent, lex);
    chars::lemma_trimmed_start(indent, vec);
    chars::lemma_trimmed_start(indent, hyde);
    assert(lex.subrange(0, 4) =~= "lex:"@);
    assert(lex.skip(4) =~= text);
    assert(vec.subrange(0, 4)[0] == 'v');
    assert(vec.subrange(0, 4) =~= "vec:"@);
    assert(vec.skip(4) =~= text);
    assert(hyde.subrange(0, 4)[0] == 'h');
    assert(hyde.subrange(0, 5) =~= "hyde:"@);
    assert(hyde.skip(5) =~= text);
}

/// A line without a colon is no query.
pub proof fn law_lines_without_a_type_are_no_queries(line: Seq<char>)
    requires
        !line.contains(':'),
    ensures
        line_query(line) is None,
{
    reveal_strlit("lex:");
    reveal_strlit("vec:");
    reveal_strlit("hyde:");
    let l = chars::trimmed_start(line);
    lemma_trimmed_start_holds(line, ':');
    assert(search::begins_with(l, "lex:"@) ==> l.subrange(0, 4)[3] == ':' && l[3] == ':');
    assert(search::begins_with(l, "vec:"@) ==> l.subrange(0, 4)[3] == ':' && l[3] == ':');
    assert(search::begins_with(l, "hyde:"@) ==> l.subrange(0, 5)[4] == ':' && l[4] == ':');
    assert(l.len() > 3 ==> l.contains(l[3]));
    assert(l.len() > 4 ==> l.contains(l[4]));
}

proof fn lemma_trimmed_start_holds(s: Seq<char>, c: char)
    requires
        !s.contains(c),
    ensures
        !chars::trimmed_start(s).contains(c),
    decreases s.len(),
{
    if s.len() > 0 && chars::is_white_space(s[0]) {
        assert(!s.skip(1).contains(c)) by {
            if s.skip(1).contains(c) {
                let k = choose|k: int| 0 <= k < s.skip(1).len() && s.skip(1)[k] == c;
                assert(s[k + 1] == c);
            }
        }
        lemma_trimmed_start_holds(s.skip(1), c);
    }
}

/// The reranker is asked about the query and then about the whole document.
pub proof fn law_reranker_is_asked_about_query_and_document(query: Seq<char>, document: Seq<char>)
    ensures
        search::holds_text(
            rerank_prompt(query, document),
            "\n<Query>: "@ + query + "\n<Document>: "@ + document,
        ),
        search::holds_text(
            rerank_prompt(query, document),
            "Given a web search query, retrieve relevant passages that answer the query"@,
        ),
{
    let instruct = QWEN3_RERANKER_INSTRUCT@;
    let head = RERANK_PROMPT_HEAD@ + instruct;
    let text = "\n<Query>: "@ + query + "\n<Document>: "@ + document;
    search::lemma_holds_four(head, "\n<Query>: "@, query, "\n<Document>: "@, document);
    let c4 = head + "\n<Query>: "@ + query + "\n<Document>: "@ + document;
    search::lemma_holds_longer(c4, RERANK_PROMPT_TAIL@, text);
    search::lemma_holds_behind(RERANK_PROMPT_HEAD@, instruct);
    search::lemma_holds_longer(head, "\n<Query>: "@, instruct);
    search::lemma_holds_longer(head + "\n<Query>: "@, query, instruct);
    search::lemma_holds_longer(head + "\n<Query>: "@ + query, "\n<Document>: "@, instruct);
    search::lemma_holds_longer(
        head + "\n<Query>: "@ + query + "\n<Document>: "@,
        document,
        instruct,
    );
    search::lemma_holds_longer(c4, RERANK_PROMPT_TAIL@, instruct);
}

/// A model is asked to expand the whole query, behind the prefix, with the intent where there is
/// one.
pub proof fn law_message_holds_query_and_intent(
    query: Seq<char>,
    intent: Option<Seq<char>>,
    prefix: Seq<char>,
)
    ensures
        search::begins_with(expand_message(query, intent, prefix), prefix),
        search::holds_text(
            expand_message(query, intent, prefix),
            "Expand this search query: "@ + query,
        ),
        intent matches Some(i) ==> search::ends_in(
            expand_message(query, intent, prefix),
            "\nQuery intent: "@ + i,
        ),
        intent is None ==> search::ends_in(
            expand_message(query, intent, prefix),
            "Expand this search query: "@ + query,
        ),
        prefix.len() > 0 && !chars::is_white_space(prefix.last()) ==> search::begins_with(
            expand_message(query, intent, prefix),
            prefix + " "@,
        ),
{
    reveal_strlit("");
    let ask = "Expand this search query: "@;
    let tail = match intent {
        Some(i) => "\nQuery intent: "@ + i,
        None => ""@,
    };
    let start = prefix + separator(prefix);
    search::lemma_begins_longer(prefix, separator(prefix), prefix);
    search::lemma_begins_longer(start, ask, prefix);
    search::lemma_begins_longer(start + ask, query, prefix);
    search::lemma_begins_longer(start + ask + query, tail, prefix);
    search::lemma_begins_longer(start, ask, start);
    search::lemma_begins_longer(start + ask, query, start);
    search::lemma_begins_longer(start + ask + query, tail, start);
    search::lemma_holds_two(start, ask, query);
    search::lemma_holds_longer(start + ask + query, tail, ask + query);
    let s = expand_message(query, intent, prefix);
    assert(s.subrange(s.len() - tail.len(), s.len() as int) =~= tail);
    if intent is None {
        let t = ask + query;
        assert(s.subrange(s.len() - t.len(), s.len() as int) =~= t);
    }
}

} // verus!
