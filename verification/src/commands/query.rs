//! `rqmd query`: what hybrid search is asked for, and what is said while it runs.
use vstd::prelude::*;

use crate::cli;
use crate::cli::{ChunkStrategyArg, QueryArgs};
use crate::collection_filter::single_collection;
use crate::color::Palette;
use crate::commands::structured;
use crate::commands::structured::{
    parse_structured, type_label, Dialect, ParsedStructuredQuery, StructuredQueryError,
};
use crate::commands::vsearch;
use crate::commands::vsearch::result_limit;
use crate::output::OutputFormat;
use crate::store_ops::{ChunkStrategy, ExpandedQuery, ExpandedQueryType};
use crate::text::{chars, number, search};
use crate::text::chars::{concatenate, join, take_chars};
use crate::text::number::decimal_of;
use crate::text::search::replace_char;

verus! {

/// Reads a query as a structured query document.
pub fn parse_structured_query(query: &str) -> (r: Result<
    Option<ParsedStructuredQuery>,
    StructuredQueryError,
>)
    ensures
        structured::outcome(r) == structured::document(
            structured::lines_of(query@),
            Dialect::Document,
        ),
{
    parse_structured(query, Dialect::Document)
}

/// What hybrid search is asked for.
#[derive(Debug)]
pub struct QueryPlan {
    /// The query as it stands; an `expand:` line keeps its first word.
    pub query: String,
    /// The searches of a structured query; none for a plain query.
    pub parsed: Option<ParsedStructuredQuery>,
    pub intent: Option<String>,
    /// The only collection to search, where there is only one.
    pub collection: Option<String>,
    pub limit: usize,
    /// The bits of the least score.
    pub min_score_bits: u64,
    pub candidate_limit: Option<usize>,
    pub explain: bool,
    pub skip_rerank: bool,
    pub chunk_strategy: Option<ChunkStrategy>,
}

/// The query that the words make.
pub open spec fn query_text(args: QueryArgs) -> Seq<char> {
    chars::joined(chars::texts(args.query@), " "@)
}

/// The intent: that of the command line, else that of the document.
pub open spec fn chosen_intent(
    flag: Option<Seq<char>>,
    parsed: Option<structured::ParsedModel>,
) -> Option<Seq<char>> {
    match flag {
        Some(i) => Some(i),
        None => match parsed {
            Some(p) => p.intent,
            None => None,
        },
    }
}

/// What hybrid search is asked for, by the arguments and the collections that they name. A
/// faulty document is an error.
pub fn plan_query(args: &QueryArgs, collection_names: &[String]) -> (r: Result<
    QueryPlan,
    StructuredQueryError,
>)
    ensures
        match structured::document(structured::lines_of(query_text(*args)), Dialect::Document) {
            Err(e) => r == Err::<QueryPlan, StructuredQueryError>(e),
            Ok(parsed) => {
                &&& r is Ok
                &&& r->Ok_0.query@ == query_text(*args)
                &&& structured::outcome(Ok(r->Ok_0.parsed)) == Ok::<
                    Option<structured::ParsedModel>,
                    StructuredQueryError,
                >(parsed)
                &&& chars::opt_string(r->Ok_0.intent) == chosen_intent(
                    chars::opt_string(args.intent),
                    parsed,
                )
                &&& chars::opt_string(r->Ok_0.collection) == (if collection_names@.len() == 1 {
                    Some(collection_names@[0]@)
                } else {
                    None
                })
                &&& r->Ok_0.limit == vsearch::result_count(args.flags)
                &&& r->Ok_0.min_score_bits == (match args.flags.min_score_bits {
                    Some(b) => b,
                    None => 0,
                })
                &&& r->Ok_0.candidate_limit == args.candidate_limit
                &&& r->Ok_0.explain == args.explain
                &&& r->Ok_0.skip_rerank == args.no_rerank
                &&& r->Ok_0.chunk_strategy == (match args.chunk_strategy {
                    Some(s) => Some(cli::strategy_of(s)),
                    None => None,
                })
            },
        },
{
    let query: String = join(args.query.as_slice(), " ");
    let parsed: Option<ParsedStructuredQuery> = match parse_structured_query(query.as_str()) {
        Ok(p) => p,
        Err(e) => {
            return Err(e);
        },
    };
    let intent: Option<String> = match &args.intent {
        Some(i) => Some(i.clone()),
        None => match &parsed {
            Some(p) => match &p.intent {
                Some(i) => Some(i.clone()),
                None => None,
            },
            None => None,
        },
    };
    let chunk_strategy: Option<ChunkStrategy> = match args.chunk_strategy {
        Some(s) => Some(strategy(s)),
        None => None,
    };
    Ok(
        QueryPlan {
            query,
            parsed,
            intent,
            collection: single_collection(collection_names),
            limit: result_limit(&args.flags),
            min_score_bits: match args.flags.min_score_bits {
                Some(b) => b,
                None => 0,
            },
            candidate_limit: args.candidate_limit,
            explain: args.explain,
            skip_rerank: args.no_rerank,
            chunk_strategy,
        },
    )
}

/// The strategy that an argument names.
pub fn strategy(s: ChunkStrategyArg) -> (r: ChunkStrategy)
    ensures
        r == cli::strategy_of(s),
{
    ChunkStrategy::from(s)
}

/// How the results of a query are printed.
#[derive(Clone, Copy, Debug, PartialEq, Eq, Structural)]
pub enum QueryOutput {
    /// The results and how their scores came about, in one JSON object.
    ExplainedJson,
    /// The results, and on a terminal a summary of how their scores came about.
    Hits { explain_summary: bool },
}

/// How the results of a query are printed. Only JSON and the terminal show how scores came
/// about.
pub fn query_output(fmt: OutputFormat, explain: bool) -> (r: QueryOutput)
    ensures
        r == if fmt == OutputFormat::Json && explain {
            QueryOutput::ExplainedJson
        } else {
            QueryOutput::Hits { explain_summary: fmt == OutputFormat::Cli && explain }
        },
{
    if fmt == OutputFormat::Json && explain {
        QueryOutput::ExplainedJson
    } else {
        QueryOutput::Hits { explain_summary: fmt == OutputFormat::Cli && explain }
    }
}

/// The labels of the searches.
pub open spec fn search_labels(searches: Seq<ExpandedQuery>) -> Seq<Seq<char>> {
    Seq::new(searches.len(), |i: int| structured::label_of(searches[i].type_))
}

/// A query on one line, cut to seventy-two characters.
pub open spec fn preview(query: Seq<char>) -> Seq<char> {
    let line = search::replaced_char(query, '\n', " "@);
    if line.len() > 72 {
        line.take(69) + "..."@
    } else {
        line
    }
}

/// The lines for the searches.
pub open spec fn search_lines(searches: Seq<ExpandedQuery>, p: Palette) -> Seq<Seq<char>> {
    Seq::new(
        searches.len(),
        |i: int|
            p.dim_code() + "├─ "@ + structured::label_of(searches[i].type_) + ": "@ + preview(
                searches[i].query@,
            ) + p.reset_code() + "\n"@,
    )
}

/// What a terminal shows of a structured query before it is searched for.
pub open spec fn structured_head(
    searches: Seq<ExpandedQuery>,
    intent: Option<&str>,
    p: Palette,
) -> Seq<char> {
    p.dim_code() + "Structured search: "@ + number::decimal(searches.len()) + " queries ("@
        + chars::joined(search_labels(searches), "+"@) + ")"@ + p.reset_code() + "\n"@ + (
    match intent {
        Some(i) => p.dim_code() + "├─ intent: "@ + i@ + p.reset_code() + "\n"@,
        None => ""@,
    }) + chars::concatenated(search_lines(searches, p)) + p.dim_code() + "└─ Searching..."@
        + p.reset_code() + "\n"@
}

fn write_preview(query: &str) -> (s: String)
    ensures
        s@ == preview(query@),
{
    let line: String = replace_char(query, '\n', " ");
    if line.as_str().unicode_len() > 72 {
        let mut s: String = take_chars(line.as_str(), 69);
        s.append("...");
        s
    } else {
        line
    }
}

/// What a terminal shows of a structured query before it is searched for; other formats show
/// nothing.
pub fn structured_summary(
    pq: &ParsedStructuredQuery,
    intent: Option<&str>,
    fmt: OutputFormat,
    p: &Palette,
) -> (s: String)
    ensures
        s@ == if fmt == OutputFormat::Cli {
            structured_head(pq.searches@, intent, *p)
        } else {
            ""@
        },
{
    if fmt != OutputFormat::Cli {
        return "".to_owned();
    }
    let mut labels: Vec<String> = Vec::new();
    let mut lines: Vec<String> = Vec::new();
    for i in 0..pq.searches.len()
        invariant
            labels@.len() == i,
            lines@.len() == i,
            forall|k: int|
                0 <= k < i ==> (#[trigger] labels@[k])@ == search_labels(pq.searches@)[k],
            forall|k: int|
                0 <= k < i ==> (#[trigger] lines@[k])@ == search_lines(pq.searches@, *p)[k],
    {
        let label: &str = type_label(pq.searches[i].type_);
        labels.push(label.to_owned());
        let mut line: String = p.dim().to_owned();
        line.append("├─ ");
        line.append(label);
        line.append(": ");
        line.append(write_preview(pq.searches[i].query.as_str()).as_str());
        line.append(p.reset());
        line.append("\n");
        lines.push(line);
    }
    assert(chars::texts(labels@) =~= search_labels(pq.searches@));
    assert(chars::texts(lines@) =~= search_lines(pq.searches@, *p));
    let intent_line: String = match intent {
        Some(i) => {
            let mut t: String = p.dim().to_owned();
            t.append("├─ intent: ");
            t.append(i);
            t.append(p.reset());
            t.append("\n");
            t
        },
        None => "".to_owned(),
    };
    let mut s: String = p.dim().to_owned();
    s.append("Structured search: ");
    s.append(decimal_of(pq.searches.len() as u128).as_str());
    s.append(" queries (");
    s.append(join(labels.as_slice(), "+").as_str());
    s.append(")");
    s.append(p.reset());
    s.append("\n");
    s.append(intent_line.as_str());
    s.append(concatenate(lines.as_slice()).as_str());
    s.append(p.dim());
    s.append("└─ Searching...");
    s.append(p.reset());
    s.append("\n");
    s
}

/// How the score of one result came about; numbers with three decimals.
#[derive(Clone, Debug)]
pub struct ExplainSummaryRow {
    pub display_path: String,
    pub rrf_total: String,
    pub rerank: String,
    pub blended: String,
}

/// The line for one result.
pub open spec fn explain_line(r: ExplainSummaryRow, p: Palette) -> Seq<char> {
    "  "@ + p.dim_code() + r.display_path@ + p.reset_code() + "  rrf.total="@ + r.rrf_total@
        + "  rerank="@ + r.rerank@ + "  blended="@ + r.blended@ + "\n"@
}

/// The lines for the results.
pub open spec fn explain_lines(rows: Seq<ExplainSummaryRow>, p: Palette) -> Seq<Seq<char>> {
    Seq::new(rows.len(), |i: int| explain_line(rows[i], p))
}

/// How the scores of the results came about, one line for each.
pub fn explain_summary(rows: &[ExplainSummaryRow], p: &Palette) -> (s: String)
    ensures
        s@ == chars::concatenated(explain_lines(rows@, *p)),
{
    let mut lines: Vec<String> = Vec::new();
    for i in 0..rows.len()
        invariant
            lines@.len() == i,
            forall|k: int| 0 <= k < i ==> (#[trigger] lines@[k])@ == explain_line(rows@[k], *p),
    {
        let mut t: String = "  ".to_owned();
        t.append(p.dim());
        t.append(rows[i].display_path.as_str());
        t.append(p.reset());
        t.append("  rrf.total=");
        t.append(rows[i].rrf_total.as_str());
        t.append("  rerank=");
        t.append(rows[i].rerank.as_str());
        t.append("  blended=");
        t.append(rows[i].blended.as_str());
        t.append("\n");
        lines.push(t);
    }
    assert(chars::texts(lines@) =~= explain_lines(rows@, *p));
    concatenate(lines.as_slice())
}

/// What happens during a search.
#[derive(Debug)]
pub enum SearchEvent {
    /// Full-text search has a clear winner; its score with two decimals.
    StrongSignal { top: String },
    ExpandStart,
    Expanded { original: String, queries: Vec<ExpandedQuery>, ms: u64 },
    EmbedStart { count: usize },
    EmbedDone { ms: u64 },
    RerankStart { count: usize },
    RerankDone { ms: u64 },
}

/// The name of a search type in capitals.
pub open spec fn capital_label(t: ExpandedQueryType) -> Seq<char> {
    match t {
        ExpandedQueryType::Lex => "Lex"@,
        ExpandedQueryType::Vec => "Vec"@,
        ExpandedQueryType::Hyde => "Hyde"@,
    }
}

fn name_of_type(t: ExpandedQueryType) -> (r: &'static str)
    ensures
        r@ == capital_label(t),
{
    match t {
        ExpandedQueryType::Lex => "Lex",
        ExpandedQueryType::Vec => "Vec",
        ExpandedQueryType::Hyde => "Hyde",
    }
}

/// The lines for the queries of an expansion.
pub open spec fn expansion_lines(queries: Seq<ExpandedQuery>) -> Seq<Seq<char>> {
    Seq::new(
        queries.len(),
        |i: int| "  ["@ + capital_label(queries[i].type_) + "] "@ + queries[i].query@ + "\n"@,
    )
}

/// What is said of the expansion of a query.
pub open spec fn expansion(original: Seq<char>, queries: Seq<ExpandedQuery>, ms: nat) -> Seq<char> {
    "Expanded \""@ + original + "\" -> "@ + number::decimal(queries.len()) + " queries ("@
        + number::decimal(ms) + "ms)\n"@ + chars::concatenated(expansion_lines(queries))
}

/// What is said of the expansion of a query.
pub fn expanded_text(original: &str, queries: &Vec<ExpandedQuery>, ms: u64) -> (s: String)
    ensures
        s@ == expansion(original@, queries@, ms as nat),
{
    let mut lines: Vec<String> = Vec::new();
    for i in 0..queries.len()
        invariant
            lines@.len() == i,
            forall|k: int| 0 <= k < i ==> (#[trigger] lines@[k])@ == expansion_lines(queries@)[k],
    {
        let mut t: String = "  [".to_owned();
        t.append(name_of_type(queries[i].type_));
        t.append("] ");
        t.append(queries[i].query.as_str());
        t.append("\n");
        lines.push(t);
    }
    assert(chars::texts(lines@) =~= expansion_lines(queries@));
    let mut s: String = "Expanded \"".to_owned();
    s.append(original);
    s.append("\" -> ");
    s.append(decimal_of(queries.len() as u128).as_str());
    s.append(" queries (");
    s.append(decimal_of(ms as u128).as_str());
    s.append("ms)\n");
    s.append(concatenate(lines.as_slice()).as_str());
    s
}

/// What is said of an event.
pub open spec fn event_text(event: SearchEvent) -> Seq<char> {
    match event {
        SearchEvent::StrongSignal { top } => "Strong BM25 signal ("@ + top@
            + ") — skipping expansion\n"@,
        SearchEvent::ExpandStart => "Expanding query...\n"@,
        SearchEvent::Expanded { original, queries, ms } => expansion(
            original@,
            queries@,
            ms as nat,
        ),
        SearchEvent::EmbedStart { count } => "Embedding "@ + number::decimal(count as nat)
            + " queries...\n"@,
        SearchEvent::EmbedDone { ms } => "  embedded ("@ + number::decimal(ms as nat) + "ms)\n"@,
        SearchEvent::RerankStart { count } => "Reranking "@ + number::decimal(count as nat)
            + " candidates...\n"@,
        SearchEvent::RerankDone { ms } => "  reranked ("@ + number::decimal(ms as nat) + "ms)\n"@,
    }
}

/// Whether the event is one of the expansion of a query, which a structured query has not.
pub open spec fn is_expansion(event: SearchEvent) -> bool {
    event is StrongSignal || event is ExpandStart || event is Expanded
}

fn numbered_text(before: &str, n: u64, after: &str) -> (s: String)
    ensures
        s@ == before@ + number::decimal(n as nat) + after@,
{
    let mut s: String = before.to_owned();
    s.append(decimal_of(n as u128).as_str());
    s.append(after);
    s
}

/// What is said of an event of a hybrid search: on a terminal all, of a structured query all but
/// the expansion, in other formats nothing.
pub fn query_event_text(fmt: OutputFormat, structured_query: bool, event: &SearchEvent) -> (r:
    Option<String>)
    ensures
        chars::opt_string(r) == if fmt == OutputFormat::Cli && !(structured_query && is_expansion(
            *event,
        )) {
            Some(event_text(*event))
        } else {
            None
        },
{
    if fmt != OutputFormat::Cli {
        return None;
    }
    match event {
        SearchEvent::StrongSignal { top } => if structured_query {
            None
        } else {
            let mut s: String = "Strong BM25 signal (".to_owned();
            s.append(top.as_str());
            s.append(") — skipping expansion\n");
            Some(s)
        },
        SearchEvent::ExpandStart => if structured_query {
            None
        } else {
            Some("Expanding query...\n".to_owned())
        },
        SearchEvent::Expanded { original, queries, ms } => if structured_query {
            None
        } else {
            Some(expanded_text(original.as_str(), queries, *ms))
        },
        SearchEvent::EmbedStart { count } => Some(
            numbered_text("Embedding ", *count as u64, " queries...\n"),
        ),
        SearchEvent::EmbedDone { ms } => Some(numbered_text("  embedded (", *ms, "ms)\n")),
        SearchEvent::RerankStart { count } => Some(
            numbered_text("Reranking ", *count as u64, " candidates...\n"),
        ),
        SearchEvent::RerankDone { ms } => Some(numbered_text("  reranked (", *ms, "ms)\n")),
    }
}

// Laws.

/// The intent of the command line goes before that of the document.
pub proof fn law_intent_of_the_command_line_counts(
    flag: Option<Seq<char>>,
    parsed: Option<structured::ParsedModel>,
)
    ensures
        flag is Some ==> chosen_intent(flag, parsed) == flag,
        flag is None && parsed is Some ==> chosen_intent(flag, parsed) == parsed->0.intent,
        flag is None && parsed is None ==> chosen_intent(flag, parsed) is None,
{
}

proof fn lemma_replaced_line_feeds(query: Seq<char>)
    ensures
        search::replaced_char(query, '\n', " "@).len() == query.len(),
        forall|i: int|
            0 <= i < query.len() ==> #[trigger] search::replaced_char(query, '\n', " "@)[i] == (
            if query[i] == '\n' {
                ' '
            } else {
                query[i]
            }),
    decreases query.len(),
{
    reveal_strlit(" ");
    if query.len() > 0 {
        lemma_replaced_line_feeds(query.drop_last());
    }
}

/// A preview stands on one line of at most seventy-two characters, begins as the query does, and
/// is the whole query where that is short enough.
pub proof fn law_previews_are_short(query: Seq<char>)
    ensures
        !preview(query).contains('\n'),
        preview(query).len() <= 72,
        forall|i: int|
            0 <= i < query.len() && i < 69 ==> #[trigger] preview(query)[i] == (if query[i] == '\n' {
                ' '
            } else {
                query[i]
            }),
        query.len() <= 72 ==> preview(query).len() == query.len(),
        query.len() <= 72 && !query.contains('\n') ==> preview(query) == query,
        query.len() > 72 ==> search::ends_in(preview(query), "..."@),
{
    reveal_strlit("...");
    lemma_replaced_line_feeds(query);
    let line = search::replaced_char(query, '\n', " "@);
    let p = preview(query);
    assert forall|i: int| 0 <= i < line.len() implies line[i] != '\n' by {}
    if p.contains('\n') {
        let k = choose|k: int| 0 <= k < p.len() && p[k] == '\n';
        if line.len() > 72 && k >= 69 {
            assert("..."@[k - 69] == '\n');
        } else {
            assert(line[k] == '\n');
        }
    }
    if query.len() > 72 {
        assert(p.subrange(p.len() - 3, p.len() as int) =~= "..."@);
    }
    if query.len() <= 72 && !query.contains('\n') {
        assert forall|i: int| 0 <= i < query.len() implies query[i] != '\n' by {
            assert(query.contains(query[i]));
        }
        assert(p =~= query);
    }
}

/// A terminal shows each search of a structured query, with its type and a preview of its text,
/// and the intent where there is one.
pub proof fn law_every_search_is_shown(
    searches: Seq<ExpandedQuery>,
    intent: Option<&str>,
    p: Palette,
    i: int,
)
    requires
        0 <= i < searches.len(),
    ensures
        search::holds_text(
            structured_head(searches, intent, p),
            structured::label_of(searches[i].type_) + ": "@ + preview(searches[i].query@),
        ),
        intent matches Some(t) ==> search::holds_text(structured_head(searches, intent, p), t@),
{
    let lines = search_lines(searches, p);
    let label = structured::label_of(searches[i].type_);
    let text = label + ": "@ + preview(searches[i].query@);
    let line = p.dim_code() + "├─ "@ + label + ": "@ + preview(searches[i].query@) + p.reset_code()
        + "\n"@;
    assert(lines[i] == line);
    search::lemma_concatenated_holds(lines, i);
    let before = p.dim_code() + "├─ "@;
    assert(before + label + ": "@ + preview(searches[i].query@) =~= before + text
        + Seq::<char>::empty());
    search::lemma_holds_between(before, text, Seq::empty());
    search::lemma_holds_longer(
        before + label + ": "@ + preview(searches[i].query@),
        p.reset_code(),
        text,
    );
    search::lemma_holds_longer(
        before + label + ": "@ + preview(searches[i].query@) + p.reset_code(),
        "\n"@,
        text,
    );
    search::lemma_holds_through(chars::concatenated(lines), line, text);
    let head = p.dim_code() + "Structured search: "@ + number::decimal(searches.len())
        + " queries ("@ + chars::joined(search_labels(searches), "+"@) + ")"@ + p.reset_code()
        + "\n"@;
    let second = match intent {
        Some(t) => p.dim_code() + "├─ intent: "@ + t@ + p.reset_code() + "\n"@,
        None => ""@,
    };
    let all = chars::concatenated(lines);
    search::lemma_holds_between(head + second, all, p.dim_code());
    search::lemma_holds_through(head + second + all + p.dim_code(), all, text);
    lemma_head_end(head + second + all + p.dim_code(), p, text);
    if let Some(t) = intent {
        search::lemma_holds_between(p.dim_code() + "├─ intent: "@, t@, p.reset_code());
        search::lemma_holds_longer(
            p.dim_code() + "├─ intent: "@ + t@ + p.reset_code(),
            "\n"@,
            t@,
        );
        search::lemma_holds_between(head, second, all);
        search::lemma_holds_through(head + second + all, second, t@);
        search::lemma_holds_longer(head + second + all, p.dim_code(), t@);
        lemma_head_end(head + second + all + p.dim_code(), p, t@);
    }
}

proof fn lemma_head_end(s: Seq<char>, p: Palette, text: Seq<char>)
    requires
        search::holds_text(s, text),
    ensures
        search::holds_text(s + "└─ Searching..."@ + p.reset_code() + "\n"@, text),
{
    search::lemma_holds_longer(s, "└─ Searching..."@, text);
    search::lemma_holds_longer(s + "└─ Searching..."@, p.reset_code(), text);
    search::lemma_holds_longer(s + "└─ Searching..."@ + p.reset_code(), "\n"@, text);
}

/// What is said of an expansion names the query and holds every query of the expansion, in full
/// and with its type.
pub proof fn law_expansion_shows_every_query(
    original: Seq<char>,
    queries: Seq<ExpandedQuery>,
    ms: nat,
    i: int,
)
    requires
        0 <= i < queries.len(),
    ensures
        search::holds_text(expansion(original, queries, ms), queries[i].query@),
        search::holds_text(
            expansion(original, queries, ms),
            "  ["@ + capital_label(queries[i].type_) + "] "@ + queries[i].query@ + "\n"@,
        ),
        search::begins_with(expansion(original, queries, ms), "Expanded \""@ + original + "\""@),
{
    let lines = expansion_lines(queries);
    let line = "  ["@ + capital_label(queries[i].type_) + "] "@ + queries[i].query@ + "\n"@;
    let head = "Expanded \""@ + original + "\" -> "@ + number::decimal(queries.len())
        + " queries ("@ + number::decimal(ms) + "ms)\n"@;
    let all = chars::concatenated(lines);
    let none = Seq::<char>::empty();
    assert(lines[i] == line);
    search::lemma_concatenated_holds(lines, i);
    assert(expansion(original, queries, ms) =~= head + all + none);
    search::lemma_holds_between(head, all, none);
    search::lemma_holds_through(expansion(original, queries, ms), all, line);
    search::lemma_holds_between(
        "  ["@ + capital_label(queries[i].type_) + "] "@,
        queries[i].query@,
        "\n"@,
    );
    search::lemma_holds_through(expansion(original, queries, ms), line, queries[i].query@);
    reveal_strlit("\" -> ");
    reveal_strlit("\"");
    let start = "Expanded \""@ + original + "\""@;
    assert(expansion(original, queries, ms).subrange(0, start.len() as int) =~= start);
}

/// The names of the types of searches differ.
pub proof fn law_types_have_names_of_their_own(a: ExpandedQueryType, b: ExpandedQueryType)
    ensures
        capital_label(a) == capital_label(b) ==> a == b,
        structured::label_of(a) == structured::label_of(b) ==> a == b,
        structured::type_prefix(a) == structured::label_of(a) + ":"@,
{
    reveal_strlit("Lex");
    reveal_strlit("Vec");
    reveal_strlit("Hyde");
    reveal_strlit("lex");
    reveal_strlit("vec");
    reveal_strlit("hyde");
    reveal_strlit("lex:");
    reveal_strlit("vec:");
    reveal_strlit("hyde:");
    reveal_strlit(":");
    if a != b {
        assert(capital_label(a)[0] != capital_label(b)[0]);
        assert(structured::label_of(a)[0] != structured::label_of(b)[0]);
    }
    assert(structured::type_prefix(a) =~= structured::label_of(a) + ":"@);
}

/// How the score of each result came about is shown with its path and its three numbers.
pub proof fn law_every_score_is_explained(rows: Seq<ExplainSummaryRow>, p: Palette, i: int)
    requires
        0 <= i < rows.len(),
    ensures
        search::holds_text(chars::concatenated(explain_lines(rows, p)), rows[i].display_path@),
        search::holds_text(
            chars::concatenated(explain_lines(rows, p)),
            "  rrf.total="@ + rows[i].rrf_total@ + "  rerank="@ + rows[i].rerank@ + "  blended="@
                + rows[i].blended@ + "\n"@,
        ),
{
    let r = rows[i];
    let lines = explain_lines(rows, p);
    let all = chars::concatenated(lines);
    let line = explain_line(r, p);
    assert(lines[i] == line);
    search::lemma_concatenated_holds(lines, i);
    let tail = "  rrf.total="@ + r.rrf_total@ + "  rerank="@ + r.rerank@ + "  blended="@
        + r.blended@ + "\n"@;
    let head = "  "@ + p.dim_code() + r.display_path@ + p.reset_code();
    let none = Seq::<char>::empty();
    assert(line =~= head + tail + none);
    search::lemma_holds_between(head, tail, none);
    search::lemma_holds_through(all, line, tail);
    search::lemma_holds_between("  "@ + p.dim_code(), r.display_path@, p.reset_code());
    search::lemma_holds_longer(head, tail, r.display_path@);
    assert(line =~= head + tail);
    search::lemma_holds_through(all, line, r.display_path@);
}

/// The words of the command line make the query, with a space between them, and can be told apart
/// in it.
pub proof fn law_words_of_the_command_line_make_the_query(args: QueryArgs)
    requires
        args.query@.len() > 0,
        forall|i: int|
            0 <= i < chars::texts(args.query@).len() ==> !(#[trigger] chars::texts(
                args.query@,
            )[i]).contains(' '),
    ensures
        search::split_on(query_text(args), ' ') == chars::texts(args.query@),
{
    reveal_strlit(" ");
    assert(" "@ =~= seq![' ']);
    search::law_split_undoes_join(chars::texts(args.query@), ' ', " "@);
}

/// What is said of an event gives its numbers.
pub proof fn law_events_give_their_numbers(event: SearchEvent)
    ensures
        event matches SearchEvent::StrongSignal { top } ==> search::holds_text(
            event_text(event),
            "("@ + top@ + ")"@,
        ),
        event matches SearchEvent::EmbedStart { count } ==> search::holds_text(
            event_text(event),
            number::decimal(count as nat) + " queries"@,
        ),
        event matches SearchEvent::EmbedDone { ms } ==> search::holds_text(
            event_text(event),
            "embedded ("@ + number::decimal(ms as nat) + "ms)"@,
        ),
        event matches SearchEvent::RerankStart { count } ==> search::holds_text(
            event_text(event),
            number::decimal(count as nat) + " candidates"@,
        ),
        event matches SearchEvent::RerankDone { ms } ==> search::holds_text(
            event_text(event),
            "reranked ("@ + number::decimal(ms as nat) + "ms)"@,
        ),
{
    match event {
        SearchEvent::StrongSignal { top } => {
            reveal_strlit("Strong BM25 signal (");
            reveal_strlit(") — skipping expansion\n");
            reveal_strlit("(");
            reveal_strlit(")");
            let s = event_text(event);
            let t = "("@ + top@ + ")"@;
            assert(s.subrange(19, (19 + t.len()) as int) =~= t);
            assert(search::occurs_at(s, t, 19));
        },
        SearchEvent::EmbedStart { count } => {
            reveal_strlit("Embedding ");
            reveal_strlit(" queries...\n");
            reveal_strlit(" queries");
            let s = event_text(event);
            let t = number::decimal(count as nat) + " queries"@;
            assert(s.subrange(10, (10 + t.len()) as int) =~= t);
            assert(search::occurs_at(s, t, 10));
        },
        SearchEvent::EmbedDone { ms } => {
            reveal_strlit("  embedded (");
            reveal_strlit("ms)\n");
            reveal_strlit("embedded (");
            reveal_strlit("ms)");
            let s = event_text(event);
            let t = "embedded ("@ + number::decimal(ms as nat) + "ms)"@;
            assert(s.subrange(2, (2 + t.len()) as int) =~= t);
            assert(search::occurs_at(s, t, 2));
        },
        SearchEvent::RerankStart { count } => {
            reveal_strlit("Reranking ");
            reveal_strlit(" candidates...\n");
            reveal_strlit(" candidates");
            let s = event_text(event);
            let t = number::decimal(count as nat) + " candidates"@;
            assert(s.subrange(10, (10 + t.len()) as int) =~= t);
            assert(search::occurs_at(s, t, 10));
        },
        SearchEvent::RerankDone { ms } => {
            reveal_strlit("  reranked (");
            reveal_strlit("ms)\n");
            reveal_strlit("reranked (");
            reveal_strlit("ms)");
            let s = event_text(event);
            let t = "reranked ("@ + number::decimal(ms as nat) + "ms)"@;
            assert(s.subrange(2, (2 + t.len()) as int) =~= t);
            assert(search::occurs_at(s, t, 2));
        },
        _ => {},
    }
}

/// A structured query has no expansion to speak of, and its other events are told.
pub proof fn law_events_of_an_expansion(event: SearchEvent)
    ensures
        is_expansion(event) <==> !(event is EmbedStart || event is EmbedDone || event is RerankStart
            || event is RerankDone),
{
}

} // verus!
