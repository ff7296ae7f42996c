//! Structured query documents: lines that begin with `lex:`, `vec:`, `hyde:`, `intent:` or
//! `expand:`.
use vstd::prelude::*;

use crate::lists;
use crate::store_ops;
use crate::store_ops::{ExpandedQuery, ExpandedQueryType};
use crate::text::{chars, number, search};
use crate::text::chars::{ascii_lower_text, chars_of, string_between, trim};
use crate::text::number::decimal_of;
use crate::text::search::{contains, split_char, starts_with};

verus! {

/// A line of a query that is not blank: its number, counted from one, and its trimmed text.
pub struct Line {
    pub number: usize,
    pub text: String,
}

impl View for Line {
    type V = (nat, Seq<char>);

    open spec fn view(&self) -> (nat, Seq<char>) {
        (self.number as nat, self.text@)
    }
}

/// The lines of the list.
pub open spec fn line_views(v: Seq<Line>) -> Seq<(nat, Seq<char>)> {
    Seq::new(v.len(), |i: int| v[i]@)
}

/// The pieces that are not blank, trimmed, each with its number.
pub open spec fn numbered(pieces: Seq<Seq<char>>) -> Seq<(nat, Seq<char>)>
    decreases pieces.len(),
{
    if pieces.len() == 0 {
        Seq::empty()
    } else {
        let before = numbered(pieces.drop_last());
        let t = chars::trimmed(pieces.last());
        if t.len() == 0 {
            before
        } else {
            before.push((pieces.len(), t))
        }
    }
}

/// The lines of `query` that are not blank, trimmed, each with its number.
pub open spec fn lines_of(query: Seq<char>) -> Seq<(nat, Seq<char>)> {
    numbered(search::split_on(query, '\n'))
}

/// The lines of `query` that are not blank, trimmed, each with its number.
pub fn query_lines(query: &str) -> (r: Vec<Line>)
    ensures
        line_views(r@) == lines_of(query@),
{
    let pieces: Vec<String> = split_char(query, '\n');
    let ghost all = chars::texts(pieces@);
    let mut r: Vec<Line> = Vec::new();
    assert(all.take(0) =~= Seq::empty());
    for i in 0..pieces.len()
        invariant
            all == chars::texts(pieces@),
            line_views(r@) =~= numbered(all.take(i as int)),
    {
        let t: String = trim(pieces[i].as_str());
        assert(all.take(i + 1).drop_last() =~= all.take(i as int));
        let ghost r0 = r@;
        if !t.as_str().is_empty() {
            r.push(Line { number: i + 1, text: t });
            assert(line_views(r@) =~= line_views(r0).push(r@.last()@));
        }
    }
    assert(all.take(all.len() as int) =~= all);
    r
}

/// What a line is, by the word that it begins with.
#[derive(Clone, Copy, Debug, PartialEq, Eq, Structural)]
pub enum LineClass {
    Expand,
    Intent,
    Search(ExpandedQueryType),
    Plain,
}

/// The word that a search line of this type begins with.
pub open spec fn type_prefix(t: ExpandedQueryType) -> Seq<char> {
    match t {
        ExpandedQueryType::Lex => "lex:"@,
        ExpandedQueryType::Vec => "vec:"@,
        ExpandedQueryType::Hyde => "hyde:"@,
    }
}

/// The type of search that a line in lower case begins with.
pub open spec fn prefix_type(lower: Seq<char>) -> Option<ExpandedQueryType> {
    if search::begins_with(lower, "lex:"@) {
        Some(ExpandedQueryType::Lex)
    } else if search::begins_with(lower, "vec:"@) {
        Some(ExpandedQueryType::Vec)
    } else if search::begins_with(lower, "hyde:"@) {
        Some(ExpandedQueryType::Hyde)
    } else {
        None
    }
}

/// The type of search that a line begins with, and the word that says so, on a line that is
/// in lower case already.
pub fn match_prefix(lower: &str) -> (r: Option<(ExpandedQueryType, &'static str)>)
    ensures
        match r {
            Some(p) => prefix_type(lower@) == Some(p.0) && p.1@ == type_prefix(p.0),
            None => prefix_type(lower@) is None,
        },
{
    if starts_with(lower, "lex:") {
        Some((ExpandedQueryType::Lex, "lex:"))
    } else if starts_with(lower, "vec:") {
        Some((ExpandedQueryType::Vec, "vec:"))
    } else if starts_with(lower, "hyde:") {
        Some((ExpandedQueryType::Hyde, "hyde:"))
    } else {
        None
    }
}

/// What a line is. Capitals count as small letters.
pub open spec fn class_of(line: Seq<char>) -> LineClass {
    let lower = chars::ascii_lowered(line);
    if search::begins_with(lower, "expand:"@) {
        LineClass::Expand
    } else if search::begins_with(lower, "intent:"@) {
        LineClass::Intent
    } else {
        match prefix_type(lower) {
            Some(t) => LineClass::Search(t),
            None => LineClass::Plain,
        }
    }
}

/// The word that a line of this class begins with.
pub open spec fn class_prefix(class: LineClass) -> Seq<char> {
    match class {
        LineClass::Expand => "expand:"@,
        LineClass::Intent => "intent:"@,
        LineClass::Search(t) => type_prefix(t),
        LineClass::Plain => Seq::empty(),
    }
}

/// The text of a line behind the word that it begins with.
pub open spec fn line_text(line: Seq<char>) -> Seq<char> {
    chars::trimmed(line.skip(class_prefix(class_of(line)).len() as int))
}

/// What a line is, and its text behind the word that it begins with.
fn classify(line: &str) -> (r: (LineClass, String))
    ensures
        r.0 == class_of(line@),
        r.1@ == line_text(line@),
{
    let lower: String = ascii_lower_text(line);
    if starts_with(lower.as_str(), "expand:") {
        (LineClass::Expand, text_behind(line, "expand:"))
    } else if starts_with(lower.as_str(), "intent:") {
        (LineClass::Intent, text_behind(line, "intent:"))
    } else {
        match match_prefix(lower.as_str()) {
            Some((t, prefix)) => (LineClass::Search(t), text_behind(line, prefix)),
            None => {
                assert(line@.skip(0) =~= line@);
                (LineClass::Plain, trim(line))
            },
        }
    }
}

/// The trimmed text of `line` behind as many characters as `prefix` has.
fn text_behind(line: &str, prefix: &str) -> (r: String)
    requires
        prefix@.len() <= line@.len(),
    ensures
        r@ == chars::trimmed(line@.skip(prefix@.len() as int)),
{
    let v: Vec<char> = chars_of(line);
    let p: Vec<char> = chars_of(prefix);
    let rest: String = string_between(v.as_slice(), p.len(), v.len());
    assert(rest@ =~= line@.skip(prefix@.len() as int));
    trim(rest.as_str())
}

/// Which documents are read: those of the `query` command, which may hold an `expand:` line,
/// or the queries of a benchmark.
#[derive(Clone, Copy, Debug, PartialEq, Eq, Structural)]
pub enum Dialect {
    Document,
    Benchmark,
}

/// What a line is in a dialect. A benchmark knows no `expand:`.
pub open spec fn class_in(line: Seq<char>, dialect: Dialect) -> LineClass {
    if dialect == Dialect::Benchmark && class_of(line) == LineClass::Expand {
        LineClass::Plain
    } else {
        class_of(line)
    }
}

/// What is wrong with a query document.
#[derive(Clone, Copy, Debug, PartialEq, Eq, Structural)]
pub enum StructuredQueryError {
    MixedExpand { line: usize },
    EmptyExpand,
    DuplicateIntent { line: usize },
    EmptyIntent { line: usize },
    EmptySearch { line: usize, type_: ExpandedQueryType },
    BrokenSearch { line: usize, type_: ExpandedQueryType },
    MissingPrefix { line: usize },
    IntentAlone,
}

/// Whether a carriage return or a line feed stands in `s`.
pub open spec fn has_line_break(s: Seq<char>) -> bool {
    exists|i: int| 0 <= i < s.len() && (s[i] == '\r' || s[i] == '\n')
}

/// Whether one of the lines is an `intent:` line.
pub open spec fn has_intent(lines: Seq<(nat, Seq<char>)>) -> bool {
    exists|i: int| 0 <= i < lines.len() && class_of(#[trigger] lines[i].1) == LineClass::Intent
}

/// What is wrong with line `i` of a document, given the lines before it.
pub open spec fn line_error(lines: Seq<(nat, Seq<char>)>, i: int, dialect: Dialect) -> Option<
    StructuredQueryError,
> {
    let line = lines[i].0 as usize;
    let text = line_text(lines[i].1);
    match class_in(lines[i].1, dialect) {
        LineClass::Expand => if lines.len() > 1 {
            Some(StructuredQueryError::MixedExpand { line })
        } else if text.len() == 0 {
            Some(StructuredQueryError::EmptyExpand)
        } else {
            None
        },
        LineClass::Intent => if has_intent(lines.take(i)) {
            Some(StructuredQueryError::DuplicateIntent { line })
        } else if text.len() == 0 {
            Some(StructuredQueryError::EmptyIntent { line })
        } else {
            None
        },
        LineClass::Search(type_) => if text.len() == 0 {
            Some(StructuredQueryError::EmptySearch { line, type_ })
        } else if dialect == Dialect::Document && has_line_break(text) {
            Some(StructuredQueryError::BrokenSearch { line, type_ })
        } else {
            None
        },
        LineClass::Plain => if lines.len() > 1 {
            Some(StructuredQueryError::MissingPrefix { line })
        } else {
            None
        },
    }
}

/// What is wrong with the first faulty one of the first `k` lines.
pub open spec fn first_error(lines: Seq<(nat, Seq<char>)>, k: int, dialect: Dialect) -> Option<
    StructuredQueryError,
>
    decreases k,
{
    if k <= 0 {
        None
    } else {
        match first_error(lines, k - 1, dialect) {
            Some(e) => Some(e),
            None => line_error(lines, k - 1, dialect),
        }
    }
}

/// The searches that the lines ask for, in order.
pub open spec fn searches_in(lines: Seq<(nat, Seq<char>)>) -> Seq<store_ops::ExpandedQueryModel>
    decreases lines.len(),
{
    if lines.len() == 0 {
        Seq::empty()
    } else {
        let before = searches_in(lines.drop_last());
        match class_of(lines.last().1) {
            LineClass::Search(type_) => before.push(
                store_ops::ExpandedQueryModel {
                    type_,
                    query: line_text(lines.last().1),
                    line: Some(lines.last().0 as usize),
                },
            ),
            _ => before,
        }
    }
}

/// The text of the `intent:` line, if there is one.
pub open spec fn intent_in(lines: Seq<(nat, Seq<char>)>) -> Option<Seq<char>>
    decreases lines.len(),
{
    if lines.len() == 0 {
        None
    } else if class_of(lines.last().1) == LineClass::Intent {
        Some(line_text(lines.last().1))
    } else {
        intent_in(lines.drop_last())
    }
}

/// A structured query: its searches, and the text of its `intent:` line.
#[derive(Clone, Debug)]
pub struct ParsedStructuredQuery {
    pub searches: Vec<ExpandedQuery>,
    pub intent: Option<String>,
}

/// What a [`ParsedStructuredQuery`] holds.
pub struct ParsedModel {
    pub searches: Seq<store_ops::ExpandedQueryModel>,
    pub intent: Option<Seq<char>>,
}

impl View for ParsedStructuredQuery {
    type V = ParsedModel;

    open spec fn view(&self) -> ParsedModel {
        ParsedModel {
            searches: store_ops::query_models(self.searches@),
            intent: chars::opt_string(self.intent),
        }
    }
}

/// Whether the document is a single line that is searched for as it stands: a plain line, or
/// an `expand:` line with text.
pub open spec fn is_plain_query(lines: Seq<(nat, Seq<char>)>, dialect: Dialect) -> bool {
    lines.len() == 1 && match class_in(lines[0].1, dialect) {
        LineClass::Plain => true,
        LineClass::Expand => line_text(lines[0].1).len() > 0,
        _ => false,
    }
}

/// What a query document reads as: no structured query, if it is blank or a plain query; the
/// fault of the first faulty line; or the searches and the intent.
pub open spec fn document(lines: Seq<(nat, Seq<char>)>, dialect: Dialect) -> Result<
    Option<ParsedModel>,
    StructuredQueryError,
> {
    if lines.len() == 0 || is_plain_query(lines, dialect) {
        Ok(None)
    } else {
        match first_error(lines, lines.len() as int, dialect) {
            Some(e) => Err(e),
            None => if searches_in(lines).len() == 0 {
                Err(StructuredQueryError::IntentAlone)
            } else {
                Ok(Some(ParsedModel { searches: searches_in(lines), intent: intent_in(lines) }))
            },
        }
    }
}

/// What `parse_structured` returned, over views.
pub open spec fn outcome(
    r: Result<Option<ParsedStructuredQuery>, StructuredQueryError>,
) -> Result<Option<ParsedModel>, StructuredQueryError> {
    match r {
        Ok(None) => Ok(None),
        Ok(Some(p)) => Ok(Some(p@)),
        Err(e) => Err(e),
    }
}

/// Whether a carriage return or a line feed stands in `s`.
fn line_break_in(s: &str) -> (r: bool)
    ensures
        r == has_line_break(s@),
{
    let v: Vec<char> = chars_of(s);
    for i in 0..v.len()
        invariant
            v@ == s@,
            forall|k: int| 0 <= k < i ==> v@[k] != '\r' && v@[k] != '\n',
    {
        if v[i] == '\r' || v[i] == '\n' {
            return true;
        }
    }
    false
}

/// An error of an earlier line is the error of the document.
proof fn lemma_first_error_stays(
    lines: Seq<(nat, Seq<char>)>,
    k: int,
    n: int,
    dialect: Dialect,
)
    requires
        0 <= k <= n,
        first_error(lines, k, dialect) is Some,
    ensures
        first_error(lines, n, dialect) == first_error(lines, k, dialect),
    decreases n,
{
    if k < n {
        lemma_first_error_stays(lines, k, n - 1, dialect);
    }
}

/// Without faulty lines, a document without a search has an `intent:` line.
proof fn lemma_intent_or_search(lines: Seq<(nat, Seq<char>)>)
    ensures
        has_intent(lines) <==> intent_in(lines) is Some,
    decreases lines.len(),
{
    if lines.len() > 0 {
        let before = lines.drop_last();
        lemma_intent_or_search(before);
        let n = lines.len() - 1;
        if has_intent(before) {
            let i = choose|i: int|
                0 <= i < before.len() && class_of(#[trigger] before[i].1) == LineClass::Intent;
            assert(lines[i] == before[i]);
            assert(has_intent(lines));
        }
        if has_intent(lines) && class_of(lines.last().1) != LineClass::Intent {
            let i = choose|i: int|
                0 <= i < lines.len() && class_of(#[trigger] lines[i].1) == LineClass::Intent;
            assert(before[i] == lines[i]);
        }
        assert(lines[n] == lines.last());
    }
}

/// Reads `query` as a structured query document.
pub fn parse_structured(query: &str, dialect: Dialect) -> (r: Result<
    Option<ParsedStructuredQuery>,
    StructuredQueryError,
>)
    ensures
        outcome(r) == document(lines_of(query@), dialect),
{
    let lines: Vec<Line> = query_lines(query);
    let ghost all = lines_of(query@);
    if lines.len() == 0 {
        return Ok(None);
    }
    let mut searches: Vec<ExpandedQuery> = Vec::new();
    let mut intent: Option<String> = None;
    assert(all.take(0) =~= Seq::empty());
    for i in 0..lines.len()
        invariant
            lines@.len() > 0,
            all == lines_of(query@),
            all == line_views(lines@),
            first_error(all, i as int, dialect) is None,
            store_ops::query_models(searches@) =~= searches_in(all.take(i as int)),
            chars::opt_string(intent) == intent_in(all.take(i as int)),
            forall|k: int|
                0 <= k < i ==> (#[trigger] class_in(all[k].1, dialect) == LineClass::Intent
                    || class_in(all[k].1, dialect) is Search),
    {
        let line: usize = lines[i].number;
        let (class, text) = classify(lines[i].text.as_str());
        let ghost before = all.take(i as int);
        assert(all[i as int] == lines@[i as int]@);
        assert(all.take(i + 1).drop_last() =~= before);
        proof {
            lemma_intent_or_search(before);
            if line_error(all, i as int, dialect) is Some {
                lemma_first_error_stays(all, i + 1, all.len() as int, dialect);
            }
        }
        match class {
            LineClass::Expand if dialect == Dialect::Document => {
                if lines.len() > 1 {
                    return Err(StructuredQueryError::MixedExpand { line });
                }
                if text.as_str().is_empty() {
                    return Err(StructuredQueryError::EmptyExpand);
                }
                return Ok(None);
            },
            LineClass::Intent => {
                if intent.is_some() {
                    return Err(StructuredQueryError::DuplicateIntent { line });
                }
                if text.as_str().is_empty() {
                    return Err(StructuredQueryError::EmptyIntent { line });
                }
                intent = Some(text);
            },
            LineClass::Search(type_) => {
                if text.as_str().is_empty() {
                    return Err(StructuredQueryError::EmptySearch { line, type_ });
                }
                if dialect == Dialect::Document && line_break_in(text.as_str()) {
                    return Err(StructuredQueryError::BrokenSearch { line, type_ });
                }
                let ghost s0 = searches@;
                searches.push(ExpandedQuery { type_, query: text, line: Some(line) });
                assert(store_ops::query_models(searches@) =~= store_ops::query_models(s0).push(
                    searches@.last()@,
                ));
            },
            _ => {
                if lines.len() == 1 {
                    return Ok(None);
                }
                return Err(StructuredQueryError::MissingPrefix { line });
            },
        }
    }
    assert(all.take(all.len() as int) =~= all);
    assert(class_in(all[0].1, dialect) == LineClass::Intent || class_in(all[0].1, dialect) is Search);
    if searches.len() == 0 {
        return Err(StructuredQueryError::IntentAlone);
    }
    Ok(Some(ParsedStructuredQuery { searches, intent }))
}

/// The name of a search type.
pub open spec fn label_of(t: ExpandedQueryType) -> Seq<char> {
    match t {
        ExpandedQueryType::Lex => "lex"@,
        ExpandedQueryType::Vec => "vec"@,
        ExpandedQueryType::Hyde => "hyde"@,
    }
}

/// The name of a search type.
pub fn type_label(t: ExpandedQueryType) -> (r: &'static str)
    ensures
        r@ == label_of(t),
{
    match t {
        ExpandedQueryType::Lex => "lex",
        ExpandedQueryType::Vec => "vec",
        ExpandedQueryType::Hyde => "hyde",
    }
}

/// `Line <number>`, and what is said of it.
fn line_message(line: usize, rest: &str) -> (s: String)
    ensures
        s@ == "Line "@ + number::decimal(line as nat) + rest@,
{
    let mut s: String = "Line ".to_owned();
    s.append(decimal_of(line as u128).as_str());
    s.append(rest);
    s
}

/// `Line <number> (<type>`, and what is said of it.
fn search_message(line: usize, type_: ExpandedQueryType, rest: &str) -> (s: String)
    ensures
        s@ == "Line "@ + number::decimal(line as nat) + " ("@ + label_of(type_) + rest@,
{
    let mut s: String = line_message(line, " (");
    s.append(type_label(type_));
    s.append(rest);
    s
}

impl StructuredQueryError {
    /// What is said of the error.
    pub open spec fn text(self, dialect: Dialect) -> Seq<char> {
        match self {
            StructuredQueryError::MixedExpand { line } => "Line "@ + number::decimal(line as nat)
                + " starts with expand:, but query documents cannot mix expand with typed lines. Submit a single expand query instead."@,
            StructuredQueryError::EmptyExpand => "expand: query must include text."@,
            StructuredQueryError::DuplicateIntent { line } => "Line "@ + number::decimal(
                line as nat,
            ) + (match dialect {
                Dialect::Document => ": only one intent: line is allowed per query document."@,
                Dialect::Benchmark => ": only one intent: line is allowed per benchmark query."@,
            }),
            StructuredQueryError::EmptyIntent { line } => "Line "@ + number::decimal(line as nat)
                + ": intent: must include text."@,
            StructuredQueryError::EmptySearch { line, type_ } => "Line "@ + number::decimal(
                line as nat,
            ) + " ("@ + label_of(type_) + ":) must include text."@,
            StructuredQueryError::BrokenSearch { line, type_ } => "Line "@ + number::decimal(
                line as nat,
            ) + " ("@ + label_of(type_)
                + ":) contains a newline. Keep each query on a single line."@,
            StructuredQueryError::MissingPrefix { line } => "Line "@ + number::decimal(line as nat)
                + (match dialect {
                Dialect::Document =>
                    " is missing a lex:/vec:/hyde:/intent: prefix. Each line in a query document must start with one."@,
                Dialect::Benchmark => " is missing a lex:/vec:/hyde:/intent: prefix."@,
            }),
            StructuredQueryError::IntentAlone =>
                "intent: cannot appear alone. Add at least one lex:, vec:, or hyde: line."@,
        }
    }

    /// What is said of the error.
    pub fn message(&self, dialect: Dialect) -> (s: String)
        ensures
            s@ == self.text(dialect),
    {
        match *self {
            StructuredQueryError::MixedExpand { line } => line_message(
                line,
                " starts with expand:, but query documents cannot mix expand with typed lines. Submit a single expand query instead.",
            ),
            StructuredQueryError::EmptyExpand => "expand: query must include text.".to_owned(),
            StructuredQueryError::DuplicateIntent { line } => match dialect {
                Dialect::Document => line_message(
                    line,
                    ": only one intent: line is allowed per query document.",
                ),
                Dialect::Benchmark => line_message(
                    line,
                    ": only one intent: line is allowed per benchmark query.",
                ),
            },
            StructuredQueryError::EmptyIntent { line } => line_message(
                line,
                ": intent: must include text.",
            ),
            StructuredQueryError::EmptySearch { line, type_ } => search_message(
                line,
                type_,
                ":) must include text.",
            ),
            StructuredQueryError::BrokenSearch { line, type_ } => search_message(
                line,
                type_,
                ":) contains a newline. Keep each query on a single line.",
            ),
            StructuredQueryError::MissingPrefix { line } => match dialect {
                Dialect::Document => line_message(
                    line,
                    " is missing a lex:/vec:/hyde:/intent: prefix. Each line in a query document must start with one.",
                ),
                Dialect::Benchmark => line_message(
                    line,
                    " is missing a lex:/vec:/hyde:/intent: prefix.",
                ),
            },
            StructuredQueryError::IntentAlone =>
                "intent: cannot appear alone. Add at least one lex:, vec:, or hyde: line.".to_owned(),
        }
    }
}

// Laws.

/// Every search of a structured query has text, and text on one line where the dialect asks
/// for it.
pub proof fn law_searches_have_text(lines: Seq<(nat, Seq<char>)>, dialect: Dialect)
    ensures
        match document(lines, dialect) {
            Ok(Some(p)) => p.searches.len() > 0 && forall|i: int|
                0 <= i < p.searches.len() ==> (#[trigger] p.searches[i]).query.len() > 0 && (
                dialect == Dialect::Document ==> !has_line_break(p.searches[i].query)),
            _ => true,
        },
{
    if document(lines, dialect) is Ok && document(lines, dialect)->Ok_0 is Some {
        lemma_searches_have_text(lines, lines.len() as int, dialect);
        assert(lines.take(lines.len() as int) =~= lines);
    }
}

proof fn lemma_searches_have_text(lines: Seq<(nat, Seq<char>)>, k: int, dialect: Dialect)
    requires
        0 <= k <= lines.len(),
        first_error(lines, k, dialect) is None,
    ensures
        forall|i: int|
            0 <= i < searches_in(lines.take(k)).len() ==> (#[trigger] searches_in(
                lines.take(k),
            )[i]).query.len() > 0 && (dialect == Dialect::Document ==> !has_line_break(
                searches_in(lines.take(k))[i].query,
            )),
    decreases k,
{
    if k > 0 {
        lemma_searches_have_text(lines, k - 1, dialect);
        assert(lines.take(k).drop_last() =~= lines.take(k - 1));
        assert(line_error(lines, k - 1, dialect) is None);
    }
}

/// A structured query with an intent line next to searches keeps both; without searches it is
/// refused: an intent never comes back alone.
pub proof fn law_intent_never_alone(lines: Seq<(nat, Seq<char>)>, dialect: Dialect)
    requires
        lines.len() == 1,
        class_of(lines[0].1) == LineClass::Intent,
        line_text(lines[0].1).len() > 0,
    ensures
        document(lines, dialect) == Err::<Option<ParsedModel>, StructuredQueryError>(
            StructuredQueryError::IntentAlone,
        ),
{
    assert(lines.take(0) =~= Seq::empty());
    assert(lines.drop_last() =~= Seq::empty());
    assert(first_error(lines, 0, dialect) is None);
    assert(!has_intent(lines.take(0)));
    assert(line_error(lines, 0, dialect) is None);
    assert(first_error(lines, 1, dialect) is None);
    assert(searches_in(lines.drop_last()).len() == 0);
}

/// Which of the pieces are not blank.
pub open spec fn have_text(pieces: Seq<Seq<char>>) -> Seq<bool> {
    Seq::new(pieces.len(), |i: int| chars::trimmed(pieces[i]).len() > 0)
}

proof fn lemma_numbered_picks(pieces: Seq<Seq<char>>) -> (at: Seq<int>)
    ensures
        lists::picks(at, have_text(pieces)),
        numbered(pieces) == Seq::new(
            at.len(),
            |k: int| ((at[k] + 1) as nat, chars::trimmed(pieces[at[k]])),
        ),
    decreases pieces.len(),
{
    let keep = have_text(pieces);
    if pieces.len() == 0 {
        assert(numbered(pieces) =~= Seq::new(
            0,
            |k: int| ((k + 1) as nat, chars::trimmed(pieces[k])),
        ));
        Seq::empty()
    } else {
        let b = pieces.drop_last();
        let at = lemma_numbered_picks(b);
        assert(keep.drop_last() =~= have_text(b));
        lists::lemma_picks_step(at, keep);
        assert forall|k: int| 0 <= k < at.len() implies #[trigger] b[at[k]] == pieces[at[k]] by {
            assert(0 <= at[k] < have_text(b).len());
        }
        let next = if keep.last() {
            at.push(pieces.len() - 1)
        } else {
            at
        };
        assert(numbered(pieces) =~= Seq::new(
            next.len(),
            |k: int| ((next[k] + 1) as nat, chars::trimmed(pieces[next[k]])),
        ));
        next
    }
}

/// The lines of a document are those of the text that are not blank, each once and in order,
/// trimmed, with the number that it has in the text.
pub proof fn law_lines_keep_their_numbers(query: Seq<char>)
    ensures
        exists|at: Seq<int>| #[trigger]
            lists::picks(at, have_text(search::split_on(query, '\n'))) && lines_of(query)
                == Seq::new(
                at.len(),
                |k: int|
                    (
                        (at[k] + 1) as nat,
                        chars::trimmed(search::split_on(query, '\n')[at[k]]),
                    ),
            ),
{
    let pieces = search::split_on(query, '\n');
    let at = lemma_numbered_picks(pieces);
    assert(lists::picks(at, have_text(pieces)));
}

/// A line is told by the word before its first colon, however it is capitalised, and its text is
/// what stands behind that, trimmed.
pub proof fn law_lines_are_told_by_their_word(word: Seq<char>, rest: Seq<char>)
    ensures
        chars::ascii_lowered(word) == "lex:"@ ==> class_of(word + rest) == LineClass::Search(
            ExpandedQueryType::Lex,
        ) && line_text(word + rest) == chars::trimmed(rest),
        chars::ascii_lowered(word) == "vec:"@ ==> class_of(word + rest) == LineClass::Search(
            ExpandedQueryType::Vec,
        ) && line_text(word + rest) == chars::trimmed(rest),
        chars::ascii_lowered(word) == "hyde:"@ ==> class_of(word + rest) == LineClass::Search(
            ExpandedQueryType::Hyde,
        ) && line_text(word + rest) == chars::trimmed(rest),
        chars::ascii_lowered(word) == "intent:"@ ==> class_of(word + rest) == LineClass::Intent
            && line_text(word + rest) == chars::trimmed(rest),
        chars::ascii_lowered(word) == "expand:"@ ==> class_of(word + rest) == LineClass::Expand
            && line_text(word + rest) == chars::trimmed(rest),
{
    reveal_strlit("lex:");
    reveal_strlit("vec:");
    reveal_strlit("hyde:");
    reveal_strlit("intent:");
    reveal_strlit("expand:");
    let line = word + rest;
    let lower = chars::ascii_lowered(line);
    let w = chars::ascii_lowered(word);
    assert(lower.subrange(0, word.len() as int) =~= w);
    assert(line.skip(word.len() as int) =~= rest);
    if w.len() > 0 {
        assert(lower[0] == w[0]);
        assert(search::begins_with(lower, "lex:"@) ==> lower.subrange(0, 4)[0] == 'l');
        assert(search::begins_with(lower, "vec:"@) ==> lower.subrange(0, 4)[0] == 'v');
        assert(search::begins_with(lower, "hyde:"@) ==> lower.subrange(0, 5)[0] == 'h');
        assert(search::begins_with(lower, "intent:"@) ==> lower.subrange(0, 7)[0] == 'i');
        assert(search::begins_with(lower, "expand:"@) ==> lower.subrange(0, 7)[0] == 'e');
    }
}

/// A line without a colon is plain.
pub proof fn law_lines_without_a_colon_are_plain(line: Seq<char>)
    requires
        !line.contains(':'),
    ensures
        class_of(line) == LineClass::Plain,
        line_text(line) == chars::trimmed(line),
{
    reveal_strlit("lex:");
    reveal_strlit("vec:");
    reveal_strlit("hyde:");
    reveal_strlit("intent:");
    reveal_strlit("expand:");
    let lower = chars::ascii_lowered(line);
    assert forall|i: int| 0 <= i < line.len() implies lower[i] != ':' by {
        assert(line.contains(line[i]));
    }
    assert(search::begins_with(lower, "lex:"@) ==> lower.subrange(0, 4)[3] == ':');
    assert(search::begins_with(lower, "vec:"@) ==> lower.subrange(0, 4)[3] == ':');
    assert(search::begins_with(lower, "hyde:"@) ==> lower.subrange(0, 5)[4] == ':');
    assert(search::begins_with(lower, "intent:"@) ==> lower.subrange(0, 7)[6] == ':');
    assert(search::begins_with(lower, "expand:"@) ==> lower.subrange(0, 7)[6] == ':');
    assert(line.skip(0) =~= line);
}

/// Which lines ask for a search.
pub open spec fn are_searches(lines: Seq<(nat, Seq<char>)>) -> Seq<bool> {
    Seq::new(lines.len(), |i: int| class_of(lines[i].1) is Search)
}

/// The search that a line asks for.
pub open spec fn search_of(line: (nat, Seq<char>)) -> store_ops::ExpandedQueryModel {
    store_ops::ExpandedQueryModel {
        type_: class_of(line.1)->Search_0,
        query: line_text(line.1),
        line: Some(line.0 as usize),
    }
}

proof fn lemma_searches_picks(lines: Seq<(nat, Seq<char>)>) -> (at: Seq<int>)
    ensures
        lists::picks(at, are_searches(lines)),
        searches_in(lines) == Seq::new(at.len(), |k: int| search_of(lines[at[k]])),
    decreases lines.len(),
{
    let keep = are_searches(lines);
    if lines.len() == 0 {
        assert(searches_in(lines) =~= Seq::new(0, |k: int| search_of(lines[k])));
        Seq::empty()
    } else {
        let b = lines.drop_last();
        let at = lemma_searches_picks(b);
        assert(keep.drop_last() =~= are_searches(b));
        lists::lemma_picks_step(at, keep);
        assert forall|k: int| 0 <= k < at.len() implies #[trigger] b[at[k]] == lines[at[k]] by {
            assert(0 <= at[k] < are_searches(b).len());
        }
        let next = if keep.last() {
            at.push(lines.len() - 1)
        } else {
            at
        };
        assert(searches_in(lines) =~= Seq::new(next.len(), |k: int| search_of(lines[next[k]])));
        next
    }
}

/// A structured query has a search for each line that asks for one, each once and in order, with
/// the type, the text and the number of that line, and its intent is the text of its only
/// `intent:` line; a query without one has no intent.
pub proof fn law_no_search_line_is_lost(lines: Seq<(nat, Seq<char>)>, dialect: Dialect)
    ensures
        document(lines, dialect) matches Ok(Some(p)) ==> {
            &&& exists|at: Seq<int>| #[trigger]
                lists::picks(at, are_searches(lines)) && p.searches == Seq::new(
                    at.len(),
                    |k: int| search_of(lines[at[k]]),
                )
            &&& forall|i: int|
                0 <= i < lines.len() && class_of(#[trigger] lines[i].1) == LineClass::Intent
                    ==> p.intent == Some(line_text(lines[i].1))
            &&& (forall|i: int|
                0 <= i < lines.len() ==> class_of(#[trigger] lines[i].1) != LineClass::Intent)
                ==> p.intent is None
        },
{
    if let Ok(Some(p)) = document(lines, dialect) {
        let at = lemma_searches_picks(lines);
        assert(lists::picks(at, are_searches(lines)));
        assert(lines.take(lines.len() as int) =~= lines);
        assert forall|i: int|
            0 <= i < lines.len() && class_of(
                #[trigger] lines[i].1,
            ) == LineClass::Intent implies p.intent == Some(line_text(lines[i].1)) by {
            lemma_only_intent(lines, lines.len() as int, i, dialect);
        }
        lemma_intent_or_search(lines);
    }
}

proof fn lemma_only_intent(lines: Seq<(nat, Seq<char>)>, k: int, i: int, dialect: Dialect)
    requires
        0 <= i < k <= lines.len(),
        class_of(lines[i].1) == LineClass::Intent,
        first_error(lines, k, dialect) is None,
    ensures
        intent_in(lines.take(k)) == Some(line_text(lines[i].1)),
    decreases k,
{
    let t = lines.take(k);
    assert(t.drop_last() =~= lines.take(k - 1));
    assert(t.last() == lines[k - 1]);
    assert(line_error(lines, k - 1, dialect) is None);
    if i < k - 1 {
        lemma_only_intent(lines, k - 1, i, dialect);
        if class_of(lines[k - 1].1) == LineClass::Intent {
            assert(lines.take(k - 1)[i] == lines[i]);
            assert(has_intent(lines.take(k - 1)));
        }
    }
}

/// The error of a document is that of its first faulty line; a document that is no plain query
/// and has no faulty line is read, unless it has no search.
pub proof fn law_first_fault_counts(lines: Seq<(nat, Seq<char>)>, dialect: Dialect, i: int)
    requires
        !is_plain_query(lines, dialect),
        lines.len() > 0,
        0 <= i <= lines.len(),
        forall|j: int| 0 <= j < i ==> line_error(lines, j, dialect) is None,
    ensures
        i < lines.len() && line_error(lines, i, dialect) is Some ==> document(lines, dialect) == Err::<
            Option<ParsedModel>,
            StructuredQueryError,
        >(line_error(lines, i, dialect)->0),
        i == lines.len() && (exists|j: int| 0 <= j < lines.len() && are_searches(lines)[j])
            ==> document(lines, dialect) is Ok && document(lines, dialect)->Ok_0 is Some,
        i == lines.len() && !(exists|j: int| 0 <= j < lines.len() && are_searches(lines)[j])
            ==> document(lines, dialect) == Err::<Option<ParsedModel>, StructuredQueryError>(
            StructuredQueryError::IntentAlone,
        ),
{
    lemma_no_error_before(lines, i, dialect);
    if i < lines.len() {
        if line_error(lines, i, dialect) is Some {
            assert(first_error(lines, i + 1, dialect) == line_error(lines, i, dialect));
            lemma_first_error_stays(lines, i + 1, lines.len() as int, dialect);
        }
    } else {
        let at = lemma_searches_picks(lines);
        let keep = are_searches(lines);
        if exists|j: int| 0 <= j < lines.len() && keep[j] {
            let j = choose|j: int| 0 <= j < lines.len() && keep[j];
            assert(at.contains(j));
        } else if at.len() > 0 {
            assert(keep[at[0]]);
        }
    }
}

proof fn lemma_no_error_before(lines: Seq<(nat, Seq<char>)>, i: int, dialect: Dialect)
    requires
        0 <= i <= lines.len(),
        forall|j: int| 0 <= j < i ==> line_error(lines, j, dialect) is None,
    ensures
        first_error(lines, i, dialect) is None,
    decreases i,
{
    if i > 0 {
        lemma_no_error_before(lines, i - 1, dialect);
        assert(line_error(lines, i - 1, dialect) is None);
    }
}

/// What is wrong with a line, by what it is: an `expand:` line among others, or without text; a
/// second `intent:` line, or one without text; a search without text, or in a query document over
/// more than one line; and among others a line that begins with no known word. A benchmark knows
/// no `expand:`.
pub proof fn law_faults_of_a_line(lines: Seq<(nat, Seq<char>)>, i: int, dialect: Dialect)
    requires
        0 <= i < lines.len(),
        lines[i].0 <= usize::MAX,
    ensures
        ({
            let (class, e) = (class_of(lines[i].1), line_error(lines, i, dialect));
            let line = lines[i].0 as usize;
            let blank = line_text(lines[i].1).len() == 0;
            &&& class is Search ==> (e is None <==> !blank && !(dialect is Document
                && has_line_break(line_text(lines[i].1))))
            &&& class is Search && blank ==> e == Some(
                StructuredQueryError::EmptySearch { line, type_: class->Search_0 },
            )
            &&& class is Intent ==> (e is None <==> !blank && forall|j: int|
                0 <= j < i ==> class_of(#[trigger] lines[j].1) != LineClass::Intent)
            &&& class is Intent && (exists|j: int|
                0 <= j < i && class_of(#[trigger] lines[j].1) == LineClass::Intent) ==> e == Some(
                StructuredQueryError::DuplicateIntent { line },
            )
            &&& class is Plain && lines.len() > 1 ==> e == Some(
                StructuredQueryError::MissingPrefix { line },
            )
            &&& class is Expand && lines.len() > 1 && dialect is Document ==> e == Some(
                StructuredQueryError::MixedExpand { line },
            )
            &&& class is Expand && lines.len() > 1 && dialect is Benchmark ==> e == Some(
                StructuredQueryError::MissingPrefix { line },
            )
        }),
{
    let b = lines.take(i);
    assert forall|j: int| 0 <= j < i implies b[j] == lines[j] by {}
    if has_intent(b) {
        let j = choose|j: int| 0 <= j < b.len() && class_of(#[trigger] b[j].1) == LineClass::Intent;
        assert(class_of(lines[j].1) == LineClass::Intent);
    }
    if exists|j: int| 0 <= j < i && class_of(#[trigger] lines[j].1) == LineClass::Intent {
        let j = choose|j: int|
            0 <= j < i && class_of(#[trigger] lines[j].1) == LineClass::Intent;
        assert(b[j] == lines[j]);
        assert(has_intent(b));
    }
}

/// A blank query, a single plain line, and in a query document a single `expand:` line with text
/// are no structured queries.
pub proof fn law_plain_queries_are_not_structured(lines: Seq<(nat, Seq<char>)>, dialect: Dialect)
    ensures
        lines.len() == 0 ==> document(lines, dialect) == Ok::<
            Option<ParsedModel>,
            StructuredQueryError,
        >(None),
        lines.len() == 1 && class_of(lines[0].1) == LineClass::Plain ==> document(lines, dialect)
            == Ok::<Option<ParsedModel>, StructuredQueryError>(None),
        lines.len() == 1 && class_of(lines[0].1) == LineClass::Expand && line_text(
            lines[0].1,
        ).len() > 0 ==> document(lines, dialect) == Ok::<
            Option<ParsedModel>,
            StructuredQueryError,
        >(None),
        lines.len() == 1 && class_of(lines[0].1) is Search ==> document(lines, dialect)
            != Ok::<Option<ParsedModel>, StructuredQueryError>(None),
{
}

} // verus!
