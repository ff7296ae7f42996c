//! `rqmd get`: which document and which of its lines are shown.
use vstd::prelude::*;

use crate::color::Palette;
use crate::output;
use crate::output::wrap;
use crate::snippet;
use crate::snippet::add_line_numbers;
use crate::store::DocumentResult;
use crate::text::{chars, number, search};
use crate::text::chars::{chars_of, join, str_or_empty, string_between};
use crate::text::number::parse_digits;
use crate::text::search::{contains_char, split_char, tail_after};
use crate::virtual_path;
use crate::virtual_path::build_virtual_path;

verus! {

/// A path without a line number at its end, and the line number.
pub open spec fn without_line(input: Seq<char>) -> (Seq<char>, Option<nat>) {
    let suffix = search::after_last(input, ':');
    if input.contains(':') && number::is_numeral(suffix) && number::numeral_value(suffix)
        <= usize::MAX {
        (
            input.take(input.len() - suffix.len() - 1),
            Some(number::numeral_value(suffix)),
        )
    } else {
        (input, None)
    }
}

proof fn lemma_after_last_is_shorter(s: Seq<char>, c: char)
    ensures
        s.contains(c) ==> search::after_last(s, c).len() < s.len(),
        search::after_last(s, c).len() <= s.len(),
    decreases s.len(),
{
    if s.len() > 0 && s.last() != c {
        lemma_after_last_is_shorter(s.drop_last(), c);
        if s.contains(c) {
            let i = choose|i: int| 0 <= i < s.len() && s[i] == c;
            assert(s.drop_last()[i] == c);
        }
    }
}

/// Takes a line number off the end of a path: a colon and decimal digits.
pub fn strip_line_suffix(input: &str) -> (r: (String, Option<usize>))
    ensures
        r.0@ == without_line(input@).0,
        match r.1 {
            Some(n) => without_line(input@).1 == Some(n as nat),
            None => without_line(input@).1 is None,
        },
{
    if contains_char(input, ':') {
        let suffix: String = tail_after(input, ':');
        match parse_digits(suffix.as_str(), usize::MAX as u64) {
            Some(n) => {
                let v: Vec<char> = chars_of(input);
                let len: usize = suffix.as_str().unicode_len();
                proof {
                    lemma_after_last_is_shorter(input@, ':');
                }
                let path: String = string_between(v.as_slice(), 0, v.len() - len - 1);
                assert(path@ =~= input@.take(input@.len() - len - 1));
                return (path, Some(n as usize));
            },
            None => {},
        }
    }
    (input.to_owned(), None)
}

/// The first line that is shown: that of the command line, else that of the path, and at least
/// one.
pub fn first_line(from: Option<usize>, parsed: Option<usize>) -> (r: Option<usize>)
    ensures
        r == match (if from is Some {
            from
        } else {
            parsed
        }) {
            Some(n) => Some(
                if n == 0 {
                    1
                } else {
                    n
                },
            ),
            None => None,
        },
{
    let line: Option<usize> = match from {
        Some(n) => Some(n),
        None => parsed,
    };
    match line {
        Some(n) => Some(
            if n == 0 {
                1
            } else {
                n
            },
        ),
        None => None,
    }
}

/// A `qmd://` path in its parts.
#[derive(Clone, Debug)]
pub struct VirtualPath {
    pub collection: String,
    pub path: String,
    /// The index that the path names, if it names one.
    pub index_name: Option<String>,
}

/// What a path is.
#[derive(Clone, Debug)]
pub enum PathForm {
    /// Not a `qmd://` path.
    Plain,
    /// A `qmd://` path.
    Virtual(VirtualPath),
    /// Something like a `qmd://` path that cannot be read.
    Malformed,
}

/// What a document is looked up by: a `qmd://` path without the index, any other path as it is.
pub open spec fn lookup(input: Seq<char>, form: PathForm) -> Seq<char> {
    match form {
        PathForm::Virtual(vp) => virtual_path::virtual_path(vp.collection@, vp.path@, None),
        _ => input,
    }
}

/// What a document is looked up by, and the index to switch to, where the path names one.
pub fn lookup_input(input: &str, form: &PathForm) -> (r: (String, Option<String>))
    ensures
        r.0@ == lookup(input@, *form),
        chars::opt_string(r.1) == match *form {
            PathForm::Virtual(vp) => chars::opt_string(vp.index_name),
            _ => None,
        },
{
    match form {
        PathForm::Virtual(vp) => {
            let index: Option<String> = match &vp.index_name {
                Some(n) => Some(n.clone()),
                None => None,
            };
            (build_virtual_path(vp.collection.as_str(), vp.path.as_str(), None), index)
        },
        _ => (input.to_owned(), None),
    }
}

/// The first line of a slice, counted from zero.
pub open spec fn slice_start(from: Option<usize>) -> nat {
    match from {
        Some(n) if n > 0 => (n - 1) as nat,
        _ => 0,
    }
}

/// The lines of `body` from a line on, counted from one, at most so many of them.
pub open spec fn sliced(body: Seq<char>, from: Option<usize>, max: Option<usize>) -> Seq<char> {
    let lines = search::split_on(body, '\n');
    let start = slice_start(from) as int;
    if from is None && max is None {
        body
    } else if start >= lines.len() {
        ""@
    } else {
        let end = match max {
            Some(n) if start + n < lines.len() => start + n,
            _ => lines.len() as int,
        };
        chars::joined(lines.subrange(start, end), "\n"@)
    }
}

/// Whether the number of the line behind a slice is a machine number; where the slice begins
/// behind the last line it does not matter.
pub open spec fn end_fits(body: Seq<char>, from: Option<usize>, max: Option<usize>) -> bool {
    max is Some && slice_start(from) < search::split_on(body, '\n').len() ==> slice_start(from)
        + max->0 <= usize::MAX
}

/// The lines of `body` from a line on, counted from one, at most so many of them. The number of
/// the line behind the slice must be a machine number.
pub fn slice_lines(body: &str, from_line: Option<usize>, max_lines: Option<usize>) -> (s: String)
    requires
        end_fits(body@, from_line, max_lines),
    ensures
        s@ == sliced(body@, from_line, max_lines),
{
    if from_line.is_none() && max_lines.is_none() {
        return body.to_owned();
    }
    let lines: Vec<String> = split_char(body, '\n');
    let start: usize = match from_line {
        Some(n) => if n > 0 {
            n - 1
        } else {
            0
        },
        None => 0,
    };
    if start >= lines.len() {
        return "".to_owned();
    }
    let end: usize = match max_lines {
        Some(n) => if start + n < lines.len() {
            start + n
        } else {
            lines.len()
        },
        None => lines.len(),
    };
    let slice: &[String] = vstd::slice::slice_subrange(lines.as_slice(), start, end);
    assert(chars::texts(slice@) =~= search::split_on(body@, '\n').subrange(
        start as int,
        end as int,
    ));
    join(slice, "\n")
}

/// What is printed of a document.
pub open spec fn document_text(
    doc: DocumentResult,
    from: Option<usize>,
    max: Option<usize>,
    line_numbers: bool,
) -> Seq<char> {
    let body = sliced(chars::text_or_empty(doc.body), from, max);
    output::wrapped("Folder Context: "@, doc.context, "\n---\n\n"@) + (if line_numbers {
        snippet::with_line_numbers(
            body,
            match from {
                Some(n) => n as nat,
                None => 1,
            },
        )
    } else {
        body
    }) + "\n"@
}

/// What is printed of a document: its context, and the lines that were asked for.
pub fn show_document(
    doc: &DocumentResult,
    from_line: Option<usize>,
    max_lines: Option<usize>,
    line_numbers: bool,
) -> (s: String)
    requires
        end_fits(chars::text_or_empty(doc.body), from_line, max_lines),
    ensures
        s@ == document_text(*doc, from_line, max_lines, line_numbers),
{
    let body: String = slice_lines(str_or_empty(&doc.body), from_line, max_lines);
    let shown: String = if line_numbers {
        add_line_numbers(body.as_str(), from_line)
    } else {
        body
    };
    let mut s: String = wrap("Folder Context: ", &doc.context, "\n---\n\n");
    s.append(shown.as_str());
    s.append("\n");
    s
}

/// What is said where no document is found.
pub fn not_found_message(query: &str, similar_files: &[String], p: &Palette) -> (s: String)
    ensures
        s@ == "Document not found: "@ + query@ + (if similar_files@.len() == 0 {
            ""@
        } else {
            "\n"@ + p.dim_code() + "Did you mean:"@ + p.reset_code() + "\n  "@ + chars::joined(
                chars::texts(similar_files@),
                "\n  "@,
            )
        }),
{
    let hint: String = if similar_files.len() == 0 {
        "".to_owned()
    } else {
        let mut t: String = "\n".to_owned();
        t.append(p.dim());
        t.append("Did you mean:");
        t.append(p.reset());
        t.append("\n  ");
        t.append(join(similar_files, "\n  ").as_str());
        t
    };
    let mut s: String = "Document not found: ".to_owned();
    s.append(query);
    s.append(hint.as_str());
    s
}

// Laws.

/// A body is whole where neither a first line nor a number of lines is asked for.
pub proof fn law_no_slice_is_the_whole_body(body: Seq<char>)
    ensures
        sliced(body, None, None) == body,
{
}

/// From the first line on, without a limit, the lines of a body are the body.
pub proof fn law_slice_from_one_is_the_whole_body(body: Seq<char>)
    ensures
        sliced(body, Some(1), None) == body,
{
    search::lemma_split_nonempty(body, '\n');
    let lines = search::split_on(body, '\n');
    assert(lines.subrange(0, lines.len() as int) =~= lines);
    reveal_strlit("\n");
    assert("\n"@ =~= seq!['\n']);
    search::lemma_join_undoes_split(body, '\n', "\n"@);
}

/// How many lines a slice has that begins at line `start`, counted from zero, of `n` lines.
pub open spec fn lines_shown(n: nat, start: nat, max: Option<usize>) -> nat {
    let left = if start < n {
        (n - start) as nat
    } else {
        0
    };
    match max {
        Some(m) if m < left => m as nat,
        _ => left,
    }
}

/// The lines of a slice are those of the body from the line that was asked for on, as many as
/// were asked for or as there are; where there is none, nothing is shown.
pub proof fn law_slice_is_the_lines_asked_for(
    body: Seq<char>,
    from: usize,
    max: Option<usize>,
)
    requires
        from > 0,
    ensures
        ({
            let lines = search::split_on(body, '\n');
            let n = lines_shown(lines.len(), (from - 1) as nat, max);
            let shown = search::split_on(sliced(body, Some(from), max), '\n');
            &&& n > 0 ==> shown.len() == n && forall|i: int|
                0 <= i < n ==> #[trigger] shown[i] == lines[from - 1 + i]
            &&& n == 0 ==> sliced(body, Some(from), max).len() == 0
        }),
{
    reveal_strlit("\n");
    reveal_strlit("");
    assert("\n"@ =~= seq!['\n']);
    let lines = search::split_on(body, '\n');
    let start = (from - 1) as nat;
    let n = lines_shown(lines.len(), start, max);
    search::law_pieces_hold_no_separator(body, '\n');
    if start < lines.len() {
        let part = lines.subrange(start as int, (start + n) as int);
        assert(sliced(body, Some(from), max) == chars::joined(part, "\n"@));
        assert forall|i: int| 0 <= i < part.len() implies !(#[trigger] part[i]).contains('\n') by {
            assert(part[i] == lines[from - 1 + i]);
        }
        if n > 0 {
            search::law_split_undoes_join(part, '\n', "\n"@);
        }
    }
}

/// A slice without a first line, or with line zero as the first, begins at the first line.
pub proof fn law_slices_begin_at_the_first_line(body: Seq<char>, max: Option<usize>)
    ensures
        sliced(body, Some(0), max) == sliced(body, Some(1), max),
        max is Some ==> sliced(body, None, max) == sliced(body, Some(1), max),
{
}

/// A line that is shown with a number has the number that it has in the body.
pub proof fn law_shown_lines_keep_their_numbers(
    body: Seq<char>,
    from: usize,
    max: Option<usize>,
    i: int,
)
    requires
        from > 0,
        0 <= i < lines_shown(search::split_on(body, '\n').len(), (from - 1) as nat, max),
    ensures
        search::split_on(
            snippet::with_line_numbers(sliced(body, Some(from), max), from as nat),
            '\n',
        )[i] == number::decimal((from + i) as nat) + ": "@ + search::split_on(body, '\n')[from - 1
            + i],
{
    let shown = sliced(body, Some(from), max);
    law_slice_is_the_lines_asked_for(body, from, max);
    snippet::law_each_line_has_its_number(shown, from as nat);
    assert(search::split_on(shown, '\n')[i] == search::split_on(body, '\n')[from - 1 + i]);
}

/// A path with a colon and a number behind it is the path and the number.
pub proof fn law_line_number_is_taken_off(path: Seq<char>, n: nat)
    requires
        n <= usize::MAX,
    ensures
        without_line(path + ":"@ + number::decimal(n)) == (path, Some(n)),
{
    reveal_strlit(":");
    let d = number::decimal(n);
    let s = path + ":"@ + d;
    number::law_numeral_stands_for_its_number(n);
    assert(s[path.len() as int] == ':');
    assert(s.contains(':'));
    search::law_after_last_is_the_last_part(s, ':');
    let t = search::after_last(s, ':');
    assert(t.len() == d.len()) by {
        if t.len() > d.len() {
            assert(s.subrange(s.len() - t.len(), s.len() as int)[t.len() - d.len() - 1] == ':');
            assert(t[t.len() - d.len() - 1] == ':');
        }
        if t.len() < d.len() {
            let k = s.len() - t.len() - 1;
            assert(s[k] == ':');
            assert(s[k] == d[k - path.len() - 1]);
            assert(number::is_digit(d[k - path.len() - 1]));
        }
    }
    assert(t =~= d) by {
        assert(s.subrange(s.len() - t.len(), s.len() as int) =~= d);
    }
    assert(s.take(s.len() - t.len() - 1) =~= path);
}

/// A path whose part behind the last colon is no number stays as it is.
pub proof fn law_path_without_a_line_number_stays(path: Seq<char>, before: Seq<char>)
    requires
        !path.contains(':'),
        !number::is_numeral(path),
    ensures
        without_line(path) == (path, None::<nat>),
        without_line(before + ":"@ + path) == (before + ":"@ + path, None::<nat>),
{
    reveal_strlit(":");
    let s = before + ":"@ + path;
    search::law_after_last_is_the_last_part(s, ':');
    let t = search::after_last(s, ':');
    assert(s[before.len() as int] == ':');
    assert(s.contains(':'));
    assert(t.len() == path.len()) by {
        if t.len() > path.len() {
            assert(s.subrange(s.len() - t.len(), s.len() as int)[t.len() - path.len() - 1] == ':');
            assert(t[t.len() - path.len() - 1] == ':');
        }
        if t.len() < path.len() {
            let k = s.len() - t.len() - 1;
            assert(s[k] == path[k - before.len() - 1]);
            assert(path.contains(':'));
        }
    }
    assert(s.subrange(s.len() - t.len(), s.len() as int) =~= path);
}

/// What is printed of a document ends with the lines that were asked for, numbered where numbers
/// are asked for, and begins with its context, where it has one.
pub proof fn law_document_shows_its_context_and_lines(
    doc: DocumentResult,
    from: Option<usize>,
    max: Option<usize>,
)
    ensures
        ({
            let body = sliced(chars::text_or_empty(doc.body), from, max);
            let first = match from {
                Some(n) => n as nat,
                None => 1,
            };
            &&& search::ends_in(document_text(doc, from, max, false), body + "\n"@)
            &&& search::ends_in(
                document_text(doc, from, max, true),
                snippet::with_line_numbers(body, first) + "\n"@,
            )
            &&& doc.context matches Some(c) ==> search::begins_with(
                document_text(doc, from, max, false),
                "Folder Context: "@ + c@ + "\n"@,
            )
            &&& doc.context is None ==> document_text(doc, from, max, false) == body + "\n"@
        }),
{
    reveal_strlit("");
    reveal_strlit("\n---\n\n");
    reveal_strlit("\n");
    let body = sliced(chars::text_or_empty(doc.body), from, max);
    let first = match from {
        Some(n) => n as nat,
        None => 1,
    };
    let plain = document_text(doc, from, max, false);
    let a = body + "\n"@;
    assert(plain.subrange(plain.len() - a.len(), plain.len() as int) =~= a);
    let numbered = document_text(doc, from, max, true);
    let b = snippet::with_line_numbers(body, first) + "\n"@;
    assert(numbered.subrange(numbered.len() - b.len(), numbered.len() as int) =~= b);
    if let Some(c) = doc.context {
        let h = "Folder Context: "@ + c@ + "\n"@;
        assert(plain.subrange(0, h.len() as int) =~= h);
    } else {
        assert(plain =~= a);
    }
}

} // verus!
