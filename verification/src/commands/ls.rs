//! `rqmd ls`: the collections, or the files of one.
use vstd::prelude::*;

use crate::color::Palette;
use crate::commands::get::PathForm;
use crate::text::{chars, number, search};
use crate::text::chars::{
    chars_of, concatenate, pad_start, same_text, string_between, strip_end, strip_start,
};
use crate::text::number::signed_decimal_of;
use crate::text::search::{find_after, starts_with};

verus! {

/// A collection, and how many files it has.
#[derive(Clone, Debug)]
pub struct CollectionListing {
    pub name: String,
    pub active_count: i64,
}

/// The line for a collection.
pub open spec fn collection_line(c: CollectionListing, p: Palette) -> Seq<char> {
    "  "@ + p.dim_code() + "qmd://"@ + p.reset_code() + p.cyan_code() + c.name@ + "/"@
        + p.reset_code() + "  "@ + p.dim_code() + "("@ + number::signed_decimal(
        c.active_count as int,
    ) + " files)"@ + p.reset_code() + "\n"@
}

/// The lines for the collections.
pub open spec fn collection_lines(v: Seq<CollectionListing>, p: Palette) -> Seq<Seq<char>> {
    Seq::new(v.len(), |i: int| collection_line(v[i], p))
}

/// The list of the collections.
pub fn list_collections(collections: &[CollectionListing], p: &Palette) -> (s: String)
    ensures
        s@ == if collections@.len() == 0 {
            "No collections found. Run 'rqmd collection add .' to index files.\n"@
        } else {
            p.bold_code() + "Collections:"@ + p.reset_code() + "\n\n"@ + chars::concatenated(
                collection_lines(collections@, *p),
            )
        },
{
    if collections.len() == 0 {
        return "No collections found. Run 'rqmd collection add .' to index files.\n".to_owned();
    }
    let mut lines: Vec<String> = Vec::new();
    for i in 0..collections.len()
        invariant
            lines@.len() == i,
            forall|k: int|
                0 <= k < i ==> (#[trigger] lines@[k])@ == collection_line(collections@[k], *p),
    {
        let mut t: String = "  ".to_owned();
        t.append(p.dim());
        t.append("qmd://");
        t.append(p.reset());
        t.append(p.cyan());
        t.append(collections[i].name.as_str());
        t.append("/");
        t.append(p.reset());
        t.append("  ");
        t.append(p.dim());
        t.append("(");
        t.append(signed_decimal_of(collections[i].active_count).as_str());
        t.append(" files)");
        t.append(p.reset());
        t.append("\n");
        lines.push(t);
    }
    assert(chars::texts(lines@) =~= collection_lines(collections@, *p));
    let mut s: String = p.bold().to_owned();
    s.append("Collections:");
    s.append(p.reset());
    s.append("\n\n");
    s.append(concatenate(lines.as_slice()).as_str());
    s
}

/// Whether a path names a collection or a file below it.
pub open spec fn lies_in(s: Seq<char>, name: Seq<char>) -> bool {
    s == name || search::begins_with(s, name + "/"@)
}

/// Whether the path lies in the collection at `i`, and in none with a longer name.
pub open spec fn is_longest(s: Seq<char>, known: Seq<CollectionListing>, i: int) -> bool {
    &&& 0 <= i < known.len()
    &&& lies_in(s, known[i].name@)
    &&& forall|j: int|
        0 <= j < known.len() && lies_in(s, (#[trigger] known[j]).name@) ==> known[j].name@.len()
            <= known[i].name@.len()
}

/// The name of the longest collection that a path lies in.
pub fn longest_prefix_match(s: &str, known: &[CollectionListing]) -> (r: Option<String>)
    ensures
        match r {
            Some(name) => exists|i: int| #[trigger]
                is_longest(s@, known@, i) && name@ == known@[i].name@,
            None => forall|j: int| 0 <= j < known@.len() ==> !lies_in(s@, (#[trigger] known@[j]).name@),
        },
{
    let mut best: Option<usize> = None;
    let mut best_len: usize = 0;
    for i in 0..known.len()
        invariant
            match best {
                Some(b) => b < i && lies_in(s@, known@[b as int].name@) && best_len
                    == known@[b as int].name@.len() && forall|j: int|
                    0 <= j < i && lies_in(s@, (#[trigger] known@[j]).name@) ==> known@[j].name@.len()
                        <= best_len,
                None => forall|j: int|
                    0 <= j < i ==> !lies_in(s@, (#[trigger] known@[j]).name@),
            },
    {
        let mut prefix: String = known[i].name.clone();
        prefix.append("/");
        let inside: bool = same_text(s, known[i].name.as_str()) || starts_with(s, prefix.as_str());
        let len: usize = known[i].name.as_str().unicode_len();
        if inside && (best.is_none() || len >= best_len) {
            best = Some(i);
            best_len = len;
        }
    }
    match best {
        Some(b) => {
            assert(is_longest(s@, known@, b as int));
            Some(known[b].name.clone())
        },
        None => None,
    }
}

/// What `ls` lists: the files of a collection, or those below a path in it.
#[derive(Debug)]
pub struct ListTarget {
    pub collection: String,
    pub prefix: Option<String>,
}

/// Why `ls` cannot list.
#[derive(Clone, Debug)]
pub enum ListError {
    InvalidPath(String),
    UnknownCollection(String),
}

impl ListError {
    /// What is said of the error.
    pub open spec fn text(self) -> Seq<char> {
        match self {
            ListError::InvalidPath(arg) => "Invalid virtual path: "@ + arg@,
            ListError::UnknownCollection(name) => "Collection not found: "@ + name@
                + "\nRun 'rqmd ls' to see available collections."@,
        }
    }

    /// What is said of the error.
    pub fn message(&self) -> (s: String)
        ensures
            s@ == self.text(),
    {
        match self {
            ListError::InvalidPath(arg) => {
                let mut s: String = "Invalid virtual path: ".to_owned();
                s.append(arg.as_str());
                s
            },
            ListError::UnknownCollection(name) => {
                let mut s: String = "Collection not found: ".to_owned();
                s.append(name.as_str());
                s.append("\nRun 'rqmd ls' to see available collections.");
                s
            },
        }
    }
}

/// The text, where there is any.
pub open spec fn unless_empty(s: Seq<char>) -> Option<Seq<char>> {
    if s.len() == 0 {
        None
    } else {
        Some(s)
    }
}

fn some_unless_empty(s: String) -> (r: Option<String>)
    ensures
        chars::opt_string(r) == unless_empty(s@),
{
    if s.as_str().is_empty() {
        None
    } else {
        Some(s)
    }
}

/// Whether the target is what an argument that begins with a slash names: the longest collection
/// that the path lies in and the rest of the path, or the path itself as a collection.
pub open spec fn absolute_target(
    arg: Seq<char>,
    known: Seq<CollectionListing>,
    t: ListTarget,
) -> bool {
    let path = chars::stripped_end(arg.skip(1), '/');
    ||| exists|i: int| #[trigger]
        is_longest(path, known, i) && t.collection@ == known[i].name@ && chars::opt_string(t.prefix)
            == unless_empty(chars::stripped_start(path.skip(known[i].name@.len() as int), '/'))
    ||| (forall|j: int| 0 <= j < known.len() ==> !lies_in(path, (#[trigger] known[j]).name@))
        && t.collection@ == path && t.prefix is None
}

/// What an argument names, given how it reads as a `qmd://` path: the parts of that path; for an
/// argument that begins with a slash a known collection; else what stands before and behind the
/// first slash.
pub fn resolve_collection_arg(arg: &str, form: &PathForm, known: &[CollectionListing]) -> (r: Result<
    ListTarget,
    ListError,
>)
    ensures
        match *form {
            PathForm::Malformed => r is Err && r->Err_0 is InvalidPath && r->Err_0->InvalidPath_0@
                == arg@,
            PathForm::Virtual(vp) => r is Ok && r->Ok_0.collection@ == vp.collection@
                && chars::opt_string(r->Ok_0.prefix) == unless_empty(vp.path@),
            PathForm::Plain => r is Ok && (if arg@.len() > 0 && arg@[0] == '/' {
                absolute_target(arg@, known@, r->Ok_0)
            } else {
                match search::after_first(arg@, '/') {
                    Some(rest) => r->Ok_0.collection@ == arg@.take(arg@.len() - rest.len() - 1)
                        && chars::opt_string(r->Ok_0.prefix) == Some(rest),
                    None => r->Ok_0.collection@ == arg@ && r->Ok_0.prefix is None,
                }
            }),
        },
{
    match form {
        PathForm::Malformed => {
            return Err(ListError::InvalidPath(arg.to_owned()));
        },
        PathForm::Virtual(vp) => {
            return Ok(
                ListTarget {
                    collection: vp.collection.clone(),
                    prefix: some_unless_empty(vp.path.clone()),
                },
            );
        },
        PathForm::Plain => {},
    }
    let v: Vec<char> = chars_of(arg);
    if v.len() > 0 && v[0] == '/' {
        let rest: String = string_between(v.as_slice(), 1, v.len());
        assert(rest@ =~= arg@.skip(1));
        let path: String = strip_end(rest.as_str(), '/');
        match longest_prefix_match(path.as_str(), known) {
            Some(name) => {
                let w: Vec<char> = chars_of(path.as_str());
                let n: usize = name.as_str().unicode_len();
                let below: String = string_between(w.as_slice(), n, w.len());
                assert(below@ =~= path@.skip(name@.len() as int));
                let prefix: Option<String> = some_unless_empty(strip_start(below.as_str(), '/'));
                return Ok(ListTarget { collection: name, prefix });
            },
            None => {
                return Ok(ListTarget { collection: path, prefix: None });
            },
        }
    }
    assert(v@.skip(0) =~= v@);
    match find_after(v.as_slice(), '/', 0) {
        Some(i) => {
            let collection: String = string_between(v.as_slice(), 0, i - 1);
            let rest: String = string_between(v.as_slice(), i, v.len());
            assert(rest@ =~= v@.skip(i as int));
            assert(collection@ =~= arg@.take(arg@.len() - rest@.len() - 1));
            Ok(ListTarget { collection, prefix: Some(rest) })
        },
        None => Ok(ListTarget { collection: arg.to_owned(), prefix: None }),
    }
}

/// Whether a collection has the name.
pub open spec fn is_listed(known: Seq<CollectionListing>, name: Seq<char>) -> bool {
    exists|i: int| 0 <= i < known.len() && (#[trigger] known[i]).name@ == name
}

/// Refuses a target whose collection is not known.
pub fn check_collection(target: &ListTarget, known: &[CollectionListing]) -> (r: Result<
    (),
    ListError,
>)
    ensures
        r is Ok <==> is_listed(known@, target.collection@),
        r is Err ==> r->Err_0 is UnknownCollection && r->Err_0->UnknownCollection_0@
            == target.collection@,
{
    for i in 0..known.len()
        invariant
            forall|k: int| 0 <= k < i ==> (#[trigger] known@[k]).name@ != target.collection@,
    {
        if same_text(known[i].name.as_str(), target.collection.as_str()) {
            return Ok(());
        }
    }
    Err(ListError::UnknownCollection(target.collection.clone()))
}

/// A file: its path in the collection, its size and the time of its last change, as they are
/// written.
#[derive(Clone, Debug)]
pub struct FileRow {
    pub path: String,
    pub size: String,
    pub time: String,
}

/// The width of the widest size.
pub open spec fn widest(rows: Seq<FileRow>) -> nat
    decreases rows.len(),
{
    if rows.len() == 0 {
        0
    } else {
        let before = widest(rows.drop_last());
        let n = rows.last().size@.len();
        if n > before {
            n
        } else {
            before
        }
    }
}

/// The line for a file.
pub open spec fn file_line(
    row: FileRow,
    collection: Seq<char>,
    width: nat,
    p: Palette,
) -> Seq<char> {
    chars::padded_start(row.size@, width) + "  "@ + row.time@ + "  "@ + p.dim_code() + "qmd://"@
        + collection + "/"@ + p.reset_code() + p.cyan_code() + row.path@ + p.reset_code() + "\n"@
}

/// The lines for the files.
pub open spec fn file_lines(rows: Seq<FileRow>, collection: Seq<char>, p: Palette) -> Seq<
    Seq<char>,
> {
    Seq::new(rows.len(), |i: int| file_line(rows[i], collection, widest(rows), p))
}

fn widest_size(rows: &[FileRow]) -> (n: usize)
    ensures
        n == widest(rows@),
{
    let mut n: usize = 0;
    assert(rows@.take(0) =~= Seq::empty());
    for i in 0..rows.len()
        invariant
            n == widest(rows@.take(i as int)),
    {
        assert(rows@.take(i + 1).drop_last() =~= rows@.take(i as int));
        let len: usize = rows[i].size.as_str().unicode_len();
        if len > n {
            n = len;
        }
    }
    assert(rows@.take(rows@.len() as int) =~= rows@);
    n
}

/// The list of the files of a target, with the sizes in a column.
pub fn list_files(target: &ListTarget, rows: &[FileRow], p: &Palette) -> (s: String)
    ensures
        s@ == if rows@.len() == 0 {
            match target.prefix {
                Some(prefix) => "No files found under qmd://"@ + target.collection@ + "/"@ + prefix@
                    + "\n"@,
                None => "No files found in collection: "@ + target.collection@ + "\n"@,
            }
        } else {
            chars::concatenated(file_lines(rows@, target.collection@, *p))
        },
{
    if rows.len() == 0 {
        match &target.prefix {
            Some(prefix) => {
                let mut s: String = "No files found under qmd://".to_owned();
                s.append(target.collection.as_str());
                s.append("/");
                s.append(prefix.as_str());
                s.append("\n");
                return s;
            },
            None => {
                let mut s: String = "No files found in collection: ".to_owned();
                s.append(target.collection.as_str());
                s.append("\n");
                return s;
            },
        }
    }
    let width: usize = widest_size(rows);
    let mut lines: Vec<String> = Vec::new();
    for i in 0..rows.len()
        invariant
            width == widest(rows@),
            lines@.len() == i,
            forall|k: int|
                0 <= k < i ==> (#[trigger] lines@[k])@ == file_line(
                    rows@[k],
                    target.collection@,
                    width as nat,
                    *p,
                ),
    {
        let mut t: String = pad_start(rows[i].size.as_str(), width);
        t.append("  ");
        t.append(rows[i].time.as_str());
        t.append("  ");
        t.append(p.dim());
        t.append("qmd://");
        t.append(target.collection.as_str());
        t.append("/");
        t.append(p.reset());
        t.append(p.cyan());
        t.append(rows[i].path.as_str());
        t.append(p.reset());
        t.append("\n");
        lines.push(t);
    }
    assert(chars::texts(lines@) =~= file_lines(rows@, target.collection@, *p));
    concatenate(lines.as_slice())
}

// Laws.

/// A path lies in a collection exactly where it is the name of the collection or goes on behind
/// it with a slash; so a collection does not cover one whose name it begins.
pub proof fn law_paths_lie_behind_a_slash(s: Seq<char>, name: Seq<char>, rest: Seq<char>)
    ensures
        lies_in(name, name),
        lies_in(name + "/"@ + rest, name),
        lies_in(s, name) && s != name ==> s.len() > name.len() && s.take(name.len() as int) == name
            && s[name.len() as int] == '/',
{
    reveal_strlit("/");
    let p = name + "/"@;
    let longer = p + rest;
    assert(longer.subrange(0, p.len() as int) =~= p);
    if lies_in(s, name) && s != name {
        assert(s.subrange(0, p.len() as int) == p);
        assert(p[name.len() as int] == '/');
        assert(s[name.len() as int] == s.subrange(0, p.len() as int)[name.len() as int]);
        assert(s.take(name.len() as int) =~= p.take(name.len() as int));
        assert(p.take(name.len() as int) =~= name);
    }
}

/// Every collection is listed with its name and the number of its files.
pub proof fn law_every_collection_is_listed(
    v: Seq<CollectionListing>,
    p: Palette,
    i: int,
)
    requires
        0 <= i < v.len(),
    ensures
        search::holds_text(chars::concatenated(collection_lines(v, p)), v[i].name@ + "/"@),
        search::holds_text(
            chars::concatenated(collection_lines(v, p)),
            "("@ + number::signed_decimal(v[i].active_count as int) + " files)"@,
        ),
{
    let c = v[i];
    let lines = collection_lines(v, p);
    assert(lines[i] == collection_line(c, p));
    search::lemma_concatenated_holds(lines, i);
    lemma_collection_line(c, p);
    search::lemma_holds_through(chars::concatenated(lines), lines[i], c.name@ + "/"@);
    search::lemma_holds_through(
        chars::concatenated(lines),
        lines[i],
        "("@ + number::signed_decimal(c.active_count as int) + " files)"@,
    );
}

proof fn lemma_collection_line(c: CollectionListing, p: Palette)
    ensures
        search::holds_text(collection_line(c, p), c.name@ + "/"@),
        search::holds_text(
            collection_line(c, p),
            "("@ + number::signed_decimal(c.active_count as int) + " files)"@,
        ),
{
    let c0 = "  "@;
    let c1 = c0 + p.dim_code();
    let c2 = c1 + "qmd://"@;
    let c3 = c2 + p.reset_code();
    let c4 = c3 + p.cyan_code();
    let c5 = c4 + c.name@;
    let c6 = c5 + "/"@;
    let c7 = c6 + p.reset_code();
    let c8 = c7 + "  "@;
    let c9 = c8 + p.dim_code();
    let c10 = c9 + "("@;
    let c11 = c10 + number::signed_decimal(c.active_count as int);
    let c12 = c11 + " files)"@;
    let c13 = c12 + p.reset_code();
    let c14 = c13 + "\n"@;
    search::lemma_holds_two(c4, c.name@, "/"@);
    search::lemma_holds_longer(c6, p.reset_code(), c.name@ + "/"@);
    search::lemma_holds_longer(c7, "  "@, c.name@ + "/"@);
    search::lemma_holds_longer(c8, p.dim_code(), c.name@ + "/"@);
    search::lemma_holds_longer(c9, "("@, c.name@ + "/"@);
    search::lemma_holds_longer(c10, number::signed_decimal(c.active_count as int), c.name@ + "/"@);
    search::lemma_holds_longer(c11, " files)"@, c.name@ + "/"@);
    search::lemma_holds_longer(c12, p.reset_code(), c.name@ + "/"@);
    search::lemma_holds_longer(c13, "\n"@, c.name@ + "/"@);
    search::lemma_holds_three(c9, "("@, number::signed_decimal(c.active_count as int), " files)"@);
    search::lemma_holds_longer(c12, p.reset_code(), "("@ + number::signed_decimal(c.active_count as int) + " files)"@);
    search::lemma_holds_longer(c13, "\n"@, "("@ + number::signed_decimal(c.active_count as int) + " files)"@);
}

/// The width of the column of sizes is that of a size, and no size is wider.
pub proof fn law_width_is_that_of_the_widest_size(rows: Seq<FileRow>)
    ensures
        forall|i: int| 0 <= i < rows.len() ==> (#[trigger] rows[i]).size@.len() <= widest(rows),
        rows.len() > 0 ==> exists|i: int|
            0 <= i < rows.len() && (#[trigger] rows[i]).size@.len() == widest(rows),
    decreases rows.len(),
{
    if rows.len() > 0 {
        let b = rows.drop_last();
        law_width_is_that_of_the_widest_size(b);
        assert forall|i: int| 0 <= i < rows.len() implies (#[trigger] rows[i]).size@.len()
            <= widest(rows) by {
            if i < b.len() {
                assert(b[i] == rows[i]);
            }
        }
        if b.len() > 0 && rows.last().size@.len() <= widest(b) {
            let i = choose|i: int| 0 <= i < b.len() && (#[trigger] b[i]).size@.len() == widest(b);
            assert(rows[i] == b[i]);
        } else {
            assert(rows[rows.len() - 1].size@.len() == widest(rows));
        }
    }
}

/// Every file is listed with its size, its time and its path, and the sizes end in one column.
pub proof fn law_every_file_is_listed(
    rows: Seq<FileRow>,
    collection: Seq<char>,
    p: Palette,
    i: int,
)
    requires
        0 <= i < rows.len(),
    ensures
        search::holds_text(
            chars::concatenated(file_lines(rows, collection, p)),
            rows[i].path@,
        ),
        search::holds_text(
            chars::concatenated(file_lines(rows, collection, p)),
            "qmd://"@ + collection + "/"@,
        ),
        search::begins_with(
            file_lines(rows, collection, p)[i],
            chars::padded_start(rows[i].size@, widest(rows)) + "  "@ + rows[i].time@,
        ),
        chars::padded_start(rows[i].size@, widest(rows)).len() == widest(rows),
{
    let lines = file_lines(rows, collection, p);
    let row = rows[i];
    law_width_is_that_of_the_widest_size(rows);
    chars::law_moving_right_keeps_the_text(row.size@, widest(rows));
    search::lemma_concatenated_holds(lines, i);
    lemma_file_line(row, collection, widest(rows), p);
    let line = file_line(row, collection, widest(rows), p);
    assert(lines[i] == line);
    search::lemma_holds_through(chars::concatenated(lines), line, row.path@);
    search::lemma_holds_through(
        chars::concatenated(lines),
        line,
        "qmd://"@ + collection + "/"@,
    );
}

proof fn lemma_file_line(row: FileRow, collection: Seq<char>, width: nat, p: Palette)
    ensures
        search::holds_text(file_line(row, collection, width, p), row.path@),
        search::holds_text(file_line(row, collection, width, p), "qmd://"@ + collection + "/"@),
        search::begins_with(
            file_line(row, collection, width, p),
            chars::padded_start(row.size@, width) + "  "@ + row.time@,
        ),
{
    let c0 = chars::padded_start(row.size@, width);
    let c1 = c0 + "  "@;
    let c2 = c1 + row.time@;
    let c3 = c2 + "  "@;
    let c4 = c3 + p.dim_code();
    let c5 = c4 + "qmd://"@;
    let c6 = c5 + collection;
    let c7 = c6 + "/"@;
    let c8 = c7 + p.reset_code();
    let c9 = c8 + p.cyan_code();
    let c10 = c9 + row.path@;
    let c11 = c10 + p.reset_code();
    let c12 = c11 + "\n"@;
    search::lemma_holds_behind(c9, row.path@);
    search::lemma_holds_longer(c10, p.reset_code(), row.path@);
    search::lemma_holds_longer(c11, "\n"@, row.path@);
    search::lemma_holds_three(c4, "qmd://"@, collection, "/"@);
    search::lemma_holds_longer(c7, p.reset_code(), "qmd://"@ + collection + "/"@);
    search::lemma_holds_longer(c8, p.cyan_code(), "qmd://"@ + collection + "/"@);
    search::lemma_holds_longer(c9, row.path@, "qmd://"@ + collection + "/"@);
    search::lemma_holds_longer(c10, p.reset_code(), "qmd://"@ + collection + "/"@);
    search::lemma_holds_longer(c11, "\n"@, "qmd://"@ + collection + "/"@);
    search::lemma_begins_longer(c2, "  "@, c2);
    search::lemma_begins_longer(c3, p.dim_code(), c2);
    search::lemma_begins_longer(c4, "qmd://"@, c2);
    search::lemma_begins_longer(c5, collection, c2);
    search::lemma_begins_longer(c6, "/"@, c2);
    search::lemma_begins_longer(c7, p.reset_code(), c2);
    search::lemma_begins_longer(c8, p.cyan_code(), c2);
    search::lemma_begins_longer(c9, row.path@, c2);
    search::lemma_begins_longer(c10, p.reset_code(), c2);
    search::lemma_begins_longer(c11, "\n"@, c2);
}

/// Behind a slash, the argument is the name of a collection and a path in it: the longest name of
/// a collection that covers it counts. Slashes at the end count for nothing.
pub proof fn law_absolute_arguments_name_a_collection_and_a_path(
    name: Seq<char>,
    rest: Seq<char>,
    known: Seq<CollectionListing>,
    t: ListTarget,
)
    requires
        rest.len() > 0,
        rest[0] != '/',
        rest.last() != '/',
        is_listed(known, name),
        forall|j: int|
            0 <= j < known.len() && lies_in(name + "/"@ + rest, (#[trigger] known[j]).name@)
                ==> known[j].name@.len() <= name.len(),
        absolute_target("/"@ + (name + "/"@ + rest), known, t)
            || absolute_target("/"@ + (name + "/"@ + rest) + "/"@, known, t),
    ensures
        t.collection@ == name,
        chars::opt_string(t.prefix) == Some(rest),
{
    reveal_strlit("/");
    let path = name + "/"@ + rest;
    let once = "/"@ + path;
    let twice = "/"@ + path + "/"@;
    assert(once.skip(1) =~= path);
    assert(path.last() == rest.last());
    assert(twice.skip(1).drop_last() =~= path);
    assert(twice.skip(1).last() == '/');
    assert(chars::stripped_end(path, '/') == path);
    assert(chars::stripped_end(twice.skip(1), '/') == path);
    let n = choose|n: int| 0 <= n < known.len() && (#[trigger] known[n]).name@ == name;
    law_paths_lie_behind_a_slash(path, name, rest);
    assert(lies_in(path, known[n].name@));
    let i = choose|i: int| #[trigger]
        is_longest(path, known, i) && t.collection@ == known[i].name@ && chars::opt_string(t.prefix)
            == unless_empty(chars::stripped_start(path.skip(known[i].name@.len() as int), '/'));
    let found = known[i].name@;
    assert(found.len() == name.len());
    law_paths_lie_behind_a_slash(path, found, rest);
    assert(path.take(name.len() as int) =~= name);
    assert(found == name);
    let below = path.skip(name.len() as int);
    assert(below[0] == '/');
    assert(below.skip(1) =~= rest);
    reveal_with_fuel(chars::stripped_start, 2);
}

} // verus!
