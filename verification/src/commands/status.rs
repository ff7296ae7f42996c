//! `rqmd status`: the state of the index and of the collections.
use vstd::prelude::*;

use crate::collections::Collection;
use crate::color::Palette;
use crate::doctor;
use crate::doctor::device_mode;
use crate::lists;
use crate::search_view;
use crate::text::{chars, number, search};
use crate::text::chars::{concatenate, join, same_text};
use crate::text::number::{decimal_of, signed_decimal_of};

verus! {

/// An indexed collection; the time of its last change as it is written.
#[derive(Clone, Debug)]
pub struct CollectionStatus {
    pub name: String,
    pub glob_pattern: String,
    pub active_count: i64,
    pub last_modified: Option<String>,
}

/// A note on a path of a collection.
#[derive(Clone, Debug)]
pub struct ContextEntry {
    pub collection: String,
    pub path: String,
    pub context: String,
}

/// A language whose grammar is there, or why it is not.
#[derive(Clone, Debug)]
pub struct GrammarStatus {
    pub language: String,
    pub available: bool,
    pub error: Option<String>,
}

/// What the status shows; sizes and times as they are written.
#[derive(Debug)]
pub struct StatusData {
    pub db_path: String,
    pub size: String,
    pub total_docs: i64,
    pub vector_count: i64,
    pub updated: Option<String>,
    pub collections: Vec<CollectionStatus>,
    pub contexts: Vec<ContextEntry>,
    pub grammars: Vec<GrammarStatus>,
    pub configured: Vec<Collection>,
    /// The process of a server in the background.
    pub daemon: Option<u32>,
}

// The head.

/// The title, the index and its size.
pub open spec fn head(d: StatusData, p: Palette) -> Seq<char> {
    p.bold_code() + "rqmd Status"@ + p.reset_code() + "\n\n"@ + "Index: "@ + d.db_path@ + "\n"@
        + "Size:  "@ + d.size@ + "\n\n"@
}

/// The documents and vectors.
pub open spec fn documents(d: StatusData, p: Palette) -> Seq<char> {
    p.bold_code() + "Documents"@ + p.reset_code() + "\n"@ + "  Total:    "@
        + number::signed_decimal(d.total_docs as int) + " files indexed\n"@ + "  Vectors:  "@
        + number::signed_decimal(d.vector_count as int) + " embedded\n"@ + (match d.updated {
        Some(t) => "  Updated:  "@ + t@ + "\n"@,
        None => ""@,
    })
}

fn head_text(d: &StatusData, p: &Palette) -> (s: String)
    ensures
        s@ == head(*d, *p),
{
    let mut s: String = p.bold().to_owned();
    s.append("rqmd Status");
    s.append(p.reset());
    s.append("\n\n");
    s.append("Index: ");
    s.append(d.db_path.as_str());
    s.append("\n");
    s.append("Size:  ");
    s.append(d.size.as_str());
    s.append("\n\n");
    s
}

fn documents_text(d: &StatusData, p: &Palette) -> (s: String)
    ensures
        s@ == documents(*d, *p),
{
    let updated: String = match &d.updated {
        Some(t) => {
            let mut u: String = "  Updated:  ".to_owned();
            u.append(t.as_str());
            u.append("\n");
            u
        },
        None => "".to_owned(),
    };
    let mut s: String = p.bold().to_owned();
    s.append("Documents");
    s.append(p.reset());
    s.append("\n");
    s.append("  Total:    ");
    s.append(signed_decimal_of(d.total_docs).as_str());
    s.append(" files indexed\n");
    s.append("  Vectors:  ");
    s.append(signed_decimal_of(d.vector_count).as_str());
    s.append(" embedded\n");
    s.append(updated.as_str());
    s
}

// The collections.

/// The notes on a collection, in order.
pub open spec fn contexts_of(all: Seq<ContextEntry>, name: Seq<char>) -> Seq<
    (Seq<char>, Seq<char>),
>
    decreases all.len(),
{
    if all.len() == 0 {
        Seq::empty()
    } else {
        let before = contexts_of(all.drop_last(), name);
        if all.last().collection@ == name {
            before.push((all.last().path@, all.last().context@))
        } else {
            before
        }
    }
}

/// A path as it is shown.
pub open spec fn shown_path(path: Seq<char>) -> Seq<char> {
    if path.len() == 0 || path == "/"@ {
        "/"@
    } else {
        "/"@ + path
    }
}

/// A path as it is shown.
pub fn path_display(path: &str) -> (s: String)
    ensures
        s@ == shown_path(path@),
{
    if path.is_empty() || same_text(path, "/") {
        "/".to_owned()
    } else {
        let mut s: String = "/".to_owned();
        s.append(path);
        s
    }
}

/// Whether a long note can be cut after fifty-seven bytes.
pub open spec fn can_be_cut(context: Seq<char>) -> bool {
    let bytes = vstd::utf8::encode_utf8(context);
    bytes.len() > 60 ==> vstd::utf8::is_char_boundary(bytes, 57)
}

/// Whether each long note on a collection can be cut after fifty-seven bytes.
pub open spec fn notes_fit(all: Seq<ContextEntry>, name: Seq<char>) -> bool {
    forall|k: int|
        0 <= k < all.len() && (#[trigger] all[k]).collection@ == name ==> can_be_cut(
            all[k].context@,
        )
}

/// The beginning of a note: all of it up to sixty bytes, else fifty-seven bytes and three dots.
pub open spec fn shown_context(context: Seq<char>) -> Seq<char> {
    let bytes = vstd::utf8::encode_utf8(context);
    if bytes.len() > 60 {
        vstd::utf8::decode_utf8(bytes.subrange(0, 57)) + "..."@
    } else {
        context
    }
}

/// The beginning of a note.
pub fn context_preview(context: &str) -> (s: String)
    requires
        can_be_cut(context@),
    ensures
        s@ == shown_context(context@),
{
    if context.as_bytes().len() > 60 {
        let (first, _) = context.split_at(57);
        proof {
            vstd::utf8::encode_utf8_decode_utf8(first@);
        }
        let mut s: String = first.to_owned();
        s.append("...");
        s
    } else {
        context.to_owned()
    }
}

/// The line for a note.
pub open spec fn context_line(c: (Seq<char>, Seq<char>), p: Palette) -> Seq<char> {
    "      "@ + p.dim_code() + shown_path(c.0) + ":"@ + p.reset_code() + " "@ + shown_context(c.1)
        + "\n"@
}

/// The lines for notes.
pub open spec fn context_lines(v: Seq<(Seq<char>, Seq<char>)>, p: Palette) -> Seq<Seq<char>> {
    Seq::new(v.len(), |i: int| context_line(v[i], p))
}

/// What is shown of the notes on a collection.
pub open spec fn context_part(v: Seq<(Seq<char>, Seq<char>)>, p: Palette) -> Seq<char> {
    if v.len() == 0 {
        ""@
    } else {
        "    "@ + p.dim_code() + "Contexts:"@ + p.reset_code() + " "@ + number::decimal(v.len())
            + "\n"@ + chars::concatenated(context_lines(v, p))
    }
}

/// What is shown of a collection.
pub open spec fn collection_part(c: CollectionStatus, all: Seq<ContextEntry>, p: Palette) -> Seq<
    char,
> {
    "  "@ + p.cyan_code() + c.name@ + p.reset_code() + " "@ + p.dim_code() + "(qmd://"@ + c.name@
        + "/)"@ + p.reset_code() + "\n"@ + "    "@ + p.dim_code() + "Pattern:"@ + p.reset_code()
        + "  "@ + c.glob_pattern@ + "\n"@ + "    "@ + p.dim_code() + "Files:"@ + p.reset_code()
        + "    "@ + number::signed_decimal(c.active_count as int) + " (updated "@ + (
    match c.last_modified {
        Some(t) => t@,
        None => "never"@,
    }) + ")\n"@ + context_part(contexts_of(all, c.name@), p)
}

/// What is shown of each collection.
pub open spec fn collection_parts(
    v: Seq<CollectionStatus>,
    all: Seq<ContextEntry>,
    p: Palette,
) -> Seq<Seq<char>> {
    Seq::new(v.len(), |i: int| collection_part(v[i], all, p))
}

/// What is shown of the collections.
pub open spec fn collections_part(d: StatusData, p: Palette) -> Seq<char> {
    if d.collections@.len() == 0 {
        "\n"@ + p.dim_code()
            + "No collections. Run 'rqmd collection add .' to index markdown files."@
            + p.reset_code() + "\n"@
    } else {
        "\n"@ + p.bold_code() + "Collections"@ + p.reset_code() + "\n"@ + chars::concatenated(
            collection_parts(d.collections@, d.contexts@, p),
        )
    }
}

/// The notes on a collection, in order, each with its place in the list.
fn contexts_at(all: &[ContextEntry], name: &str) -> (r: Vec<usize>)
    ensures
        forall|k: int|
            0 <= k < r@.len() ==> (#[trigger] r@[k]) < all@.len() && all@[r@[k] as int].collection@
                == name@,
        contexts_of(all@, name@) == Seq::new(
            r@.len(),
            |k: int| (all@[r@[k] as int].path@, all@[r@[k] as int].context@),
        ),
{
    let mut r: Vec<usize> = Vec::new();
    assert(all@.take(0) =~= Seq::empty());
    for i in 0..all.len()
        invariant
            forall|k: int|
                0 <= k < r@.len() ==> (#[trigger] r@[k]) < i && all@[r@[k] as int].collection@
                    == name@,
            contexts_of(all@.take(i as int), name@) =~= Seq::new(
                r@.len(),
                |k: int| (all@[r@[k] as int].path@, all@[r@[k] as int].context@),
            ),
    {
        assert(all@.take(i + 1).drop_last() =~= all@.take(i as int));
        if same_text(all[i].collection.as_str(), name) {
            r.push(i);
        }
    }
    assert(all@.take(all@.len() as int) =~= all@);
    r
}

fn context_text(all: &[ContextEntry], name: &str, p: &Palette) -> (s: String)
    requires
        notes_fit(all@, name@),
    ensures
        s@ == context_part(contexts_of(all@, name@), *p),
{
    let at: Vec<usize> = contexts_at(all, name);
    let ghost v = contexts_of(all@, name@);
    if at.len() == 0 {
        return "".to_owned();
    }
    let mut lines: Vec<String> = Vec::new();
    for i in 0..at.len()
        invariant
            v.len() == at@.len(),
            forall|k: int|
                0 <= k < at@.len() ==> (#[trigger] at@[k]) < all@.len()
                    && all@[at@[k] as int].collection@ == name@,
            forall|k: int|
                0 <= k < at@.len() ==> (#[trigger] v[k]) == (
                    all@[at@[k] as int].path@,
                    all@[at@[k] as int].context@,
                ),
            notes_fit(all@, name@),
            lines@.len() == i,
            forall|k: int| 0 <= k < i ==> (#[trigger] lines@[k])@ == context_line(v[k], *p),
    {
        let c: &ContextEntry = &all[at[i]];
        assert(v[i as int] == (c.path@, c.context@));
        let mut t: String = "      ".to_owned();
        t.append(p.dim());
        t.append(path_display(c.path.as_str()).as_str());
        t.append(":");
        t.append(p.reset());
        t.append(" ");
        t.append(context_preview(c.context.as_str()).as_str());
        t.append("\n");
        lines.push(t);
    }
    assert(chars::texts(lines@) =~= context_lines(v, *p));
    let mut s: String = "    ".to_owned();
    s.append(p.dim());
    s.append("Contexts:");
    s.append(p.reset());
    s.append(" ");
    s.append(decimal_of(at.len() as u128).as_str());
    s.append("\n");
    s.append(concatenate(lines.as_slice()).as_str());
    s
}

fn collection_text(c: &CollectionStatus, all: &[ContextEntry], p: &Palette) -> (s: String)
    requires
        notes_fit(all@, c.name@),
    ensures
        s@ == collection_part(*c, all@, *p),
{
    let last: String = match &c.last_modified {
        Some(t) => t.clone(),
        None => "never".to_owned(),
    };
    let mut s: String = "  ".to_owned();
    s.append(p.cyan());
    s.append(c.name.as_str());
    s.append(p.reset());
    s.append(" ");
    s.append(p.dim());
    s.append("(qmd://");
    s.append(c.name.as_str());
    s.append("/)");
    s.append(p.reset());
    s.append("\n");
    s.append("    ");
    s.append(p.dim());
    s.append("Pattern:");
    s.append(p.reset());
    s.append("  ");
    s.append(c.glob_pattern.as_str());
    s.append("\n");
    s.append("    ");
    s.append(p.dim());
    s.append("Files:");
    s.append(p.reset());
    s.append("    ");
    s.append(signed_decimal_of(c.active_count).as_str());
    s.append(" (updated ");
    s.append(last.as_str());
    s.append(")\n");
    s.append(context_text(all, c.name.as_str(), p).as_str());
    s
}

fn collections_text(d: &StatusData, p: &Palette) -> (s: String)
    requires
        forall|i: int|
            0 <= i < d.collections@.len() ==> notes_fit(
                d.contexts@,
                (#[trigger] d.collections@[i]).name@,
            ),
    ensures
        s@ == collections_part(*d, *p),
{
    let mut s: String = "\n".to_owned();
    if d.collections.len() == 0 {
        s.append(p.dim());
        s.append("No collections. Run 'rqmd collection add .' to index markdown files.");
        s.append(p.reset());
        s.append("\n");
        return s;
    }
    let mut parts: Vec<String> = Vec::new();
    for i in 0..d.collections.len()
        invariant
            forall|i: int|
                0 <= i < d.collections@.len() ==> notes_fit(
                    d.contexts@,
                    (#[trigger] d.collections@[i]).name@,
                ),
            parts@.len() == i,
            forall|k: int|
                0 <= k < i ==> (#[trigger] parts@[k])@ == collection_part(
                    d.collections@[k],
                    d.contexts@,
                    *p,
                ),
    {
        parts.push(collection_text(&d.collections[i], d.contexts.as_slice(), p));
    }
    assert(chars::texts(parts@) =~= collection_parts(d.collections@, d.contexts@, *p));
    s.append(p.bold());
    s.append("Collections");
    s.append(p.reset());
    s.append("\n");
    s.append(concatenate(parts.as_slice()).as_str());
    s
}

// Grammars, device and server.

/// What is shown of a grammar.
pub open spec fn grammar_part(g: GrammarStatus, p: Palette) -> Seq<char> {
    "  "@ + (if g.available {
        "✓"@
    } else {
        "✗"@
    }) + " "@ + g.language@ + "\n"@ + (match g.error {
        Some(e) => "    "@ + p.dim_code() + e@ + p.reset_code() + "\n"@,
        None => ""@,
    })
}

/// What is shown of each grammar.
pub open spec fn grammar_parts(v: Seq<GrammarStatus>, p: Palette) -> Seq<Seq<char>> {
    Seq::new(v.len(), |i: int| grammar_part(v[i], p))
}

/// What is shown of the grammars.
pub open spec fn grammars_part(v: Seq<GrammarStatus>, p: Palette) -> Seq<char> {
    "\n"@ + p.bold_code() + "AST Grammars"@ + p.reset_code() + "\n"@ + chars::concatenated(
        grammar_parts(v, p),
    )
}

fn grammars_text(v: &[GrammarStatus], p: &Palette) -> (s: String)
    ensures
        s@ == grammars_part(v@, *p),
{
    let mut parts: Vec<String> = Vec::new();
    for i in 0..v.len()
        invariant
            parts@.len() == i,
            forall|k: int| 0 <= k < i ==> (#[trigger] parts@[k])@ == grammar_part(v@[k], *p),
    {
        let mark: &str = if v[i].available {
            "✓"
        } else {
            "✗"
        };
        let error: String = match &v[i].error {
            Some(e) => {
                let mut t: String = "    ".to_owned();
                t.append(p.dim());
                t.append(e.as_str());
                t.append(p.reset());
                t.append("\n");
                t
            },
            None => "".to_owned(),
        };
        let mut t: String = "  ".to_owned();
        t.append(mark);
        t.append(" ");
        t.append(v[i].language.as_str());
        t.append("\n");
        t.append(error.as_str());
        parts.push(t);
    }
    assert(chars::texts(parts@) =~= grammar_parts(v@, *p));
    let mut s: String = "\n".to_owned();
    s.append(p.bold());
    s.append("AST Grammars");
    s.append(p.reset());
    s.append("\n");
    s.append(concatenate(parts.as_slice()).as_str());
    s
}

/// What is shown of the device; probing is asked for by a `1`.
pub open spec fn device_part(
    force_cpu: Option<&str>,
    llama_gpu: Option<&str>,
    probe: Option<&str>,
    p: Palette,
) -> Seq<char> {
    "\n"@ + p.bold_code() + "Device"@ + p.reset_code() + "\n"@ + "  Mode:     "@
        + doctor::mode_text(chars::opt_text(force_cpu), chars::opt_text(llama_gpu)) + "\n"@ + (if chars::opt_text(probe) == Some("1"@) {
        "  Status:   probing native llama backend...\n"@ + "  Status:   "@ + p.dim_code()
            + "device probe not yet implemented"@ + p.reset_code() + "\n"@
    } else {
        "  Status:   "@ + p.dim_code() + "not probed"@ + p.reset_code()
            + " (set RQMD_STATUS_DEVICE_PROBE=1 to test GPU/CPU backend)\n"@
    })
}

fn device_text(
    force_cpu: Option<&str>,
    llama_gpu: Option<&str>,
    probe: Option<&str>,
    p: &Palette,
) -> (s: String)
    ensures
        s@ == device_part(force_cpu, llama_gpu, probe, *p),
{
    let asked: bool = match probe {
        Some(v) => same_text(v, "1"),
        None => false,
    };
    let status: String = if asked {
        let mut t: String = "  Status:   probing native llama backend...\n".to_owned();
        t.append("  Status:   ");
        t.append(p.dim());
        t.append("device probe not yet implemented");
        t.append(p.reset());
        t.append("\n");
        t
    } else {
        let mut t: String = "  Status:   ".to_owned();
        t.append(p.dim());
        t.append("not probed");
        t.append(p.reset());
        t.append(" (set RQMD_STATUS_DEVICE_PROBE=1 to test GPU/CPU backend)\n");
        t
    };
    let mut s: String = "\n".to_owned();
    s.append(p.bold());
    s.append("Device");
    s.append(p.reset());
    s.append("\n");
    s.append("  Mode:     ");
    s.append(device_mode(force_cpu, llama_gpu).as_str());
    s.append("\n");
    s.append(status.as_str());
    s
}

/// What is shown of the server.
pub open spec fn server_part(daemon: Option<u32>, p: Palette) -> Seq<char> {
    "\n"@ + p.bold_code() + "MCP"@ + p.reset_code() + "\n"@ + (match daemon {
        Some(pid) => "  Daemon:   running (PID "@ + number::decimal(pid as nat) + ")\n"@,
        None => "  Daemon:   "@ + p.dim_code() + "not running"@ + p.reset_code() + "\n"@,
    })
}

fn server_text(daemon: Option<u32>, p: &Palette) -> (s: String)
    ensures
        s@ == server_part(daemon, *p),
{
    let line: String = match daemon {
        Some(pid) => {
            let mut t: String = "  Daemon:   running (PID ".to_owned();
            t.append(decimal_of(pid as u128).as_str());
            t.append(")\n");
            t
        },
        None => {
            let mut t: String = "  Daemon:   ".to_owned();
            t.append(p.dim());
            t.append("not running");
            t.append(p.reset());
            t.append("\n");
            t
        },
    };
    let mut s: String = "\n".to_owned();
    s.append(p.bold());
    s.append("MCP");
    s.append(p.reset());
    s.append("\n");
    s.append(line.as_str());
    s
}

// Tips.

/// The collections without notes, in order.
pub open spec fn without_context(v: Seq<CollectionStatus>, all: Seq<ContextEntry>) -> Seq<Seq<char>>
    decreases v.len(),
{
    if v.len() == 0 {
        Seq::empty()
    } else {
        let before = without_context(v.drop_last(), all);
        if contexts_of(all, v.last().name@).len() == 0 {
            before.push(v.last().name@)
        } else {
            before
        }
    }
}

/// The configured collections without an update command, in order.
pub open spec fn without_update(v: Seq<Collection>) -> Seq<Seq<char>>
    decreases v.len(),
{
    if v.len() == 0 {
        Seq::empty()
    } else {
        let before = without_update(v.drop_last());
        if v.last().update is None {
            before.push(v.last().name@)
        } else {
            before
        }
    }
}

/// The first three names, and how many more there are.
pub open spec fn name_list(names: Seq<Seq<char>>) -> Seq<char> {
    if names.len() > 3 {
        chars::joined(names.take(3), ", "@) + " +"@ + number::decimal((names.len() - 3) as nat)
            + " more"@
    } else {
        chars::joined(names, ", "@)
    }
}

/// The tips.
pub open spec fn tips_part(d: StatusData, p: Palette) -> Seq<char> {
    let no_context = without_context(d.collections@, d.contexts@);
    let no_update = without_update(d.configured@);
    let about_context = no_context.len() > 0;
    let about_update = no_update.len() > 0 && d.collections@.len() > 1;
    if about_context || about_update {
        "\n"@ + p.bold_code() + "Tips"@ + p.reset_code() + "\n"@ + (if about_context {
            "  Add context to collections for better search results: "@ + name_list(no_context)
                + "\n"@ + "    "@ + p.dim_code()
                + "rqmd context add qmd://<name>/ \"What this collection contains\""@
                + p.reset_code() + "\n"@
        } else {
            ""@
        }) + (if about_update {
            "  Set update commands to track them with git: "@ + name_list(no_update) + "\n"@
                + "    "@ + p.dim_code() + "rqmd collection update-cmd <name> 'git pull'"@
                + p.reset_code() + "\n"@
        } else {
            ""@
        })
    } else {
        ""@
    }
}

/// The collections without notes, in order.
pub fn collections_without_context(v: &[CollectionStatus], all: &[ContextEntry]) -> (r: Vec<String>)
    ensures
        chars::texts(r@) == without_context(v@, all@),
{
    let mut r: Vec<String> = Vec::new();
    assert(v@.take(0) =~= Seq::empty());
    for i in 0..v.len()
        invariant
            chars::texts(r@) =~= without_context(v@.take(i as int), all@),
    {
        assert(v@.take(i + 1).drop_last() =~= v@.take(i as int));
        if contexts_at(all, v[i].name.as_str()).len() == 0 {
            let ghost r0 = r@;
            r.push(v[i].name.clone());
            assert(chars::texts(r@) =~= chars::texts(r0).push(v@[i as int].name@));
        }
    }
    assert(v@.take(v@.len() as int) =~= v@);
    r
}

/// The configured collections without an update command, in order.
pub fn collections_without_update(v: &[Collection]) -> (r: Vec<String>)
    ensures
        chars::texts(r@) == without_update(v@),
{
    let mut r: Vec<String> = Vec::new();
    assert(v@.take(0) =~= Seq::empty());
    for i in 0..v.len()
        invariant
            chars::texts(r@) =~= without_update(v@.take(i as int)),
    {
        assert(v@.take(i + 1).drop_last() =~= v@.take(i as int));
        if v[i].update.is_none() {
            let ghost r0 = r@;
            r.push(v[i].name.clone());
            assert(chars::texts(r@) =~= chars::texts(r0).push(v@[i as int].name@));
        }
    }
    assert(v@.take(v@.len() as int) =~= v@);
    r
}

fn name_list_text(names: &Vec<String>) -> (s: String)
    ensures
        s@ == name_list(chars::texts(names@)),
{
    if names.len() > 3 {
        let first: &[String] = vstd::slice::slice_subrange(names.as_slice(), 0, 3);
        assert(chars::texts(first@) =~= chars::texts(names@).take(3));
        let mut s: String = join(first, ", ");
        s.append(" +");
        s.append(decimal_of((names.len() - 3) as u128).as_str());
        s.append(" more");
        s
    } else {
        join(names.as_slice(), ", ")
    }
}

fn tip(head: &str, names: &Vec<String>, command: &str, p: &Palette) -> (s: String)
    ensures
        s@ == head@ + name_list(chars::texts(names@)) + "\n"@ + "    "@ + p.dim_code() + command@
            + p.reset_code() + "\n"@,
{
    let mut s: String = head.to_owned();
    s.append(name_list_text(names).as_str());
    s.append("\n");
    s.append("    ");
    s.append(p.dim());
    s.append(command);
    s.append(p.reset());
    s.append("\n");
    s
}

fn tips_text(d: &StatusData, p: &Palette) -> (s: String)
    ensures
        s@ == tips_part(*d, *p),
{
    let no_context: Vec<String> = collections_without_context(
        d.collections.as_slice(),
        d.contexts.as_slice(),
    );
    let no_update: Vec<String> = collections_without_update(d.configured.as_slice());
    assert(chars::texts(no_context@).len() == no_context@.len());
    assert(chars::texts(no_update@).len() == no_update@.len());
    let about_context: bool = no_context.len() > 0;
    let about_update: bool = no_update.len() > 0 && d.collections.len() > 1;
    if !about_context && !about_update {
        return "".to_owned();
    }
    let first: String = if about_context {
        tip(
            "  Add context to collections for better search results: ",
            &no_context,
            "rqmd context add qmd://<name>/ \"What this collection contains\"",
            p,
        )
    } else {
        "".to_owned()
    };
    let second: String = if about_update {
        tip(
            "  Set update commands to track them with git: ",
            &no_update,
            "rqmd collection update-cmd <name> 'git pull'",
            p,
        )
    } else {
        "".to_owned()
    };
    let mut s: String = "\n".to_owned();
    s.append(p.bold());
    s.append("Tips");
    s.append(p.reset());
    s.append("\n");
    s.append(first.as_str());
    s.append(second.as_str());
    s
}

/// The status: the head, the documents, the collections, the grammars, the device, the server
/// and the tips.
pub fn status_text(
    d: &StatusData,
    force_cpu: Option<&str>,
    llama_gpu: Option<&str>,
    probe: Option<&str>,
    p: &Palette,
) -> (s: String)
    requires
        forall|i: int|
            0 <= i < d.collections@.len() ==> notes_fit(
                d.contexts@,
                (#[trigger] d.collections@[i]).name@,
            ),
    ensures
        s@ == head(*d, *p) + documents(*d, *p) + collections_part(*d, *p) + grammars_part(
            d.grammars@,
            *p,
        ) + device_part(force_cpu, llama_gpu, probe, *p) + server_part(d.daemon, *p) + tips_part(
            *d,
            *p,
        ),
{
    let mut s: String = head_text(d, p);
    s.append(documents_text(d, p).as_str());
    s.append(collections_text(d, p).as_str());
    s.append(grammars_text(d.grammars.as_slice(), p).as_str());
    s.append(device_text(force_cpu, llama_gpu, probe, p).as_str());
    s.append(server_text(d.daemon, p).as_str());
    s.append(tips_text(d, p).as_str());
    s
}

// Laws.

/// A note of up to sixty bytes is shown whole.
pub proof fn law_short_notes_are_whole(context: Seq<char>)
    requires
        vstd::utf8::encode_utf8(context).len() <= 60,
    ensures
        shown_context(context) == context,
        can_be_cut(context),
{
}

/// A collection is named among those without notes if and only if it has none.
pub proof fn law_tips_name_collections_without_notes(
    v: Seq<CollectionStatus>,
    all: Seq<ContextEntry>,
    name: Seq<char>,
)
    ensures
        without_context(v, all).contains(name) <==> contexts_of(all, name).len() == 0 && exists|
            i: int,
        |
            0 <= i < v.len() && (#[trigger] v[i]).name@ == name,
    decreases v.len(),
{
    if v.len() > 0 {
        let b = v.drop_last();
        let before = without_context(b, all);
        let now = without_context(v, all);
        law_tips_name_collections_without_notes(b, all, name);
        if now.contains(name) {
            let j = choose|j: int| 0 <= j < now.len() && now[j] == name;
            if j < before.len() {
                assert(before[j] == name);
                assert(before.contains(name));
                let i = choose|i: int| 0 <= i < b.len() && (#[trigger] b[i]).name@ == name;
                assert(v[i].name@ == name);
            } else {
                assert(v[v.len() - 1].name@ == name);
            }
        }
        if contexts_of(all, name).len() == 0 && exists|i: int|
            0 <= i < v.len() && (#[trigger] v[i]).name@ == name {
            let i = choose|i: int| 0 <= i < v.len() && (#[trigger] v[i]).name@ == name;
            if i < b.len() {
                assert(b[i].name@ == name);
                assert(before.contains(name));
                let j = choose|j: int| 0 <= j < before.len() && before[j] == name;
                assert(now[j] == name);
            } else {
                assert(now[before.len() as int] == name);
            }
        }
    }
}

/// Which notes are on a collection.
pub open spec fn are_on(all: Seq<ContextEntry>, name: Seq<char>) -> Seq<bool> {
    Seq::new(all.len(), |i: int| all[i].collection@ == name)
}

proof fn lemma_contexts_picks(all: Seq<ContextEntry>, name: Seq<char>) -> (at: Seq<int>)
    ensures
        lists::picks(at, are_on(all, name)),
        contexts_of(all, name) == Seq::new(
            at.len(),
            |k: int| (all[at[k]].path@, all[at[k]].context@),
        ),
    decreases all.len(),
{
    let keep = are_on(all, name);
    if all.len() == 0 {
        assert(contexts_of(all, name) =~= Seq::new(0, |k: int| (all[k].path@, all[k].context@)));
        Seq::empty()
    } else {
        let b = all.drop_last();
        let at = lemma_contexts_picks(b, name);
        assert(keep.drop_last() =~= are_on(b, name));
        lists::lemma_picks_step(at, keep);
        assert forall|k: int| 0 <= k < at.len() implies #[trigger] b[at[k]] == all[at[k]] by {
            assert(0 <= at[k] < are_on(b, name).len());
        }
        let next = if keep.last() {
            at.push(all.len() - 1)
        } else {
            at
        };
        assert(contexts_of(all, name) =~= Seq::new(
            next.len(),
            |k: int| (all[next[k]].path@, all[next[k]].context@),
        ));
        next
    }
}

/// The notes on a collection are those that name it, each once and in order.
pub proof fn law_notes_are_those_of_the_collection(all: Seq<ContextEntry>, name: Seq<char>)
    ensures
        exists|at: Seq<int>| #[trigger]
            lists::picks(at, are_on(all, name)) && contexts_of(all, name) == Seq::new(
                at.len(),
                |k: int| (all[at[k]].path@, all[at[k]].context@),
            ),
{
    let at = lemma_contexts_picks(all, name);
    assert(lists::picks(at, are_on(all, name)));
}

/// Which collections have no note.
pub open spec fn lack_notes(v: Seq<CollectionStatus>, all: Seq<ContextEntry>) -> Seq<bool> {
    Seq::new(
        v.len(),
        |i: int|
            forall|k: int| 0 <= k < all.len() ==> (#[trigger] all[k]).collection@ != v[i].name@,
    )
}

proof fn lemma_without_context_picks(v: Seq<CollectionStatus>, all: Seq<ContextEntry>) -> (at: Seq<
    int,
>)
    ensures
        lists::picks(at, lack_notes(v, all)),
        without_context(v, all) == Seq::new(at.len(), |k: int| v[at[k]].name@),
    decreases v.len(),
{
    let keep = lack_notes(v, all);
    if v.len() == 0 {
        assert(without_context(v, all) =~= Seq::new(0, |k: int| v[k].name@));
        Seq::empty()
    } else {
        let b = v.drop_last();
        let at = lemma_without_context_picks(b, all);
        assert(keep.drop_last() =~= lack_notes(b, all));
        lists::lemma_picks_step(at, keep);
        let name = v.last().name@;
        let on = lemma_contexts_picks(all, name);
        assert(keep.last() == (contexts_of(all, name).len() == 0)) by {
            if on.len() > 0 {
                assert(are_on(all, name)[on[0]]);
                assert(all[on[0]].collection@ == name);
            }
            if !keep.last() {
                let k = choose|k: int| 0 <= k < all.len() && (#[trigger] all[k]).collection@ == name;
                assert(are_on(all, name)[k]);
                assert(on.contains(k));
            }
        }
        assert forall|k: int| 0 <= k < at.len() implies #[trigger] b[at[k]] == v[at[k]] by {
            assert(0 <= at[k] < lack_notes(b, all).len());
        }
        let next = if keep.last() {
            at.push(v.len() - 1)
        } else {
            at
        };
        assert(without_context(v, all) =~= Seq::new(next.len(), |k: int| v[next[k]].name@));
        next
    }
}

/// Which collections have no update command.
pub open spec fn lack_update(v: Seq<Collection>) -> Seq<bool> {
    Seq::new(v.len(), |i: int| v[i].update is None)
}

proof fn lemma_without_update_picks(v: Seq<Collection>) -> (at: Seq<int>)
    ensures
        lists::picks(at, lack_update(v)),
        without_update(v) == Seq::new(at.len(), |k: int| v[at[k]].name@),
    decreases v.len(),
{
    let keep = lack_update(v);
    if v.len() == 0 {
        assert(without_update(v) =~= Seq::new(0, |k: int| v[k].name@));
        Seq::empty()
    } else {
        let b = v.drop_last();
        let at = lemma_without_update_picks(b);
        assert(keep.drop_last() =~= lack_update(b));
        lists::lemma_picks_step(at, keep);
        assert forall|k: int| 0 <= k < at.len() implies #[trigger] b[at[k]] == v[at[k]] by {
            assert(0 <= at[k] < lack_update(b).len());
        }
        let next = if keep.last() {
            at.push(v.len() - 1)
        } else {
            at
        };
        assert(without_update(v) =~= Seq::new(next.len(), |k: int| v[next[k]].name@));
        next
    }
}

/// The tips name the collections without a note, and those without an update command, each once
/// and in order.
pub proof fn law_tips_name_what_is_missing(
    v: Seq<CollectionStatus>,
    all: Seq<ContextEntry>,
    configured: Seq<Collection>,
)
    ensures
        exists|at: Seq<int>| #[trigger]
            lists::picks(at, lack_notes(v, all)) && without_context(v, all) == Seq::new(
                at.len(),
                |k: int| v[at[k]].name@,
            ),
        exists|at: Seq<int>| #[trigger]
            lists::picks(at, lack_update(configured)) && without_update(configured) == Seq::new(
                at.len(),
                |k: int| configured[at[k]].name@,
            ),
{
    let a = lemma_without_context_picks(v, all);
    let b = lemma_without_update_picks(configured);
    assert(lists::picks(a, lack_notes(v, all)));
    assert(lists::picks(b, lack_update(configured)));
}

/// A list of names shows the first three, and how many more there are where there are more; with
/// up to three it shows them all.
pub proof fn law_lists_of_names_show_three(names: Seq<Seq<char>>, i: int)
    requires
        0 <= i < names.len(),
        i < 3,
    ensures
        search::holds_text(name_list(names), names[i]),
        names.len() > 3 ==> search::ends_in(
            name_list(names),
            " +"@ + number::decimal((names.len() - 3) as nat) + " more"@,
        ),
        names.len() <= 3 ==> name_list(names) == chars::joined(names, ", "@),
{
    if names.len() > 3 {
        let first = chars::joined(names.take(3), ", "@);
        let n = number::decimal((names.len() - 3) as nat);
        assert(names.take(3)[i] == names[i]);
        search::lemma_joined_holds(names.take(3), ", "@, i);
        search::lemma_holds_longer(first, " +"@, names[i]);
        search::lemma_holds_longer(first + " +"@, n, names[i]);
        search::lemma_holds_longer(first + " +"@ + n, " more"@, names[i]);
        let s = name_list(names);
        let t = " +"@ + n + " more"@;
        assert(s.subrange(s.len() - t.len(), s.len() as int) =~= t);
    } else {
        search::lemma_joined_holds(names, ", "@, i);
    }
}

/// A path is shown with one slash in front.
pub proof fn law_paths_are_shown_with_a_slash(path: Seq<char>)
    ensures
        path.len() == 0 || path == "/"@ ==> shown_path(path) == "/"@,
        path.len() > 0 && path != "/"@ ==> shown_path(path) == "/"@ + path,
{
}

proof fn lemma_collection_part(c: CollectionStatus, all: Seq<ContextEntry>, p: Palette)
    ensures
        ({
            let s = collection_part(c, all, p);
            &&& search::holds_text(s, "(qmd://"@ + c.name@ + "/)"@)
            &&& search::holds_text(s, c.glob_pattern@)
            &&& search::holds_text(s, number::signed_decimal(c.active_count as int))
            &&& c.last_modified matches Some(t) ==> search::holds_text(
                s,
                " (updated "@ + t@ + ")\n"@,
            )
            &&& c.last_modified is None ==> search::holds_text(
                s,
                " (updated "@ + "never"@ + ")\n"@,
            )
            &&& search::holds_text(s, context_part(contexts_of(all, c.name@), p))
        }),
{
    let last = match c.last_modified {
        Some(t) => t@,
        None => "never"@,
    };
    let notes = context_part(contexts_of(all, c.name@), p);
    let c0 = "  "@;
    let c1 = c0 + p.cyan_code();
    let c2 = c1 + c.name@;
    let c3 = c2 + p.reset_code();
    let c4 = c3 + " "@;
    let c5 = c4 + p.dim_code();
    let c6 = c5 + "(qmd://"@;
    let c7 = c6 + c.name@;
    let c8 = c7 + "/)"@;
    let c9 = c8 + p.reset_code();
    let c10 = c9 + "\n"@;
    let c11 = c10 + "    "@;
    let c12 = c11 + p.dim_code();
    let c13 = c12 + "Pattern:"@;
    let c14 = c13 + p.reset_code();
    let c15 = c14 + "  "@;
    let c16 = c15 + c.glob_pattern@;
    let c17 = c16 + "\n"@;
    let c18 = c17 + "    "@;
    let c19 = c18 + p.dim_code();
    let c20 = c19 + "Files:"@;
    let c21 = c20 + p.reset_code();
    let c22 = c21 + "    "@;
    let c23 = c22 + number::signed_decimal(c.active_count as int);
    let c24 = c23 + " (updated "@;
    let c25 = c24 + last;
    let c26 = c25 + ")\n"@;
    let c27 = c26 + notes;
    search::lemma_holds_three(c5, "(qmd://"@, c.name@, "/)"@);
    search::lemma_holds_longer(c8, p.reset_code(), "(qmd://"@ + c.name@ + "/)"@);
    search::lemma_holds_longer(c9, "\n"@, "(qmd://"@ + c.name@ + "/)"@);
    search::lemma_holds_longer(c10, "    "@, "(qmd://"@ + c.name@ + "/)"@);
    search::lemma_holds_longer(c11, p.dim_code(), "(qmd://"@ + c.name@ + "/)"@);
    search::lemma_holds_longer(c12, "Pattern:"@, "(qmd://"@ + c.name@ + "/)"@);
    search::lemma_holds_longer(c13, p.reset_code(), "(qmd://"@ + c.name@ + "/)"@);
    search::lemma_holds_longer(c14, "  "@, "(qmd://"@ + c.name@ + "/)"@);
    search::lemma_holds_longer(c15, c.glob_pattern@, "(qmd://"@ + c.name@ + "/)"@);
    search::lemma_holds_longer(c16, "\n"@, "(qmd://"@ + c.name@ + "/)"@);
    search::lemma_holds_longer(c17, "    "@, "(qmd://"@ + c.name@ + "/)"@);
    search::lemma_holds_longer(c18, p.dim_code(), "(qmd://"@ + c.name@ + "/)"@);
    search::lemma_holds_longer(c19, "Files:"@, "(qmd://"@ + c.name@ + "/)"@);
    search::lemma_holds_longer(c20, p.reset_code(), "(qmd://"@ + c.name@ + "/)"@);
    search::lemma_holds_longer(c21, "    "@, "(qmd://"@ + c.name@ + "/)"@);
    search::lemma_holds_longer(c22, number::signed_decimal(c.active_count as int), "(qmd://"@ + c.name@ + "/)"@);
    search::lemma_holds_longer(c23, " (updated "@, "(qmd://"@ + c.name@ + "/)"@);
    search::lemma_holds_longer(c24, last, "(qmd://"@ + c.name@ + "/)"@);
    search::lemma_holds_longer(c25, ")\n"@, "(qmd://"@ + c.name@ + "/)"@);
    search::lemma_holds_longer(c26, notes, "(qmd://"@ + c.name@ + "/)"@);
    search::lemma_holds_behind(c15, c.glob_pattern@);
    search::lemma_holds_longer(c16, "\n"@, c.glob_pattern@);
    search::lemma_holds_longer(c17, "    "@, c.glob_pattern@);
    search::lemma_holds_longer(c18, p.dim_code(), c.glob_pattern@);
    search::lemma_holds_longer(c19, "Files:"@, c.glob_pattern@);
    search::lemma_holds_longer(c20, p.reset_code(), c.glob_pattern@);
    search::lemma_holds_longer(c21, "    "@, c.glob_pattern@);
    search::lemma_holds_longer(c22, number::signed_decimal(c.active_count as int), c.glob_pattern@);
    search::lemma_holds_longer(c23, " (updated "@, c.glob_pattern@);
    search::lemma_holds_longer(c24, last, c.glob_pattern@);
    search::lemma_holds_longer(c25, ")\n"@, c.glob_pattern@);
    search::lemma_holds_longer(c26, notes, c.glob_pattern@);
    search::lemma_holds_behind(c22, number::signed_decimal(c.active_count as int));
    search::lemma_holds_longer(c23, " (updated "@, number::signed_decimal(c.active_count as int));
    search::lemma_holds_longer(c24, last, number::signed_decimal(c.active_count as int));
    search::lemma_holds_longer(c25, ")\n"@, number::signed_decimal(c.active_count as int));
    search::lemma_holds_longer(c26, notes, number::signed_decimal(c.active_count as int));
    search::lemma_holds_three(c23, " (updated "@, last, ")\n"@);
    search::lemma_holds_longer(c26, notes, " (updated "@ + last + ")\n"@);
    search::lemma_holds_behind(c26, notes);
}

/// The status shows every collection with its path, its pattern, the number of its files, the time
/// of their last change and the notes on it.
pub proof fn law_every_collection_is_shown(d: StatusData, p: Palette, i: int)
    requires
        0 <= i < d.collections@.len(),
    ensures
        ({
            let s = collections_part(d, p);
            let c = d.collections@[i];
            &&& search::holds_text(s, "(qmd://"@ + c.name@ + "/)"@)
            &&& search::holds_text(s, c.glob_pattern@)
            &&& search::holds_text(s, number::signed_decimal(c.active_count as int))
            &&& c.last_modified matches Some(t) ==> search::holds_text(
                s,
                " (updated "@ + t@ + ")\n"@,
            )
            &&& search::holds_text(s, context_part(contexts_of(d.contexts@, c.name@), p))
        }),
{
    let c = d.collections@[i];
    let parts = collection_parts(d.collections@, d.contexts@, p);
    let all = chars::concatenated(parts);
    let part = collection_part(c, d.contexts@, p);
    let head = "\n"@ + p.bold_code() + "Collections"@ + p.reset_code() + "\n"@;
    assert(parts[i] == part);
    search::lemma_concatenated_holds(parts, i);
    search::lemma_holds_behind(head, all);
    let s = collections_part(d, p);
    search::lemma_holds_through(s, all, part);
    lemma_collection_part(c, d.contexts@, p);
    search::lemma_holds_through(s, part, "(qmd://"@ + c.name@ + "/)"@);
    search::lemma_holds_through(s, part, c.glob_pattern@);
    search::lemma_holds_through(s, part, number::signed_decimal(c.active_count as int));
    if let Some(t) = c.last_modified {
        search::lemma_holds_through(s, part, " (updated "@ + t@ + ")\n"@);
    }
    search::lemma_holds_through(s, part, context_part(contexts_of(d.contexts@, c.name@), p));
}

proof fn lemma_context_line(c: (Seq<char>, Seq<char>), p: Palette)
    ensures
        search::holds_text(context_line(c, p), shown_path(c.0) + ":"@),
        search::holds_text(context_line(c, p), shown_context(c.1)),
{
    let c0 = "      "@;
    let c1 = c0 + p.dim_code();
    let c2 = c1 + shown_path(c.0);
    let c3 = c2 + ":"@;
    let c4 = c3 + p.reset_code();
    let c5 = c4 + " "@;
    let c6 = c5 + shown_context(c.1);
    let c7 = c6 + "\n"@;
    search::lemma_holds_two(c1, shown_path(c.0), ":"@);
    search::lemma_holds_longer(c3, p.reset_code(), shown_path(c.0) + ":"@);
    search::lemma_holds_longer(c4, " "@, shown_path(c.0) + ":"@);
    search::lemma_holds_longer(c5, shown_context(c.1), shown_path(c.0) + ":"@);
    search::lemma_holds_longer(c6, "\n"@, shown_path(c.0) + ":"@);
    search::lemma_holds_behind(c5, shown_context(c.1));
    search::lemma_holds_longer(c6, "\n"@, shown_context(c.1));
}

/// Every note on a collection is shown with its path, and their number.
pub proof fn law_every_note_is_shown(v: Seq<(Seq<char>, Seq<char>)>, p: Palette, i: int)
    requires
        0 <= i < v.len(),
    ensures
        search::holds_text(context_part(v, p), shown_path(v[i].0) + ":"@),
        search::holds_text(context_part(v, p), shown_context(v[i].1)),
        search::holds_text(context_part(v, p), number::decimal(v.len()) + "\n"@),
{
    let lines = context_lines(v, p);
    let all = chars::concatenated(lines);
    let s = context_part(v, p);
    let head = "    "@ + p.dim_code() + "Contexts:"@ + p.reset_code() + " "@;
    let n = number::decimal(v.len());
    assert(lines[i] == context_line(v[i], p));
    search::lemma_concatenated_holds(lines, i);
    search::lemma_holds_two(head, n, "\n"@);
    search::lemma_holds_longer(head + n + "\n"@, all, n + "\n"@);
    search::lemma_holds_behind(head + n + "\n"@, all);
    lemma_context_line(v[i], p);
    search::lemma_holds_through(s, all, lines[i]);
    search::lemma_holds_through(s, lines[i], shown_path(v[i].0) + ":"@);
    search::lemma_holds_through(s, lines[i], shown_context(v[i].1));
}

/// The numbers of documents and vectors are shown, and the time of the last change where there is
/// one.
pub proof fn law_numbers_of_documents_are_shown(d: StatusData, p: Palette)
    ensures
        search::holds_text(
            documents(d, p),
            "  Total:    "@ + number::signed_decimal(d.total_docs as int) + " files indexed\n"@,
        ),
        search::holds_text(
            documents(d, p),
            "  Vectors:  "@ + number::signed_decimal(d.vector_count as int) + " embedded\n"@,
        ),
        d.updated matches Some(t) ==> search::holds_text(
            documents(d, p),
            "  Updated:  "@ + t@ + "\n"@,
        ),
{
    let updated = match d.updated {
        Some(t) => "  Updated:  "@ + t@ + "\n"@,
        None => ""@,
    };
    let c0 = p.bold_code();
    let c1 = c0 + "Documents"@;
    let c2 = c1 + p.reset_code();
    let c3 = c2 + "\n"@;
    let c4 = c3 + "  Total:    "@;
    let c5 = c4 + number::signed_decimal(d.total_docs as int);
    let c6 = c5 + " files indexed\n"@;
    let c7 = c6 + "  Vectors:  "@;
    let c8 = c7 + number::signed_decimal(d.vector_count as int);
    let c9 = c8 + " embedded\n"@;
    let c10 = c9 + updated;
    search::lemma_holds_three(c3, "  Total:    "@, number::signed_decimal(d.total_docs as int), " files indexed\n"@);
    search::lemma_holds_longer(c6, "  Vectors:  "@, "  Total:    "@ + number::signed_decimal(d.total_docs as int) + " files indexed\n"@);
    search::lemma_holds_longer(c7, number::signed_decimal(d.vector_count as int), "  Total:    "@ + number::signed_decimal(d.total_docs as int) + " files indexed\n"@);
    search::lemma_holds_longer(c8, " embedded\n"@, "  Total:    "@ + number::signed_decimal(d.total_docs as int) + " files indexed\n"@);
    search::lemma_holds_longer(c9, updated, "  Total:    "@ + number::signed_decimal(d.total_docs as int) + " files indexed\n"@);
    search::lemma_holds_three(c6, "  Vectors:  "@, number::signed_decimal(d.vector_count as int), " embedded\n"@);
    search::lemma_holds_longer(c9, updated, "  Vectors:  "@ + number::signed_decimal(d.vector_count as int) + " embedded\n"@);
    search::lemma_holds_behind(c9, updated);
}

proof fn lemma_grammar_part(g: GrammarStatus, p: Palette)
    ensures
        g.available ==> search::holds_text(grammar_part(g, p), "✓"@ + " "@ + g.language@),
        !g.available ==> search::holds_text(grammar_part(g, p), "✗"@ + " "@ + g.language@),
        g.error matches Some(e) ==> search::holds_text(grammar_part(g, p), e@),
{
    let mark = if g.available {
        "✓"@
    } else {
        "✗"@
    };
    let error = match g.error {
        Some(e) => "    "@ + p.dim_code() + e@ + p.reset_code() + "\n"@,
        None => ""@,
    };
    let c0 = "  "@;
    let c1 = c0 + mark;
    let c2 = c1 + " "@;
    let c3 = c2 + g.language@;
    let c4 = c3 + "\n"@;
    let c5 = c4 + error;
    search::lemma_holds_three(c0, mark, " "@, g.language@);
    search::lemma_holds_longer(c3, "\n"@, mark + " "@ + g.language@);
    search::lemma_holds_longer(c4, error, mark + " "@ + g.language@);
    search::lemma_holds_behind(c4, error);
    if let Some(e) = g.error {
        search::lemma_holds_between("    "@ + p.dim_code(), e@, p.reset_code());
        search::lemma_holds_longer("    "@ + p.dim_code() + e@ + p.reset_code(), "\n"@, e@);
        search::lemma_holds_through(grammar_part(g, p), error, e@);
    }
}

/// Every language is shown, with a mark by whether its grammar is there, and the error where there
/// is one.
pub proof fn law_every_grammar_is_shown(v: Seq<GrammarStatus>, p: Palette, i: int)
    requires
        0 <= i < v.len(),
    ensures
        v[i].available ==> search::holds_text(
            grammars_part(v, p),
            "✓"@ + " "@ + v[i].language@,
        ),
        !v[i].available ==> search::holds_text(
            grammars_part(v, p),
            "✗"@ + " "@ + v[i].language@,
        ),
        v[i].error matches Some(e) ==> search::holds_text(grammars_part(v, p), e@),
{
    let parts = grammar_parts(v, p);
    let all = chars::concatenated(parts);
    let s = grammars_part(v, p);
    let head = "\n"@ + p.bold_code() + "AST Grammars"@ + p.reset_code() + "\n"@;
    assert(parts[i] == grammar_part(v[i], p));
    search::lemma_concatenated_holds(parts, i);
    search::lemma_holds_behind(head, all);
    search::lemma_holds_through(s, all, parts[i]);
    lemma_grammar_part(v[i], p);
    if v[i].available {
        search::lemma_holds_through(s, parts[i], "✓"@ + " "@ + v[i].language@);
    } else {
        search::lemma_holds_through(s, parts[i], "✗"@ + " "@ + v[i].language@);
    }
    if let Some(e) = v[i].error {
        search::lemma_holds_through(s, parts[i], e@);
    }
}

/// The server is shown with its process where it runs, and as not running where it does not.
pub proof fn law_server_is_shown(daemon: Option<u32>, p: Palette)
    ensures
        daemon matches Some(pid) ==> search::holds_text(
            server_part(daemon, p),
            "running (PID "@ + number::decimal(pid as nat) + ")\n"@,
        ),
        daemon is None ==> search::holds_text(server_part(daemon, p), "not running"@),
{
    let head = "\n"@ + p.bold_code() + "MCP"@ + p.reset_code() + "\n"@;
    match daemon {
        Some(pid) => {
            reveal_strlit("  Daemon:   running (PID ");
            reveal_strlit("  Daemon:   ");
            reveal_strlit("running (PID ");
            let n = number::decimal(pid as nat);
            let t = "running (PID "@ + n + ")\n"@;
            let line = "  Daemon:   running (PID "@ + n + ")\n"@;
            assert(line =~= "  Daemon:   "@ + t);
            search::lemma_holds_behind("  Daemon:   "@, t);
            search::lemma_holds_behind(head, line);
            search::lemma_holds_through(head + line, line, t);
        },
        None => {
            let t = "not running"@;
            let start = "  Daemon:   "@ + p.dim_code();
            let line = start + t + p.reset_code() + "\n"@;
            search::lemma_holds_between(start, t, p.reset_code());
            search::lemma_holds_longer(start + t + p.reset_code(), "\n"@, t);
            search::lemma_holds_behind(head, line);
            search::lemma_holds_through(head + line, line, t);
        },
    }
}

/// The tips name the collections without notes wherever there are any, and those without an update
/// command where there is more than one collection; without either there are no tips.
pub proof fn law_tips_are_given_where_something_is_missing(d: StatusData, p: Palette)
    ensures
        without_context(d.collections@, d.contexts@).len() > 0 ==> search::holds_text(
            tips_part(d, p),
            name_list(without_context(d.collections@, d.contexts@)),
        ),
        without_update(d.configured@).len() > 0 && d.collections@.len() > 1 ==> search::holds_text(
            tips_part(d, p),
            name_list(without_update(d.configured@)),
        ),
        without_context(d.collections@, d.contexts@).len() == 0 && (without_update(
            d.configured@,
        ).len() == 0 || d.collections@.len() <= 1) ==> tips_part(d, p) == ""@,
{
    let no_context = without_context(d.collections@, d.contexts@);
    let no_update = without_update(d.configured@);
    let head = "\n"@ + p.bold_code() + "Tips"@ + p.reset_code() + "\n"@;
    let a = "  Add context to collections for better search results: "@;
    let b = "  Set update commands to track them with git: "@;
    let ca = "rqmd context add qmd://<name>/ \"What this collection contains\""@;
    let cb = "rqmd collection update-cmd <name> 'git pull'"@;
    let first = if no_context.len() > 0 {
        a + name_list(no_context) + "\n"@ + "    "@ + p.dim_code() + ca + p.reset_code() + "\n"@
    } else {
        ""@
    };
    let second = if no_update.len() > 0 && d.collections@.len() > 1 {
        b + name_list(no_update) + "\n"@ + "    "@ + p.dim_code() + cb + p.reset_code() + "\n"@
    } else {
        ""@
    };
    if no_context.len() > 0 {
        lemma_tip(a, name_list(no_context), ca, p);
        search::lemma_holds_between(head, first, second);
        search::lemma_holds_through(head + first + second, first, name_list(no_context));
    }
    if no_update.len() > 0 && d.collections@.len() > 1 {
        lemma_tip(b, name_list(no_update), cb, p);
        search::lemma_holds_behind(head + first, second);
        search::lemma_holds_through(head + first + second, second, name_list(no_update));
    }
}

proof fn lemma_tip(head: Seq<char>, names: Seq<char>, command: Seq<char>, p: Palette)
    ensures
        search::holds_text(
            head + names + "\n"@ + "    "@ + p.dim_code() + command + p.reset_code() + "\n"@,
            names,
        ),
{
    let c0 = head;
    let c1 = c0 + names;
    let c2 = c1 + "\n"@;
    let c3 = c2 + "    "@;
    let c4 = c3 + p.dim_code();
    let c5 = c4 + command;
    let c6 = c5 + p.reset_code();
    let c7 = c6 + "\n"@;
    search::lemma_holds_behind(c0, names);
    search::lemma_holds_longer(c1, "\n"@, names);
    search::lemma_holds_longer(c2, "    "@, names);
    search::lemma_holds_longer(c3, p.dim_code(), names);
    search::lemma_holds_longer(c4, command, names);
    search::lemma_holds_longer(c5, p.reset_code(), names);
    search::lemma_holds_longer(c6, "\n"@, names);
}

/// What is shown of the device holds the mode that is configured, and says whether it is probed,
/// which a `1` asks for.
pub proof fn law_device_shows_the_mode(
    force_cpu: Option<&str>,
    llama_gpu: Option<&str>,
    probe: Option<&str>,
    p: Palette,
)
    ensures
        search::holds_text(
            device_part(force_cpu, llama_gpu, probe, p),
            doctor::mode_text(chars::opt_text(force_cpu), chars::opt_text(llama_gpu)),
        ),
        chars::opt_text(probe) == Some("1"@) ==> search::holds_text(
            device_part(force_cpu, llama_gpu, probe, p),
            "probing native llama backend"@,
        ),
        chars::opt_text(probe) != Some("1"@) ==> search::holds_text(
            device_part(force_cpu, llama_gpu, probe, p),
            "not probed"@,
        ),
{
    let mode = doctor::mode_text(chars::opt_text(force_cpu), chars::opt_text(llama_gpu));
    let status = if chars::opt_text(probe) == Some("1"@) {
        "  Status:   probing native llama backend...\n"@ + "  Status:   "@ + p.dim_code()
            + "device probe not yet implemented"@ + p.reset_code() + "\n"@
    } else {
        "  Status:   "@ + p.dim_code() + "not probed"@ + p.reset_code()
            + " (set RQMD_STATUS_DEVICE_PROBE=1 to test GPU/CPU backend)\n"@
    };
    let s = device_part(force_cpu, llama_gpu, probe, p);
    let c0 = "\n"@;
    let c1 = c0 + p.bold_code();
    let c2 = c1 + "Device"@;
    let c3 = c2 + p.reset_code();
    let c4 = c3 + "\n"@;
    let c5 = c4 + "  Mode:     "@;
    let c6 = c5 + mode;
    let c7 = c6 + "\n"@;
    let c8 = c7 + status;
    search::lemma_holds_behind(c5, mode);
    search::lemma_holds_longer(c6, "\n"@, mode);
    search::lemma_holds_longer(c7, status, mode);
    search::lemma_holds_behind(c7, status);
    if chars::opt_text(probe) == Some("1"@) {
        reveal_strlit("  Status:   probing native llama backend...\n");
        reveal_strlit("probing native llama backend");
        let line = "  Status:   probing native llama backend...\n"@;
        let t = "probing native llama backend"@;
        assert(line.subrange(12, (12 + t.len()) as int) =~= t);
        assert(search::occurs_at(line, t, 12));
        search::lemma_holds_longer(line, "  Status:   "@, t);
        search::lemma_holds_longer(line + "  Status:   "@, p.dim_code(), t);
        search::lemma_holds_longer(
            line + "  Status:   "@ + p.dim_code(),
            "device probe not yet implemented"@,
            t,
        );
        search::lemma_holds_longer(
            line + "  Status:   "@ + p.dim_code() + "device probe not yet implemented"@,
            p.reset_code(),
            t,
        );
        search::lemma_holds_longer(
            line + "  Status:   "@ + p.dim_code() + "device probe not yet implemented"@
                + p.reset_code(),
            "\n"@,
            t,
        );
        search::lemma_holds_through(s, status, t);
    } else {
        let t = "not probed"@;
        let start = "  Status:   "@ + p.dim_code();
        search::lemma_holds_between(start, t, p.reset_code());
        search::lemma_holds_longer(
            start + t + p.reset_code(),
            " (set RQMD_STATUS_DEVICE_PROBE=1 to test GPU/CPU backend)\n"@,
            t,
        );
        search::lemma_holds_through(s, status, t);
    }
}

/// A note of more than sixty bytes is shown by its first fifty-seven bytes and three dots.
pub proof fn law_long_notes_are_cut(first: Seq<char>, rest: Seq<char>)
    requires
        vstd::utf8::encode_utf8(first).len() == 57,
        vstd::utf8::encode_utf8(rest).len() > 3,
    ensures
        shown_context(first + rest) == first + "..."@,
{
    search_view::lemma_encode_add(first, rest);
    let bytes = vstd::utf8::encode_utf8(first + rest);
    assert(bytes.subrange(0, 57) =~= vstd::utf8::encode_utf8(first));
    vstd::utf8::encode_utf8_decode_utf8(first);
}

} // verus!
